//! A resource: one discovered source file together with the root-relative URL
//! path derived from its position under the scanned directory.

use vstd::prelude::*;

use crate::errors::BuildError;
use crate::media::{classify_extension, media_type_of, MediaType};
use crate::pathspec::{alias_list, alias_paths, extension, extension_of};

verus! {

/// One discovered source file. `source_path` is the filesystem location of the
/// original file; `logical_path` is the root-relative URL path derived from
/// the file's position in the tree, before extension rewriting.
pub struct Resource {
    pub source_path: String,
    pub logical_path: String,
}

impl Resource {
    /// A resource for the file at `source`, answering under `path`.
    pub fn new(source: String, path: String) -> (r: Self)
        ensures
            r.source_path == source,
            r.logical_path == path,
    {
        Resource { source_path: source, logical_path: path }
    }

    /// The filesystem location of the original file.
    pub fn source(&self) -> (r: String)
        ensures
            r == self.source_path,
    {
        self.source_path.clone()
    }

    /// The full set of URL strings this resource answers to, as `alias_paths`
    /// derives it from the logical path.
    pub fn paths(&self) -> (r: Vec<String>)
        ensures
            r.deep_view() == alias_paths(self.logical_path@),
    {
        alias_list(self.logical_path.as_str())
    }

    /// The media type of this resource, classified from the source file's
    /// extension; an extension outside the classifier table is a build error
    /// naming that extension.
    pub fn media_type(&self) -> (r: Result<MediaType, BuildError>)
        ensures
            media_type_of(extension_of(self.source_path@)) matches Some(m) ==> (r matches Ok(k)
                && k == m),
            media_type_of(extension_of(self.source_path@)) is None ==> (r matches Err(e)
                && e matches BuildError::UnclassifiableExtension(x) && extension_of(
                self.source_path@,
            ) == Some(x@)),
    {
        let ext = extension(self.source_path.as_str());
        match classify_extension(&ext) {
            Some(m) => Ok(m),
            None => match ext {
                Some(e) => Err(BuildError::UnclassifiableExtension(e)),
                None => {
                    proof {
                        assert(false);
                    }
                    Err(BuildError::UnclassifiableExtension(String::new()))
                },
            },
        }
    }
}

} // verus!
