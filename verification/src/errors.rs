//! Build failures. Every error here is fatal: the compiler refuses to emit a
//! partially built site, so each failure is reported and the build aborts.

use vstd::prelude::*;
use vstd::string::StringExecFns;

verus! {

/// The ways a build can fail.
#[derive(Debug)]
pub enum BuildError {
    /// The YAML front matter of a markup source could not be parsed.
    FrontMatter(String),
    /// The template engine could not load the layouts or evaluate a template.
    Template(String),
    /// A source file's extension is outside the classifier table.
    UnclassifiableExtension(String),
    /// Two resources answer to the same URL string.
    PathCollision(String),
}

/// The report text of an error.
pub open spec fn message_text(e: BuildError) -> Seq<char> {
    match e {
        BuildError::FrontMatter(d) => "frontmatter parsing failed: "@ + d@,
        BuildError::Template(d) => "template evaluation failed: "@ + d@,
        BuildError::UnclassifiableExtension(d) => "unclassifiable extension: "@ + d@,
        BuildError::PathCollision(d) => "path collision on "@ + d@,
    }
}

impl BuildError {
    /// Computes `message_text`.
    pub fn message(&self) -> (r: String)
        ensures
            r@ == message_text(*self),
    {
        match self {
            BuildError::FrontMatter(d) => String::from_str("frontmatter parsing failed: ").concat(
                d.as_str(),
            ),
            BuildError::Template(d) => String::from_str("template evaluation failed: ").concat(
                d.as_str(),
            ),
            BuildError::UnclassifiableExtension(d) => String::from_str(
                "unclassifiable extension: ",
            ).concat(d.as_str()),
            BuildError::PathCollision(d) => String::from_str("path collision on ").concat(
                d.as_str(),
            ),
        }
    }
}

} // verus!
