//! The scanner: turns a walked directory tree into resources. Hidden entries
//! (name beginning with `.`) are excluded together with their whole subtree;
//! every surviving regular file becomes a resource whose logical path is `/`
//! joined with the file's path relative to the root. The scanner also lists
//! the paths the host build system must watch to trigger a rebuild: every
//! visited directory always, and every visited file only in a frozen build.

use vstd::prelude::*;
use vstd::string::{StrSliceExecFns, StringExecFns};

use crate::resource::Resource;

verus! {

/// One entry of the walked tree: its path components relative to the scanned
/// root (empty for the root itself), and whether it is a directory.
pub struct FsEntry {
    pub rel: Vec<String>,
    pub is_dir: bool,
}

/// A name the scanner must exclude: one beginning with the hidden-file marker.
pub open spec fn hidden_name(n: Seq<char>) -> bool {
    n.len() > 0 && n[0] == '.'
}

/// An entry survives the scan when no component of its relative path is
/// hidden: a hidden directory excludes its whole subtree.
pub open spec fn entry_visible(e: FsEntry) -> bool {
    forall|i: int| 0 <= i < e.rel@.len() ==> !hidden_name(#[trigger] e.rel@[i]@)
}

/// The components of `rel`, each preceded by `/`.
pub open spec fn slash_join(rel: Seq<String>) -> Seq<char>
    decreases rel.len(),
{
    if rel.len() == 0 {
        Seq::<char>::empty()
    } else {
        slash_join(rel.drop_last()) + "/"@ + rel.last()@
    }
}

/// The resources a scan produces, as `(source path, logical path)` pairs, in
/// walk order: every visible regular file below the root.
pub open spec fn scan_resources_spec(base: Seq<char>, entries: Seq<FsEntry>) -> Seq<
    (Seq<char>, Seq<char>),
>
    decreases entries.len(),
{
    if entries.len() == 0 {
        Seq::empty()
    } else {
        let rest = scan_resources_spec(base, entries.drop_last());
        let e = entries.last();
        if entry_visible(e) && !e.is_dir && e.rel@.len() > 0 {
            rest.push((base + slash_join(e.rel@), slash_join(e.rel@)))
        } else {
            rest
        }
    }
}

/// The rebuild triggers a scan registers: the path of every visible entry
/// that is a directory, and of every visible file too when the build is
/// frozen.
pub open spec fn rebuild_triggers_spec(base: Seq<char>, entries: Seq<FsEntry>, frozen: bool) -> Seq<
    Seq<char>,
>
    decreases entries.len(),
{
    if entries.len() == 0 {
        Seq::empty()
    } else {
        let rest = rebuild_triggers_spec(base, entries.drop_last(), frozen);
        let e = entries.last();
        if entry_visible(e) && (frozen || e.is_dir) {
            rest.push(base + slash_join(e.rel@))
        } else {
            rest
        }
    }
}

/// The pair view of a resource.
pub open spec fn resource_model(r: Resource) -> (Seq<char>, Seq<char>) {
    (r.source_path@, r.logical_path@)
}

/// Whether a single name survives the scan's hidden-entry filter.
pub fn valid_static_file(name: &str) -> (r: bool)
    ensures
        r == !hidden_name(name@),
{
    if name.unicode_len() == 0 {
        true
    } else {
        name.get_char(0) != '.'
    }
}

/// Computes `entry_visible`.
pub fn entry_is_visible(e: &FsEntry) -> (r: bool)
    ensures
        r == entry_visible(*e),
{
    let mut i: usize = 0;
    while i < e.rel.len()
        invariant
            i <= e.rel@.len(),
            forall|j: int| 0 <= j < i ==> !hidden_name(#[trigger] e.rel@[j]@),
        decreases e.rel@.len() - i,
    {
        if !valid_static_file(e.rel[i].as_str()) {
            return false;
        }
        i += 1;
    }
    true
}

/// `prefix` followed by the components of `rel`, each preceded by `/`.
fn join_under(prefix: &str, rel: &Vec<String>) -> (r: String)
    ensures
        r@ == prefix@ + slash_join(rel@),
{
    let mut out = prefix.to_owned();
    let mut i: usize = 0;
    while i < rel.len()
        invariant
            i <= rel@.len(),
            out@ == prefix@ + slash_join(rel@.take(i as int)),
        decreases rel@.len() - i,
    {
        out.append("/");
        out.append(rel[i].as_str());
        proof {
            assert(rel@.take(i + 1).drop_last() =~= rel@.take(i as int));
            assert(rel@.take(i + 1).last() == rel@[i as int]);
        }
        i += 1;
    }
    proof {
        assert(rel@.take(rel@.len() as int) =~= rel@);
    }
    out
}

/// What a scan hands on: the discovered resources and the rebuild triggers.
pub struct ScanOutput {
    pub resources: Vec<Resource>,
    pub rebuild_paths: Vec<String>,
}

/// Filters the walked entries and builds the resource list and the rebuild
/// triggers, exactly as `scan_resources_spec` and `rebuild_triggers_spec`
/// describe them.
pub fn scan_resources(base: &str, entries: &Vec<FsEntry>, frozen: bool) -> (r: ScanOutput)
    ensures
        r.resources@.map_values(|x: Resource| resource_model(x)) == scan_resources_spec(
            base@,
            entries@,
        ),
        r.rebuild_paths.deep_view() == rebuild_triggers_spec(base@, entries@, frozen),
{
    let mut resources: Vec<Resource> = Vec::new();
    let mut rebuild_paths: Vec<String> = Vec::new();
    let mut i: usize = 0;
    while i < entries.len()
        invariant
            i <= entries@.len(),
            resources@.map_values(|x: Resource| resource_model(x)) == scan_resources_spec(
                base@,
                entries@.take(i as int),
            ),
            rebuild_paths.deep_view() == rebuild_triggers_spec(
                base@,
                entries@.take(i as int),
                frozen,
            ),
        decreases entries@.len() - i,
    {
        let e = &entries[i];
        let ghost old_resources = resources@;
        let ghost old_rebuild = rebuild_paths.deep_view();
        if entry_is_visible(e) {
            if frozen || e.is_dir {
                rebuild_paths.push(join_under(base, &e.rel));
            }
            if !e.is_dir && e.rel.len() > 0 {
                let source = join_under(base, &e.rel);
                let logical = join_under("", &e.rel);
                proof {
                    reveal_strlit("");
                    assert(""@ + slash_join(e.rel@) =~= slash_join(e.rel@));
                }
                resources.push(Resource::new(source, logical));
            }
        }
        proof {
            assert(entries@.take(i + 1).drop_last() =~= entries@.take(i as int));
            assert(entries@.take(i + 1).last() == entries@[i as int]);
            assert(resources@.map_values(|x: Resource| resource_model(x)) =~= scan_resources_spec(
                base@,
                entries@.take(i + 1),
            ));
            assert(rebuild_paths.deep_view() =~= rebuild_triggers_spec(
                base@,
                entries@.take(i + 1),
                frozen,
            ));
        }
        i += 1;
    }
    proof {
        assert(entries@.take(entries@.len() as int) =~= entries@);
    }
    ScanOutput { resources, rebuild_paths }
}

/// A tree whose files are all hidden (or sit below a hidden directory) yields
/// no resource at all, whatever the root and whatever directories it has.
pub proof fn lemma_hidden_only_scan_empty(base: Seq<char>, entries: Seq<FsEntry>)
    requires
        forall|i: int|
            0 <= i < entries.len() && !(#[trigger] entries[i]).is_dir ==> exists|j: int|
                0 <= j < entries[i].rel@.len() && hidden_name(#[trigger] entries[i].rel@[j]@),
    ensures
        scan_resources_spec(base, entries).len() == 0,
    decreases entries.len(),
{
    if entries.len() > 0 {
        assert(forall|i: int| 0 <= i < entries.len() - 1 ==> entries.drop_last()[i] == entries[i]);
        lemma_hidden_only_scan_empty(base, entries.drop_last());
        let e = entries.last();
        if !e.is_dir {
            let j = choose|j: int| 0 <= j < e.rel@.len() && hidden_name(e.rel@[j]@);
            assert(!entry_visible(e));
        }
    }
}

} // verus!
