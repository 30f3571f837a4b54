//! Path-string reasoning: file names, parents, extensions and the alias rules
//! that decide which URL strings one resource answers to.
//!
//! Logical paths are root-relative URL strings such as `/blog/post.dj`,
//! separated by `/`. The functions here define and compute, over the character
//! sequence of such a string, the pieces the compiler needs.

use vstd::prelude::*;
use vstd::string::StrSliceExecFns;

use crate::strutil::{last_pos, lemma_last_pos, last_char_pos, str_eq, substring};

verus! {

/// The final component of `p`: everything after the last `/`, or all of `p`
/// when it has no `/`.
pub open spec fn file_name_of(p: Seq<char>) -> Seq<char> {
    p.subrange(last_pos(p, '/') + 1, p.len() as int)
}

/// Everything before the last `/` of `p`; the empty string when `p` has no
/// `/` or starts with its only one.
pub open spec fn parent_of(p: Seq<char>) -> Seq<char> {
    if last_pos(p, '/') >= 0 {
        p.subrange(0, last_pos(p, '/'))
    } else {
        p.subrange(0, 0)
    }
}

/// The extension of `p`'s file name: the part after its last `.`, unless the
/// file name has no `.` or only a leading one (a hidden-style name).
pub open spec fn extension_of(p: Seq<char>) -> Option<Seq<char>> {
    let f = file_name_of(p);
    let d = last_pos(f, '.');
    if d <= 0 {
        None
    } else {
        Some(f.subrange(d + 1, f.len() as int))
    }
}

/// `p` with a `dj` extension rewritten to `html`; any other path unchanged.
pub open spec fn rewrite_dj(p: Seq<char>) -> Seq<char> {
    if extension_of(p) == Some("dj"@) {
        p.subrange(0, p.len() - 2) + "html"@
    } else {
        p
    }
}

/// The full set of URL strings a resource with logical path `p` answers to:
/// a `dj` extension is first rewritten to `html`; a file named `index.html`
/// additionally answers for its directory, with and without a trailing slash,
/// or for `/` when it sits at the root.
pub open spec fn alias_paths(p: Seq<char>) -> Seq<Seq<char>> {
    let q = rewrite_dj(p);
    if file_name_of(q) == "index.html"@ {
        if q == "/index.html"@ {
            seq![q, "/"@]
        } else {
            seq![q, parent_of(q), parent_of(q) + "/"@]
        }
    } else {
        seq![q]
    }
}

/// A path with a `dj` extension ends in `.dj`, so it is long enough for the
/// extension rewrite to drop its last two characters.
pub proof fn lemma_dj_extension(p: Seq<char>)
    requires
        extension_of(p) == Some("dj"@),
    ensures
        p.len() >= 4,
{
    reveal_strlit("dj");
    lemma_last_pos(p, '/');
    let f = file_name_of(p);
    let d = last_pos(f, '.');
    lemma_last_pos(f, '.');
    assert(f.subrange(d + 1, f.len() as int) == "dj"@);
    assert(f.subrange(d + 1, f.len() as int).len() == 2);
}

/// Computes `alias_paths`.
pub fn alias_list(p: &str) -> (r: Vec<String>)
    ensures
        r.deep_view() == alias_paths(p@),
{
    let ext = extension(p);
    let is_dj = match &ext {
        Some(e) => str_eq(e.as_str(), "dj"),
        None => false,
    };
    let q: String = if is_dj {
        proof {
            lemma_dj_extension(p@);
        }
        let len = p.unicode_len();
        let mut q0 = substring(p, 0, len - 2);
        q0.append("html");
        q0
    } else {
        p.to_owned()
    };
    proof {
        assert(q@ == rewrite_dj(p@));
    }
    let f = file_name(q.as_str());
    let mut r: Vec<String> = Vec::new();
    if str_eq(f.as_str(), "index.html") {
        if str_eq(q.as_str(), "/index.html") {
            r.push(q);
            r.push("/".to_owned());
        } else {
            let par = parent(q.as_str());
            let mut par_slash = par.clone();
            par_slash.append("/");
            r.push(q);
            r.push(par);
            r.push(par_slash);
        }
    } else {
        r.push(q);
    }
    proof {
        assert(r.deep_view() =~~= alias_paths(p@));
    }
    r
}

/// Computes `file_name_of`.
pub fn file_name(p: &str) -> (r: String)
    ensures
        r@ == file_name_of(p@),
{
    proof {
        lemma_last_pos(p@, '/');
    }
    let len = p.unicode_len();
    match last_char_pos(p, '/') {
        Some(i) => substring(p, i + 1, len),
        None => substring(p, 0, len),
    }
}

/// Computes `parent_of`.
pub fn parent(p: &str) -> (r: String)
    ensures
        r@ == parent_of(p@),
{
    proof {
        lemma_last_pos(p@, '/');
    }
    match last_char_pos(p, '/') {
        Some(i) => substring(p, 0, i),
        None => substring(p, 0, 0),
    }
}

/// Computes `extension_of`.
pub fn extension(p: &str) -> (r: Option<String>)
    ensures
        match r {
            Some(e) => extension_of(p@) == Some(e@),
            None => extension_of(p@) is None,
        },
{
    let f = file_name(p);
    proof {
        lemma_last_pos(f@, '.');
    }
    let flen = f.as_str().unicode_len();
    match last_char_pos(f.as_str(), '.') {
        Some(d) if d > 0 => Some(substring(f.as_str(), d + 1, flen)),
        _ => None,
    }
}

} // verus!
