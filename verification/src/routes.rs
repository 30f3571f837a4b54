//! Route table synthesis and dispatch. The synthesizer turns the compiled
//! resources into one dispatch structure: an exhaustive map from URL string to
//! an entry that either carries the content bytes baked in at compile time
//! (frozen mode) or names the source file to re-render per request (live
//! mode). A URL string claimed by two resources is a hard build failure, not
//! a silent overwrite. At serve time, methods other than GET and HEAD are
//! rejected uniformly before dispatch, and a path that reaches dispatch
//! without being registered is a distinguishable internal-consistency outcome.

use vstd::prelude::*;

use crate::errors::BuildError;
use crate::media::MediaType;
use crate::strutil::{clone_bytes, str_eq};

verus! {

/// The build mode, fixed once per compilation.
#[derive(Clone, Copy, Debug, PartialEq, Eq, Structural)]
pub enum BuildMode {
    /// Content is computed at compile time and embedded verbatim.
    Frozen,
    /// Each request re-renders the (already known) source file.
    Live,
}

/// One resource after rendering and classification: its source path, the URL
/// strings it answers to, its media type, and its compile-time content bytes.
pub struct CompiledResource {
    pub source: String,
    pub alias: Vec<String>,
    pub media: MediaType,
    pub content: Vec<u8>,
}

/// What one dispatch entry serves.
#[derive(Debug)]
pub enum RouteContent {
    /// Content baked in at compile time.
    Frozen(Vec<u8>),
    /// The source path to re-render on each request.
    Live(String),
}

/// One dispatch entry: a URL string, the media type of the answer, and what
/// to serve.
#[derive(Debug)]
pub struct RouteEntry {
    pub path: String,
    pub media: MediaType,
    pub content: RouteContent,
}

/// The model of one entry: URL path, media type, frozen bytes if any, live
/// source path if any (exactly one of the two is present).
pub open spec fn entry_model(e: RouteEntry) -> (Seq<char>, MediaType, Option<Seq<u8>>, Option<
    Seq<char>,
>) {
    match e.content {
        RouteContent::Frozen(b) => (e.path@, e.media, Some(b@), None),
        RouteContent::Live(s) => (e.path@, e.media, None, Some(s@)),
    }
}

/// The model of a whole entry list.
pub open spec fn table_model(entries: Seq<RouteEntry>) -> Seq<
    (Seq<char>, MediaType, Option<Seq<u8>>, Option<Seq<char>>),
> {
    entries.map_values(|e: RouteEntry| entry_model(e))
}

/// The entry a compiled resource contributes for its `k`-th alias path.
pub open spec fn item_entry(item: CompiledResource, k: int, mode: BuildMode) -> (
    Seq<char>,
    MediaType,
    Option<Seq<u8>>,
    Option<Seq<char>>,
) {
    (
        item.alias@[k]@,
        item.media,
        if mode is Frozen {
            Some(item.content@)
        } else {
            None
        },
        if mode is Live {
            Some(item.source@)
        } else {
            None
        },
    )
}

/// All dispatch entries of all compiled resources, in order: one entry per
/// alias path of each resource.
pub open spec fn flat_entries(items: Seq<CompiledResource>, mode: BuildMode) -> Seq<
    (Seq<char>, MediaType, Option<Seq<u8>>, Option<Seq<char>>),
>
    decreases items.len(),
{
    if items.len() == 0 {
        Seq::empty()
    } else {
        flat_entries(items.drop_last(), mode) + Seq::new(
            items.last().alias@.len(),
            |k: int| item_entry(items.last(), k, mode),
        )
    }
}

/// Every registered URL string, in order.
pub open spec fn flat_paths(items: Seq<CompiledResource>) -> Seq<Seq<char>> {
    flat_entries(items, BuildMode::Frozen).map_values(
        |t: (Seq<char>, MediaType, Option<Seq<u8>>, Option<Seq<char>>)| t.0,
    )
}

/// No URL string occurs twice.
pub open spec fn paths_distinct(ps: Seq<Seq<char>>) -> bool {
    forall|i: int, j: int| 0 <= i < j < ps.len() ==> ps[i] != ps[j]
}

/// The synthesized dispatch structure.
#[derive(Debug)]
pub struct RouteTable {
    pub entries: Vec<RouteEntry>,
}

/// The flat entry list has the same length in both modes, and the path of
/// each entry does not depend on the mode.
pub proof fn lemma_flat_entries_paths(items: Seq<CompiledResource>, mode: BuildMode)
    ensures
        flat_entries(items, mode).len() == flat_paths(items).len(),
        forall|x: int|
            0 <= x < flat_entries(items, mode).len() ==> #[trigger] flat_entries(items, mode)[x].0
                == flat_paths(items)[x],
    decreases items.len(),
{
    if items.len() > 0 {
        lemma_flat_entries_paths(items.drop_last(), mode);
        lemma_flat_entries_paths(items.drop_last(), BuildMode::Frozen);
    }
}

/// Builds the dispatch structure: one entry per alias path per resource, in
/// order, each carrying its content inline in frozen mode or its source path
/// in live mode. Succeeds exactly when no URL string is claimed twice, and a
/// collision is reported as a build error naming one colliding path.
pub fn synthesize_routes(items: &Vec<CompiledResource>, mode: BuildMode) -> (r: Result<
    RouteTable,
    BuildError,
>)
    ensures
        r matches Ok(t) ==> table_model(t.entries@) == flat_entries(
            items@,
            mode,
        ),
        r is Ok <==> paths_distinct(flat_paths(items@)),
        r matches Err(e) ==> (e matches BuildError::PathCollision(p) && exists|i: int, j: int|
            0 <= i < j < flat_paths(items@).len() && flat_paths(items@)[i] == flat_paths(items@)[j]
                && flat_paths(items@)[j] == p@),
{
    proof {
        lemma_flat_entries_paths(items@, mode);
    }
    let mut entries: Vec<RouteEntry> = Vec::new();
    proof {
        assert(table_model(entries@) =~~= flat_entries(
            items@.take(0),
            mode,
        ));
    }
    let mut i: usize = 0;
    while i < items.len()
        invariant
            i <= items@.len(),
            table_model(entries@) == flat_entries(
                items@.take(i as int),
                mode,
            ),
        decreases items@.len() - i,
    {
        let item = &items[i];
        proof {
            assert(table_model(entries@) =~~= flat_entries(
                items@.take(i as int),
                mode,
            ) + Seq::new(0, |x: int| item_entry(items@[i as int], x, mode)));
        }
        let mut k: usize = 0;
        while k < item.alias.len()
            invariant
                i < items@.len(),
                k <= item.alias@.len(),
                *item == items@[i as int],
                table_model(entries@) == flat_entries(
                    items@.take(i as int),
                    mode,
                ) + Seq::new(k as nat, |x: int| item_entry(items@[i as int], x, mode)),
            decreases item.alias@.len() - k,
        {
            let content = match mode {
                BuildMode::Frozen => RouteContent::Frozen(clone_bytes(&item.content)),
                BuildMode::Live => RouteContent::Live(item.source.clone()),
            };
            let entry = RouteEntry { path: item.alias[k].clone(), media: item.media, content };
            let ghost pre_entries = entries@;
            proof {
                assert(entry_model(entry) == item_entry(items@[i as int], k as int, mode));
            }
            entries.push(entry);
            proof {
                let pre = flat_entries(items@.take(i as int), mode);
                let rhs = pre + Seq::new(
                    (k + 1) as nat,
                    |x: int| item_entry(items@[i as int], x, mode),
                );
                assert(entries@ == pre_entries.push(entry));
                assert(table_model(pre_entries) == pre + Seq::new(
                    k as nat,
                    |x: int| item_entry(items@[i as int], x, mode),
                ));
                assert(table_model(pre_entries).len() == pre_entries.len());
                assert(pre_entries.len() == pre.len() + k);
                assert(entries@.len() == pre_entries.len() + 1);
                assert(table_model(entries@).len() == entries@.len());
                assert(rhs.len() == pre.len() + k + 1);
                assert(table_model(entries@).len() == rhs.len());
                assert forall|x: int|
                    0 <= x < rhs.len() implies table_model(entries@)[x]
                    == rhs[x] by {
                    assert(table_model(entries@)[x] == entry_model(
                        entries@[x],
                    ));
                    if x < pre.len() + k {
                        assert(entries@[x] == pre_entries[x]);
                        assert(table_model(pre_entries)[x]
                            == entry_model(pre_entries[x]));
                        assert(rhs[x] == (pre + Seq::new(
                            k as nat,
                            |y: int| item_entry(items@[i as int], y, mode),
                        ))[x]);
                    } else {
                        assert(entries@[x] == entry);
                        assert(rhs[x] == item_entry(items@[i as int], k as int, mode));
                    }
                }
                assert(table_model(entries@) =~= rhs);
            }
            k += 1;
        }
        proof {
            assert(items@.take(i + 1).drop_last() =~= items@.take(i as int));
            assert(items@.take(i + 1).last() == items@[i as int]);
            assert(table_model(entries@) =~~= flat_entries(
                items@.take(i + 1),
                mode,
            ));
        }
        i += 1;
    }
    proof {
        assert(items@.take(items@.len() as int) =~= items@);
    }
    // Collision check: every pair of registered URL strings must differ.
    let ghost model = table_model(entries@);
    let mut a: usize = 1;
    while a < entries.len()
        invariant
            1 <= a || entries@.len() == 0,
            a <= entries@.len() || entries@.len() == 0,
            table_model(entries@) == flat_entries(items@, mode),
            model == flat_entries(items@, mode),
            forall|x: int, y: int| 0 <= x < y < a ==> model[x].0 != model[y].0,
        decreases entries@.len() - a,
    {
        let mut b: usize = 0;
        while b < a
            invariant
                0 <= b <= a < entries@.len(),
                table_model(entries@) == flat_entries(items@, mode),
                model == flat_entries(items@, mode),
                forall|x: int, y: int| 0 <= x < y < a ==> model[x].0 != model[y].0,
                forall|x: int| 0 <= x < b ==> model[x].0 != model[a as int].0,
            decreases a - b,
        {
            if str_eq(entries[b].path.as_str(), entries[a].path.as_str()) {
                proof {
                    lemma_flat_entries_paths(items@, mode);
                    assert(model[b as int] == entry_model(entries@[b as int]));
                    assert(model[a as int] == entry_model(entries@[a as int]));
                    assert(flat_entries(items@, mode)[b as int].0 == flat_paths(items@)[b as int]);
                    assert(flat_entries(items@, mode)[a as int].0 == flat_paths(items@)[a as int]);
                    assert(flat_paths(items@)[b as int] == entries@[b as int].path@);
                    assert(flat_paths(items@)[a as int] == entries@[a as int].path@);
                    assert(flat_paths(items@)[b as int] == flat_paths(items@)[a as int]);
                    assert(!paths_distinct(flat_paths(items@)));
                }
                return Err(BuildError::PathCollision(entries[a].path.clone()));
            }
            b += 1;
        }
        a += 1;
    }
    proof {
        lemma_flat_entries_paths(items@, mode);
        assert forall|x: int, y: int|
            0 <= x < y < flat_paths(items@).len() implies flat_paths(items@)[x] != flat_paths(
            items@,
        )[y] by {
            assert(model[x].0 != model[y].0);
        }
    }
    Ok(RouteTable { entries })
}

/// An incoming request's method, as far as dispatch distinguishes it.
#[derive(Clone, Copy, Debug, PartialEq, Eq, Structural)]
pub enum Method {
    Get,
    Head,
    /// Any method other than GET or HEAD.
    Other,
}

/// What dispatch decides for one request.
#[derive(Debug)]
pub enum DispatchOutcome {
    /// Serve these compile-time bytes with this media type.
    Frozen(Vec<u8>, MediaType),
    /// Re-render this source file and serve the result with this media type.
    Live(String, MediaType),
    /// The method is neither GET nor HEAD: answer "method not allowed".
    MethodNotAllowed,
    /// The path was never registered: an internal inconsistency, reached only
    /// when the host routing layer broke its guarantee; the caller aborts.
    Unregistered,
}

/// The first entry registered for `p`, if any.
pub open spec fn lookup(
    es: Seq<(Seq<char>, MediaType, Option<Seq<u8>>, Option<Seq<char>>)>,
    p: Seq<char>,
) -> Option<(Seq<char>, MediaType, Option<Seq<u8>>, Option<Seq<char>>)>
    decreases es.len(),
{
    if es.len() == 0 {
        None
    } else if es[0].0 == p {
        Some(es[0])
    } else {
        lookup(es.skip(1), p)
    }
}

/// With distinct registered paths, the lookup at the path of entry `x` finds
/// exactly that entry: dispatch serves precisely what synthesis put there.
pub proof fn lemma_lookup_at(
    es: Seq<(Seq<char>, MediaType, Option<Seq<u8>>, Option<Seq<char>>)>,
    x: int,
)
    requires
        forall|a: int, b: int| 0 <= a < b < es.len() ==> (#[trigger] es[a]).0 != (#[trigger] es[b]).0,
        0 <= x < es.len(),
    ensures
        lookup(es, es[x].0) == Some(es[x]),
    decreases es.len(),
{
    if es[0].0 == es[x].0 {
        if x != 0 {
            assert(es[0].0 != es[x].0);
        }
    } else {
        let tail = es.skip(1);
        assert forall|a: int, b: int|
            0 <= a < b < tail.len() implies (#[trigger] tail[a]).0 != (#[trigger] tail[b]).0 by {
            assert(tail[a] == es[a + 1]);
            assert(tail[b] == es[b + 1]);
        }
        assert(tail[x - 1] == es[x]);
        lemma_lookup_at(tail, x - 1);
    }
}

/// When the first `n` entries all miss `p`, the lookup is decided by the
/// rest.
pub proof fn lemma_lookup_skip(
    es: Seq<(Seq<char>, MediaType, Option<Seq<u8>>, Option<Seq<char>>)>,
    p: Seq<char>,
    n: int,
)
    requires
        0 <= n <= es.len(),
        forall|x: int| 0 <= x < n ==> (#[trigger] es[x]).0 != p,
    ensures
        lookup(es, p) == lookup(es.skip(n), p),
    decreases n,
{
    if n == 0 {
        assert(es.skip(0) =~= es);
    } else {
        lemma_lookup_skip(es, p, n - 1);
        let s1 = es.skip(n - 1);
        assert(s1.len() == es.len() - (n - 1));
        assert(s1[0] == es[n - 1]);
        assert(es[n - 1].0 != p);
        assert(lookup(s1, p) == lookup(s1.skip(1), p));
        assert(s1.skip(1) =~= es.skip(n));
    }
}

impl RouteTable {
    /// The full list of registered URL strings, in entry order, for the host
    /// framework's routing layer.
    pub fn path_patterns(&self) -> (r: Vec<String>)
        ensures
            r@.len() == self.entries@.len(),
            forall|x: int| 0 <= x < r@.len() ==> (#[trigger] r@[x])@ == self.entries@[x].path@,
    {
        let mut out: Vec<String> = Vec::new();
        let mut i: usize = 0;
        while i < self.entries.len()
            invariant
                i <= self.entries@.len(),
                out@.len() == i,
                forall|x: int| 0 <= x < i ==> (#[trigger] out@[x])@ == self.entries@[x].path@,
            decreases self.entries@.len() - i,
        {
            out.push(self.entries[i].path.clone());
            i += 1;
        }
        out
    }

    /// Decides one request. A method other than GET or HEAD is rejected
    /// before any path is looked at; a registered path is answered from its
    /// entry; an unregistered one is a distinguishable internal-consistency
    /// outcome.
    pub fn dispatch(&self, method: Method, path: &str) -> (r: DispatchOutcome)
        ensures
            method is Other ==> r is MethodNotAllowed,
            !(method is Other) ==> match lookup(
                table_model(self.entries@),
                path@,
            ) {
                Some(t) => ((t.2 matches Some(b) ==> r matches DispatchOutcome::Frozen(bb, m)
                    && bb@ == b && m == t.1) && (t.3 matches Some(s) ==> r matches
                    DispatchOutcome::Live(ss, m) && ss@ == s && m == t.1)),
                None => r is Unregistered,
            },
    {
        let allowed = match method {
            Method::Get => true,
            Method::Head => true,
            Method::Other => false,
        };
        proof {
            assert(allowed == !(method is Other));
        }
        if !allowed {
            return DispatchOutcome::MethodNotAllowed;
        }
        let ghost model = table_model(self.entries@);
        let mut i: usize = 0;
        while i < self.entries.len()
            invariant
                !(method is Other),
                i <= self.entries@.len(),
                model == table_model(self.entries@),
                forall|x: int| 0 <= x < i ==> (#[trigger] model[x]).0 != path@,
            decreases self.entries@.len() - i,
        {
            if str_eq(self.entries[i].path.as_str(), path) {
                proof {
                    lemma_lookup_skip(model, path@, i as int);
                    assert(model[i as int] == entry_model(self.entries@[i as int]));
                    assert(model.skip(i as int)[0] == model[i as int]);
                    assert(model[i as int].0 == path@);
                    assert(lookup(model, path@) == Some(model[i as int]));
                }
                let e = &self.entries[i];
                return match &e.content {
                    RouteContent::Frozen(b) => DispatchOutcome::Frozen(clone_bytes(b), e.media),
                    RouteContent::Live(s) => DispatchOutcome::Live(s.clone(), e.media),
                };
            }
            i += 1;
        }
        proof {
            lemma_lookup_skip(model, path@, model.len() as int);
            assert(model.skip(model.len() as int) =~= Seq::empty());
        }
        DispatchOutcome::Unregistered
    }
}

} // verus!
