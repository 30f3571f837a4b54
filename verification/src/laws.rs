//! Laws of the alias rules, the rendering protocol, the collision check and
//! the two build modes, stated and proved over the same spec functions the
//! executable contracts use.

use vstd::prelude::*;

use crate::pathspec::{alias_paths, extension_of, file_name_of, parent_of, rewrite_dj};
use crate::pipeline::{flat_alias, SourceInput};
use crate::render::{content_block_text, djot_template, extends_text, title_blocks_text};
use crate::routes::{flat_entries, item_entry, paths_distinct, BuildMode, CompiledResource};
use crate::strutil::{last_pos, lemma_last_pos};

verus! {

/// A character that occurs nowhere in a string has no last occurrence.
pub proof fn lemma_last_pos_absent(s: Seq<char>, c: char)
    requires
        forall|j: int| 0 <= j < s.len() ==> s[j] != c,
    ensures
        last_pos(s, c) == -1,
    decreases s.len(),
{
    if s.len() > 0 {
        assert(forall|j: int| 0 <= j < s.len() - 1 ==> s.drop_last()[j] == s[j]);
        lemma_last_pos_absent(s.drop_last(), c);
    }
}

/// The last occurrence in a concatenation sits in the right part when that
/// part has one, and in the left part otherwise.
pub proof fn lemma_last_pos_concat(a: Seq<char>, b: Seq<char>, c: char)
    ensures
        last_pos(b, c) >= 0 ==> last_pos(a + b, c) == a.len() + last_pos(b, c),
        last_pos(b, c) == -1 ==> last_pos(a + b, c) == last_pos(a, c),
    decreases b.len(),
{
    lemma_last_pos(b, c);
    if b.len() == 0 {
        assert(a + b =~= a);
    } else {
        if b.last() == c {
            assert((a + b).last() == c);
        } else {
            lemma_last_pos_concat(a, b.drop_last(), c);
            assert((a + b).drop_last() =~= a + b.drop_last());
            assert((a + b).last() == b.last());
        }
    }
}

/// An `index.html` at the site root answers for exactly itself and `/`.
pub proof fn lemma_alias_root_index()
    ensures
        alias_paths("/index.html"@) =~~= seq!["/index.html"@, "/"@],
{
    reveal_strlit("/index.html");
    reveal_strlit("index.html");
    reveal_strlit("index");
    reveal_strlit(".html");
    reveal_strlit("html");
    reveal_strlit("dj");
    reveal_strlit(".");
    reveal_strlit("/");
    let p = "/index.html"@;
    assert(p =~= "/"@ + "index.html"@);
    lemma_last_pos_absent("index.html"@, '/');
    lemma_last_pos_concat("/"@, "index.html"@, '/');
    assert(last_pos("/"@, '/') == 0);
    assert(last_pos(p, '/') == 0);
    let f = file_name_of(p);
    assert(f =~= "index.html"@);
    assert(f =~= "index"@ + ".html"@);
    assert(".html"@ =~= "."@ + "html"@);
    lemma_last_pos_absent("html"@, '.');
    lemma_last_pos_concat("."@, "html"@, '.');
    assert(last_pos("."@, '.') == 0);
    assert(last_pos(".html"@, '.') == 0);
    lemma_last_pos_concat("index"@, ".html"@, '.');
    assert(last_pos(f, '.') == 5);
    assert(extension_of(p) == Some(f.subrange(6, 10)));
    assert(f.subrange(6, 10) =~= "html"@);
    assert("html"@ != "dj"@);
    assert(rewrite_dj(p) == p);
    assert(file_name_of(p) == "index.html"@);
}

/// An `index.html` below the root answers for itself, for its directory, and
/// for its directory with a trailing slash — whatever the directory is.
pub proof fn lemma_alias_dir_index(d: Seq<char>)
    requires
        d.len() > 0,
    ensures
        alias_paths(d + "/index.html"@) =~~= seq![d + "/index.html"@, d, d + "/"@],
{
    reveal_strlit("/index.html");
    reveal_strlit("index.html");
    reveal_strlit("index");
    reveal_strlit(".html");
    reveal_strlit("html");
    reveal_strlit("dj");
    reveal_strlit(".");
    reveal_strlit("/");
    let p = d + "/index.html"@;
    lemma_last_pos_absent("index.html"@, '/');
    assert("/index.html"@ =~= "/"@ + "index.html"@);
    lemma_last_pos_concat("/"@, "index.html"@, '/');
    assert(last_pos("/"@, '/') == 0);
    assert(last_pos("/index.html"@, '/') == 0);
    lemma_last_pos_concat(d, "/index.html"@, '/');
    assert(last_pos(p, '/') == d.len());
    let f = file_name_of(p);
    assert(f =~= "index.html"@);
    assert(f =~= "index"@ + ".html"@);
    assert(".html"@ =~= "."@ + "html"@);
    lemma_last_pos_absent("html"@, '.');
    lemma_last_pos_concat("."@, "html"@, '.');
    assert(last_pos("."@, '.') == 0);
    assert(last_pos(".html"@, '.') == 0);
    lemma_last_pos_concat("index"@, ".html"@, '.');
    assert(last_pos(f, '.') == 5);
    assert(extension_of(p) == Some(f.subrange(6, 10)));
    assert(f.subrange(6, 10) =~= "html"@);
    assert("html"@ != "dj"@);
    assert(rewrite_dj(p) == p);
    assert(p.len() == d.len() + 11);
    assert(p != "/index.html"@);
    assert(parent_of(p) =~= d);
    assert(parent_of(p) + "/"@ =~= d + "/"@);
}

/// A markup file whose name has no dot and is not `index` answers under
/// exactly one URL: its path with the extension rewritten to `html`.
pub proof fn lemma_alias_dj(d: Seq<char>, s: Seq<char>)
    requires
        s.len() > 0,
        forall|j: int| 0 <= j < s.len() ==> s[j] != '/' && s[j] != '.',
        s != "index"@,
    ensures
        alias_paths(d + "/"@ + s + ".dj"@) =~~= seq![d + "/"@ + s + ".html"@],
{
    reveal_strlit("index.html");
    reveal_strlit("index");
    reveal_strlit(".html");
    reveal_strlit("html");
    reveal_strlit(".dj");
    reveal_strlit("dj");
    reveal_strlit(".");
    reveal_strlit("/");
    let p = d + "/"@ + s + ".dj"@;
    let tail = s + ".dj"@;
    assert(p =~= (d + "/"@) + tail);
    assert(".dj"@ =~= "."@ + "dj"@);
    lemma_last_pos_absent("dj"@, '/');
    lemma_last_pos_absent("."@, '/');
    lemma_last_pos_concat("."@, "dj"@, '/');
    lemma_last_pos_absent(s, '/');
    lemma_last_pos_concat(s, ".dj"@, '/');
    assert(last_pos(tail, '/') == -1);
    lemma_last_pos_concat(d + "/"@, tail, '/');
    lemma_last_pos_concat(d, "/"@, '/');
    assert(last_pos("/"@, '/') == 0);
    assert(last_pos(p, '/') == d.len());
    let f = file_name_of(p);
    assert(f =~= tail);
    lemma_last_pos_absent("dj"@, '.');
    lemma_last_pos_concat("."@, "dj"@, '.');
    assert(last_pos("."@, '.') == 0);
    assert(last_pos(".dj"@, '.') == 0);
    lemma_last_pos_concat(s, ".dj"@, '.');
    assert(last_pos(f, '.') == s.len());
    assert(extension_of(p) == Some(f.subrange(s.len() as int + 1, f.len() as int)));
    assert(f.subrange(s.len() as int + 1, f.len() as int) =~= "dj"@);
    let q = rewrite_dj(p);
    assert(q == p.subrange(0, p.len() - 2) + "html"@);
    assert(q =~= d + "/"@ + s + ".html"@);
    // The rewritten path's file name is `s + ".html"`, never `index.html`.
    let qtail = s + ".html"@;
    assert(".html"@ =~= "."@ + "html"@);
    lemma_last_pos_absent("html"@, '/');
    lemma_last_pos_concat("."@, "html"@, '/');
    lemma_last_pos_concat(s, ".html"@, '/');
    assert(last_pos(qtail, '/') == -1);
    assert(q =~= (d + "/"@) + qtail);
    lemma_last_pos_concat(d + "/"@, qtail, '/');
    assert(last_pos(q, '/') == d.len());
    let qf = file_name_of(q);
    assert(qf =~= qtail);
    if qf == "index.html"@ {
        assert(s.len() + 5 == 10);
        assert(s =~= "index"@) by {
            assert(forall|j: int| 0 <= j < 5 ==> s[j] == qtail[j]);
        }
        assert(false);
    }
}

/// A titled markup document without a layout renders to the two title blocks
/// followed by the content block, with no `extends` directive in front.
pub proof fn lemma_title_blocks_no_layout(t: Seq<char>, body_html: Seq<char>)
    ensures
        djot_template(Some(t), None, body_html) =~= "{% block headtitle %}"@ + t
            + "{% endblock headtitle %}"@ + "{% block pagetitle %}"@ + t
            + "{% endblock pagetitle %}"@ + "\n"@ + "{% block content %}\n"@ + body_html
            + "{% endblock content %}\n"@,
{
    assert(extends_text(None) == Seq::<char>::empty());
    assert(djot_template(Some(t), None, body_html) =~= title_blocks_text(Some(t))
        + content_block_text(body_html));
}

/// A markup document naming a layout renders to template source that begins
/// with the `extends` directive referencing that layout's template.
pub proof fn lemma_layout_extends_prefix(
    title: Option<Seq<char>>,
    l: Seq<char>,
    body_html: Seq<char>,
)
    ensures
        ("{% extends \""@ + l + ".html\" %}"@).is_prefix_of(djot_template(title, Some(l), body_html)),
{
    let e = "{% extends \""@ + l + ".html\" %}"@;
    let out = djot_template(title, Some(l), body_html);
    assert(out =~= (e + "\n"@) + (title_blocks_text(title) + content_block_text(body_html)));
    assert(e.len() <= out.len());
    assert(e =~= out.subrange(0, e.len() as int));
}

/// The alias sets claimed before input `i` fill the flat alias list up to
/// `i`'s own block, which then follows, element for element.
pub proof fn lemma_flat_alias_prefix(inputs: Seq<SourceInput>, m: int)
    requires
        0 <= m <= inputs.len(),
    ensures
        flat_alias(inputs.take(m)).len() <= flat_alias(inputs).len(),
        forall|x: int|
            0 <= x < flat_alias(inputs.take(m)).len() ==> #[trigger] flat_alias(inputs.take(m))[x]
                == flat_alias(inputs)[x],
    decreases inputs.len() - m,
{
    if m == inputs.len() {
        assert(inputs.take(m) =~= inputs);
    } else {
        lemma_flat_alias_prefix(inputs, m + 1);
        assert(inputs.take(m + 1).drop_last() =~= inputs.take(m));
        assert(inputs.take(m + 1).last() == inputs[m]);
        assert(flat_alias(inputs.take(m + 1)) == flat_alias(inputs.take(m)) + alias_paths(
            inputs[m].resource.logical_path@,
        ));
        assert forall|x: int|
            0 <= x < flat_alias(inputs.take(m)).len() implies #[trigger] flat_alias(
            inputs.take(m),
        )[x] == flat_alias(inputs)[x] by {
            assert(flat_alias(inputs.take(m + 1))[x] == flat_alias(inputs.take(m))[x]);
            assert(flat_alias(inputs.take(m + 1))[x] == flat_alias(inputs)[x]);
        }
    }
}

/// Where input `i`'s alias block sits in the flat alias list.
pub open spec fn alias_offset(inputs: Seq<SourceInput>, i: int) -> int {
    flat_alias(inputs.take(i)).len() as int
}

/// Each element of input `i`'s alias set appears in the flat alias list at
/// its offset, and the next input's block begins where this one ends.
pub proof fn lemma_flat_alias_at(inputs: Seq<SourceInput>, i: int, k: int)
    requires
        0 <= i < inputs.len(),
        0 <= k < alias_paths(inputs[i].resource.logical_path@).len(),
    ensures
        alias_offset(inputs, i) + k < flat_alias(inputs).len(),
        flat_alias(inputs)[alias_offset(inputs, i) + k] == alias_paths(
            inputs[i].resource.logical_path@,
        )[k],
        alias_offset(inputs, i + 1) == alias_offset(inputs, i) + alias_paths(
            inputs[i].resource.logical_path@,
        ).len(),
{
    assert(inputs.take(i + 1).drop_last() =~= inputs.take(i));
    assert(inputs.take(i + 1).last() == inputs[i]);
    assert(flat_alias(inputs.take(i + 1)) == flat_alias(inputs.take(i)) + alias_paths(
        inputs[i].resource.logical_path@,
    ));
    lemma_flat_alias_prefix(inputs, i + 1);
    let off = alias_offset(inputs, i);
    assert(flat_alias(inputs.take(i + 1))[off + k] == alias_paths(
        inputs[i].resource.logical_path@,
    )[k]);
    assert(flat_alias(inputs.take(i + 1))[off + k] == flat_alias(inputs)[off + k]);
}

/// Offsets never decrease along the input list.
pub proof fn lemma_alias_offset_mono(inputs: Seq<SourceInput>, i: int, j: int)
    requires
        0 <= i <= j <= inputs.len(),
    ensures
        alias_offset(inputs, i) <= alias_offset(inputs, j),
    decreases j - i,
{
    if i < j {
        lemma_alias_offset_mono(inputs, i + 1, j);
        assert(inputs.take(i + 1).drop_last() =~= inputs.take(i));
        assert(flat_alias(inputs.take(i + 1)) == flat_alias(inputs.take(i)) + alias_paths(
            inputs.take(i + 1).last().resource.logical_path@,
        ));
    }
}

/// Two distinct inputs whose alias sets share a URL string make the flat
/// alias list non-distinct, so synthesis must fail rather than silently keep
/// one of them.
pub proof fn lemma_alias_collision(inputs: Seq<SourceInput>, i: int, j: int, p: Seq<char>)
    requires
        0 <= i < j < inputs.len(),
        alias_paths(inputs[i].resource.logical_path@).contains(p),
        alias_paths(inputs[j].resource.logical_path@).contains(p),
    ensures
        !paths_distinct(flat_alias(inputs)),
{
    let bi = alias_paths(inputs[i].resource.logical_path@);
    let bj = alias_paths(inputs[j].resource.logical_path@);
    let k1 = choose|k: int| 0 <= k < bi.len() && bi[k] == p;
    let k2 = choose|k: int| 0 <= k < bj.len() && bj[k] == p;
    lemma_flat_alias_at(inputs, i, k1);
    lemma_flat_alias_at(inputs, j, k2);
    lemma_alias_offset_mono(inputs, i + 1, j);
    let x1 = alias_offset(inputs, i) + k1;
    let x2 = alias_offset(inputs, j) + k2;
    assert(x1 < alias_offset(inputs, i + 1));
    assert(x1 < x2);
    assert(flat_alias(inputs)[x1] == flat_alias(inputs)[x2]);
}

/// The entry at position `x` of the flat entry list is the entry of some
/// resource and one of its alias paths.
pub open spec fn entry_from_item(items: Seq<CompiledResource>, mode: BuildMode, x: int) -> bool {
    exists|i: int, k: int|
        0 <= i < items.len() && 0 <= k < items[i].alias@.len() && flat_entries(items, mode)[x]
            == #[trigger] item_entry(items[i], k, mode)
}

/// Every dispatch entry is the entry of some resource and one of its alias
/// paths; in frozen mode it carries that resource's compile-time bytes and no
/// source reference, and in live mode it carries the source path and no
/// bytes, so a frozen table cannot change with the sources while a live one
/// re-renders from exactly the compiled source path.
pub proof fn lemma_mode_entry_shape(items: Seq<CompiledResource>, mode: BuildMode)
    ensures
        forall|x: int|
            0 <= x < flat_entries(items, mode).len() ==> #[trigger] entry_from_item(items, mode, x),
        mode is Frozen ==> forall|x: int|
            0 <= x < flat_entries(items, mode).len() ==> (#[trigger] flat_entries(items, mode)[x]).2
                is Some && flat_entries(items, mode)[x].3 is None,
        mode is Live ==> forall|x: int|
            0 <= x < flat_entries(items, mode).len() ==> (#[trigger] flat_entries(items, mode)[x]).2
                is None && flat_entries(items, mode)[x].3 is Some,
    decreases items.len(),
{
    if items.len() > 0 {
        lemma_mode_entry_shape(items.drop_last(), mode);
        let prefix = flat_entries(items.drop_last(), mode);
        assert forall|x: int|
            0 <= x < flat_entries(items, mode).len() implies #[trigger] entry_from_item(
            items,
            mode,
            x,
        ) by {
            if x < prefix.len() {
                assert(entry_from_item(items.drop_last(), mode, x));
                let (i, k) = choose|i: int, k: int|
                    0 <= i < items.drop_last().len() && 0 <= k < items.drop_last()[i].alias@.len()
                        && prefix[x] == #[trigger] item_entry(items.drop_last()[i], k, mode);
                assert(items.drop_last()[i] == items[i]);
                assert(flat_entries(items, mode)[x] == item_entry(items[i], k, mode));
            } else {
                let k = x - prefix.len();
                let i = items.len() - 1;
                assert(items.last() == items[i]);
                assert(flat_entries(items, mode)[x] == item_entry(items[i], k, mode));
            }
        }
    }
}

} // verus!
