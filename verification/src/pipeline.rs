//! The build pipeline: renders and classifies every discovered resource and
//! synthesizes the route table from the results. Every failure is fatal; no
//! partially built site is handed on.

use vstd::prelude::*;

use crate::errors::BuildError;
use crate::media::media_type_of;
use crate::pathspec::{alias_paths, extension_of};
use crate::render::{fm_of, kind_of_ext, render_content, RawSource};
use crate::resource::Resource;
use crate::routes::{
    flat_entries, flat_paths, paths_distinct, synthesize_routes, table_model, BuildMode,
    CompiledResource, RouteTable,
};

verus! {

/// One source file as the build sees it: the discovered resource and the raw
/// content read from its file.
pub struct SourceInput {
    pub resource: Resource,
    pub raw: RawSource,
}

/// The raw content is textual exactly for the two rendered source kinds; a
/// pass-through file arrives as raw bytes.
pub open spec fn input_ok(s: SourceInput) -> bool {
    (kind_of_ext(extension_of(s.resource.source_path@)) is Other) <==> (s.raw is Bytes)
}

/// The compiled form a build input must yield: same source path, the alias
/// set of its logical path, the classified media type, and — for a
/// pass-through file — its bytes unchanged.
pub open spec fn compiled_for(inp: SourceInput, c: CompiledResource) -> bool {
    &&& c.source@ == inp.resource.source_path@
    &&& c.alias.deep_view() == alias_paths(inp.resource.logical_path@)
    &&& Some(c.media) == media_type_of(extension_of(inp.resource.source_path@))
    &&& (kind_of_ext(extension_of(inp.resource.source_path@)) is Other ==> (inp.raw matches
        RawSource::Bytes(v) && c.content@ == v@))
}

/// Every URL string the inputs claim, in order: the alias sets of all
/// resources, concatenated.
pub open spec fn flat_alias(inputs: Seq<SourceInput>) -> Seq<Seq<char>>
    decreases inputs.len(),
{
    if inputs.len() == 0 {
        Seq::empty()
    } else {
        flat_alias(inputs.drop_last()) + alias_paths(inputs.last().resource.logical_path@)
    }
}

/// When each compiled resource agrees with its input, the synthesized URL
/// strings are exactly the inputs' alias sets, in order.
pub proof fn lemma_flat_paths_alias(inputs: Seq<SourceInput>, items: Seq<CompiledResource>)
    requires
        items.len() == inputs.len(),
        forall|j: int| 0 <= j < items.len() ==> compiled_for(inputs[j], #[trigger] items[j]),
    ensures
        flat_paths(items) == flat_alias(inputs),
    decreases items.len(),
{
    if items.len() == 0 {
        assert(flat_paths(items) =~~= flat_alias(inputs));
    } else {
        assert(forall|j: int|
            0 <= j < items.len() - 1 ==> compiled_for(
                inputs.drop_last()[j],
                #[trigger] items.drop_last()[j],
            ));
        lemma_flat_paths_alias(inputs.drop_last(), items.drop_last());
        let last = items.last();
        let block = alias_paths(inputs.last().resource.logical_path@);
        assert(last.alias.deep_view() == block);
        assert(last.alias.deep_view().len() == last.alias@.len());
        assert forall|x: int| 0 <= x < flat_paths(items).len() implies flat_paths(items)[x]
            == flat_alias(inputs)[x] by {
            let prefix = flat_entries(items.drop_last(), BuildMode::Frozen);
            assert(flat_paths(items)[x] == flat_entries(items, BuildMode::Frozen)[x].0);
            if x < prefix.len() {
                assert(flat_paths(items.drop_last())[x] == prefix[x].0);
            } else {
                let k = x - prefix.len();
                assert(flat_entries(items, BuildMode::Frozen)[x] == crate::routes::item_entry(
                    last,
                    k,
                    BuildMode::Frozen,
                ));
                assert(last.alias.deep_view()[k] == last.alias@[k]@);
                assert(block[k] == last.alias@[k]@);
            }
        }
        assert(flat_paths(items) =~~= flat_alias(inputs));
    }
}

/// Compiles one input: classifies it, renders its content, and resolves its
/// alias set. An extension outside the classifier table, a rejected front
/// matter and a template failure are each reported as that build error; a
/// pass-through file with a classifiable extension always compiles, to its
/// own bytes.
pub fn compile_resource(inp: &SourceInput) -> (r: Result<CompiledResource, BuildError>)
    requires
        input_ok(*inp),
    ensures
        r matches Ok(c) ==> compiled_for(*inp, c),
        r matches Err(e) ==> (e matches BuildError::UnclassifiableExtension(_) || e matches
            BuildError::FrontMatter(_) || e matches BuildError::Template(_)),
        media_type_of(extension_of(inp.resource.source_path@)) is None ==> (r matches Err(e)
            && e matches BuildError::UnclassifiableExtension(x) && extension_of(
            inp.resource.source_path@,
        ) == Some(x@)),
        (media_type_of(extension_of(inp.resource.source_path@)) is Some && kind_of_ext(
            extension_of(inp.resource.source_path@),
        ) is Other) ==> r is Ok,
        kind_of_ext(extension_of(inp.resource.source_path@)) is Djot ==> ((r matches Err(e)
            && e matches BuildError::FrontMatter(_)) <==> (inp.raw matches RawSource::Text(t)
            && fm_of(t@) is None)),
        (r matches Err(e) && e matches BuildError::UnclassifiableExtension(_)) ==> media_type_of(
            extension_of(inp.resource.source_path@),
        ) is None,
{
    let media = match inp.resource.media_type() {
        Ok(m) => m,
        Err(e) => return Err(e),
    };
    let content = match render_content(inp.resource.source_path.as_str(), &inp.raw) {
        Ok(b) => b,
        Err(e) => return Err(e),
    };
    let alias = inp.resource.paths();
    Ok(CompiledResource { source: inp.resource.source(), alias, media, content })
}

/// Every input is a pass-through file with a classifiable extension: on such
/// a build no outside call decides anything, so success is owed whenever the
/// claimed URL strings are distinct.
pub open spec fn all_pass_through_classified(inputs: Seq<SourceInput>) -> bool {
    forall|i: int|
        0 <= i < inputs.len() ==> (kind_of_ext(
            extension_of(#[trigger] inputs[i].resource.source_path@),
        ) is Other && media_type_of(extension_of(inputs[i].resource.source_path@)) is Some)
}

/// Compiles every input and synthesizes the dispatch structure. On success
/// the table is exactly the flat entry list of compiled resources that agree,
/// one for one, with the inputs, and the claimed URL strings are distinct. A
/// build of classifiable pass-through files without a collision always
/// succeeds; every failure is one of the build's own errors, a path collision
/// is reported exactly when the inputs' alias sets collide and is never
/// overwritten silently, and an unclassifiable extension is reported only
/// when an input has one.
pub fn build_route_table(inputs: &Vec<SourceInput>, mode: BuildMode) -> (r: Result<
    RouteTable,
    BuildError,
>)
    requires
        forall|i: int| 0 <= i < inputs@.len() ==> input_ok(#[trigger] inputs@[i]),
    ensures
        r matches Ok(t) ==> exists|items: Seq<CompiledResource>|
            {
                &&& items.len() == inputs@.len()
                &&& (forall|j: int|
                    0 <= j < items.len() ==> compiled_for(inputs@[j], #[trigger] items[j]))
                &&& table_model(t.entries@) == flat_entries(items, mode)
                &&& paths_distinct(flat_paths(items))
            },
        r is Ok ==> paths_distinct(flat_alias(inputs@)),
        (r matches Err(e) && e matches BuildError::PathCollision(_)) ==> !paths_distinct(
            flat_alias(inputs@),
        ),
        (paths_distinct(flat_alias(inputs@)) && all_pass_through_classified(inputs@)) ==> r is Ok,
        r matches Err(e) ==> (e matches BuildError::UnclassifiableExtension(_) || e matches
            BuildError::FrontMatter(_) || e matches BuildError::Template(_) || e matches
            BuildError::PathCollision(_)),
        (r matches Err(e) && e matches BuildError::UnclassifiableExtension(_)) ==> exists|i: int|
            0 <= i < inputs@.len() && media_type_of(
                extension_of(#[trigger] inputs@[i].resource.source_path@),
            ) is None,
{
    let mut items: Vec<CompiledResource> = Vec::new();
    let mut i: usize = 0;
    while i < inputs.len()
        invariant
            i <= inputs@.len(),
            items@.len() == i,
            forall|j: int| 0 <= j < i ==> compiled_for(inputs@[j], #[trigger] items@[j]),
            forall|j: int| 0 <= j < inputs@.len() ==> input_ok(#[trigger] inputs@[j]),
        decreases inputs@.len() - i,
    {
        match compile_resource(&inputs[i]) {
            Ok(c) => items.push(c),
            Err(e) => {
                proof {
                    if all_pass_through_classified(inputs@) {
                        assert(kind_of_ext(
                            extension_of(inputs@[i as int].resource.source_path@),
                        ) is Other && media_type_of(
                            extension_of(inputs@[i as int].resource.source_path@),
                        ) is Some);
                        assert(false);
                    }
                    if e matches BuildError::UnclassifiableExtension(_) {
                        assert(media_type_of(
                            extension_of(inputs@[i as int].resource.source_path@),
                        ) is None);
                    }
                }
                return Err(e);
            },
        }
        i += 1;
    }
    proof {
        lemma_flat_paths_alias(inputs@, items@);
    }
    match synthesize_routes(&items, mode) {
        Ok(t) => {
            proof {
                let ghost witness = items@;
                assert({
                    &&& witness.len() == inputs@.len()
                    &&& (forall|j: int|
                        0 <= j < witness.len() ==> compiled_for(inputs@[j], #[trigger] witness[j]))
                    &&& table_model(t.entries@) == flat_entries(witness, mode)
                    &&& paths_distinct(flat_paths(witness))
                });
            }
            Ok(t)
        },
        Err(e) => {
            proof {
                assert(!paths_distinct(flat_paths(items@)));
                assert(flat_paths(items@) == flat_alias(inputs@));
                assert(!paths_distinct(flat_alias(inputs@)));
            }
            Err(e)
        },
    }
}

} // verus!
