//! A save writes what belongs to the scene, all of it and nothing else.

use vstd::prelude::*;

use crate::lineage::{ancestor, parent_of, under_marked};
use crate::scene::denied::{denied, Capture, RuntimeType};
use crate::scene::save::{
    ends_with, foreign_type, ids_of, is_hidden, is_mesh_instance, is_scene_instance, parent_type,
    saved, starts_with, transient_type, world_links, EntityFacts,
};
use crate::scene::subtree::{
    in_subtrees, node_index, onward, taken, walk, walk_extends, walk_starts, NodeModel,
};
use crate::text::{position_found, position_is_first};

verus! {

// ── Filters ──

/// Whether `picks` are the places in `list` of what `kept` holds: in order, and
/// all the places that pass.
pub open spec fn picked<T>(
    list: Seq<T>,
    pass: spec_fn(T) -> bool,
    kept: Seq<T>,
    picks: Seq<int>,
) -> bool {
    &&& picks.len() == kept.len()
    &&& forall|i: int|
        0 <= i < picks.len() ==> 0 <= #[trigger] picks[i] < list.len() && kept[i] == list[picks[i]]
            && pass(kept[i])
    &&& forall|i: int, j: int|
        0 <= i < j < picks.len() ==> #[trigger] picks[i] < #[trigger] picks[j]
    &&& forall|k: int|
        0 <= k < list.len() && pass(#[trigger] list[k]) ==> picks.contains(k)
}

/// A filter keeps what passes, all of it, in order.
pub proof fn filter_picks<T>(list: Seq<T>, pass: spec_fn(T) -> bool)
    ensures
        exists|picks: Seq<int>| picked(list, pass, list.filter(pass), picks),
    decreases list.len(),
{
    reveal(Seq::filter);
    if list.len() == 0 {
        assert(picked(list, pass, list.filter(pass), Seq::<int>::empty()));
    } else {
        let rest = list.drop_last();
        let last = list.len() - 1;
        filter_picks(rest, pass);
        let before = choose|picks: Seq<int>| picked(rest, pass, rest.filter(pass), picks);
        let picks = if pass(list.last()) {
            before.push(last)
        } else {
            before
        };
        let kept = list.filter(pass);
        assert forall|i: int| 0 <= i < picks.len() implies 0 <= #[trigger] picks[i] < list.len()
            && kept[i] == list[picks[i]] && pass(kept[i]) by {
            if i < before.len() {
                assert(picks[i] == before[i]);
                assert(kept[i] == rest.filter(pass)[i]);
            }
        }
        assert forall|k: int| 0 <= k < list.len() && pass(
            #[trigger] list[k],
        ) implies picks.contains(k) by {
            if k < last {
                assert(rest[k] == list[k]);
                let i = choose|i: int| 0 <= i < before.len() && before[i] == k;
                assert(picks[i] == k);
            } else {
                assert(picks[before.len() as int] == k);
            }
        }
        assert(picked(list, pass, kept, picks));
    }
}

// ── Entities ──

/// No two entities share an id.
pub open spec fn distinct_ids(world: Seq<EntityFacts>) -> bool {
    forall|i: int, j: int|
        0 <= i < world.len() && 0 <= j < world.len() && (#[trigger] world[i]).id == (
        #[trigger] world[j]).id ==> i == j
}

/// Whether `path` goes up from parent to parent, by the places of entities.
pub open spec fn line_up(world: Seq<EntityFacts>, path: Seq<int>) -> bool {
    &&& path.len() > 0
    &&& forall|i: int| 0 <= i < path.len() ==> 0 <= #[trigger] path[i] < world.len()
    &&& forall|i: int|
        0 < i < path.len() ==> world[path[i - 1]].parent == Some(world[#[trigger] path[i]].id)
}

/// Whether something above an entity is hidden, an instance of a scene or a
/// model.
pub open spec fn below_a_marker(world: Seq<EntityFacts>, k: int) -> bool {
    exists|path: Seq<int>| #[trigger]
        line_up(world, path) && path.len() > 1 && path[0] == k && (world[path.last()].hidden
            || world[path.last()].scene_instance || world[path.last()].mesh_instance)
}

/// Whether an entity is written: it is named, neither hidden nor the editor's
/// camera nor a gamepad nor persistent, and nothing above it is hidden, an
/// instance of a scene or a model. What it is itself does not matter else.
pub open spec fn belongs_to_the_scene(world: Seq<EntityFacts>, k: int) -> bool {
    &&& world[k].named
    &&& !world[k].hidden
    &&& !world[k].editor_camera
    &&& !world[k].gamepad
    &&& !world[k].persistent
    &&& !below_a_marker(world, k)
}

proof fn links_have_entities(world: Seq<EntityFacts>, id: u64)
    ensures
        parent_of(world_links(world), id) matches Some(p) ==> exists|k: int|
            0 <= k < world.len() && (#[trigger] world[k]).id == id && world[k].parent == Some(p),
    decreases world.len(),
{
    if world.len() > 0 {
        let rest = world.drop_last();
        links_have_entities(rest, id);
        let links = world_links(world);
        if let Some(p) = world.last().parent {
            assert(links.drop_last() =~= world_links(rest));
            if world.last().id == id {
                assert(world[world.len() - 1].id == id);
            }
        }
        if let Some(p) = parent_of(links, id) {
            if !(world.last().id == id && world.last().parent is Some) {
                let k = choose|k: int|
                    0 <= k < rest.len() && (#[trigger] rest[k]).id == id && rest[k].parent == Some(
                        p,
                    );
                assert(world[k].id == id);
            }
        }
    }
}

proof fn entities_have_links(world: Seq<EntityFacts>, k: int)
    requires
        distinct_ids(world),
        0 <= k < world.len(),
    ensures
        parent_of(world_links(world), world[k].id) == world[k].parent,
    decreases world.len(),
{
    let rest = world.drop_last();
    let links = world_links(world);
    let id = world[k].id;
    assert forall|i: int, j: int|
        0 <= i < rest.len() && 0 <= j < rest.len() && (#[trigger] rest[i]).id == (
        #[trigger] rest[j]).id implies i == j by {
        assert(world[i].id == world[j].id);
    }
    if world.last().parent is Some {
        assert(links.drop_last() =~= world_links(rest));
    }
    if k < rest.len() {
        assert(world[world.len() - 1].id != world[k].id);
        entities_have_links(rest, k);
        assert(rest[k] == world[k]);
    } else {
        links_have_entities(rest, id);
        if parent_of(world_links(rest), id) is Some {
            let p = parent_of(world_links(rest), id)->0;
            let j = choose|j: int|
                0 <= j < rest.len() && (#[trigger] rest[j]).id == id && rest[j].parent == Some(p);
            assert(world[j].id == world[k].id);
        }
    }
}

proof fn line_is_ancestry(world: Seq<EntityFacts>, path: Seq<int>)
    requires
        distinct_ids(world),
        line_up(world, path),
    ensures
        ancestor(world_links(world), world[path[0]].id, (path.len() - 1) as nat) == Some(
            world[path.last()].id,
        ),
    decreases path.len(),
{
    if path.len() > 1 {
        let shorter = path.drop_last();
        assert forall|i: int| 0 < i < shorter.len() implies world[shorter[i - 1]].parent == Some(
            world[#[trigger] shorter[i]].id,
        ) by {
            assert(shorter[i] == path[i]);
            assert(shorter[i - 1] == path[i - 1]);
        }
        assert forall|i: int| 0 <= i < shorter.len() implies 0 <= #[trigger] shorter[i]
            < world.len() by {
            assert(shorter[i] == path[i]);
        }
        line_is_ancestry(world, shorter);
        let last = path.len() - 1;
        assert(world[path[last - 1]].parent == Some(world[path[last]].id));
        entities_have_links(world, path[last - 1]);
    }
}

proof fn ancestry_is_a_line(world: Seq<EntityFacts>, k: int, n: nat, j: int)
    requires
        distinct_ids(world),
        0 <= k < world.len(),
        0 <= j < world.len(),
        ancestor(world_links(world), world[k].id, n) == Some(world[j].id),
    ensures
        exists|path: Seq<int>| #[trigger]
            line_up(world, path) && path.len() == n + 1 && path[0] == k && path.last() == j,
    decreases n,
{
    let links = world_links(world);
    if n == 0 {
        assert(world[k].id == world[j].id);
        let path = seq![k];
        assert(line_up(world, path));
    } else {
        let b = ancestor(links, world[k].id, (n - 1) as nat)->0;
        links_have_entities(world, b);
        let i = choose|i: int|
            0 <= i < world.len() && (#[trigger] world[i]).id == b && world[i].parent == Some(
                world[j].id,
            );
        ancestry_is_a_line(world, k, (n - 1) as nat, i);
        let path = choose|path: Seq<int>| #[trigger]
            line_up(world, path) && path.len() == n && path[0] == k && path.last() == i;
        let longer = path.push(j);
        assert forall|m: int| 0 < m < longer.len() implies world[longer[m - 1]].parent == Some(
            world[#[trigger] longer[m]].id,
        ) by {
            if m < path.len() {
                assert(longer[m] == path[m]);
                assert(longer[m - 1] == path[m - 1]);
            } else {
                assert(longer[m - 1] == path.last());
            }
        }
        assert forall|m: int| 0 <= m < longer.len() implies 0 <= #[trigger] longer[m]
            < world.len() by {
            if m < path.len() {
                assert(longer[m] == path[m]);
            }
        }
        assert(line_up(world, longer));
    }
}

pub proof fn marked_is_below(
    world: Seq<EntityFacts>,
    k: int,
    pass: spec_fn(EntityFacts) -> bool,
)
    requires
        distinct_ids(world),
        0 <= k < world.len(),
    ensures
        under_marked(world_links(world), world[k].id, ids_of(world.filter(pass))) <==> exists|
            path: Seq<int>,
        | #[trigger]
            line_up(world, path) && path.len() > 1 && path[0] == k && pass(world[path.last()]),
{
    let links = world_links(world);
    let kept = world.filter(pass);
    filter_picks(world, pass);
    let picks = choose|picks: Seq<int>| picked(world, pass, kept, picks);
    if under_marked(links, world[k].id, ids_of(kept)) {
        let n = choose|n: nat|
            n > 0 && (#[trigger] ancestor(links, world[k].id, n) matches Some(a) && ids_of(
                kept,
            ).contains(a));
        let a = ancestor(links, world[k].id, n)->0;
        let i = choose|i: int| 0 <= i < ids_of(kept).len() && ids_of(kept)[i] == a;
        assert(kept[i].id == a);
        let j = picks[i];
        assert(world[j] == kept[i]);
        ancestry_is_a_line(world, k, n, j);
        let path = choose|path: Seq<int>| #[trigger]
            line_up(world, path) && path.len() == n + 1 && path[0] == k && path.last() == j;
        assert(pass(world[path.last()]));
    }
    if exists|path: Seq<int>| #[trigger]
        line_up(world, path) && path.len() > 1 && path[0] == k && pass(world[path.last()]) {
        let path = choose|path: Seq<int>| #[trigger]
            line_up(world, path) && path.len() > 1 && path[0] == k && pass(world[path.last()]);
        line_is_ancestry(world, path);
        let j = path.last();
        assert(pass(world[j]));
        assert(picks.contains(j));
        let i = choose|i: int| 0 <= i < picks.len() && picks[i] == j;
        assert(kept[i] == world[j]);
        assert(ids_of(kept)[i] == world[j].id);
        assert(ids_of(kept).contains(world[j].id));
    }
}

proof fn saved_is_belonging(world: Seq<EntityFacts>, k: int)
    requires
        distinct_ids(world),
        0 <= k < world.len(),
    ensures
        saved(world)(world[k]) == belongs_to_the_scene(world, k),
{
    marked_is_below(world, k, is_hidden());
    marked_is_below(world, k, is_scene_instance());
    marked_is_below(world, k, is_mesh_instance());
    if below_a_marker(world, k) {
        let path = choose|path: Seq<int>| #[trigger]
            line_up(world, path) && path.len() > 1 && path[0] == k && (world[path.last()].hidden
                || world[path.last()].scene_instance || world[path.last()].mesh_instance);
        let top = world[path.last()];
        assert(is_hidden()(top) || is_scene_instance()(top) || is_mesh_instance()(top));
    }
}

/// A save is complete: every entity that belongs to the scene is written.
pub proof fn everything_that_belongs_is_saved(world: Seq<EntityFacts>, k: int)
    requires
        distinct_ids(world),
        0 <= k < world.len(),
        belongs_to_the_scene(world, k),
    ensures
        ids_of(world.filter(saved(world))).contains(world[k].id),
{
    saved_is_belonging(world, k);
    world.lemma_filter_contains(saved(world), k);
    let kept = world.filter(saved(world));
    let i = choose|i: int| 0 <= i < kept.len() && kept[i] == world[k];
    assert(ids_of(kept)[i] == world[k].id);
}

/// A save writes nothing else, and writes in the order of the world.
pub proof fn nothing_else_is_saved(world: Seq<EntityFacts>)
    requires
        distinct_ids(world),
    ensures
        exists|picks: Seq<int>|
            {
                let ids = ids_of(world.filter(saved(world)));
                &&& #[trigger] picks.len() == ids.len()
                &&& forall|i: int|
                    0 <= i < picks.len() ==> 0 <= #[trigger] picks[i] < world.len() && ids[i]
                        == world[picks[i]].id && belongs_to_the_scene(world, picks[i])
                &&& forall|i: int, j: int|
                    0 <= i < j < picks.len() ==> #[trigger] picks[i] < #[trigger] picks[j]
            },
{
    let pass = saved(world);
    let kept = world.filter(pass);
    let ids = ids_of(kept);
    filter_picks(world, pass);
    let picks = choose|picks: Seq<int>| picked(world, pass, kept, picks);
    assert(picks.len() == ids.len());
    assert forall|i: int| 0 <= i < picks.len() implies 0 <= #[trigger] picks[i] < world.len()
        && ids[i] == world[picks[i]].id && belongs_to_the_scene(world, picks[i]) by {
        assert(kept[i] == world[picks[i]]);
        saved_is_belonging(world, picks[i]);
    }
}

// ── Components ──

/// Whether a text begins with a word.
pub open spec fn begins(text: Seq<char>, word: Seq<char>) -> bool {
    word.len() <= text.len() && text.subrange(0, word.len() as int) == word
}

/// Whether a text ends in a word.
pub open spec fn ends(text: Seq<char>, word: Seq<char>) -> bool {
    word.len() <= text.len() && text.subrange(text.len() - word.len(), text.len() as int) == word
}

/// Components of physics, outlines and splats are told by the crate their path
/// begins with; the transient ones by their whole path; and a link to a parent by
/// what its path ends in.
pub proof fn components_go_by_their_path(path: Seq<char>)
    ensures
        foreign_type(path) <==> begins(path, "bevy_mod_outline::"@) || begins(path, "avian3d::"@)
            || begins(path, "avian2d::"@) || begins(path, "bevy_gaussian_splatting::"@),
        transient_type(path) <==> path == "bevy_render::sync_world::RenderEntity"@ || path
            == "bevy_light::cascade::Cascades"@ || path == "bevy_camera::primitives::CascadesFrusta"@
            || path == "bevy_camera::visibility::CascadesVisibleEntities"@ || path
            == "bevy_camera::visibility::InheritedVisibility"@,
        parent_type(path) <==> ends(path, "::ChildOf"@) || path
            == "bevy_ecs::hierarchy::ChildOf"@,
{
    parts_are_read(path, "bevy_mod_outline::"@);
    parts_are_read(path, "avian3d::"@);
    parts_are_read(path, "avian2d::"@);
    parts_are_read(path, "bevy_gaussian_splatting::"@);
    parts_are_read(path, "::ChildOf"@);
}

/// What stands in front or behind does not matter to how a text begins or ends.
pub proof fn parts_are_read(text: Seq<char>, word: Seq<char>)
    ensures
        starts_with(text, word) == begins(text, word),
        ends_with(text, word) == ends(text, word),
{
    if word.len() <= text.len() {
        assert(text.len() - word.len() + word.len() == text.len());
    }
}

/// A snapshot keeps cameras, gamepads, animation players and the network's marks;
/// a saved scene keeps the global transform; nothing else that is made at run time
/// is kept by any of the three.
pub proof fn run_time_parts_are_left_out(component: RuntimeType)
    ensures
        !denied(Capture::Scene, component) <==> component == RuntimeType::GlobalTransform,
        denied(Capture::Prefab, component),
        !denied(Capture::Snapshot, component) <==> component == RuntimeType::Camera3d || component
            == RuntimeType::Camera || component == RuntimeType::Gamepad || component
            == RuntimeType::GamepadSettings || component == RuntimeType::AnimationPlayer
            || component == RuntimeType::AnimationTransitions || component
            == RuntimeType::AnimatedBy || component == RuntimeType::Networked || component
            == RuntimeType::NetworkOwner || component == RuntimeType::NetworkId,
{
}

// ── Subtrees ──

/// Whether `k` is the node of an entity.
pub open spec fn node_of(world: Seq<NodeModel>, id: u64, k: int) -> bool {
    0 <= k < world.len() && world[k].id == id && forall|j: int|
        0 <= j < k ==> (#[trigger] world[j]).id != id
}

proof fn node_found(world: Seq<NodeModel>, id: u64)
    ensures
        forall|k: int| #[trigger] node_of(world, id, k) ==> node_index(world, id) == k,
        node_index(world, id) < world.len() ==> node_of(world, id, node_index(world, id)),
        0 <= node_index(world, id) <= world.len(),
{
    let flags = world.map_values(|n: NodeModel| n.id == id);
    position_is_first(flags, true);
    let i = node_index(world, id);
    assert forall|j: int| 0 <= j < i implies (#[trigger] world[j]).id != id by {
        assert(flags[j] != true);
    }
    if i < world.len() {
        assert(flags[i]);
    }
    assert forall|k: int| #[trigger] node_of(world, id, k) implies i == k by {
        assert forall|j: int| 0 <= j < k implies flags[j] != true by {
            assert(world[j].id != id);
        }
        assert(flags[k] == true);
        position_found(flags, true, k);
    }
}

/// A root that exists is taken; so is every child of what is taken, unless that
/// is a model. Where names are asked for, only what is named is.
pub proof fn subtrees_take_all_below(
    world: Seq<NodeModel>,
    named_only: bool,
    roots: Seq<u64>,
    id: u64,
    k: int,
)
    requires
        node_of(world, id, k),
        named_only ==> world[k].named,
    ensures
        roots.contains(id) ==> in_subtrees(world, named_only, roots, id),
        forall|parent: u64, p: int| #[trigger]
            node_of(world, parent, p) && in_subtrees(world, named_only, roots, parent)
                && !world[p].mesh_instance && world[p].children.contains(id) ==> in_subtrees(
                world,
                named_only,
                roots,
                id,
            ),
{
    node_found(world, id);
    if roots.contains(id) {
        walk_starts(world, named_only, roots, id);
    }
    assert forall|parent: u64, p: int| #[trigger]
        node_of(world, parent, p) && in_subtrees(world, named_only, roots, parent)
            && !world[p].mesh_instance && world[p].children.contains(id) implies in_subtrees(
        world,
        named_only,
        roots,
        id,
    ) by {
        node_found(world, parent);
        assert(onward(world, parent) == world[p].children);
        walk_extends(world, named_only, roots, parent, id);
    }
}

/// Nothing else is taken: it exists, is named where that is asked for, and is a
/// root or a child of something taken that is no model.
pub proof fn subtrees_take_nothing_else(
    world: Seq<NodeModel>,
    named_only: bool,
    roots: Seq<u64>,
    id: u64,
)
    requires
        in_subtrees(world, named_only, roots, id),
    ensures
        exists|k: int| #[trigger] node_of(world, id, k) && (named_only ==> world[k].named),
        roots.contains(id) || exists|parent: u64, p: int| #[trigger]
            node_of(world, parent, p) && in_subtrees(world, named_only, roots, parent)
                && !world[p].mesh_instance && world[p].children.contains(id),
{
    let path = choose|path: Seq<u64>| #[trigger]
        walk(world, named_only, roots, path) && path.last() == id;
    let last = path.len() - 1;
    assert(taken(world, named_only, path[last]));
    node_found(world, id);
    assert(node_of(world, id, node_index(world, id)));
    if path.len() > 1 {
        let shorter = path.drop_last();
        let parent = shorter.last();
        assert(parent == path[last - 1]);
        assert forall|k: int| 0 <= k < shorter.len() implies taken(
            world,
            named_only,
            #[trigger] shorter[k],
        ) by {
            assert(shorter[k] == path[k]);
        }
        assert forall|k: int| 0 < k < shorter.len() implies onward(world, shorter[k - 1]).contains(
            #[trigger] shorter[k],
        ) by {
            assert(shorter[k] == path[k]);
            assert(shorter[k - 1] == path[k - 1]);
        }
        assert(walk(world, named_only, roots, shorter));
        assert(onward(world, path[last - 1]).contains(path[last]));
        node_found(world, parent);
        assert(node_of(world, parent, node_index(world, parent)));
        assert(in_subtrees(world, named_only, roots, parent));
    }
}

} // verus!
