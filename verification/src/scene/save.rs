//! What a save writes: which entities, and which of their components.

use vstd::prelude::*;

use crate::lineage::{ancestor, has_marked_ancestor, under_marked, Link};
use crate::scene::subtree::{collect_subtrees, in_subtrees, node_models, TreeNode};
use crate::scene::surgery::occurs_at;
use crate::text::same_text;
use crate::unicode::to_chars;

verus! {

/// What a save reads of an entity in the world.
#[derive(Clone, Copy, Debug, PartialEq, Eq, Structural)]
pub struct EntityFacts {
    pub id: u64,
    pub named: bool,
    /// Hidden from the hierarchy: editor chrome, gizmos, previews.
    pub hidden: bool,
    pub editor_camera: bool,
    pub gamepad: bool,
    /// Belongs to a global scene and outlives this one.
    pub persistent: bool,
    /// The root of an instance of another scene.
    pub scene_instance: bool,
    /// Holds a model whose nodes are spawned from its file.
    pub mesh_instance: bool,
    pub parent: Option<u64>,
}

/// The ids of entities.
pub open spec fn ids_of(list: Seq<EntityFacts>) -> Seq<u64> {
    list.map_values(|e: EntityFacts| e.id)
}

/// The parent links of a world.
pub open spec fn world_links(world: Seq<EntityFacts>) -> Seq<Link>
    decreases world.len(),
{
    if world.len() == 0 {
        Seq::empty()
    } else {
        let before = world_links(world.drop_last());
        match world.last().parent {
            Some(parent) => before.push(Link { child: world.last().id, parent }),
            None => before,
        }
    }
}

/// Being hidden from the hierarchy.
pub open spec fn is_hidden() -> spec_fn(EntityFacts) -> bool {
    |e: EntityFacts| e.hidden
}

/// Being the root of a scene instance.
pub open spec fn is_scene_instance() -> spec_fn(EntityFacts) -> bool {
    |e: EntityFacts| e.scene_instance
}

/// Holding a model.
pub open spec fn is_mesh_instance() -> spec_fn(EntityFacts) -> bool {
    |e: EntityFacts| e.mesh_instance
}

/// Whether an entity is scene content of its own: named, not chrome, not an
/// editor camera or a gamepad, and not a global scene's.
pub open spec fn is_content(e: EntityFacts) -> bool {
    e.named && !e.hidden && !e.editor_camera && !e.gamepad && !e.persistent
}

/// Being written by a save: scene content outside editor chrome, outside
/// instances of other scenes (those live in their own files), and outside
/// models (those are regenerated).
pub open spec fn saved(world: Seq<EntityFacts>) -> spec_fn(EntityFacts) -> bool {
    |e: EntityFacts|
        {
            let links = world_links(world);
            &&& is_content(e)
            &&& !under_marked(links, e.id, ids_of(world.filter(is_hidden())))
            &&& !under_marked(links, e.id, ids_of(world.filter(is_scene_instance())))
            &&& !under_marked(links, e.id, ids_of(world.filter(is_mesh_instance())))
        }
}

/// The parent links of a world.
pub fn collect_world_links(world: &Vec<EntityFacts>) -> (r: Vec<Link>)
    ensures
        r@ == world_links(world@),
{
    let mut out: Vec<Link> = Vec::new();
    let mut i: usize = 0;
    assert(world@.take(0).len() == 0);
    while i < world.len()
        invariant
            i <= world@.len(),
            out@ == world_links(world@.take(i as int)),
        decreases world@.len() - i,
    {
        assert(world@.take(i + 1).drop_last() == world@.take(i as int));
        if let Some(parent) = world[i].parent {
            out.push(Link { child: world[i].id, parent });
        }
        i += 1;
    }
    assert(world@.take(i as int) == world@);
    out
}

/// The ids of the entities that pass a test.
pub(crate) fn ids_where<F: Fn(&EntityFacts) -> bool>(
    world: &Vec<EntityFacts>,
    test: F,
    Ghost(pass): Ghost<spec_fn(EntityFacts) -> bool>,
) -> (r: Vec<u64>)
    requires
        forall|i: int| 0 <= i < world@.len() ==> call_requires(test, (&#[trigger] world@[i],)),
        forall|i: int, b: bool|
            0 <= i < world@.len() && #[trigger] call_ensures(test, (&world@[i],), b) ==> b == pass(
                world@[i],
            ),
    ensures
        r@ == ids_of(world@.filter(pass)),
{
    let mut out: Vec<u64> = Vec::new();
    let mut i: usize = 0;
    proof {
        reveal(Seq::filter);
        assert(world@.take(0).filter(pass) =~= Seq::<EntityFacts>::empty());
    }
    while i < world.len()
        invariant
            i <= world@.len(),
            forall|k: int| 0 <= k < world@.len() ==> call_requires(test, (&#[trigger] world@[k],)),
            forall|k: int, b: bool|
                0 <= k < world@.len() && #[trigger] call_ensures(test, (&world@[k],), b) ==> b
                    == pass(world@[k]),
            out@ == ids_of(world@.take(i as int).filter(pass)),
        decreases world@.len() - i,
    {
        let ghost before = world@.take(i as int).filter(pass);
        proof {
            reveal(Seq::filter);
            assert(world@.take(i + 1).drop_last() == world@.take(i as int));
            assert(world@.take(i + 1).last() == world@[i as int]);
        }
        let keep: bool = test(&world[i]);
        assert(keep == pass(world@[i as int]));
        if keep {
            out.push(world[i].id);
            assert(ids_of(before.push(world@[i as int])) =~= ids_of(before).push(
                world@[i as int].id,
            ));
        }
        i += 1;
    }
    assert(world@.take(i as int) == world@);
    out
}

/// The entities hidden from the hierarchy.
pub fn hidden_ids(world: &Vec<EntityFacts>) -> (r: Vec<u64>)
    ensures
        r@ == ids_of(world@.filter(is_hidden())),
{
    let test = |e: &EntityFacts| -> (b: bool)
        ensures
            b == e.hidden,
        {
            e.hidden
        };
    ids_where(world, test, Ghost(is_hidden()))
}

/// Whether any ancestor of `id` is hidden from the hierarchy. Editor chrome
/// lives under such a root, but the marker sits ONLY on the root, so its named
/// child widgets would pass a direct filter.
pub fn has_hidden_ancestor(world: &Vec<EntityFacts>, id: u64) -> (r: bool)
    ensures
        r == under_marked(world_links(world@), id, ids_of(world@.filter(is_hidden()))),
{
    let links = collect_world_links(world);
    let hidden = hidden_ids(world);
    has_marked_ancestor(&links, id, &hidden)
}

/// The entities that a save of the scene writes, to a file or to a string.
pub fn saved_entities(world: &Vec<EntityFacts>) -> (r: Vec<u64>)
    ensures
        r@ == ids_of(world@.filter(saved(world@))),
{
    let links = collect_world_links(world);
    let hidden = hidden_ids(world);
    let instance_test = |e: &EntityFacts| -> (b: bool)
        ensures
            b == e.scene_instance,
        {
            e.scene_instance
        };
    let instances = ids_where(world, instance_test, Ghost(is_scene_instance()));
    let mesh_test = |e: &EntityFacts| -> (b: bool)
        ensures
            b == e.mesh_instance,
        {
            e.mesh_instance
        };
    let meshes = ids_where(world, mesh_test, Ghost(is_mesh_instance()));
    let test = |e: &EntityFacts| -> (b: bool)
        ensures
            b == (is_content(*e) && !under_marked(links@, e.id, hidden@) && !under_marked(
                links@,
                e.id,
                instances@,
            ) && !under_marked(links@, e.id, meshes@)),
        {
            e.named && !e.hidden && !e.editor_camera && !e.gamepad && !e.persistent
                && !has_marked_ancestor(&links, e.id, &hidden) && !has_marked_ancestor(
                &links,
                e.id,
                &instances,
            ) && !has_marked_ancestor(&links, e.id, &meshes)
        };
    ids_where(world, test, Ghost(saved(world@)))
}

/// The text of a scene without entities.
pub fn empty_scene_text() -> (r: &'static str)
    ensures
        r@ == "(entities: {}, resources: {})"@,
{
    "(entities: {}, resources: {})"
}

/// What a save does.
pub enum SavePlan {
    /// There is nothing to save: this text is written.
    Empty(&'static str),
    /// These entities are written.
    Entities(Vec<u64>),
}

/// What a save of the scene does. A scene without entities is written too, so
/// that the file tells of it.
pub fn save_scene(world: &Vec<EntityFacts>) -> (r: SavePlan)
    ensures
        match r {
            SavePlan::Empty(text) => text@ == "(entities: {}, resources: {})"@ && world@.filter(
                saved(world@),
            ).len() == 0,
            SavePlan::Entities(all) => all@ == ids_of(world@.filter(saved(world@))) && all@.len()
                > 0,
        },
{
    let all = saved_entities(world);
    if all.len() == 0 {
        SavePlan::Empty(empty_scene_text())
    } else {
        SavePlan::Entities(all)
    }
}

/// Nothing below editor chrome, below an instance of another scene or below a
/// model is saved, at whatever depth.
pub proof fn nothing_below_is_saved(world: Seq<EntityFacts>, e: EntityFacts, n: nat, k: int)
    requires
        n > 0,
        0 <= k < world.len(),
        ancestor(world_links(world), e.id, n) == Some(world[k].id),
        world[k].hidden || world[k].scene_instance || world[k].mesh_instance,
    ensures
        !saved(world)(e),
{
    let links = world_links(world);
    let pass = if world[k].hidden {
        is_hidden()
    } else if world[k].scene_instance {
        is_scene_instance()
    } else {
        is_mesh_instance()
    };
    world.lemma_filter_contains(pass, k);
    let kept = world.filter(pass);
    let i = choose|i: int| 0 <= i < kept.len() && kept[i] == world[k];
    assert(ids_of(kept)[i] == world[k].id);
    assert(ids_of(kept).contains(world[k].id));
    assert(under_marked(links, e.id, ids_of(kept)));
}

// ── Components ──

/// Whether `text` starts with `prefix`.
pub open spec fn starts_with(text: Seq<char>, prefix: Seq<char>) -> bool {
    occurs_at(text, prefix, 0)
}

/// Whether `text` ends with `suffix`.
pub open spec fn ends_with(text: Seq<char>, suffix: Seq<char>) -> bool {
    occurs_at(text, suffix, text.len() - suffix.len())
}

/// Types of crates whose components are never persisted: they are editor-only,
/// or regenerated on load from what is.
pub open spec fn foreign_type(path: Seq<char>) -> bool {
    starts_with(path, "bevy_mod_outline::"@) || starts_with(path, "avian3d::"@) || starts_with(
        path,
        "avian2d::"@,
    ) || starts_with(path, "bevy_gaussian_splatting::"@)
}

/// Links into the render world and data computed every frame.
pub open spec fn transient_type(path: Seq<char>) -> bool {
    path == "bevy_render::sync_world::RenderEntity"@ || path == "bevy_light::cascade::Cascades"@
        || path == "bevy_camera::primitives::CascadesFrusta"@ || path
        == "bevy_camera::visibility::CascadesVisibleEntities"@ || path
        == "bevy_camera::visibility::InheritedVisibility"@
}

/// A child-to-parent link.
pub open spec fn parent_type(path: Seq<char>) -> bool {
    ends_with(path, "::ChildOf"@) || path == "bevy_ecs::hierarchy::ChildOf"@
}

/// Whether `text` starts with `prefix`.
pub fn has_prefix(text: &str, prefix: &str) -> (r: bool)
    ensures
        r == starts_with(text@, prefix@),
{
    let a = to_chars(text);
    let b = to_chars(prefix);
    if b.len() > a.len() {
        return false;
    }
    part_matches(&a, &b, 0)
}

/// Whether `text` ends with `suffix`.
pub fn has_suffix(text: &str, suffix: &str) -> (r: bool)
    ensures
        r == ends_with(text@, suffix@),
{
    let a = to_chars(text);
    let b = to_chars(suffix);
    if b.len() > a.len() {
        return false;
    }
    let at: usize = a.len() - b.len();
    part_matches(&a, &b, at)
}

fn part_matches(text: &Vec<char>, part: &Vec<char>, at: usize) -> (r: bool)
    requires
        at + part@.len() <= text@.len(),
    ensures
        r == occurs_at(text@, part@, at as int),
{
    let total: usize = text.len();
    let mut i: usize = 0;
    while i < part.len()
        invariant
            i <= part@.len(),
            total == text@.len(),
            at + part@.len() <= text@.len(),
            forall|k: int| 0 <= k < i ==> text@[at + k] == part@[k],
        decreases part@.len() - i,
    {
        if text[at + i] != part[i] {
            assert(text@.subrange(at as int, at + part@.len())[i as int] != part@[i as int]);
            return false;
        }
        i += 1;
    }
    assert(text@.subrange(at as int, at + part@.len()) =~= part@);
    true
}

fn is_foreign_type(path: &str) -> (r: bool)
    ensures
        r == foreign_type(path@),
{
    has_prefix(path, "bevy_mod_outline::") || has_prefix(path, "avian3d::") || has_prefix(
        path,
        "avian2d::",
    ) || has_prefix(path, "bevy_gaussian_splatting::")
}

fn is_transient_type(path: &str) -> (r: bool)
    ensures
        r == transient_type(path@),
{
    same_text(path, "bevy_render::sync_world::RenderEntity") || same_text(
        path,
        "bevy_light::cascade::Cascades",
    ) || same_text(path, "bevy_camera::primitives::CascadesFrusta") || same_text(
        path,
        "bevy_camera::visibility::CascadesVisibleEntities",
    ) || same_text(path, "bevy_camera::visibility::InheritedVisibility")
}

/// Whether a scene save writes a component, given whether it can be serialized
/// at all.
pub fn saves_component(type_path: &str, serializable: bool) -> (r: bool)
    ensures
        r == (!foreign_type(type_path@) && !transient_type(type_path@) && serializable),
{
    !is_foreign_type(type_path) && !is_transient_type(type_path) && serializable
}

/// Whether a snapshot of a subtree takes a component. Links to parents are
/// kept, so that each entity restores under its original parent.
pub fn snapshots_component(type_path: &str, serializable: bool) -> (r: bool)
    ensures
        r == (!foreign_type(type_path@) && serializable),
{
    !is_foreign_type(type_path) && serializable
}

/// Whether a prefab source keeps a component. Links to the instance itself are
/// dropped: in the source file its direct children become roots. `target` is
/// the parent that a link names.
pub fn prefab_keeps_component(
    type_path: &str,
    target: Option<u64>,
    instance: u64,
    serializable: bool,
) -> (r: bool)
    ensures
        r == (!foreign_type(type_path@) && !(parent_type(type_path@) && target == Some(instance))
            && serializable),
{
    let to_instance: bool = match target {
        Some(parent) => parent == instance,
        None => false,
    };
    !is_foreign_type(type_path) && !(to_instance && (has_suffix(type_path, "::ChildOf")
        || same_text(type_path, "bevy_ecs::hierarchy::ChildOf"))) && serializable
}

// ── Subtrees ──

/// The entities that a snapshot of `roots` takes: the roots and their
/// descendants that exist, each once, but nothing below a mesh instance, whose
/// nodes are rebuilt on restore. `None` if there is nothing to take.
pub fn snapshot_entity_subtrees(world: &Vec<TreeNode>, roots: &Vec<u64>) -> (r: Option<Vec<u64>>)
    ensures
        match r {
            Some(all) => {
                &&& all@.len() > 0
                &&& all@.no_duplicates()
                &&& forall|id: u64| #[trigger]
                    all@.contains(id) <==> in_subtrees(
                        node_models(world@),
                        false,
                        roots@,
                        id,
                    )
            },
            None => forall|id: u64| !in_subtrees(node_models(world@), false, roots@, id),
        },
{
    let all = collect_subtrees(world, roots, false);
    if all.len() == 0 {
        assert forall|id: u64| !in_subtrees(node_models(world@), false, roots@, id) by {
            assert(!all@.contains(id));
        }
        None
    } else {
        Some(all)
    }
}

/// The entities that go into a prefab source: the named descendants of the
/// instance whose `children` are given, each once. An unnamed entity is left out
/// with everything below it, and nothing below a mesh instance is taken. `None`
/// if there is nothing to write: an existing source file is then left alone
/// rather than overwritten with an empty scene.
pub fn save_prefab_source(world: &Vec<TreeNode>, children: &Vec<u64>) -> (r: Option<Vec<u64>>)
    ensures
        match r {
            Some(all) => {
                &&& all@.len() > 0
                &&& all@.no_duplicates()
                &&& forall|id: u64| #[trigger]
                    all@.contains(id) <==> in_subtrees(
                        node_models(world@),
                        true,
                        children@,
                        id,
                    )
            },
            None => forall|id: u64| !in_subtrees(node_models(world@), true, children@, id),
        },
{
    let all = collect_subtrees(world, children, true);
    if all.len() == 0 {
        assert forall|id: u64| !in_subtrees(node_models(world@), true, children@, id) by {
            assert(!all@.contains(id));
        }
        None
    } else {
        Some(all)
    }
}

} // verus!
