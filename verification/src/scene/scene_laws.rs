//! What loading, pruning, stripping and mirroring a scene do, told from what is
//! in it.

use vstd::prelude::*;

use crate::lineage::{ancestor, parent_of, under_marked};
use crate::scalar::{Point, Scalar};
use crate::scene::cameras::{
    camera_setups, enforced, lead_camera, misplaced, same_names, sync_action, CameraSetup,
    SceneCam, SyncAction, SyncModel,
};
use crate::scene::instances::{
    arrived, references_to, saved_back, to_expand, InstanceModel, SourceModel,
};
use crate::scene::load::{
    announced, chosen_text, empty_text, ended, LoadEnd, LoadEventModel, LoadModel, SceneLoadPhase,
};
use crate::scene::paths::{forward_slashes, fully_undotted, undotted};
use crate::scene::prune::{
    canvas_ids, housed, orphaned, rooted, scene_ids, scene_links, under_canvas, ComponentModel,
    EntityModel,
};
use crate::scene::restore::{mapped, outer_parent, Mapping};
use crate::scene::save_laws::ends;
use crate::scene::source_laws::reads;
use crate::scene::sprites::{
    at_least_one, image_applied, placeholder_size, same_part, same_size, size_applied, Corners,
    SheetCrop, SpriteSheet, SpriteState, Tint,
};
use crate::scene::surgery::{
    after_blanks, closing, cut_end, cut_start, entry_range, find_from, found_is_first, indent,
    named_type, next_char, occurs_at, quoted,
};
use crate::text::{position, position_found, position_is_first};
use crate::unicode::trimmed;

verus! {

// ── Paths ──

/// Backslashes become slashes and all else stays, in place.
pub proof fn slashes_go_forward(path: Seq<char>, k: int)
    requires
        0 <= k < path.len(),
    ensures
        forward_slashes(path).len() == path.len(),
        forward_slashes(path)[k] == (if path[k] == '\\' {
            '/'
        } else {
            path[k]
        }),
{
}

/// One `./` is dropped from the front, and where all are, none is left there.
pub proof fn dots_are_dropped(rest: Seq<char>)
    ensures
        undotted(seq!['.', '/'] + rest) == rest,
        fully_undotted(seq!['.', '/'] + rest) == fully_undotted(rest),
        !(rest.len() >= 2 && rest[0] == '.' && rest[1] == '/') ==> undotted(rest) == rest
            && fully_undotted(rest) == rest,
{
    let path = seq!['.', '/'] + rest;
    assert(path[0] == '.' && path[1] == '/');
    assert(path.skip(2) =~= rest);
}

// ── Serialized scenes ──

/// A component is there where some component has its type. The parent is told by
/// the first link to one, and interface nodes and canvases by their components.
pub proof fn components_tell_what_an_entity_is(e: EntityModel, type_path: Seq<char>, k: int)
    ensures
        e.has(type_path) <==> exists|i: int|
            0 <= i < e.components.len() && (#[trigger] e.components[i]).type_path == type_path,
        e.is_ui() <==> exists|i: int|
            0 <= i < e.components.len() && (#[trigger] e.components[i]).type_path
                == "bevy_ui::ui_node::Node"@,
        e.is_canvas() <==> exists|i: int|
            0 <= i < e.components.len() && (#[trigger] e.components[i]).type_path
                == "renzora_ember::game_ui::components::canvas::UiCanvas"@,
        0 <= k < e.components.len() && e.components[k].type_path
            == "bevy_ecs::hierarchy::ChildOf"@ && e.components[k].target is Some && (forall|j: int|
            0 <= j < k ==> (#[trigger] e.components[j]).type_path
                != "bevy_ecs::hierarchy::ChildOf"@ || e.components[j].target is None) ==> e.parent()
            == e.components[k].target,
        (forall|j: int|
            0 <= j < e.components.len() ==> (#[trigger] e.components[j]).type_path
                != "bevy_ecs::hierarchy::ChildOf"@ || e.components[j].target is None)
            ==> e.parent() is None,
{
    has_is_there(e, type_path);
    has_is_there(e, "bevy_ui::ui_node::Node"@);
    has_is_there(e, "renzora_ember::game_ui::components::canvas::UiCanvas"@);
    let flags = e.components.map_values(
        |c: ComponentModel| c.type_path == "bevy_ecs::hierarchy::ChildOf"@ && c.target is Some,
    );
    position_is_first(flags, true);
    if 0 <= k < e.components.len() && e.components[k].type_path == "bevy_ecs::hierarchy::ChildOf"@
        && e.components[k].target is Some && (forall|j: int|
        0 <= j < k ==> (#[trigger] e.components[j]).type_path != "bevy_ecs::hierarchy::ChildOf"@
            || e.components[j].target is None) {
        assert forall|j: int| 0 <= j < k implies flags[j] != true by {
            assert(e.components[j].type_path != "bevy_ecs::hierarchy::ChildOf"@
                || e.components[j].target is None);
        }
        position_found(flags, true, k);
    }
    let i = position(flags, true);
    if i < e.components.len() {
        assert(flags[i]);
        assert(e.components[i].type_path == "bevy_ecs::hierarchy::ChildOf"@
            && e.components[i].target is Some);
    }
}

proof fn has_is_there(e: EntityModel, type_path: Seq<char>)
    ensures
        e.has(type_path) <==> exists|i: int|
            0 <= i < e.components.len() && (#[trigger] e.components[i]).type_path == type_path,
{
    let flags = e.components.map_values(|c: ComponentModel| c.type_path == type_path);
    position_is_first(flags, true);
    let i = position(flags, true);
    if i < e.components.len() {
        assert(flags[i]);
        assert(e.components[i].type_path == type_path);
    }
    if exists|i: int|
        0 <= i < e.components.len() && (#[trigger] e.components[i]).type_path == type_path {
        let i = choose|i: int|
            0 <= i < e.components.len() && (#[trigger] e.components[i]).type_path == type_path;
        assert(flags[i]);
    }
}

// ── Pruning ──

/// No two entities of a scene share an id.
pub open spec fn distinct_entities(scene: Seq<EntityModel>) -> bool {
    forall|i: int, j: int|
        0 <= i < scene.len() && 0 <= j < scene.len() && (#[trigger] scene[i]).entity == (
        #[trigger] scene[j]).entity ==> i == j
}

/// Whether `path` goes up from parent to parent, by the places of entities.
pub open spec fn climbs(scene: Seq<EntityModel>, path: Seq<int>) -> bool {
    &&& path.len() > 0
    &&& forall|i: int| 0 <= i < path.len() ==> 0 <= #[trigger] path[i] < scene.len()
    &&& forall|i: int|
        0 < i < path.len() ==> scene[path[i - 1]].parent() == Some(scene[#[trigger] path[i]].entity)
}

/// Whether a parent named at an entity or above it is not in the scene.
pub open spec fn loses_its_root(scene: Seq<EntityModel>, k: int) -> bool {
    exists|path: Seq<int>| #[trigger]
        climbs(scene, path) && path[0] == k && (scene[path.last()].parent() matches Some(p)
            && !scene_ids(scene).contains(p))
}

/// Whether an entity or something above it is a canvas.
pub open spec fn reaches_a_canvas(scene: Seq<EntityModel>, k: int) -> bool {
    exists|path: Seq<int>| #[trigger]
        climbs(scene, path) && path[0] == k && scene[path.last()].is_canvas()
}

proof fn scene_links_have_entities(scene: Seq<EntityModel>, id: u64)
    ensures
        parent_of(scene_links(scene), id) matches Some(p) ==> exists|k: int|
            0 <= k < scene.len() && (#[trigger] scene[k]).entity == id && scene[k].parent() == Some(
                p,
            ),
    decreases scene.len(),
{
    if scene.len() > 0 {
        let rest = scene.drop_last();
        scene_links_have_entities(rest, id);
        let links = scene_links(scene);
        if scene.last().parent() is Some {
            assert(links.drop_last() =~= scene_links(rest));
            if scene.last().entity == id {
                assert(scene[scene.len() - 1].entity == id);
            }
        }
        if let Some(p) = parent_of(links, id) {
            if !(scene.last().entity == id && scene.last().parent() is Some) {
                let k = choose|k: int|
                    0 <= k < rest.len() && (#[trigger] rest[k]).entity == id && rest[k].parent()
                        == Some(p);
                assert(scene[k].entity == id);
            }
        }
    }
}

proof fn scene_entities_have_links(scene: Seq<EntityModel>, k: int)
    requires
        distinct_entities(scene),
        0 <= k < scene.len(),
    ensures
        parent_of(scene_links(scene), scene[k].entity) == scene[k].parent(),
    decreases scene.len(),
{
    let rest = scene.drop_last();
    let links = scene_links(scene);
    let id = scene[k].entity;
    assert forall|i: int, j: int|
        0 <= i < rest.len() && 0 <= j < rest.len() && (#[trigger] rest[i]).entity == (
        #[trigger] rest[j]).entity implies i == j by {
        assert(scene[i].entity == scene[j].entity);
    }
    if scene.last().parent() is Some {
        assert(links.drop_last() =~= scene_links(rest));
    }
    if k < rest.len() {
        assert(scene[scene.len() - 1].entity != scene[k].entity);
        scene_entities_have_links(rest, k);
        assert(rest[k] == scene[k]);
    } else {
        scene_links_have_entities(rest, id);
        if parent_of(scene_links(rest), id) is Some {
            let p = parent_of(scene_links(rest), id)->0;
            let j = choose|j: int|
                0 <= j < rest.len() && (#[trigger] rest[j]).entity == id && rest[j].parent()
                    == Some(p);
            assert(scene[j].entity == scene[k].entity);
        }
    }
}

proof fn climb_is_ancestry(scene: Seq<EntityModel>, path: Seq<int>)
    requires
        distinct_entities(scene),
        climbs(scene, path),
    ensures
        ancestor(scene_links(scene), scene[path[0]].entity, (path.len() - 1) as nat) == Some(
            scene[path.last()].entity,
        ),
    decreases path.len(),
{
    if path.len() > 1 {
        let shorter = path.drop_last();
        assert forall|i: int| 0 < i < shorter.len() implies scene[shorter[i - 1]].parent() == Some(
            scene[#[trigger] shorter[i]].entity,
        ) by {
            assert(shorter[i] == path[i]);
            assert(shorter[i - 1] == path[i - 1]);
        }
        assert forall|i: int| 0 <= i < shorter.len() implies 0 <= #[trigger] shorter[i]
            < scene.len() by {
            assert(shorter[i] == path[i]);
        }
        climb_is_ancestry(scene, shorter);
        let last = path.len() - 1;
        assert(scene[path[last - 1]].parent() == Some(scene[path[last]].entity));
        scene_entities_have_links(scene, path[last - 1]);
    }
}

proof fn ancestry_is_a_climb(scene: Seq<EntityModel>, k: int, n: nat, j: int)
    requires
        distinct_entities(scene),
        0 <= k < scene.len(),
        0 <= j < scene.len(),
        ancestor(scene_links(scene), scene[k].entity, n) == Some(scene[j].entity),
    ensures
        exists|path: Seq<int>| #[trigger]
            climbs(scene, path) && path.len() == n + 1 && path[0] == k && path.last() == j,
    decreases n,
{
    let links = scene_links(scene);
    if n == 0 {
        assert(scene[k].entity == scene[j].entity);
        let path = seq![k];
        assert(climbs(scene, path));
    } else {
        let b = ancestor(links, scene[k].entity, (n - 1) as nat)->0;
        scene_links_have_entities(scene, b);
        let i = choose|i: int|
            0 <= i < scene.len() && (#[trigger] scene[i]).entity == b && scene[i].parent() == Some(
                scene[j].entity,
            );
        ancestry_is_a_climb(scene, k, (n - 1) as nat, i);
        let path = choose|path: Seq<int>| #[trigger]
            climbs(scene, path) && path.len() == n && path[0] == k && path.last() == i;
        let longer = path.push(j);
        assert forall|m: int| 0 < m < longer.len() implies scene[longer[m - 1]].parent() == Some(
            scene[#[trigger] longer[m]].entity,
        ) by {
            if m < path.len() {
                assert(longer[m] == path[m]);
                assert(longer[m - 1] == path[m - 1]);
            } else {
                assert(longer[m - 1] == path.last());
            }
        }
        assert forall|m: int| 0 <= m < longer.len() implies 0 <= #[trigger] longer[m]
            < scene.len() by {
            if m < path.len() {
                assert(longer[m] == path[m]);
            }
        }
        assert(climbs(scene, longer));
    }
}

proof fn canvases_are_listed(scene: Seq<EntityModel>, id: u64)
    ensures
        canvas_ids(scene).contains(id) <==> exists|k: int|
            0 <= k < scene.len() && (#[trigger] scene[k]).entity == id && scene[k].is_canvas(),
    decreases scene.len(),
{
    if scene.len() > 0 {
        let rest = scene.drop_last();
        let before = canvas_ids(rest);
        let all = canvas_ids(scene);
        canvases_are_listed(rest, id);
        if all.contains(id) {
            let m = choose|m: int| 0 <= m < all.len() && all[m] == id;
            if m < before.len() {
                assert(before[m] == id);
                let k = choose|k: int|
                    0 <= k < rest.len() && (#[trigger] rest[k]).entity == id && rest[k].is_canvas();
                assert(scene[k].entity == id);
            } else {
                assert(scene[scene.len() - 1].entity == id);
            }
        }
        if exists|k: int|
            0 <= k < scene.len() && (#[trigger] scene[k]).entity == id && scene[k].is_canvas() {
            let k = choose|k: int|
                0 <= k < scene.len() && (#[trigger] scene[k]).entity == id && scene[k].is_canvas();
            if k < rest.len() {
                assert(rest[k].entity == id);
                let m = choose|m: int| 0 <= m < before.len() && before[m] == id;
                assert(all[m] == id);
            } else {
                assert(all[before.len() as int] == id);
            }
        }
    }
}

/// A scene keeps every entity but the interface nodes that lost their root: where
/// a parent named at such a node or above it is not in the scene, the node goes.
pub proof fn orphaned_nodes_go(scene: Seq<EntityModel>, k: int)
    requires
        distinct_entities(scene),
        0 <= k < scene.len(),
    ensures
        rooted(scene)(scene[k]) == !(scene[k].is_ui() && loses_its_root(scene, k)),
{
    let links = scene_links(scene);
    let id = scene[k].entity;
    if orphaned(scene, id) {
        let n = choose|n: nat|
            n > 0 && (#[trigger] ancestor(links, id, n) matches Some(a) && !scene_ids(
                scene,
            ).contains(a));
        let a = ancestor(links, id, n)->0;
        let b = ancestor(links, id, (n - 1) as nat)->0;
        scene_links_have_entities(scene, b);
        let j = choose|j: int|
            0 <= j < scene.len() && (#[trigger] scene[j]).entity == b && scene[j].parent() == Some(
                a,
            );
        ancestry_is_a_climb(scene, k, (n - 1) as nat, j);
        let path = choose|path: Seq<int>| #[trigger]
            climbs(scene, path) && path.len() == n && path[0] == k && path.last() == j;
        assert(loses_its_root(scene, k));
    }
    if loses_its_root(scene, k) {
        let path = choose|path: Seq<int>| #[trigger]
            climbs(scene, path) && path[0] == k && (scene[path.last()].parent() matches Some(p)
                && !scene_ids(scene).contains(p));
        climb_is_ancestry(scene, path);
        scene_entities_have_links(scene, path.last());
        let n = path.len();
        assert(ancestor(links, id, n) == scene[path.last()].parent());
    }
}

/// A scene keeps every entity but the interface nodes without a canvas at or above
/// them.
pub proof fn homeless_nodes_go(scene: Seq<EntityModel>, k: int)
    requires
        distinct_entities(scene),
        0 <= k < scene.len(),
    ensures
        housed(scene)(scene[k]) == (!scene[k].is_ui() || reaches_a_canvas(scene, k)),
{
    let links = scene_links(scene);
    let marks = canvas_ids(scene);
    let id = scene[k].entity;
    if under_canvas(scene, id) {
        let n: nat = if marks.contains(id) {
            0
        } else {
            choose|n: nat|
                n > 0 && (#[trigger] ancestor(links, id, n) matches Some(a) && marks.contains(a))
        };
        let a = ancestor(links, id, n)->0;
        canvases_are_listed(scene, a);
        let j = choose|j: int|
            0 <= j < scene.len() && (#[trigger] scene[j]).entity == a && scene[j].is_canvas();
        ancestry_is_a_climb(scene, k, n, j);
        let path = choose|path: Seq<int>| #[trigger]
            climbs(scene, path) && path.len() == n + 1 && path[0] == k && path.last() == j;
        assert(reaches_a_canvas(scene, k));
    }
    if reaches_a_canvas(scene, k) {
        let path = choose|path: Seq<int>| #[trigger]
            climbs(scene, path) && path[0] == k && scene[path.last()].is_canvas();
        climb_is_ancestry(scene, path);
        canvases_are_listed(scene, scene[path.last()].entity);
        let n = (path.len() - 1) as nat;
        if n > 0 {
            assert(ancestor(links, id, n) matches Some(a) && marks.contains(a));
            assert(under_marked(links, id, marks));
        }
    }
}

// ── Loading ──

/// A load that found nothing leaves the state; one that wrote a scene, or an
/// empty one, makes it ready and full; one that was rejected makes it failed. The
/// path stays in all of them. All but the first are announced, by their path.
pub proof fn loads_end_as_they_went(state: LoadModel, path: Seq<char>, error: String)
    ensures
        ended(state, LoadEnd::Unavailable) == state,
        announced(path, LoadEnd::Unavailable) is None,
        ended(state, LoadEnd::Written) == (LoadModel {
            phase: SceneLoadPhase::Ready,
            current_path: state.current_path,
            progress: Scalar { bits: 0x3F80_0000 },
        }),
        ended(state, LoadEnd::Empty) == ended(state, LoadEnd::Written),
        announced(path, LoadEnd::Written) == Some(LoadEventModel::Loaded { path }),
        announced(path, LoadEnd::Empty) == Some(LoadEventModel::Loaded { path }),
        ended(state, LoadEnd::Rejected(error)) == (LoadModel {
            phase: SceneLoadPhase::Failed,
            current_path: state.current_path,
            progress: state.progress,
        }),
        announced(path, LoadEnd::Rejected(error)) == Some(
            LoadEventModel::Failed { path, error: error@ },
        ),
{
}

/// A scene without entities is white space or the empty scene, with white space
/// round it.
pub proof fn empty_scenes_are_told(text: Seq<char>)
    ensures
        empty_text(text) <==> trimmed(text) == Seq::<char>::empty() || trimmed(text)
            == "(entities: {}, resources: {})"@,
{
    if trimmed(text).len() == 0 {
        assert(trimmed(text) =~= Seq::<char>::empty());
    }
}

/// The archive comes before what was read ahead, and that before the disk.
pub proof fn archives_come_first(archive: Option<String>, ahead: Option<String>, disk: Option<String>)
    ensures
        archive is Some ==> chosen_text(archive, ahead, disk) == Some((archive->0)@),
        archive is None && ahead is Some ==> chosen_text(archive, ahead, disk) == Some(
            (ahead->0)@,
        ),
        archive is None && ahead is None && disk is Some ==> chosen_text(archive, ahead, disk)
            == Some((disk->0)@),
        archive is None && ahead is None && disk is None ==> chosen_text(
            archive,
            ahead,
            disk,
        ) is None,
{
}

// ── Instances ──

/// An instance is expanded where it has no children yet, its source is not being
/// expanded above it, and no streaming takes care of it.
pub proof fn bare_instances_are_expanded(
    i: InstanceModel,
    streaming: bool,
    stack: Seq<Seq<Seq<char>>>,
)
    ensures
        to_expand(streaming, stack)(i) <==> !i.has_children && !(exists|k: int|
            0 <= k < stack.len() && #[trigger] stack[k] == i.source) && (!streaming
            || !i.streamed),
{
    if exists|k: int| 0 <= k < stack.len() && #[trigger] stack[k] == i.source {
        let k = choose|k: int| 0 <= k < stack.len() && #[trigger] stack[k] == i.source;
        assert(stack.contains(i.source));
    }
}

/// What arrived with a load is what was not there before, but for the instance.
pub proof fn arrivals_were_not_there(before: Seq<u64>, instance: u64, e: u64)
    ensures
        arrived(before, instance)(e) <==> !before.contains(e) && e != instance,
{
}

/// An instance is saved back where no other has its source, and its source is not
/// the host scene.
pub proof fn lone_instances_are_saved_back(
    list: Seq<SourceModel>,
    host: Option<Seq<Seq<char>>>,
    k: int,
)
    requires
        0 <= k < list.len(),
    ensures
        saved_back(list, host)(list[k]) <==> !(host is Some && list[k].canonical == host) && (
        forall|j: int|
            0 <= j < list.len() && (#[trigger] list[j]).source == list[k].source ==> j == k),
{
    let source = list[k].source;
    references_are_counted(list, source);
    if forall|j: int| 0 <= j < list.len() && (#[trigger] list[j]).source == source ==> j == k {
        if references_to(list, source) > 1 {
            let (i, j) = choose|i: int, j: int|
                0 <= i < j < list.len() && (#[trigger] list[i]).source == source && (
                #[trigger] list[j]).source == source;
            assert(i == k && j == k);
        }
    } else {
        let j = choose|j: int|
            0 <= j < list.len() && (#[trigger] list[j]).source == source && j != k;
        let low = if j < k {
            j
        } else {
            k
        };
        let high = if j < k {
            k
        } else {
            j
        };
        assert(list[low].source == source && list[high].source == source);
    }
}

proof fn references_are_counted(list: Seq<SourceModel>, source: Seq<char>)
    ensures
        references_to(list, source) >= 1 <==> exists|i: int|
            0 <= i < list.len() && (#[trigger] list[i]).source == source,
        references_to(list, source) > 1 <==> exists|i: int, j: int|
            0 <= i < j < list.len() && (#[trigger] list[i]).source == source && (
            #[trigger] list[j]).source == source,
    decreases list.len(),
{
    if list.len() > 0 {
        let rest = list.drop_last();
        let last = list.len() - 1;
        references_are_counted(rest, source);
        if exists|i: int| 0 <= i < rest.len() && (#[trigger] rest[i]).source == source {
            let i = choose|i: int| 0 <= i < rest.len() && (#[trigger] rest[i]).source == source;
            assert(list[i].source == source);
            if list[last].source == source {
                assert(list[i].source == source && list[last].source == source);
            }
        }
        if exists|i: int, j: int|
            0 <= i < j < rest.len() && (#[trigger] rest[i]).source == source && (
            #[trigger] rest[j]).source == source {
            let (i, j) = choose|i: int, j: int|
                0 <= i < j < rest.len() && (#[trigger] rest[i]).source == source && (
                #[trigger] rest[j]).source == source;
            assert(list[i].source == source && list[j].source == source);
        }
        if exists|i: int| 0 <= i < list.len() && (#[trigger] list[i]).source == source {
            let i = choose|i: int| 0 <= i < list.len() && (#[trigger] list[i]).source == source;
            if i < last {
                assert(rest[i].source == source);
            }
        }
        if exists|i: int, j: int|
            0 <= i < j < list.len() && (#[trigger] list[i]).source == source && (
            #[trigger] list[j]).source == source {
            let (i, j) = choose|i: int, j: int|
                0 <= i < j < list.len() && (#[trigger] list[i]).source == source && (
                #[trigger] list[j]).source == source;
            assert(rest[i].source == source);
            if j < last {
                assert(rest[j].source == source);
            }
        }
    }
}

// ── Cameras ──

/// Whether `k` leads among the cameras: it is the first default one, or the first
/// of all where none is.
pub open spec fn leads(cams: Seq<SceneCam>, k: int) -> bool {
    &&& 0 <= k < cams.len()
    &&& forall|j: int| 0 <= j < k ==> !(#[trigger] cams[j]).default
    &&& cams[k].default || (k == 0 && forall|j: int|
        0 <= j < cams.len() ==> !(#[trigger] cams[j]).default)
}

/// The first default camera leads, or the first of all. In a game it is the active
/// one, in an editor that does not play none is, and while playing it is the play
/// camera.
pub proof fn the_lead_camera_is_on(
    cams: Seq<SceneCam>,
    k: int,
    i: int,
    editor: bool,
    playing: bool,
)
    requires
        leads(cams, k),
        0 <= i < cams.len(),
    ensures
        lead_camera(cams) == Some(cams[k].entity),
        camera_setups(cams, editor, playing).len() == cams.len(),
        camera_setups(cams, editor, playing)[i] == (CameraSetup {
            entity: cams[i].entity,
            active: (!editor || playing) && cams[i].entity == cams[k].entity,
            play_camera: playing && cams[i].entity == cams[k].entity,
        }),
        enforced(cams, editor).len() == cams.len(),
        enforced(cams, editor)[i] == (SceneCam {
            active: !editor && cams[i].entity == cams[k].entity,
            ..cams[i]
        }),
        misplaced(cams, editor)(cams[i]) == (cams[i].active != (!editor && cams[i].entity
            == cams[k].entity)),
        lead_camera(Seq::<SceneCam>::empty()) is None,
{
    let flags = cams.map_values(|c: SceneCam| c.default);
    position_is_first(flags, true);
    if cams[k].default {
        position_found(flags, true, k);
    } else {
        let p = position(flags, true);
        if p < cams.len() {
            assert(flags[p]);
            assert(cams[p].default);
        }
    }
}

/// Settings are mirrored from the scene's camera to the editor's: overwritten or
/// added where the scene has them, removed where only the editor has; what is no
/// settings is left alone.
pub proof fn settings_are_mirrored(t: SyncModel)
    ensures
        !ends(t.type_path, "Settings"@) ==> sync_action(t) == SyncAction::Leave,
        ends(t.type_path, "Settings"@) && t.on_scene && t.on_editor ==> sync_action(t)
            == SyncAction::Apply,
        ends(t.type_path, "Settings"@) && t.on_scene && !t.on_editor ==> sync_action(t)
            == SyncAction::Insert,
        ends(t.type_path, "Settings"@) && !t.on_scene && t.on_editor ==> sync_action(t)
            == SyncAction::Remove,
        ends(t.type_path, "Settings"@) && !t.on_scene && !t.on_editor ==> sync_action(t)
            == SyncAction::Leave,
{
    crate::scene::save_laws::parts_are_read(t.type_path, "Settings"@);
}

/// Two lists name the same where each name of one is in the other.
pub proof fn names_go_without_order(a: Seq<Seq<char>>, b: Seq<Seq<char>>)
    ensures
        same_names(a, b) <==> (forall|i: int|
            0 <= i < a.len() ==> b.contains(#[trigger] a[i])) && (forall|i: int|
            0 <= i < b.len() ==> a.contains(#[trigger] b[i])),
{
    if same_names(a, b) {
        assert forall|i: int| 0 <= i < a.len() implies b.contains(#[trigger] a[i]) by {
            assert(a.contains(a[i]));
        }
        assert forall|i: int| 0 <= i < b.len() implies a.contains(#[trigger] b[i]) by {
            assert(b.contains(b[i]));
        }
    }
}

// ── Sprites ──

/// A sheet of one frame shows the whole image; any other waits for the image, and
/// then shows one cell: frames are told row by row, and start again after the
/// last. A sheet without columns or rows has one.
pub proof fn sheets_show_row_by_row(sheet: SpriteSheet, row: int, column: int, rounds: int)
    requires
        sheet.hframes > 0,
        sheet.vframes > 0,
        sheet.hframes * sheet.vframes <= u32::MAX,
        0 <= row < sheet.vframes,
        0 <= column < sheet.hframes,
        0 <= rounds,
        sheet.frame == rounds * (sheet.hframes * sheet.vframes) + row * sheet.hframes + column,
    ensures
        sheet.hframes == 1 && sheet.vframes == 1 ==> sheet.crop(true) == SheetCrop::Whole
            && sheet.crop(false) == SheetCrop::Whole,
        !(sheet.hframes == 1 && sheet.vframes == 1) ==> {
            &&& sheet.crop(false) == SheetCrop::Wait
            &&& sheet.crop(true) == (SheetCrop::Cell {
                columns: sheet.hframes,
                rows: sheet.vframes,
                column: column as u32,
                row: row as u32,
            })
        },
{
    let h = sheet.hframes as int;
    let v = sheet.vframes as int;
    let cells = h * v;
    let index = row * h + column;
    assert(0 <= index < cells) by (nonlinear_arith)
        requires
            0 <= row < v,
            0 <= column < h,
            index == row * h + column,
            cells == h * v,
    ;
    vstd::arithmetic::div_mod::lemma_fundamental_div_mod_converse(
        sheet.frame as int,
        cells,
        rounds,
        index,
    );
    vstd::arithmetic::div_mod::lemma_fundamental_div_mod_converse(index, h, row, column);
}

/// Counts of zero count as one.
pub proof fn zero_counts_as_one(n: u32)
    ensures
        at_least_one(0) == 1,
        n > 0 ==> at_least_one(n) == n,
{
}

/// A path that is cleared takes the image away, and shows the placeholder, at the
/// sprite's size or at 100 by 100; without an image nothing changes. Another image
/// is bound in white, at the saved size. The image that is bound already is shown
/// in white, at the saved size, where the placeholder was; and a saved size that
/// the sprite has not got is applied.
pub proof fn images_are_bound_and_cleared(s: SpriteState, image: u64, saved: Option<Point>)
    ensures
        s.image is None ==> image_applied(s, None, saved) == s,
        s.image is Some ==> image_applied(s, None, saved) == (SpriteState {
            image: None,
            tint: Tint::Placeholder,
            custom_size: Some(
                match s.custom_size {
                    Some(size) => size,
                    None => Point {
                        x: Scalar { bits: 0x42C8_0000 },
                        y: Scalar { bits: 0x42C8_0000 },
                    },
                },
            ),
        }),
        s.image != Some(image) ==> image_applied(s, Some(image), saved) == (SpriteState {
            image: Some(image),
            tint: Tint::White,
            custom_size: saved,
        }),
        s.image == Some(image) && s.tint == Tint::Placeholder ==> image_applied(
            s,
            Some(image),
            saved,
        ) == (SpriteState { image: Some(image), tint: Tint::White, custom_size: saved }),
        s.image == Some(image) && s.tint != Tint::Placeholder && saved is None ==> image_applied(
            s,
            Some(image),
            saved,
        ) == s,
        s.image == Some(image) && s.tint != Tint::Placeholder && saved is Some ==> {
            let after = image_applied(s, Some(image), saved);
            &&& after.image == s.image && after.tint == s.tint
            &&& after.custom_size matches Some(size) && (size == saved->0 || (s.custom_size
                == Some(size) && size.x.equal((saved->0).x) && size.y.equal((saved->0).y)))
        },
        placeholder_size() == (Point {
            x: Scalar { bits: 0x42C8_0000 },
            y: Scalar { bits: 0x42C8_0000 },
        }),
{
}

/// Parts and sizes are the same where all their numbers are.
pub proof fn parts_go_by_their_numbers(a: Corners, b: Corners, now: Option<Point>, saved: Point)
    ensures
        same_part(Some(a), Some(b)) == (a.min.x.equal(b.min.x) && a.min.y.equal(b.min.y)
            && a.max.x.equal(b.max.x) && a.max.y.equal(b.max.y)),
        same_part(None, None) && !same_part(Some(a), None) && !same_part(None, Some(b)),
        same_size(a.min, b.min) == (a.min.x.equal(b.min.x) && a.min.y.equal(b.min.y)),
        size_applied(None, saved) == saved,
        now is Some && !same_size(now->0, saved) ==> size_applied(now, saved) == saved,
        now is Some && same_size(now->0, saved) ==> size_applied(now, saved) == now->0,
{
}

// ── Restoring ──

/// What an entity became is told by its first entry.
pub proof fn first_mapping_counts(map: Seq<Mapping>, id: u64, k: int)
    ensures
        0 <= k < map.len() && map[k].old == id && (forall|j: int|
            0 <= j < k ==> (#[trigger] map[j]).old != id) ==> mapped(map, id) == Some(map[k].new),
        (forall|j: int| 0 <= j < map.len() ==> (#[trigger] map[j]).old != id) ==> mapped(
            map,
            id,
        ) is None,
{
    let flags = map.map_values(|m: Mapping| m.old == id);
    position_is_first(flags, true);
    if 0 <= k < map.len() && map[k].old == id && (forall|j: int|
        0 <= j < k ==> (#[trigger] map[j]).old != id) {
        position_found(flags, true, k);
    }
    let i = position(flags, true);
    if i < map.len() {
        assert(flags[i]);
        assert(map[i].old == id);
    }
}

/// An outer parent is a living entity that some entity of the snapshot names as
/// its parent and that is no entity of it.
pub proof fn outer_parents_live_outside(snapshot: Seq<EntityModel>, alive: Seq<u64>, id: u64)
    ensures
        outer_parent(snapshot, alive, id) <==> alive.contains(id) && (forall|k: int|
            0 <= k < snapshot.len() ==> (#[trigger] snapshot[k]).entity != id) && (exists|k: int|
            0 <= k < snapshot.len() && (#[trigger] snapshot[k]).parent() == Some(id)),
{
    let ids = scene_ids(snapshot);
    if ids.contains(id) {
        let k = choose|k: int| 0 <= k < ids.len() && ids[k] == id;
        assert(snapshot[k].entity == id);
    } else {
        assert forall|k: int| 0 <= k < snapshot.len() implies (#[trigger] snapshot[k]).entity
            != id by {
            assert(ids[k] == snapshot[k].entity);
        }
    }
}

// ── Stripping ──

/// An error that names a type.
pub open spec fn error_text(
    head: Seq<char>,
    name: Seq<char>,
    tail: Seq<char>,
    typed: bool,
) -> Seq<char> {
    head + "no registration found for "@ + (if typed {
        "type "@
    } else {
        Seq::empty()
    }) + seq!['`'] + name + seq!['`'] + tail
}

/// The type that an error names stands between backticks behind the words of the
/// error, with or without the word `type` before it.
pub proof fn errors_name_the_type(head: Seq<char>, name: Seq<char>, tail: Seq<char>, typed: bool)
    requires
        !name.contains('`'),
        forall|at: int|
            0 <= at < head.len() ==> !(#[trigger] reads(
                error_text(head, name, tail, typed),
                "no registration found for "@,
                at,
            )),
    ensures
        named_type(error_text(head, name, tail, typed)) == Some(name),
{
    let words = "no registration found for "@;
    let kind = if typed {
        "type "@
    } else {
        Seq::<char>::empty()
    };
    let text = head + words + kind + seq!['`'] + name + seq!['`'] + tail;
    reveal_strlit("no registration found for ");
    reveal_strlit("type ");
    let at = head.len() as int;
    assert(text.subrange(at, at + words.len()) =~= words);
    assert(occurs_at(text, words, at));
    found_is_first(text, words, 0);
    let found = find_from(text, words, 0)->0;
    if found < at {
        assert forall|k: int| 0 <= k < words.len() implies #[trigger] text[found + k]
            == words[k] by {
            assert(text.subrange(found, found + words.len())[k] == words[k]);
        }
        assert(reads(text, words, found));
    }
    assert(found == at);
    let rest = text.skip(at + words.len());
    let after = kind + seq!['`'] + name + seq!['`'] + tail;
    assert(rest =~= after);
    let body = seq!['`'] + name + seq!['`'] + tail;
    if typed {
        assert(rest.subrange(0, 5) =~= "type "@);
        assert(occurs_at(rest, "type "@, 0));
        assert(rest.skip(5) =~= body);
    } else {
        assert(rest =~= body);
        assert(rest[0] == '`');
        if occurs_at(rest, "type "@, 0) {
            assert(rest.subrange(0, 5)[0] == 't');
        }
    }
    assert(body[0] == '`');
    next_is(body, '`', 1, 1 + name.len() as int);
    assert(body.subrange(1, 1 + name.len() as int) =~= name);
}

proof fn next_is(text: Seq<char>, c: char, from: int, at: int)
    requires
        0 <= from <= at < text.len(),
        text[at] == c,
        forall|k: int| from <= k < at ==> #[trigger] text[k] != c,
    ensures
        next_char(text, c, from) == at,
    decreases at - from,
{
    if from < at {
        next_is(text, c, from + 1, at);
    }
}

/// A closing bracket is found by counting: an opening one goes down a level, a
/// closing one up, and that of the first level is it. In quotes nothing counts but
/// the closing quote, unless it is escaped.
pub proof fn brackets_are_counted(text: Seq<char>, at: int, depth: nat, escaped: bool)
    requires
        0 <= at < text.len(),
        depth >= 1,
    ensures
        text[at] == ')' && depth == 1 ==> closing(text, at, depth, false, false) == Some(at),
        text[at] == ')' && depth > 1 ==> closing(text, at, depth, false, false) == closing(
            text,
            at + 1,
            (depth - 1) as nat,
            false,
            false,
        ),
        text[at] == '(' ==> closing(text, at, depth, false, false) == closing(
            text,
            at + 1,
            depth + 1,
            false,
            false,
        ),
        text[at] == '"' ==> closing(text, at, depth, false, false) == closing(
            text,
            at + 1,
            depth,
            true,
            false,
        ),
        text[at] != ')' && text[at] != '(' && text[at] != '"' ==> closing(
            text,
            at,
            depth,
            false,
            false,
        ) == closing(text, at + 1, depth, false, false),
        text[at] == '"' && !escaped ==> closing(text, at, depth, true, escaped) == closing(
            text,
            at + 1,
            depth,
            false,
            false,
        ),
        text[at] == '\\' && !escaped ==> closing(text, at, depth, true, escaped) == closing(
            text,
            at + 1,
            depth,
            true,
            true,
        ),
        escaped || (text[at] != '"' && text[at] != '\\') ==> closing(
            text,
            at,
            depth,
            true,
            escaped,
        ) == closing(text, at + 1, depth, true, false),
        closing(text, text.len() as int, depth, false, false) is None,
        closing(text, text.len() as int, depth, true, escaped) is None,
{
}

/// Whether what is cut of an entry goes from `start` to `end`, with the quoted
/// type at `key` and the brackets of the value at `open` and `close`.
pub open spec fn cut_of(
    text: Seq<char>,
    type_path: Seq<char>,
    range: (int, int),
    key: int,
    open: int,
    close: int,
) -> bool {
    let name = seq!['"'] + type_path + seq!['"'];
    let (start, end) = range;
    &&& reads(text, name, key)
    &&& forall|k: int| 0 <= k < key ==> !(#[trigger] reads(text, name, k))
    &&& key + type_path.len() + 2 <= open < text.len() && text[open] == '('
    &&& forall|k: int| key + type_path.len() + 2 <= k < open ==> #[trigger] text[k] != '('
    &&& closing(text, open + 1, 1, false, false) == Some(close)
    &&& 0 <= start <= key
    &&& forall|k: int|
        start <= k < key ==> #[trigger] text[k] == ' ' || text[k] == '\t' || text[k] == '\r'
            || text[k] == '\x0C'
    &&& start > 0 ==> text[start - 1] != ' ' && text[start - 1] != '\t' && text[start - 1] != '\r'
        && text[start - 1] != '\x0C'
    &&& end == cut_end(text, close + 1)
}

/// What is cut of an entry: from its quoted type, where that first stands, with
/// the indentation before it, to the bracket that closes its value, with the comma
/// and the line end behind it.
pub proof fn entries_are_cut_whole(text: Seq<char>, type_path: Seq<char>)
    ensures
        quoted(type_path) == seq!['"'] + type_path + seq!['"'],
        entry_range(text, type_path) matches Some(range) ==> exists|
            key: int,
            open: int,
            close: int,
        | #[trigger]
            cut_of(text, type_path, range, key, open, close),
{
    let key_text = seq!['"'] + type_path + seq!['"'];
    if entry_range(text, type_path) is Some {
        let (start, end) = entry_range(text, type_path)->0;
        found_is_first(text, key_text, 0);
        let key = find_from(text, key_text, 0)->0;
        let open = next_char(text, '(', key + key_text.len());
        let close = closing(text, open + 1, 1, false, false)->0;
        assert forall|k: int| 0 <= k <= key implies #[trigger] reads(text, key_text, k)
            == occurs_at(text, key_text, k) by {
            read_is_occurring(text, key_text, k);
        }
        next_is_first(text, '(', key + key_text.len());
        start_is_indent(text, key);
        assert(cut_of(text, type_path, (start, end), key, open, close));
    }
}

/// An entry whose type stands in the text, with a value in brackets that close, is
/// cut; without them nothing is.
pub proof fn entries_that_close_are_cut(
    text: Seq<char>,
    type_path: Seq<char>,
    key: int,
    open: int,
)
    ensures
        ({
            let name = seq!['"'] + type_path + seq!['"'];
            &&& reads(text, name, key) && (forall|k: int|
                0 <= k < key ==> !(#[trigger] reads(text, name, k))) && key + name.len() <= open
                < text.len() && text[open] == '(' && (forall|k: int|
                key + name.len() <= k < open ==> #[trigger] text[k] != '(') ==> (entry_range(
                text,
                type_path,
            ) is Some <==> closing(text, open + 1, 1, false, false) is Some)
            &&& (forall|k: int| 0 <= k ==> !(#[trigger] reads(text, name, k))) ==> entry_range(
                text,
                type_path,
            ) is None
        }),
{
    let name = seq!['"'] + type_path + seq!['"'];
    found_is_first(text, name, 0);
    let found = find_from(text, name, 0);
    if found is Some {
        read_is_occurring(text, name, found->0);
    }
    if reads(text, name, key) && (forall|k: int|
        0 <= k < key ==> !(#[trigger] reads(text, name, k))) && key + name.len() <= open
        < text.len() && text[open] == '(' && (forall|k: int|
        key + name.len() <= k < open ==> #[trigger] text[k] != '(') {
        read_is_occurring(text, name, key);
        assert(found == Some(key));
        next_is(text, '(', key + name.len(), open);
    }
}

/// An error without those words names no type.
pub proof fn other_errors_name_none(message: Seq<char>)
    requires
        forall|at: int|
            0 <= at ==> !(#[trigger] reads(message, "no registration found for "@, at)),
    ensures
        named_type(message) is None,
{
    found_is_first(message, "no registration found for "@, 0);
    let found = find_from(message, "no registration found for "@, 0);
    if found is Some {
        read_is_occurring(message, "no registration found for "@, found->0);
    }
}

proof fn read_is_occurring(text: Seq<char>, word: Seq<char>, at: int)
    ensures
        reads(text, word, at) == occurs_at(text, word, at),
{
    if reads(text, word, at) {
        let part = text.subrange(at, at + word.len());
        assert forall|k: int| 0 <= k < word.len() implies part[k] == word[k] by {
            assert(part[k] == text[at + k]);
        }
        assert(part =~= word);
    }
    if occurs_at(text, word, at) {
        assert forall|k: int| 0 <= k < word.len() implies #[trigger] text[at + k] == word[k] by {
            assert(text.subrange(at, at + word.len())[k] == word[k]);
        }
    }
}

proof fn next_is_first(text: Seq<char>, c: char, from: int)
    requires
        0 <= from,
    ensures
        next_char(text, c, from) < text.len() ==> from <= next_char(text, c, from) && text[next_char(
            text,
            c,
            from,
        )] == c,
        forall|k: int| from <= k < next_char(text, c, from) ==> #[trigger] text[k] != c,
    decreases text.len() - from,
{
    if from < text.len() && text[from] != c {
        next_is_first(text, c, from + 1);
    }
}

proof fn start_is_indent(text: Seq<char>, key: int)
    requires
        0 <= key <= text.len(),
    ensures
        0 <= cut_start(text, key) <= key,
        forall|k: int| cut_start(text, key) <= k < key ==> indent(#[trigger] text[k]),
        cut_start(text, key) > 0 ==> !indent(text[cut_start(text, key) - 1]),
    decreases key,
{
    if 0 < key && indent(text[key - 1]) {
        start_is_indent(text, key - 1);
    }
}

/// Behind a value, blanks go, then one comma, then blanks, then one line end.
pub proof fn cuts_take_the_comma_and_the_line(text: Seq<char>, after: int)
    requires
        0 <= after <= text.len(),
    ensures
        ({
            let end = cut_end(text, after);
            exists|comma: int, line: int|
                {
                    &&& after <= comma <= line <= end <= text.len()
                    &&& forall|k: int|
                        after <= k < comma ==> #[trigger] text[k] == ' ' || text[k] == '\t'
                    &&& comma < text.len() ==> text[comma] != ' ' && text[comma] != '\t'
                    &&& (comma < text.len() && text[comma] == ',') ==> comma < line
                    &&& forall|k: int|
                        comma < k < line ==> #[trigger] text[k] == ' ' || text[k] == '\t'
                    &&& !(comma < text.len() && text[comma] == ',') ==> line == comma
                    &&& line < text.len() ==> text[line] != ' ' && text[line] != '\t'
                    &&& #[trigger] tail_cut(text, comma, line, end)
                }
        }),
{
    let comma = after_blanks(text, after);
    blanks_reach(text, after);
    let from = if comma < text.len() && text[comma] == ',' {
        comma + 1
    } else {
        comma
    };
    blanks_reach(text, from);
    let line = after_blanks(text, from);
    assert(tail_cut(text, comma, line, cut_end(text, after)));
}

/// Whether a cut that came to `line` ends there, or behind a line end that stands
/// there.
pub open spec fn tail_cut(text: Seq<char>, comma: int, line: int, end: int) -> bool {
    if line < text.len() && text[line] == '\n' {
        end == line + 1
    } else {
        end == line
    }
}

proof fn blanks_reach(text: Seq<char>, from: int)
    requires
        0 <= from <= text.len(),
    ensures
        from <= after_blanks(text, from) <= text.len(),
        forall|k: int|
            from <= k < after_blanks(text, from) ==> #[trigger] text[k] == ' ' || text[k] == '\t',
        after_blanks(text, from) < text.len() ==> text[after_blanks(text, from)] != ' '
            && text[after_blanks(text, from)] != '\t',
    decreases text.len() - from,
{
    if from < text.len() && (text[from] == ' ' || text[from] == '\t') {
        blanks_reach(text, from + 1);
    }
}

} // verus!
