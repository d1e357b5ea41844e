//! What starting up, routing, tracking and framing go by.

use vstd::prelude::*;

use crate::engine::autoload::{inherits, listed, spawned_since, wanted};
use crate::engine::boot::{followed, project_arg};
use crate::engine::progress::{
    byte_count, capped, file_count, last_path, less_by, marked_files, same_snapshot,
    same_scene_snapshot, scene_snapshot_of, snapshot_of, ticked, Fraction, LoadProgressState,
    Moment, ProgressModel, SceneSnapshotModel, SnapshotModel, TrackedFile,
};
use crate::engine::routing::{
    cleared, game_routes, route_target, shadow_change, shadows_after, sorted_ids, PassFacts,
    RouteCam, ShadowChange,
};
use crate::engine::viewports::{
    bindings, framed, framing_changes, other_sky, seed_of, seeded, with_focused, Binding, Framing,
    FramingChange, SkyCamera, SlotCamera, MIN_FRAME_BITS, ZOOM_MAX_BITS, ZOOM_MIN_BITS,
};
use crate::lineage::Link;
use crate::scalar::Scalar;
use crate::scene::load::{LoadModel, SceneLoadPhase};
use crate::scene::paths::{same_file, PathModel};
use crate::scene::save::{is_hidden, EntityFacts};
use crate::scene::save_laws::{distinct_ids, line_up, marked_is_below};
use crate::text::{position, position_found, position_is_first};

verus! {

// ── Starting up ──

/// The project is what follows the first `--project`.
pub proof fn project_follows_its_flag(args: Seq<Seq<char>>, i: int)
    ensures
        0 <= i && i + 1 < args.len() && args[i] == "--project"@ && (forall|j: int|
            0 <= j < i ==> #[trigger] args[j] != "--project"@) ==> project_arg(args) == Some(
            args[i + 1],
        ),
        (forall|j: int| 0 <= j < args.len() - 1 ==> #[trigger] args[j] != "--project"@)
            ==> project_arg(args) is None,
    decreases args.len(),
{
    if args.len() >= 2 && args[0] != "--project"@ {
        let rest = args.drop_first();
        project_follows_its_flag(rest, i - 1);
        if 0 < i && i + 1 < args.len() && args[i] == "--project"@ && (forall|j: int|
            0 <= j < i ==> #[trigger] args[j] != "--project"@) {
            assert forall|j: int| 0 <= j < i - 1 implies #[trigger] rest[j] != "--project"@ by {
                assert(args[j + 1] != "--project"@);
            }
            assert(rest[i - 1] == args[i]);
            assert(rest[i] == args[i + 1]);
        }
        if forall|j: int| 0 <= j < args.len() - 1 ==> #[trigger] args[j] != "--project"@ {
            assert forall|j: int| 0 <= j < rest.len() - 1 implies #[trigger] rest[j]
                != "--project"@ by {
                assert(args[j + 1] != "--project"@);
            }
        }
    }
}

/// A path that was renamed is the new one, and any other stays.
pub proof fn renamed_paths_are_followed(path: Seq<char>, new: Seq<char>)
    ensures
        followed(path, Some(new)) == new,
        followed(path, None) == path,
{
}

// ── Routing ──

/// Effects go to the first default camera that is active, else to the first that
/// is active at all.
pub proof fn effects_go_to_the_active_camera(cams: Seq<RouteCam>, k: int)
    requires
        0 <= k < cams.len(),
    ensures
        cams[k].default && cams[k].active && (forall|j: int|
            0 <= j < k ==> !((#[trigger] cams[j]).default && cams[j].active)) ==> route_target(cams)
            == Some(cams[k].entity),
        (forall|j: int| 0 <= j < cams.len() ==> !((#[trigger] cams[j]).default && cams[j].active))
            && cams[k].active && (forall|j: int| 0 <= j < k ==> !(#[trigger] cams[j]).active)
            ==> route_target(cams) == Some(cams[k].entity),
        (forall|j: int| 0 <= j < cams.len() ==> !(#[trigger] cams[j]).active) ==> route_target(
            cams,
        ) is None,
{
    let both = cams.map_values(|c: RouteCam| c.default && c.active);
    let on = cams.map_values(|c: RouteCam| c.active);
    position_is_first(both, true);
    position_is_first(on, true);
    let i = position(both, true);
    let j = position(on, true);
    if i < cams.len() {
        assert(both[i]);
        assert(cams[i].default && cams[i].active);
    }
    if j < cams.len() {
        assert(on[j]);
        assert(cams[j].active);
    }
    if cams[k].default && cams[k].active && (forall|j: int|
        0 <= j < k ==> !((#[trigger] cams[j]).default && cams[j].active)) {
        position_found(both, true, k);
    }
    if cams[k].active && (forall|j: int| 0 <= j < k ==> !(#[trigger] cams[j]).active) {
        position_found(on, true, k);
    }
}

/// There is one route, from the target itself and then from all the others, by
/// their ids; and none without a target.
pub proof fn the_target_comes_first(cams: Seq<RouteCam>, others: Seq<u64>)
    ensures
        route_target(cams) matches Some(target) ==> game_routes(cams, others) == seq![
            (target, seq![target] + sorted_ids(others)),
        ],
        route_target(cams) is None ==> game_routes(cams, others).len() == 0,
{
}

/// A scene change clears what is named, is neither hidden nor the editor's camera
/// nor persistent, and has nothing hidden above it.
pub proof fn scene_content_is_cleared(world: Seq<EntityFacts>, k: int)
    requires
        distinct_ids(world),
        0 <= k < world.len(),
    ensures
        cleared(world)(world[k]) <==> world[k].named && !world[k].hidden && !world[k].editor_camera
            && !world[k].persistent && !(exists|path: Seq<int>| #[trigger]
            line_up(world, path) && path.len() > 1 && path[0] == k && world[path.last()].hidden),
{
    marked_is_below(world, k, is_hidden());
    if exists|path: Seq<int>| #[trigger]
        line_up(world, path) && path.len() > 1 && path[0] == k && world[path.last()].hidden {
        let path = choose|path: Seq<int>| #[trigger]
            line_up(world, path) && path.len() > 1 && path[0] == k && world[path.last()].hidden;
        assert(is_hidden()(world[path.last()]));
    }
    if exists|path: Seq<int>| #[trigger]
        line_up(world, path) && path.len() > 1 && path[0] == k && is_hidden()(
            world[path.last()],
        ) {
        let path = choose|path: Seq<int>| #[trigger]
            line_up(world, path) && path.len() > 1 && path[0] == k && is_hidden()(
                world[path.last()],
            );
        assert(world[path.last()].hidden);
    }
}

/// Contact shadows are taken from a camera with the deferred prepass and from an
/// isolated one, and given to every other 3D camera where shading is forward.
pub proof fn shadows_go_to_forward_cameras(deferred: bool, cam: PassFacts)
    ensures
        ({
            let barred = cam.deferred_prepass || cam.isolated;
            &&& shadow_change(deferred, cam) == ShadowChange::Strip <==> cam.contact_shadows
                && barred
            &&& shadow_change(deferred, cam) == ShadowChange::Grant <==> !cam.contact_shadows
                && !barred && cam.three_d && !deferred
            &&& barred ==> !shadows_after(cam, shadow_change(deferred, cam))
            &&& !barred && cam.three_d && !deferred ==> shadows_after(
                cam,
                shadow_change(deferred, cam),
            )
            &&& !barred && (!cam.three_d || deferred) ==> shadows_after(
                cam,
                shadow_change(deferred, cam),
            ) == cam.contact_shadows
        }),
{
}

// ── Viewports ──

/// Each camera is bound to its own slot's image; one whose slot has none is not
/// bound.
pub proof fn cameras_take_their_slots_image(
    cameras: Seq<SlotCamera>,
    images: Seq<Option<u64>>,
    n: int,
)
    requires
        0 <= n < cameras.len(),
    ensures
        ({
            let c = cameras[n];
            let before = bindings(cameras, images, n);
            let imaged = c.slot < images.len() && images[c.slot as int] is Some;
            &&& bindings(cameras, images, 0).len() == 0
            &&& imaged ==> bindings(cameras, images, n + 1) == before.push(
                Binding { entity: c.entity, image: images[c.slot as int]->0 },
            )
            &&& !imaged ==> bindings(cameras, images, n + 1) == before
        }),
{
}

/// The focused view's framing is its slot's, and all other slots keep theirs.
pub proof fn focused_view_tells_its_slot(slots: Seq<Framing>, slot: usize, framing: Framing)
    ensures
        slot < slots.len() ==> with_focused(slots, Some((slot, framing))) == slots.update(
            slot as int,
            framing,
        ) && seed_of(slots, Some((slot, framing))) == Some(framing),
        slot >= slots.len() ==> with_focused(slots, Some((slot, framing))) == slots && seed_of(
            slots,
            Some((slot, framing)),
        ) is None,
        with_focused(slots, None) == slots,
        seed_of(slots, None) is None,
{
}

/// A slot is framed where its zoom is above zero.
pub proof fn framed_slots_have_a_zoom(slot: Framing)
    ensures
        0 < slot.zoom.bits <= 0x7F80_0000 ==> framed(slot),
        slot.zoom.bits == 0 || 0x8000_0000 <= slot.zoom.bits <= 0xFF80_0000 ==> !framed(slot),
{
}

/// The other cameras are taken one by one. A slot that is not framed yet takes the
/// focused view's framing; and then the camera takes its slot's, unless that is
/// still unframed and there is nothing to seed it from.
pub proof fn other_views_are_seeded_once(
    slots: Seq<Framing>,
    others: Seq<SlotCamera>,
    seed: Option<Framing>,
    n: int,
)
    requires
        0 <= n < others.len(),
    ensures
        ({
            let c = others[n];
            let s = c.slot as int;
            let before = seeded(slots, others, seed, n);
            let after = seeded(slots, others, seed, n + 1);
            let told = framing_changes(slots, others, seed, n);
            &&& seeded(slots, others, seed, 0) == slots
            &&& framing_changes(slots, others, seed, 0).len() == 0
            &&& seed is Some && s < before.len() && !framed(before[s]) ==> after == before.update(
                s,
                seed->0,
            )
            &&& !(seed is Some && s < before.len() && !framed(before[s])) ==> after == before
            &&& s < after.len() && (framed(after[s]) || seed is Some) ==> framing_changes(
                slots,
                others,
                seed,
                n + 1,
            ) == told.push(FramingChange { entity: c.entity, framing: after[s] })
            &&& !(s < after.len() && (framed(after[s]) || seed is Some)) ==> framing_changes(
                slots,
                others,
                seed,
                n + 1,
            ) == told
        }),
{
}

/// A camera is given the sky where it shows another, or none. A zoom is kept
/// between a hundredth and a thousand, and a view is framed from 2 px on.
pub proof fn views_share_and_keep_their_limits(image: u64, c: SkyCamera, zoom: Scalar)
    ensures
        other_sky(image)(c) == (c.sky != Some(image)),
        zoom.bits <= 0x7F80_0000 ==> 0x3C23_D70A <= zoom.clamped(
            Scalar { bits: ZOOM_MIN_BITS },
            Scalar { bits: ZOOM_MAX_BITS },
        ).bits <= 0x447A_0000,
        0x3C23_D70A <= zoom.bits <= 0x447A_0000 ==> zoom.clamped(
            Scalar { bits: ZOOM_MIN_BITS },
            Scalar { bits: ZOOM_MAX_BITS },
        ) == zoom,
        MIN_FRAME_BITS == 0x4000_0000,
{
}

// ── Progress ──

/// A file with a path counts, with its size where it has one; the last one with a
/// path is the current one; and a marked file is one of the marked.
pub proof fn files_count_by_their_path(files: Seq<TrackedFile>, f: TrackedFile, marks: Seq<bool>)
    requires
        marks.len() > files.len(),
    ensures
        file_count(Seq::empty()) == 0,
        byte_count(Seq::empty()) == 0,
        last_path(Seq::empty()) is None,
        f.path is Some ==> {
            &&& file_count(files.push(f)) == file_count(files) + 1
            &&& f.bytes matches Some(n) ==> byte_count(files.push(f)) == byte_count(files) + n
            &&& f.bytes is None ==> byte_count(files.push(f)) == byte_count(files)
            &&& last_path(files.push(f)) == Some((f.path->0)@)
        },
        f.path is None ==> {
            &&& file_count(files.push(f)) == file_count(files)
            &&& byte_count(files.push(f)) == byte_count(files)
            &&& last_path(files.push(f)) == last_path(files)
        },
        marks[files.len() as int] ==> marked_files(files.push(f), marks) == marked_files(
            files,
            marks,
        ).push(f),
        !marks[files.len() as int] ==> marked_files(files.push(f), marks) == marked_files(
            files,
            marks,
        ),
{
    assert(files.push(f).drop_last() =~= files);
}

/// Differences do not go below zero, and a fraction does not go above one.
pub proof fn counts_stay_in_range(a: nat, b: nat, part: u64, whole: u64)
    ensures
        b <= a ==> less_by(a, b) + b == a,
        a <= b ==> less_by(a, b) == 0,
        part <= whole ==> capped(part, whole) == (Fraction { part, whole }),
        part > whole ==> capped(part, whole) == (Fraction { part: whole, whole }),
{
}

/// A tick keeps the time that was told, and with more pending than there is,
/// nothing is loaded.
pub proof fn ticks_keep_the_time(
    before: ProgressModel,
    instances: Seq<TrackedFile>,
    pending: Seq<TrackedFile>,
    now: Moment,
)
    ensures
        ({
            let after = ticked(before, instances, pending, now);
            &&& after.elapsed_secs == before.elapsed_secs
            &&& after.current_path == last_path(pending)
            &&& file_count(pending) >= file_count(instances) ==> after.loaded_files == 0
            &&& byte_count(pending) >= byte_count(instances) ==> after.loaded_bytes == 0
        }),
{
}

/// Scripts see a snapshot as it is, with its state by name; and one is known
/// where nothing of it differs.
pub proof fn scripts_see_it_as_it_is(p: ProgressModel, fraction: Scalar, load: LoadModel)
    ensures
        snapshot_of(p, fraction) == (SnapshotModel {
            state: match p.state {
                LoadProgressState::Idle => "idle"@,
                LoadProgressState::Loading => "loading"@,
                LoadProgressState::Done => "done"@,
            },
            total_files: p.total_files,
            loaded_files: p.loaded_files,
            total_bytes: p.total_bytes,
            loaded_bytes: p.loaded_bytes,
            current_path: p.current_path,
            elapsed_secs: p.elapsed_secs,
            fraction,
        }),
        scene_snapshot_of(load) == (SceneSnapshotModel {
            phase: match load.phase {
                SceneLoadPhase::Idle => "idle"@,
                SceneLoadPhase::Loading => "loading"@,
                SceneLoadPhase::Ready => "ready"@,
                SceneLoadPhase::Failed => "failed"@,
            },
            current_path: load.current_path,
            progress: load.progress,
        }),
{
}

/// Two snapshots differ where any part of them does.
pub proof fn any_difference_is_published(
    a: SnapshotModel,
    b: SnapshotModel,
    x: SceneSnapshotModel,
    y: SceneSnapshotModel,
)
    ensures
        same_snapshot(a, b) <==> a.state == b.state && a.total_files == b.total_files
            && a.loaded_files == b.loaded_files && a.total_bytes == b.total_bytes && a.loaded_bytes
            == b.loaded_bytes && a.current_path == b.current_path && a.elapsed_secs.equal(
            b.elapsed_secs,
        ) && a.fraction.equal(b.fraction),
        same_scene_snapshot(x, y) <==> x.phase == y.phase && x.current_path == y.current_path
            && x.progress.equal(y.progress),
{
}

// ── Global scenes ──

/// A global scene is wanted unless it is open, or some resident one is its file.
pub proof fn absent_scenes_are_wanted(
    resident: Seq<PathModel>,
    open: Option<PathModel>,
    path: PathModel,
)
    ensures
        listed(resident, path) <==> exists|i: int|
            0 <= i < resident.len() && same_file(#[trigger] resident[i], path),
        wanted(resident, open, path) <==> !listed(resident, path) && (open matches Some(o)
            ==> !same_file(o, path)),
{
}

/// What a scene spawned is what was not there before; and what is put under
/// something persistent becomes so.
pub proof fn arrivals_are_told_and_inherit(before: Seq<u64>, e: u64, persistent: Seq<u64>, l: Link)
    ensures
        spawned_since(before)(e) == !before.contains(e),
        inherits(persistent)(l) == (persistent.contains(l.parent) && !persistent.contains(
            l.child,
        )),
{
}

} // verus!
