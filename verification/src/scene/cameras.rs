//! Scene cameras: which one is live, and what the editor's camera copies.

use vstd::prelude::*;

use crate::scene::save::{ends_with, has_suffix};
use crate::text::{find_first, list_contains, position, position_is_first, texts};

verus! {

/// A camera of the scene.
#[derive(Clone, Copy, Debug, PartialEq, Eq, Structural)]
pub struct SceneCam {
    pub entity: u64,
    /// Marked as the one to start with.
    pub default: bool,
    pub active: bool,
}

/// The first camera marked as default, or their number.
pub open spec fn first_default(cams: Seq<SceneCam>) -> int {
    position(cams.map_values(|c: SceneCam| c.default), true)
}

/// The camera to look through: the one marked as default, else the first.
pub open spec fn lead_camera(cams: Seq<SceneCam>) -> Option<u64> {
    let i = first_default(cams);
    if i < cams.len() {
        Some(cams[i].entity)
    } else if cams.len() > 0 {
        Some(cams[0].entity)
    } else {
        None
    }
}

/// The camera to look through: the one marked as default, else the first.
pub fn find_lead_camera(cams: &Vec<SceneCam>) -> (r: Option<u64>)
    ensures
        r == lead_camera(cams@),
{
    let test = |c: &SceneCam| -> (b: bool)
        ensures
            b == c.default,
        {
            c.default
        };
    let i: usize = find_first(cams, test, Ghost(cams@.map_values(|c: SceneCam| c.default)));
    if i < cams.len() {
        Some(cams[i].entity)
    } else if cams.len() > 0 {
        Some(cams[0].entity)
    } else {
        None
    }
}

// ── Rehydration ──

/// What a camera loaded from a scene gets.
#[derive(Clone, Copy, Debug, PartialEq, Eq, Structural)]
pub struct CameraSetup {
    pub entity: u64,
    /// Renders, with the full prepass and atmosphere stack.
    pub active: bool,
    /// Becomes the camera of the running game, on the viewport's target.
    pub play_camera: bool,
}

/// The setup of each camera. In the editor, outside play mode, all stay
/// inactive: the editor camera renders. Otherwise the lead camera is active,
/// and in play mode it is the game's.
pub open spec fn camera_setups(cams: Seq<SceneCam>, editor: bool, playing: bool) -> Seq<
    CameraSetup,
> {
    cams.map_values(
        |c: SceneCam|
            {
                let active = !(editor && !playing) && lead_camera(cams) == Some(c.entity);
                CameraSetup { entity: c.entity, active, play_camera: playing && active }
            },
    )
}

/// Set up the cameras of a scene that have none yet. `editor` is whether an
/// editor session runs; absent means a game build.
pub fn rehydrate_cameras(cams: &Vec<SceneCam>, editor: Option<bool>, playing: bool) -> (r: Vec<
    CameraSetup,
>)
    ensures
        r@ == camera_setups(cams@, editor == Some(true), playing),
{
    let in_editor: bool = match editor {
        Some(e) => e,
        None => false,
    } && !playing;
    let lead = find_lead_camera(cams);
    let mut out: Vec<CameraSetup> = Vec::new();
    let mut i: usize = 0;
    let ghost all = camera_setups(cams@, editor == Some(true), playing);
    while i < cams.len()
        invariant
            i <= cams@.len(),
            lead == lead_camera(cams@),
            in_editor == (editor == Some(true) && !playing),
            all == camera_setups(cams@, editor == Some(true), playing),
            out@ == all.take(i as int),
        decreases cams@.len() - i,
    {
        let active: bool = !in_editor && lead == Some(cams[i].entity);
        out.push(
            CameraSetup { entity: cams[i].entity, active, play_camera: playing && active },
        );
        assert(all.take(i + 1) == all.take(i as int).push(all[i as int]));
        i += 1;
    }
    assert(all.take(i as int) == all);
    out
}

/// The face size of the reflection probe: the quality tier's, else `128`.
pub fn probe_face_size(tier: Option<u32>) -> (r: u32)
    ensures
        r == (match tier {
            Some(size) => size,
            None => 128,
        }),
{
    match tier {
        Some(size) => size,
        None => 128,
    }
}

// ── One active camera ──

/// The cameras once only the right one is active: none while an editor camera
/// exists, else the lead camera.
pub open spec fn enforced(cams: Seq<SceneCam>, editor: bool) -> Seq<SceneCam> {
    cams.map_values(
        |c: SceneCam|
            SceneCam { active: !editor && lead_camera(cams) == Some(c.entity), ..c },
    )
}

/// Ensures only the default scene camera is active. While the editor runs,
/// scene cameras stay inactive, in play mode too: play renders through the
/// editor cameras. Returns the cameras that changed.
pub fn enforce_single_active_camera(cams: &mut Vec<SceneCam>, editor: bool) -> (r: Vec<u64>)
    ensures
        final(cams)@ == enforced(old(cams)@, editor),
        r@ == old(cams)@.filter(misplaced(old(cams)@, editor)).map_values(|c: SceneCam| c.entity),
{
    let ghost before = cams@;
    let lead = find_lead_camera(cams);
    let mut changed: Vec<u64> = Vec::new();
    let mut i: usize = 0;
    proof {
        reveal(Seq::filter);
        assert(before.take(0).filter(misplaced(before, editor)) =~= Seq::<SceneCam>::empty());
    }
    while i < cams.len()
        invariant
            i <= cams@.len(),
            cams@.len() == before.len(),
            lead == lead_camera(before),
            forall|k: int| i <= k < before.len() ==> cams@[k] == before[k],
            forall|k: int| 0 <= k < i ==> cams@[k] == enforced(before, editor)[k],
            changed@ == before.take(i as int).filter(misplaced(before, editor)).map_values(
                |c: SceneCam| c.entity,
            ),
        decreases cams@.len() - i,
    {
        let ghost so_far = before.take(i as int).filter(misplaced(before, editor));
        proof {
            reveal(Seq::filter);
            assert(before.take(i + 1).drop_last() == before.take(i as int));
            assert(before.take(i + 1).last() == before[i as int]);
        }
        let wanted: bool = !editor && lead == Some(cams[i].entity);
        if cams[i].active != wanted {
            let mut cam: SceneCam = cams[i];
            cam.active = wanted;
            changed.push(cam.entity);
            cams.set(i, cam);
            assert(so_far.push(before[i as int]).map_values(|c: SceneCam| c.entity)
                =~= so_far.map_values(|c: SceneCam| c.entity).push(before[i as int].entity));
        }
        i += 1;
    }
    assert(before.take(i as int) == before);
    assert(cams@ =~= enforced(before, editor));
    changed
}

/// Being active when it should not be, or the other way round.
pub open spec fn misplaced(cams: Seq<SceneCam>, editor: bool) -> spec_fn(SceneCam) -> bool {
    |c: SceneCam| c.active != (!editor && lead_camera(cams) == Some(c.entity))
}

/// Once enforced, at most one camera is active where no two share an entity,
/// none is while the editor runs, and enforcing again changes nothing.
pub proof fn one_active_camera(cams: Seq<SceneCam>, editor: bool)
    ensures
        enforced(enforced(cams, editor), editor) == enforced(cams, editor),
        editor ==> forall|i: int|
            0 <= i < cams.len() ==> !(#[trigger] enforced(cams, editor)[i]).active,
        forall|i: int, j: int|
            0 <= i < cams.len() && 0 <= j < cams.len() && (#[trigger] enforced(
                cams,
                editor,
            )[i]).active && (#[trigger] enforced(cams, editor)[j]).active ==> cams[i].entity
                == cams[j].entity,
{
    let after = enforced(cams, editor);
    assert(after.map_values(|c: SceneCam| c.default) =~= cams.map_values(|c: SceneCam| c.default));
    assert(first_default(after) == first_default(cams));
    position_is_first(cams.map_values(|c: SceneCam| c.default), true);
    assert(lead_camera(after) == lead_camera(cams));
    assert(enforced(after, editor) =~= after);
}

/// In a running game with cameras, the lead camera is active.
pub proof fn lead_camera_is_active(cams: Seq<SceneCam>)
    requires
        cams.len() > 0,
    ensures
        exists|i: int| 0 <= i < cams.len() && (#[trigger] enforced(cams, false)[i]).active,
{
    position_is_first(cams.map_values(|c: SceneCam| c.default), true);
    let i = if first_default(cams) < cams.len() {
        first_default(cams)
    } else {
        0
    };
    assert(lead_camera(cams) == Some(cams[i].entity));
    assert(enforced(cams, false)[i].active);
}

// ── The editor camera mirrors the scene camera ──

/// A component type that the editor camera may copy.
pub struct SyncType {
    pub type_path: String,
    /// The scene camera has it, and it can be copied.
    pub on_scene: bool,
    pub on_editor: bool,
}

/// What a sync type holds.
pub struct SyncModel {
    pub type_path: Seq<char>,
    pub on_scene: bool,
    pub on_editor: bool,
}

impl View for SyncType {
    type V = SyncModel;

    open spec fn view(&self) -> SyncModel {
        SyncModel {
            type_path: self.type_path@,
            on_scene: self.on_scene,
            on_editor: self.on_editor,
        }
    }
}

pub open spec fn sync_models(types: Seq<SyncType>) -> Seq<SyncModel> {
    types.map_values(|t: SyncType| t@)
}

/// Whether a component type is mirrored: those whose name ends in `Settings`.
pub fn should_sync(type_path: &str) -> (r: bool)
    ensures
        r == ends_with(type_path@, "Settings"@),
{
    has_suffix(type_path, "Settings")
}

/// What a frame of mirroring is about.
#[derive(Clone, Copy, Debug, PartialEq, Eq, Structural)]
pub enum SyncSource {
    /// Nothing to do: play mode, no editor camera, or both are one entity.
    Idle,
    /// There is no scene camera: everything mirrored goes.
    Clear { editor: u64 },
    Mirror { scene: u64, editor: u64 },
}

/// Find what to mirror: the default scene camera, else the first one, onto the
/// editor camera. Skipped during play mode.
pub fn sync_source(playing: bool, editor: Option<u64>, cams: &Vec<SceneCam>) -> (r: SyncSource)
    ensures
        r == (match (editor, lead_camera(cams@)) {
            (Some(dst), Some(src)) => if playing || src == dst {
                SyncSource::Idle
            } else {
                SyncSource::Mirror { scene: src, editor: dst }
            },
            (Some(dst), None) => if playing {
                SyncSource::Idle
            } else {
                SyncSource::Clear { editor: dst }
            },
            (None, _) => SyncSource::Idle,
        }),
{
    if playing {
        return SyncSource::Idle;
    }
    let dst = match editor {
        Some(dst) => dst,
        None => {
            return SyncSource::Idle;
        },
    };
    match find_lead_camera(cams) {
        Some(src) => if src == dst {
            SyncSource::Idle
        } else {
            SyncSource::Mirror { scene: src, editor: dst }
        },
        None => SyncSource::Clear { editor: dst },
    }
}

/// What to do with one component type.
#[derive(Clone, Copy, Debug, PartialEq, Eq, Structural)]
pub enum SyncAction {
    Leave,
    /// Overwrite the editor camera's.
    Apply,
    /// Give the editor camera one.
    Insert,
    Remove,
}

/// What mirroring does with a component type.
pub open spec fn sync_action(t: SyncModel) -> SyncAction {
    if !ends_with(t.type_path, "Settings"@) {
        SyncAction::Leave
    } else if t.on_scene {
        if t.on_editor {
            SyncAction::Apply
        } else {
            SyncAction::Insert
        }
    } else if t.on_editor {
        SyncAction::Remove
    } else {
        SyncAction::Leave
    }
}

/// Mirror the scene camera's settings onto the editor camera: copy what it has,
/// remove what it no longer has. With no scene camera, nothing is `on_scene`
/// and every mirrored component goes.
pub fn sync_actions(types: &Vec<SyncType>) -> (r: Vec<SyncAction>)
    ensures
        r@ == sync_models(types@).map_values(|t: SyncModel| sync_action(t)),
{
    let ghost all = sync_models(types@).map_values(|t: SyncModel| sync_action(t));
    let mut out: Vec<SyncAction> = Vec::new();
    let mut i: usize = 0;
    while i < types.len()
        invariant
            i <= types@.len(),
            all == sync_models(types@).map_values(|t: SyncModel| sync_action(t)),
            out@ == all.take(i as int),
        decreases types@.len() - i,
    {
        let t = &types[i];
        let action = if !should_sync(&t.type_path) {
            SyncAction::Leave
        } else if t.on_scene {
            if t.on_editor {
                SyncAction::Apply
            } else {
                SyncAction::Insert
            }
        } else if t.on_editor {
            SyncAction::Remove
        } else {
            SyncAction::Leave
        };
        out.push(action);
        assert(all.take(i + 1) == all.take(i as int).push(all[i as int]));
        i += 1;
    }
    assert(all.take(i as int) == all);
    out
}

/// Whether the editor camera has a component after an action.
pub open spec fn present_after(t: SyncModel, action: SyncAction) -> bool {
    match action {
        SyncAction::Leave => t.on_editor,
        SyncAction::Apply | SyncAction::Insert => true,
        SyncAction::Remove => false,
    }
}

/// After a mirroring, the editor camera has exactly the mirrored components
/// that the scene camera has, and keeps everything else.
pub proof fn mirror_matches(t: SyncModel)
    ensures
        ends_with(t.type_path, "Settings"@) ==> present_after(t, sync_action(t)) == t.on_scene,
        !ends_with(t.type_path, "Settings"@) ==> present_after(t, sync_action(t)) == t.on_editor,
{
}

/// Tracks the previous mirroring, so that only a change is logged.
pub struct SceneCameraSyncState {
    pub prev_src: Option<u64>,
    pub prev_synced: Vec<String>,
}

/// Whether two lists hold the same texts, in whatever order and number.
pub open spec fn same_names(a: Seq<Seq<char>>, b: Seq<Seq<char>>) -> bool {
    forall|x: Seq<char>| #[trigger] a.contains(x) <==> b.contains(x)
}

fn all_in(a: &Vec<String>, b: &Vec<String>) -> (r: bool)
    ensures
        r == forall|x: Seq<char>| #[trigger] texts(a@).contains(x) ==> texts(b@).contains(x),
{
    let mut i: usize = 0;
    while i < a.len()
        invariant
            i <= a@.len(),
            forall|k: int| 0 <= k < i ==> texts(b@).contains(#[trigger] texts(a@)[k]),
        decreases a@.len() - i,
    {
        assert(texts(a@)[i as int] == a@[i as int]@);
        if !list_contains(b, &a[i]) {
            assert(texts(a@).contains(texts(a@)[i as int]));
            return false;
        }
        i += 1;
    }
    assert forall|x: Seq<char>| #[trigger] texts(a@).contains(x) implies texts(b@).contains(x) by {
        let k = choose|k: int| 0 <= k < texts(a@).len() && texts(a@)[k] == x;
        assert(texts(b@).contains(texts(a@)[k]));
    }
    true
}

impl SceneCameraSyncState {
    /// Note a mirroring from `src` of the types in `synced`. Returns whether to
    /// log it: the source or the set of types changed, or something was removed.
    pub fn note(&mut self, src: u64, synced: Vec<String>, removals: bool) -> (r: bool)
        ensures
            r == (old(self).prev_src != Some(src) || !same_names(
                texts(old(self).prev_synced@),
                texts(synced@),
            ) || removals),
            r ==> final(self).prev_src == Some(src) && texts(final(self).prev_synced@) == texts(
                synced@,
            ),
            !r ==> *final(self) == *old(self),
    {
        let src_changed: bool = self.prev_src != Some(src);
        let set_changed: bool = !(all_in(&self.prev_synced, &synced) && all_in(
            &synced,
            &self.prev_synced,
        ));
        let changed: bool = src_changed || set_changed || removals;
        if changed {
            self.prev_src = Some(src);
            self.prev_synced = synced;
        }
        changed
    }
}

/// Keep the active game camera in step with play cameras that were just added:
/// the last one added counts.
pub fn sync_play_mode_camera(active: &mut Option<u64>, added: &Vec<u64>)
    ensures
        *final(active) == (if added@.len() > 0 {
            Some(added@.last())
        } else {
            *old(active)
        }),
{
    if added.len() > 0 {
        let last: u64 = added[added.len() - 1];
        if *active != Some(last) {
            *active = Some(last);
        }
    }
}

} // verus!
