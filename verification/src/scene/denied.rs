//! Components that are rebuilt on load, and so are never captured.

use vstd::prelude::*;

verus! {

/// What entities are captured for.
#[derive(Clone, Copy, Debug, PartialEq, Eq, Structural)]
pub enum Capture {
    /// A scene that is saved.
    Scene,
    /// The source of a prefab.
    Prefab,
    /// A snapshot, to undo a delete.
    Snapshot,
}

/// A component that the engine makes at run time.
#[derive(Clone, Copy, Debug, PartialEq, Eq, Structural)]
pub enum RuntimeType {
    Mesh3d,
    StandardMaterial,
    GraphMaterial,
    MaterialResolved,
    TerrainMaterial,
    Camera3d,
    Camera,
    UiTargetCamera,
    ComputedUiTargetCamera,
    ViewVisibility,
    Children,
    GlobalTransform,
    TransformTreeChanged,
    Aabb,
    CameraReadState,
    SyncToRenderWorld,
    Gamepad,
    GamepadSettings,
    AnimationPlayer,
    AnimationTransitions,
    AnimatedBy,
    AnimatorReadState,
    Networked,
    NetworkOwner,
    NetworkId,
}

/// Whether a capture leaves a component out. A snapshot is faithful: it keeps
/// cameras, gamepads, animation players and the network's marks. A saved scene
/// keeps the global transform.
pub open spec fn denied(capture: Capture, component: RuntimeType) -> bool {
    match component {
        RuntimeType::GlobalTransform => capture != Capture::Scene,
        RuntimeType::Camera3d
        | RuntimeType::Camera
        | RuntimeType::Gamepad
        | RuntimeType::GamepadSettings
        | RuntimeType::AnimationPlayer
        | RuntimeType::AnimationTransitions
        | RuntimeType::AnimatedBy
        | RuntimeType::Networked
        | RuntimeType::NetworkOwner
        | RuntimeType::NetworkId => capture != Capture::Snapshot,
        _ => true,
    }
}

fn is_denied(capture: Capture, component: RuntimeType) -> (r: bool)
    ensures
        r == denied(capture, component),
{
    match component {
        RuntimeType::GlobalTransform => capture != Capture::Scene,
        RuntimeType::Camera3d
        | RuntimeType::Camera
        | RuntimeType::Gamepad
        | RuntimeType::GamepadSettings
        | RuntimeType::AnimationPlayer
        | RuntimeType::AnimationTransitions
        | RuntimeType::AnimatedBy
        | RuntimeType::Networked
        | RuntimeType::NetworkOwner
        | RuntimeType::NetworkId => capture != Capture::Snapshot,
        _ => true,
    }
}

/// Every component that the engine makes at run time.
pub open spec fn runtime_types() -> Seq<RuntimeType> {
    seq![
        RuntimeType::Mesh3d,
        RuntimeType::StandardMaterial,
        RuntimeType::GraphMaterial,
        RuntimeType::MaterialResolved,
        RuntimeType::TerrainMaterial,
        RuntimeType::Camera3d,
        RuntimeType::Camera,
        RuntimeType::UiTargetCamera,
        RuntimeType::ComputedUiTargetCamera,
        RuntimeType::ViewVisibility,
        RuntimeType::Children,
        RuntimeType::GlobalTransform,
        RuntimeType::TransformTreeChanged,
        RuntimeType::Aabb,
        RuntimeType::CameraReadState,
        RuntimeType::SyncToRenderWorld,
        RuntimeType::Gamepad,
        RuntimeType::GamepadSettings,
        RuntimeType::AnimationPlayer,
        RuntimeType::AnimationTransitions,
        RuntimeType::AnimatedBy,
        RuntimeType::AnimatorReadState,
        RuntimeType::Networked,
        RuntimeType::NetworkOwner,
        RuntimeType::NetworkId,
    ]
}

/// The place of a component in the list of all.
spec fn place(component: RuntimeType) -> int {
    match component {
        RuntimeType::Mesh3d => 0,
        RuntimeType::StandardMaterial => 1,
        RuntimeType::GraphMaterial => 2,
        RuntimeType::MaterialResolved => 3,
        RuntimeType::TerrainMaterial => 4,
        RuntimeType::Camera3d => 5,
        RuntimeType::Camera => 6,
        RuntimeType::UiTargetCamera => 7,
        RuntimeType::ComputedUiTargetCamera => 8,
        RuntimeType::ViewVisibility => 9,
        RuntimeType::Children => 10,
        RuntimeType::GlobalTransform => 11,
        RuntimeType::TransformTreeChanged => 12,
        RuntimeType::Aabb => 13,
        RuntimeType::CameraReadState => 14,
        RuntimeType::SyncToRenderWorld => 15,
        RuntimeType::Gamepad => 16,
        RuntimeType::GamepadSettings => 17,
        RuntimeType::AnimationPlayer => 18,
        RuntimeType::AnimationTransitions => 19,
        RuntimeType::AnimatedBy => 20,
        RuntimeType::AnimatorReadState => 21,
        RuntimeType::Networked => 22,
        RuntimeType::NetworkOwner => 23,
        RuntimeType::NetworkId => 24,
    }
}

fn list_runtime_types() -> (r: Vec<RuntimeType>)
    ensures
        r@ == runtime_types(),
{
    let out: Vec<RuntimeType> = vec![
        RuntimeType::Mesh3d,
        RuntimeType::StandardMaterial,
        RuntimeType::GraphMaterial,
        RuntimeType::MaterialResolved,
        RuntimeType::TerrainMaterial,
        RuntimeType::Camera3d,
        RuntimeType::Camera,
        RuntimeType::UiTargetCamera,
        RuntimeType::ComputedUiTargetCamera,
        RuntimeType::ViewVisibility,
        RuntimeType::Children,
        RuntimeType::GlobalTransform,
        RuntimeType::TransformTreeChanged,
        RuntimeType::Aabb,
        RuntimeType::CameraReadState,
        RuntimeType::SyncToRenderWorld,
        RuntimeType::Gamepad,
        RuntimeType::GamepadSettings,
        RuntimeType::AnimationPlayer,
        RuntimeType::AnimationTransitions,
        RuntimeType::AnimatedBy,
        RuntimeType::AnimatorReadState,
        RuntimeType::Networked,
        RuntimeType::NetworkOwner,
        RuntimeType::NetworkId,
    ];
    assert(out@ =~= runtime_types());
    out
}

/// The components that a capture leaves out.
pub fn denied_types(capture: Capture) -> (r: Vec<RuntimeType>)
    ensures
        forall|t: RuntimeType| #[trigger] r@.contains(t) <==> denied(capture, t),
{
    let all = list_runtime_types();
    let mut out: Vec<RuntimeType> = Vec::new();
    let mut i: usize = 0;
    while i < all.len()
        invariant
            i <= all@.len(),
            all@ == runtime_types(),
            forall|t: RuntimeType| #[trigger]
                out@.contains(t) <==> place(t) < i && denied(capture, t),
        decreases all@.len() - i,
    {
        let ghost before = out@;
        let component: RuntimeType = all[i];
        assert(place(component) == i);
        if is_denied(capture, component) {
            out.push(component);
        }
        proof {
            assert forall|t: RuntimeType| #[trigger] out@.contains(t) <==> place(t) < i + 1
                && denied(capture, t) by {
                if before.contains(t) {
                    let k = choose|k: int| 0 <= k < before.len() && before[k] == t;
                    assert(out@[k] == t);
                }
                if place(t) == i {
                    assert(runtime_types()[place(t)] == t);
                    assert(t == component);
                }
                if t == component && denied(capture, t) {
                    assert(out@[before.len() as int] == t);
                }
                if out@.contains(t) && !before.contains(t) {
                    let k = choose|k: int| 0 <= k < out@.len() && out@[k] == t;
                    if k < before.len() {
                        assert(before[k] == t);
                    }
                }
            }
        }
        i += 1;
    }
    assert forall|t: RuntimeType| place(t) < i by {}
    out
}

/// A prefab's source leaves out all that a saved scene or a snapshot does.
pub proof fn prefab_is_leanest(capture: Capture, component: RuntimeType)
    ensures
        denied(capture, component) ==> denied(Capture::Prefab, component),
{
}

} // verus!
