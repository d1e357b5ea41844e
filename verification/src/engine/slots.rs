//! The editor's viewport cameras, one of each kind per slot.

use vstd::prelude::*;

use crate::dock::title::{decimal, push_decimal};

verus! {

/// How a slot's camera is set up.
pub struct SlotCameraSetup {
    pub name: String,
    /// When it renders: higher is later.
    pub order: i32,
    pub active: bool,
    pub layers: Vec<usize>,
    /// Carries the mark of its kind's primary camera.
    pub primary: bool,
}

/// The 3D camera of slot `slot`: it sees the scene, the shared overlays and its
/// slot's private overlay. Only the first slot's starts active, and only that
/// one carries the sky and bakes the environment.
pub fn spawn_editor_camera(slot: usize, overlay_base: usize) -> (r: SlotCameraSetup)
    requires
        overlay_base + slot <= usize::MAX,
    ensures
        r.name@ == "Editor Camera "@ + decimal(slot as nat),
        r.order == -1,
        r.active == (slot == 0),
        r.primary == (slot == 0),
        r.layers@ == seq![0usize, 1usize, (overlay_base + slot) as usize],
{
    let mut name = "Editor Camera ".to_owned();
    push_decimal(&mut name, slot);
    let layers: Vec<usize> = vec![0, 1, overlay_base + slot];
    assert(layers@ =~= seq![0usize, 1usize, (overlay_base + slot) as usize]);
    SlotCameraSetup { name, order: -1, active: slot == 0, layers, primary: slot == 0 }
}

/// The 2D camera of slot `slot`: it sees the scene and its slot's private grid,
/// and renders after the slot's 3D camera. None starts active; the first slot's
/// begins as the focused view.
pub fn spawn_editor_2d_camera(slot: usize, grid_base: usize) -> (r: SlotCameraSetup)
    requires
        grid_base + slot <= usize::MAX,
    ensures
        r.name@ == "Editor Camera 2D "@ + decimal(slot as nat),
        r.order == 0,
        !r.active,
        r.primary == (slot == 0),
        r.layers@ == seq![0usize, (grid_base + slot) as usize],
{
    let mut name = "Editor Camera 2D ".to_owned();
    push_decimal(&mut name, slot);
    let layers: Vec<usize> = vec![0, grid_base + slot];
    assert(layers@ =~= seq![0usize, (grid_base + slot) as usize]);
    SlotCameraSetup { name, order: 0, active: false, layers, primary: slot == 0 }
}

} // verus!
