//! The editor's viewport cameras.

use vstd::prelude::*;

use crate::scalar::{Point, Scalar, ZERO_BITS};

verus! {

/// A camera of a viewport slot.
#[derive(Clone, Copy, Debug, PartialEq, Eq, Structural)]
pub struct SlotCamera {
    pub entity: u64,
    pub slot: usize,
}

/// A camera and the image it renders to.
#[derive(Clone, Copy, Debug, PartialEq, Eq, Structural)]
pub struct Binding {
    pub entity: u64,
    pub image: u64,
}

/// The image of a slot, where it has one.
pub open spec fn slot_image(images: Seq<Option<u64>>, slot: int) -> Option<u64> {
    if 0 <= slot < images.len() {
        images[slot]
    } else {
        None
    }
}

/// The cameras that can be bound among the first `n`.
pub open spec fn bindings(cameras: Seq<SlotCamera>, images: Seq<Option<u64>>, n: int) -> Seq<
    Binding,
>
    decreases n,
{
    if n <= 0 {
        Seq::empty()
    } else {
        let before = bindings(cameras, images, n - 1);
        match slot_image(images, cameras[n - 1].slot as int) {
            Some(image) => before.push(Binding { entity: cameras[n - 1].entity, image }),
            None => before,
        }
    }
}

/// Bind viewport cameras to their slots' images, once: `bound` is set when all
/// of the viewports' cameras are there and every one has its image. Returns the
/// cameras to bind.
pub fn sync_viewport_camera_targets(
    bound: &mut bool,
    cameras: &Vec<SlotCamera>,
    images: &Vec<Option<u64>>,
    viewports: usize,
) -> (r: Vec<Binding>)
    ensures
        *old(bound) ==> *final(bound) && r@.len() == 0,
        !*old(bound) ==> r@ == bindings(cameras@, images@, cameras@.len() as int),
        !*old(bound) ==> *final(bound) == (cameras@.len() == viewports && r@.len()
            == cameras@.len()),
{
    let mut out: Vec<Binding> = Vec::new();
    if *bound {
        return out;
    }
    let mut i: usize = 0;
    while i < cameras.len()
        invariant
            i <= cameras@.len(),
            out@ == bindings(cameras@, images@, i as int),
            out@.len() <= i,
        decreases cameras@.len() - i,
    {
        let slot: usize = cameras[i].slot;
        if slot < images.len() {
            if let Some(image) = images[slot] {
                out.push(Binding { entity: cameras[i].entity, image });
            }
        }
        i += 1;
    }
    if out.len() == cameras.len() && cameras.len() == viewports {
        *bound = true;
    }
    out
}

// ── 2D framing ──

/// The framing of a 2D viewport: what it looks at and how close.
#[derive(Clone, Copy, Debug, PartialEq, Eq, Structural)]
pub struct Framing {
    pub pan: Point,
    pub zoom: Scalar,
}

/// Whether a slot has been framed yet.
pub open spec fn framed(slot: Framing) -> bool {
    !slot.zoom.at_most(Scalar { bits: ZERO_BITS })
}

/// The framings once the focused camera's is recorded in its slot.
pub open spec fn with_focused(slots: Seq<Framing>, focused: Option<(usize, Framing)>) -> Seq<
    Framing,
> {
    match focused {
        Some((slot, framing)) if slot < slots.len() => slots.update(slot as int, framing),
        _ => slots,
    }
}

/// The framing that an unframed slot starts from.
pub open spec fn seed_of(slots: Seq<Framing>, focused: Option<(usize, Framing)>) -> Option<
    Framing,
> {
    match focused {
        Some((slot, framing)) if slot < slots.len() => Some(framing),
        _ => None,
    }
}

/// The framings once the slots of the first `n` other cameras are seeded.
pub open spec fn seeded(
    slots: Seq<Framing>,
    others: Seq<SlotCamera>,
    seed: Option<Framing>,
    n: int,
) -> Seq<Framing>
    decreases n,
{
    if n <= 0 {
        slots
    } else {
        let before = seeded(slots, others, seed, n - 1);
        let slot = others[n - 1].slot as int;
        match seed {
            Some(framing) if slot < before.len() && !framed(before[slot]) => before.update(
                slot,
                framing,
            ),
            _ => before,
        }
    }
}

/// A camera and the framing it takes.
#[derive(Clone, Copy, Debug, PartialEq, Eq, Structural)]
pub struct FramingChange {
    pub entity: u64,
    pub framing: Framing,
}

/// The framings that the first `n` other cameras take: their slots', unless a
/// slot is unframed and there is nothing to seed it from.
pub open spec fn framing_changes(
    slots: Seq<Framing>,
    others: Seq<SlotCamera>,
    seed: Option<Framing>,
    n: int,
) -> Seq<FramingChange>
    decreases n,
{
    if n <= 0 {
        Seq::empty()
    } else {
        let before = framing_changes(slots, others, seed, n - 1);
        let now = seeded(slots, others, seed, n);
        let slot = others[n - 1].slot as int;
        if slot < now.len() && (framed(now[slot]) || seed is Some) {
            before.push(FramingChange { entity: others[n - 1].entity, framing: now[slot] })
        } else {
            before
        }
    }
}

/// Keep the framing of 2D viewports: the focused camera's is recorded in its
/// slot, and every other camera takes its slot's, starting from the focused one
/// where it was never framed. `focused` is the focused camera's slot and
/// framing. Returns the framings to apply.
pub fn sync_2d_viewport_cameras(
    slots: &mut Vec<Framing>,
    focused: Option<(usize, Framing)>,
    others: &Vec<SlotCamera>,
) -> (r: Vec<FramingChange>)
    ensures
        ({
            let start = with_focused(old(slots)@, focused);
            let seed = seed_of(old(slots)@, focused);
            &&& final(slots)@ == seeded(start, others@, seed, others@.len() as int)
            &&& r@ == framing_changes(start, others@, seed, others@.len() as int)
        }),
{
    let mut seed: Option<Framing> = None;
    if let Some((slot, framing)) = focused {
        if slot < slots.len() {
            slots.set(slot, framing);
            seed = Some(framing);
        }
    }
    let ghost start = slots@;
    let mut out: Vec<FramingChange> = Vec::new();
    let mut i: usize = 0;
    while i < others.len()
        invariant
            i <= others@.len(),
            slots@ == seeded(start, others@, seed, i as int),
            slots@.len() == start.len(),
            out@ == framing_changes(start, others@, seed, i as int),
        decreases others@.len() - i,
    {
        let slot: usize = others[i].slot;
        if slot < slots.len() {
            let current: Framing = slots[slot];
            let unframed: bool = current.zoom.le(Scalar { bits: ZERO_BITS });
            if unframed {
                if let Some(framing) = seed {
                    slots.set(slot, framing);
                    out.push(FramingChange { entity: others[i].entity, framing });
                }
            } else {
                out.push(FramingChange { entity: others[i].entity, framing: current });
            }
        }
        i += 1;
    }
    out
}

// ── The 2D camera's controls ──

/// What a frame of input does to the 2D editor camera.
#[derive(Clone, Copy, Debug, PartialEq, Eq, Structural)]
pub struct CameraInput {
    /// The viewport shows the 2D view, outside play mode.
    pub in_2d_view: bool,
    pub hovered: bool,
    /// The middle or right button is held.
    pub dragging: bool,
    pub shift: bool,
    pub control: bool,
    pub wheel: Point,
}

/// How the wheel moves the camera.
#[derive(Clone, Copy, Debug, PartialEq, Eq, Structural)]
pub enum WheelMove {
    Nothing,
    /// Up and down by the wheel, and sideways by its sideways part.
    Vertical,
    /// Sideways by the wheel, and by its sideways part.
    Horizontal,
    /// Sideways by the wheel's sideways part only.
    Sideways,
    /// Closer or further, about the cursor.
    Zoom,
}

/// Whether a drag pans the camera in this frame.
pub fn pans(input: CameraInput) -> (r: bool)
    ensures
        r == (input.in_2d_view && input.hovered && input.dragging),
{
    input.in_2d_view && input.hovered && input.dragging
}

/// What the wheel does in this frame: shift scrolls up and down, control
/// sideways, a sideways wheel sideways; a plain wheel zooms.
pub fn wheel_move(input: CameraInput) -> (r: WheelMove)
    ensures
        r == ({
            let zero = Scalar { bits: ZERO_BITS };
            if !input.in_2d_view || !input.hovered {
                WheelMove::Nothing
            } else if input.shift {
                WheelMove::Vertical
            } else if input.control {
                WheelMove::Horizontal
            } else if !input.wheel.x.equal(zero) {
                WheelMove::Sideways
            } else if !input.wheel.y.equal(zero) {
                WheelMove::Zoom
            } else {
                WheelMove::Nothing
            }
        }),
{
    let zero = Scalar { bits: ZERO_BITS };
    if !input.in_2d_view || !input.hovered {
        WheelMove::Nothing
    } else if input.shift {
        WheelMove::Vertical
    } else if input.control {
        WheelMove::Horizontal
    } else if !input.wheel.x.same(zero) {
        WheelMove::Sideways
    } else if !input.wheel.y.same(zero) {
        WheelMove::Zoom
    } else {
        WheelMove::Nothing
    }
}

/// The closest a 2D view gets: `0.01`.
pub const ZOOM_MIN_BITS: u32 = 0x3C23_D70A;

/// The furthest a 2D view gets: `1000.0`.
pub const ZOOM_MAX_BITS: u32 = 0x447A_0000;

/// A zoom in the range that a 2D view allows.
pub fn clamp_zoom(zoom: Scalar) -> (r: Scalar)
    ensures
        r == zoom.clamped(Scalar { bits: ZOOM_MIN_BITS }, Scalar { bits: ZOOM_MAX_BITS }),
{
    zoom.clamp(Scalar { bits: ZOOM_MIN_BITS }, Scalar { bits: ZOOM_MAX_BITS })
}

/// Whether a cursor, relative to the viewport, is over it, and the viewport has
/// an image: then a zoom keeps the point under the cursor in place.
pub fn zooms_about_cursor(in_rect: Point, screen: Point, image: Point) -> (r: bool)
    ensures
        r == ({
            let zero = Scalar { bits: ZERO_BITS };
            !(in_rect.x.less(zero) || in_rect.y.less(zero) || screen.x.at_most(in_rect.x)
                || screen.y.at_most(in_rect.y) || image.x.at_most(zero) || image.y.at_most(zero))
        }),
{
    let zero = Scalar { bits: ZERO_BITS };
    !(in_rect.x.lt(zero) || in_rect.y.lt(zero) || screen.x.le(in_rect.x) || screen.y.le(in_rect.y)
        || image.x.le(zero) || image.y.le(zero))
}

/// The smallest image that a 2D view is framed in: `2.0` each way.
pub const MIN_FRAME_BITS: u32 = 0x4000_0000;

/// Whether to frame the 2D view now: once, in the 2D view, with an image of some
/// size, a project and a flat camera.
pub fn frame_2d_default(
    framed_already: bool,
    in_2d_view: bool,
    image: Option<Point>,
    has_project: bool,
    has_flat_camera: bool,
) -> (r: bool)
    ensures
        r == ({
            let least = Scalar { bits: MIN_FRAME_BITS };
            !framed_already && in_2d_view && has_project && has_flat_camera && (
            image matches Some(size) && !size.x.less(least) && !size.y.less(least))
        }),
{
    let least = Scalar { bits: MIN_FRAME_BITS };
    let large: bool = match image {
        Some(size) => !size.x.lt(least) && !size.y.lt(least),
        None => false,
    };
    !framed_already && in_2d_view && has_project && has_flat_camera && large
}

// ── Sharing the sky ──

/// A secondary viewport camera and the sky it shows.
#[derive(Clone, Copy, Debug, PartialEq, Eq, Structural)]
pub struct SkyCamera {
    pub entity: u64,
    pub sky: Option<u64>,
}

/// Showing another sky than `image`.
pub open spec fn other_sky(image: u64) -> spec_fn(SkyCamera) -> bool {
    |c: SkyCamera| c.sky != Some(image)
}

/// The secondary cameras that have to be given the primary's sky: those that
/// show another one, or none. Without a primary sky nothing is shared.
pub fn share_sky_to_secondary_viewports(primary: Option<u64>, cameras: &Vec<SkyCamera>) -> (r: Vec<u64>)
    ensures
        r@ == (match primary {
            Some(image) => cameras@.filter(other_sky(image)).map_values(|c: SkyCamera| c.entity),
            None => Seq::empty(),
        }),
{
    let mut out: Vec<u64> = Vec::new();
    let image = match primary {
        Some(image) => image,
        None => {
            return out;
        },
    };
    let mut i: usize = 0;
    proof {
        reveal(Seq::filter);
        assert(cameras@.take(0).filter(other_sky(image)) =~= Seq::<SkyCamera>::empty());
    }
    while i < cameras.len()
        invariant
            i <= cameras@.len(),
            out@ == cameras@.take(i as int).filter(other_sky(image)).map_values(
                |c: SkyCamera| c.entity,
            ),
        decreases cameras@.len() - i,
    {
        let ghost before = cameras@.take(i as int).filter(other_sky(image));
        proof {
            reveal(Seq::filter);
            assert(cameras@.take(i + 1).drop_last() == cameras@.take(i as int));
            assert(cameras@.take(i + 1).last() == cameras@[i as int]);
        }
        let current: bool = match cameras[i].sky {
            Some(sky) => sky == image,
            None => false,
        };
        if !current {
            out.push(cameras[i].entity);
            assert(before.push(cameras@[i as int]).map_values(|c: SkyCamera| c.entity)
                =~= before.map_values(|c: SkyCamera| c.entity).push(cameras@[i as int].entity));
        }
        i += 1;
    }
    assert(cameras@.take(i as int) == cameras@);
    out
}

/// A view that has been framed keeps its framing, unless it is the focused one:
/// no view's framing is ever copied into another's.
pub proof fn framed_views_are_their_own(
    slots: Seq<Framing>,
    focused: Option<(usize, Framing)>,
    others: Seq<SlotCamera>,
    n: int,
    k: int,
)
    requires
        0 <= n <= others.len(),
        0 <= k < slots.len(),
        framed(slots[k]),
        focused matches Some((slot, _)) ==> slot != k,
    ensures
        seeded(with_focused(slots, focused), others, seed_of(slots, focused), n)[k] == slots[k],
        seeded(with_focused(slots, focused), others, seed_of(slots, focused), n).len()
            == slots.len(),
    decreases n,
{
    if n > 0 {
        framed_views_are_their_own(slots, focused, others, n - 1, k);
    }
}

} // verus!
