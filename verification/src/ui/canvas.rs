//! Canvases: when they show, which camera draws them, and how they scale.

use vstd::prelude::*;

use crate::scalar::{Point, Scalar, ZERO_BITS};
use crate::text::same_text;

verus! {

// ── Visibility ──

/// How an entity is shown.
#[derive(Clone, Copy, Debug, PartialEq, Eq, Structural)]
pub enum Visibility {
    /// As its parent is.
    Inherited,
    Hidden,
    /// Whatever its parent is.
    Visible,
}

/// Whether a canvas shows: always, in play only, or in the editor only. A mode
/// that is none of these shows.
pub open spec fn mode_shows(mode: Seq<char>, in_play: bool) -> bool {
    if mode == "play_only"@ {
        in_play
    } else if mode == "editor_only"@ {
        !in_play
    } else {
        true
    }
}

/// Apply a canvas's visibility mode. Writes only a difference; returns whether
/// it wrote.
pub fn apply_canvas_visibility_to(in_play: bool, mode: &str, vis: &mut Visibility) -> (r: bool)
    ensures
        *final(vis) == (if mode_shows(mode@, in_play) {
            Visibility::Inherited
        } else {
            Visibility::Hidden
        }),
        r == (*old(vis) != *final(vis)),
{
    let visible: bool = if same_text(mode, "play_only") {
        in_play
    } else if same_text(mode, "editor_only") {
        !in_play
    } else {
        true
    };
    let target = if visible {
        Visibility::Inherited
    } else {
        Visibility::Hidden
    };
    if *vis != target {
        *vis = target;
        true
    } else {
        false
    }
}

/// Whether a canvas counts as being in play: without a play mode, which is a
/// shipped game, it does.
pub fn counts_as_play(play_mode: Option<bool>) -> (r: bool)
    ensures
        r == (play_mode != Some(false)),
{
    match play_mode {
        Some(playing) => playing,
        None => true,
    }
}

/// Whether canvases are previewed while editing.
#[derive(Clone, Copy, Debug, PartialEq, Eq, Structural)]
pub struct UiCanvasPreviewEnabled(pub bool);

impl Default for UiCanvasPreviewEnabled {
    fn default() -> (r: UiCanvasPreviewEnabled)
        ensures
            !r.0,
    {
        UiCanvasPreviewEnabled(false)
    }
}

// ── Target camera ──

/// The camera that draws screen canvases in the editor: the offscreen one while
/// editing; in play the editor camera that renders the running game, which is
/// the 2D one for a 2D game.
pub fn canvas_camera(
    playing: bool,
    game_is_2d: bool,
    editor: Option<u64>,
    editor_2d: Option<u64>,
    offscreen: Option<u64>,
) -> (r: Option<u64>)
    ensures
        r == (if !playing {
            offscreen
        } else if game_is_2d {
            editor_2d
        } else {
            editor
        }),
{
    if !playing {
        offscreen
    } else if game_is_2d {
        editor_2d
    } else {
        editor
    }
}

/// A canvas and the camera that draws it.
#[derive(Clone, Copy, Debug, PartialEq, Eq, Structural)]
pub struct CanvasTarget {
    pub entity: u64,
    pub camera: Option<u64>,
    /// Drawn onto a plane in the scene, through a camera of its own.
    pub world: bool,
}

/// Being a screen canvas drawn by another camera than `target`, or by none.
pub open spec fn misrouted(target: u64) -> spec_fn(CanvasTarget) -> bool {
    |c: CanvasTarget| !c.world && c.camera != Some(target)
}

/// The canvases to point at `target`. Only ever sets the right camera, never
/// removes one: a canvas keeps a valid target at all times. While no camera is
/// known, canvases stay as they are.
pub fn canvases_to_route(target: Option<u64>, canvases: &Vec<CanvasTarget>) -> (r: Vec<u64>)
    ensures
        r@ == (match target {
            Some(camera) => canvases@.filter(misrouted(camera)).map_values(
                |c: CanvasTarget| c.entity,
            ),
            None => Seq::empty(),
        }),
{
    let mut out: Vec<u64> = Vec::new();
    let camera = match target {
        Some(camera) => camera,
        None => {
            return out;
        },
    };
    let mut i: usize = 0;
    proof {
        reveal(Seq::filter);
        assert(canvases@.take(0).filter(misrouted(camera)) =~= Seq::<CanvasTarget>::empty());
    }
    while i < canvases.len()
        invariant
            i <= canvases@.len(),
            out@ == canvases@.take(i as int).filter(misrouted(camera)).map_values(
                |c: CanvasTarget| c.entity,
            ),
        decreases canvases@.len() - i,
    {
        let ghost before = canvases@.take(i as int).filter(misrouted(camera));
        proof {
            reveal(Seq::filter);
            assert(canvases@.take(i + 1).drop_last() == canvases@.take(i as int));
            assert(canvases@.take(i + 1).last() == canvases@[i as int]);
        }
        let c: CanvasTarget = canvases[i];
        let routed: bool = match c.camera {
            Some(current) => current == camera,
            None => false,
        };
        if !c.world && !routed {
            out.push(c.entity);
            assert(before.push(c).map_values(|c: CanvasTarget| c.entity) =~= before.map_values(
                |c: CanvasTarget| c.entity,
            ).push(c.entity));
        }
        i += 1;
    }
    assert(canvases@.take(i as int) == canvases@);
    out
}

/// A canvas pointed at `target` where it has to be.
pub open spec fn routed(target: u64) -> spec_fn(CanvasTarget) -> CanvasTarget {
    |c: CanvasTarget|
        if misrouted(target)(c) {
            CanvasTarget { camera: Some(target), ..c }
        } else {
            c
        }
}

/// Once canvases are routed, every screen canvas is drawn by the camera and
/// every world canvas is as it was: there is nothing left to route.
pub proof fn routing_settles(canvases: Seq<CanvasTarget>, target: u64, i: int)
    requires
        0 <= i < canvases.len(),
    ensures
        ({
            let after = canvases.map_values(routed(target));
            &&& !misrouted(target)(after[i])
            &&& canvases[i].world ==> after[i] == canvases[i]
            &&& !canvases[i].world ==> after[i].camera == Some(target)
        }),
{
}

// ── Scale ──

/// The width a canvas is designed for where there is none: `1280.0`.
pub const REFERENCE_WIDTH_BITS: u32 = 0x44A0_0000;

/// The height a canvas is designed for where there is none: `720.0`.
pub const REFERENCE_HEIGHT_BITS: u32 = 0x4434_0000;

/// Sizes to scale between.
#[derive(Clone, Copy, Debug, PartialEq, Eq, Structural)]
pub struct ScaleSizes {
    /// What the interface is designed for.
    pub reference: Point,
    /// What it is drawn at.
    pub actual: Point,
}

/// Whether a size is no size.
pub open spec fn no_size(size: Point) -> bool {
    let zero = Scalar { bits: ZERO_BITS };
    size.x.at_most(zero) || size.y.at_most(zero)
}

/// The sizes that the interface is scaled between: the first canvas's reference
/// size, or the default one, and the render target's size, or the window's.
/// `None` while one of them is unknown or no size.
pub open spec fn scale_sizes_of(
    canvas: Option<Point>,
    target: Option<Point>,
    window: Option<Point>,
) -> Option<ScaleSizes> {
    let reference = match canvas {
        Some(size) => size,
        None => Point {
            x: Scalar { bits: REFERENCE_WIDTH_BITS },
            y: Scalar { bits: REFERENCE_HEIGHT_BITS },
        },
    };
    let known = match target {
        Some(size) => Some(size),
        None => window,
    };
    match known {
        Some(actual) if !no_size(reference) && !no_size(actual) => Some(
            ScaleSizes { reference, actual },
        ),
        _ => None,
    }
}

fn lacks_size(size: Point) -> (r: bool)
    ensures
        r == no_size(size),
{
    let zero = Scalar { bits: ZERO_BITS };
    size.x.le(zero) || size.y.le(zero)
}

/// The sizes that the interface is scaled between.
pub fn scale_sizes(canvas: Option<Point>, target: Option<Point>, window: Option<Point>) -> (r:
    Option<ScaleSizes>)
    ensures
        r == scale_sizes_of(canvas, target, window),
{
    let reference = match canvas {
        Some(size) => size,
        None => Point {
            x: Scalar { bits: REFERENCE_WIDTH_BITS },
            y: Scalar { bits: REFERENCE_HEIGHT_BITS },
        },
    };
    let known = match target {
        Some(size) => Some(size),
        None => window,
    };
    match known {
        Some(actual) => if !lacks_size(reference) && !lacks_size(actual) {
            Some(ScaleSizes { reference, actual })
        } else {
            None
        },
        None => None,
    }
}

/// Set the interface scale to the lesser of the two axes' ratios. Writes only a
/// difference, because a write invalidates the whole layout; returns whether it
/// wrote.
pub fn update_ui_scale(scale: &mut Scalar, across: Scalar, down: Scalar) -> (r: bool)
    ensures
        r == !old(scale).equal(across.lesser(down)),
        *final(scale) == (if r {
            across.lesser(down)
        } else {
            *old(scale)
        }),
{
    let wanted = across.min(down);
    if !scale.same(wanted) {
        *scale = wanted;
        true
    } else {
        false
    }
}

} // verus!
