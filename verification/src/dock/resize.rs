//! The edges by which a floating window is resized.

use vstd::prelude::*;

use crate::scalar::{Scalar, ZERO_BITS};

verus! {

/// The width of an edge strip: `5.0` px.
pub const EDGE_BITS: u32 = 0x40A0_0000;

/// The size of a corner: `12.0` px.
pub const CORNER_BITS: u32 = 0x4140_0000;

/// A side or a corner of a window.
#[derive(Clone, Copy, Debug, PartialEq, Eq, Structural)]
pub enum Octant {
    North,
    South,
    West,
    East,
    NorthWest,
    NorthEast,
    SouthWest,
    SouthEast,
}

/// The cursor shown over a zone.
#[derive(Clone, Copy, Debug, PartialEq, Eq, Structural)]
pub enum ResizeCursor {
    NorthSouth,
    EastWest,
    NorthWest,
    NorthEast,
    SouthWest,
    SouthEast,
}

/// A length in a layout.
#[derive(Clone, Copy, Debug, PartialEq, Eq, Structural)]
pub enum Extent {
    Auto,
    Px(Scalar),
    /// All of the parent.
    Full,
}

/// Where a zone lies in its window.
#[derive(Clone, Copy, Debug, PartialEq, Eq, Structural)]
pub struct ResizeZone {
    pub octant: Octant,
    pub cursor: ResizeCursor,
    pub left: Extent,
    pub right: Extent,
    pub top: Extent,
    pub bottom: Extent,
    pub width: Extent,
    pub height: Extent,
}

impl Octant {
    pub open spec fn at_top(self) -> bool {
        self is North || self is NorthWest || self is NorthEast
    }

    pub open spec fn at_bottom(self) -> bool {
        self is South || self is SouthWest || self is SouthEast
    }

    pub open spec fn at_left(self) -> bool {
        self is West || self is NorthWest || self is SouthWest
    }

    pub open spec fn at_right(self) -> bool {
        self is East || self is NorthEast || self is SouthEast
    }

    /// Touching two sides.
    pub open spec fn is_corner(self) -> bool {
        (self.at_top() || self.at_bottom()) && (self.at_left() || self.at_right())
    }

    /// The cursor that tells which way the zone resizes.
    pub open spec fn cursor(self) -> ResizeCursor {
        match self {
            Octant::North => ResizeCursor::NorthSouth,
            Octant::South => ResizeCursor::NorthSouth,
            Octant::West => ResizeCursor::EastWest,
            Octant::East => ResizeCursor::EastWest,
            Octant::NorthWest => ResizeCursor::NorthWest,
            Octant::NorthEast => ResizeCursor::NorthEast,
            Octant::SouthWest => ResizeCursor::SouthWest,
            Octant::SouthEast => ResizeCursor::SouthEast,
        }
    }

    /// Where the zone lies. It touches the sides it resizes. A corner is a
    /// square; an edge runs along its side, from just past the first corner.
    pub open spec fn zone(self) -> ResizeZone {
        let zero = Extent::Px(Scalar { bits: ZERO_BITS });
        let edge = Extent::Px(Scalar { bits: EDGE_BITS });
        let corner = Extent::Px(Scalar { bits: CORNER_BITS });
        ResizeZone {
            octant: self,
            cursor: self.cursor(),
            left: if self.at_left() {
                zero
            } else if self.at_right() {
                Extent::Auto
            } else {
                corner
            },
            right: if self.at_right() {
                zero
            } else {
                Extent::Auto
            },
            top: if self.at_top() {
                zero
            } else if self.at_bottom() {
                Extent::Auto
            } else {
                corner
            },
            bottom: if self.at_bottom() {
                zero
            } else {
                Extent::Auto
            },
            width: if self.is_corner() {
                corner
            } else if self.at_left() || self.at_right() {
                edge
            } else {
                Extent::Full
            },
            height: if self.is_corner() {
                corner
            } else if self.at_top() || self.at_bottom() {
                edge
            } else {
                Extent::Full
            },
        }
    }
}

/// The zones in the order they are put in place.
pub open spec fn zone_order() -> Seq<Octant> {
    seq![
        Octant::North,
        Octant::South,
        Octant::West,
        Octant::East,
        Octant::NorthWest,
        Octant::NorthEast,
        Octant::SouthWest,
        Octant::SouthEast,
    ]
}

/// The zone of a side or a corner.
pub fn resize_zone(octant: Octant) -> (r: ResizeZone)
    ensures
        r == octant.zone(),
{
    let zero = Extent::Px(Scalar { bits: ZERO_BITS });
    let edge = Extent::Px(Scalar { bits: EDGE_BITS });
    let corner = Extent::Px(Scalar { bits: CORNER_BITS });
    let auto = Extent::Auto;
    let full = Extent::Full;
    let (cursor, left, right, top, bottom, width, height) = match octant {
        Octant::North => (ResizeCursor::NorthSouth, corner, auto, zero, auto, full, edge),
        Octant::South => (ResizeCursor::NorthSouth, corner, auto, auto, zero, full, edge),
        Octant::West => (ResizeCursor::EastWest, zero, auto, corner, auto, edge, full),
        Octant::East => (ResizeCursor::EastWest, auto, zero, corner, auto, edge, full),
        Octant::NorthWest => (ResizeCursor::NorthWest, zero, auto, zero, auto, corner, corner),
        Octant::NorthEast => (ResizeCursor::NorthEast, auto, zero, zero, auto, corner, corner),
        Octant::SouthWest => (ResizeCursor::SouthWest, zero, auto, auto, zero, corner, corner),
        Octant::SouthEast => (ResizeCursor::SouthEast, auto, zero, auto, zero, corner, corner),
    };
    ResizeZone { octant, cursor, left, right, top, bottom, width, height }
}

/// The zones around a floating window, in the order they are put in place.
pub fn resize_zones() -> (r: Vec<ResizeZone>)
    ensures
        r@ == zone_order().map_values(|o: Octant| o.zone()),
{
    let out: Vec<ResizeZone> = vec![
        resize_zone(Octant::North),
        resize_zone(Octant::South),
        resize_zone(Octant::West),
        resize_zone(Octant::East),
        resize_zone(Octant::NorthWest),
        resize_zone(Octant::NorthEast),
        resize_zone(Octant::SouthWest),
        resize_zone(Octant::SouthEast),
    ];
    assert(out@ =~= zone_order().map_values(|o: Octant| o.zone()));
    out
}

/// Corners come after edges, so they win where they overlap, and every side and
/// corner has a zone.
pub proof fn corners_win(octant: Octant, i: int, j: int)
    requires
        0 <= i < zone_order().len(),
        0 <= j < zone_order().len(),
        zone_order()[i].is_corner(),
        !zone_order()[j].is_corner(),
    ensures
        j < i,
        zone_order().contains(octant),
{
    let order = zone_order();
    assert(order[0] is North && order[1] is South && order[2] is West && order[3] is East);
    assert(order[4] is NorthWest && order[5] is NorthEast && order[6] is SouthWest
        && order[7] is SouthEast);
}

} // verus!
