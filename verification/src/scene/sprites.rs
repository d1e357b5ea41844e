//! Sprites: their frame in a sheet, their image and their size.

use vstd::prelude::*;

use crate::scalar::{Point, Scalar};

verus! {

// ── Sheets ──

/// A grid of frames over an image.
#[derive(Clone, Copy, Debug, PartialEq, Eq, Structural)]
pub struct SpriteSheet {
    pub hframes: u32,
    pub vframes: u32,
    pub frame: u32,
}

/// Which part of its image a sprite shows.
#[derive(Clone, Copy, Debug, PartialEq, Eq, Structural)]
pub enum SheetCrop {
    /// All of it.
    Whole,
    /// The image is not there yet: leave the sprite as it is.
    Wait,
    /// One cell of a grid.
    Cell { columns: u32, rows: u32, column: u32, row: u32 },
}

/// At least one.
pub open spec fn at_least_one(n: u32) -> u32 {
    if n == 0 {
        1
    } else {
        n
    }
}

impl SpriteSheet {
    pub open spec fn columns(self) -> u32 {
        at_least_one(self.hframes)
    }

    pub open spec fn rows(self) -> u32 {
        at_least_one(self.vframes)
    }

    /// The part of the image that the sheet's frame is. Frames wrap rather than
    /// clamp, so that a linear animation track loops cleanly through the sheet.
    pub open spec fn crop(self, loaded: bool) -> SheetCrop {
        let columns = self.columns();
        let rows = self.rows();
        if columns == 1 && rows == 1 {
            SheetCrop::Whole
        } else if !loaded {
            SheetCrop::Wait
        } else {
            let index = self.frame as int % (columns * rows);
            SheetCrop::Cell {
                columns,
                rows,
                column: (index % columns as int) as u32,
                row: (index / columns as int) as u32,
            }
        }
    }
}

/// The cell of a sheet that a sprite shows. A grid of one cell is the whole
/// image; a larger one needs the image to be loaded.
pub fn apply_sprite_sheet_crop(sheet: SpriteSheet, loaded: bool) -> (r: SheetCrop)
    requires
        sheet.columns() * sheet.rows() <= u32::MAX,
    ensures
        r == sheet.crop(loaded),
        r matches SheetCrop::Cell { columns, rows, column, row } ==> column < columns && row < rows,
{
    let columns: u32 = if sheet.hframes == 0 {
        1
    } else {
        sheet.hframes
    };
    let rows: u32 = if sheet.vframes == 0 {
        1
    } else {
        sheet.vframes
    };
    if columns == 1 && rows == 1 {
        return SheetCrop::Whole;
    }
    if !loaded {
        return SheetCrop::Wait;
    }
    proof {
        assert(columns * rows > 0) by (nonlinear_arith)
            requires
                columns > 0,
                rows > 0,
        ;
    }
    let count: u32 = columns * rows;
    let index: u32 = sheet.frame % count;
    proof {
        assert(index < columns * rows);
        assert((index as int) / (columns as int) < rows) by (nonlinear_arith)
            requires
                index < columns * rows,
                columns > 0,
        ;
    }
    SheetCrop::Cell { columns, rows, column: index % columns, row: index / columns }
}

/// A block of cells in an atlas.
#[derive(Clone, Copy, Debug, PartialEq, Eq, Structural)]
pub struct SpriteAtlasRegion {
    pub col: u32,
    pub row: u32,
    pub w: u32,
    pub h: u32,
    pub tile_px: u32,
}

/// The cells a region spans, from one edge to the other, and their size.
#[derive(Clone, Copy, Debug, PartialEq, Eq, Structural)]
pub struct AtlasSpan {
    pub left: u32,
    pub top: u32,
    pub right: u32,
    pub bottom: u32,
    pub cell_px: u32,
}

/// The cells that a region spans. A region is at least one cell each way, and a
/// cell at least one pixel.
pub fn apply_sprite_atlas_region(region: SpriteAtlasRegion) -> (r: AtlasSpan)
    requires
        region.col + at_least_one(region.w) <= u32::MAX,
        region.row + at_least_one(region.h) <= u32::MAX,
    ensures
        r == (AtlasSpan {
            left: region.col,
            top: region.row,
            right: (region.col + at_least_one(region.w)) as u32,
            bottom: (region.row + at_least_one(region.h)) as u32,
            cell_px: at_least_one(region.tile_px),
        }),
{
    let w: u32 = if region.w == 0 {
        1
    } else {
        region.w
    };
    let h: u32 = if region.h == 0 {
        1
    } else {
        region.h
    };
    let cell_px: u32 = if region.tile_px == 0 {
        1
    } else {
        region.tile_px
    };
    AtlasSpan {
        left: region.col,
        top: region.row,
        right: region.col + w,
        bottom: region.row + h,
        cell_px,
    }
}

/// The part of its image that a sprite shows, from corner to corner.
#[derive(Clone, Copy, Debug, PartialEq, Eq, Structural)]
pub struct Corners {
    pub min: Point,
    pub max: Point,
}

/// Equality of two parts as numbers; no part is the whole image.
pub open spec fn same_part(a: Option<Corners>, b: Option<Corners>) -> bool {
    match (a, b) {
        (Some(p), Some(q)) => same_size(p.min, q.min) && same_size(p.max, q.max),
        (None, None) => true,
        _ => false,
    }
}

/// Have a sprite show a part of its image. Writes only a difference, so that a
/// settled sprite stays unchanged; returns whether it wrote.
pub fn settle_part(part: &mut Option<Corners>, wanted: Option<Corners>) -> (r: bool)
    ensures
        r == !same_part(*old(part), wanted),
        *final(part) == (if r {
            wanted
        } else {
            *old(part)
        }),
{
    let same: bool = match (*part, wanted) {
        (Some(p), Some(q)) => p.min.x.same(q.min.x) && p.min.y.same(q.min.y) && p.max.x.same(
            q.max.x,
        ) && p.max.y.same(q.max.y),
        (None, None) => true,
        _ => false,
    };
    if !same {
        *part = wanted;
    }
    !same
}

// ── Images ──

/// The side of the placeholder for a sprite without an image: `100.0`.
pub const PLACEHOLDER_BITS: u32 = 0x42C8_0000;

/// How a sprite is tinted.
#[derive(Clone, Copy, Debug, PartialEq, Eq, Structural)]
pub enum Tint {
    White,
    /// The colour of a sprite without an image.
    Placeholder,
    Other,
}

/// What an image path makes of a sprite.
#[derive(Clone, Copy, Debug, PartialEq, Eq, Structural)]
pub struct SpriteState {
    /// The image bound to the sprite; `None` for none.
    pub image: Option<u64>,
    pub tint: Tint,
    pub custom_size: Option<Point>,
}

/// The size of the placeholder.
pub open spec fn placeholder_size() -> Point {
    Point { x: Scalar { bits: PLACEHOLDER_BITS }, y: Scalar { bits: PLACEHOLDER_BITS } }
}

/// Equality of two sizes as numbers.
pub open spec fn same_size(a: Point, b: Point) -> bool {
    a.x.equal(b.x) && a.y.equal(b.y)
}

/// A sprite once its image path is applied. `wanted` is the image the path
/// names, `None` for an empty path; `persisted` is the saved size, where the
/// user resized the sprite.
pub open spec fn image_applied(
    sprite: SpriteState,
    wanted: Option<u64>,
    persisted: Option<Point>,
) -> SpriteState {
    match wanted {
        None => if sprite.image is Some {
            SpriteState {
                image: None,
                tint: Tint::Placeholder,
                custom_size: match sprite.custom_size {
                    Some(size) => Some(size),
                    None => Some(placeholder_size()),
                },
            }
        } else {
            sprite
        },
        Some(image) => if sprite.image != Some(image) {
            SpriteState { image: Some(image), tint: Tint::White, custom_size: persisted }
        } else if sprite.tint == Tint::Placeholder {
            SpriteState { tint: Tint::White, custom_size: persisted, ..sprite }
        } else {
            match persisted {
                Some(size) => if sprite.custom_size matches Some(now) && same_size(now, size) {
                    sprite
                } else {
                    SpriteState { custom_size: Some(size), ..sprite }
                },
                None => sprite,
            }
        },
    }
}

/// Bind the image that a sprite's path names, or clear it for an empty path. A
/// saved size wins; without one the image keeps its native dimensions.
pub fn apply_sprite_image_path(
    sprite: SpriteState,
    wanted: Option<u64>,
    persisted: Option<Point>,
) -> (r: SpriteState)
    ensures
        r == image_applied(sprite, wanted, persisted),
{
    match wanted {
        None => if sprite.image.is_some() {
            let custom_size = match sprite.custom_size {
                Some(size) => Some(size),
                None => Some(
                    Point {
                        x: Scalar { bits: PLACEHOLDER_BITS },
                        y: Scalar { bits: PLACEHOLDER_BITS },
                    },
                ),
            };
            SpriteState { image: None, tint: Tint::Placeholder, custom_size }
        } else {
            sprite
        },
        Some(image) => {
            let bound: bool = match sprite.image {
                Some(now) => now == image,
                None => false,
            };
            if !bound {
                SpriteState { image: Some(image), tint: Tint::White, custom_size: persisted }
            } else if sprite.tint == Tint::Placeholder {
                SpriteState { image: sprite.image, tint: Tint::White, custom_size: persisted }
            } else {
                match persisted {
                    Some(size) => {
                        let same: bool = match sprite.custom_size {
                            Some(now) => now.x.same(size.x) && now.y.same(size.y),
                            None => false,
                        };
                        if same {
                            sprite
                        } else {
                            SpriteState {
                                image: sprite.image,
                                tint: sprite.tint,
                                custom_size: Some(size),
                            }
                        }
                    },
                    None => sprite,
                }
            }
        },
    }
}

/// The sprite given to an entity that has an image path but no sprite: a
/// placeholder for an empty path, else the image at its saved or native size.
pub fn sprite_for_path(wanted: Option<u64>, persisted: Option<Point>) -> (r: SpriteState)
    ensures
        r == (match wanted {
            None => SpriteState {
                image: None,
                tint: Tint::Placeholder,
                custom_size: Some(placeholder_size()),
            },
            Some(image) => SpriteState {
                image: Some(image),
                tint: Tint::White,
                custom_size: persisted,
            },
        }),
{
    match wanted {
        None => SpriteState {
            image: None,
            tint: Tint::Placeholder,
            custom_size: Some(
                Point {
                    x: Scalar { bits: PLACEHOLDER_BITS },
                    y: Scalar { bits: PLACEHOLDER_BITS },
                },
            ),
        },
        Some(image) => SpriteState {
            image: Some(image),
            tint: Tint::White,
            custom_size: persisted,
        },
    }
}

/// What to do with the saved size of a sprite that changed.
#[derive(Clone, Copy, Debug, PartialEq, Eq, Structural)]
pub enum SizeMirror {
    Leave,
    Save(Point),
    Remove,
}

/// Mirror a sprite's size into the saved one, so that a scene save keeps it.
/// Only while editing: with an editor camera and outside play mode.
pub fn mirror_sprite_custom_size(
    editing: bool,
    playing: bool,
    size: Option<Point>,
    saved: Option<Point>,
) -> (r: SizeMirror)
    ensures
        r == (if !editing || playing {
            SizeMirror::Leave
        } else {
            match (size, saved) {
                (Some(now), Some(kept)) => if same_size(kept, now) {
                    SizeMirror::Leave
                } else {
                    SizeMirror::Save(now)
                },
                (Some(now), None) => SizeMirror::Save(now),
                (None, Some(_)) => SizeMirror::Remove,
                (None, None) => SizeMirror::Leave,
            }
        }),
{
    if !editing || playing {
        return SizeMirror::Leave;
    }
    match (size, saved) {
        (Some(now), Some(kept)) => if kept.x.same(now.x) && kept.y.same(now.y) {
            SizeMirror::Leave
        } else {
            SizeMirror::Save(now)
        },
        (Some(now), None) => SizeMirror::Save(now),
        (None, Some(_)) => SizeMirror::Remove,
        (None, None) => SizeMirror::Leave,
    }
}

/// The saved size, where a live sprite has not picked it up yet.
pub fn on_sprite_custom_size_inserted(current: Option<Point>, saved: Point) -> (r: Option<Point>)
    ensures
        r == (if current matches Some(now) && same_size(now, saved) {
            None
        } else {
            Some(saved)
        }),
        (match r {
            Some(size) => size,
            None => current->0,
        }) == size_applied(current, saved),
{
    let same: bool = match current {
        Some(now) => now.x.same(saved.x) && now.y.same(saved.y),
        None => false,
    };
    if same {
        None
    } else {
        Some(saved)
    }
}

/// A sprite at the size that an inserted saved size leaves it with.
pub open spec fn size_applied(current: Option<Point>, saved: Point) -> Point {
    match current {
        Some(now) if same_size(now, saved) => now,
        _ => saved,
    }
}

/// Whichever of an image path and a saved size arrives last, a resized sprite
/// ends up at its saved size.
pub proof fn saved_size_wins(sprite: SpriteState, image: u64, saved: Point)
    requires
        !saved.x.nan(),
        !saved.y.nan(),
    ensures
        image_applied(sprite, Some(image), Some(saved)).custom_size matches Some(size)
            && same_size(size, saved),
        same_size(size_applied(image_applied(sprite, Some(image), None).custom_size, saved), saved),
{
}

/// Applying an image path twice is applying it once.
pub proof fn applying_twice(sprite: SpriteState, wanted: Option<u64>, persisted: Option<Point>)
    requires
        persisted matches Some(size) ==> !size.x.nan() && !size.y.nan(),
    ensures
        image_applied(image_applied(sprite, wanted, persisted), wanted, persisted)
            == image_applied(sprite, wanted, persisted),
{
}

// ── Depth by height ──

/// The bounds of the share of a sprite's depth that comes from its height:
/// `-0.5` and `0.5`.
pub const Y_SORT_LOW_BITS: u32 = 0xBF00_0000;

pub const Y_SORT_HIGH_BITS: u32 = 0x3F00_0000;

/// The share of a sprite's depth that comes from its scaled height.
pub fn clamp_y_sort(scaled: Scalar) -> (r: Scalar)
    ensures
        r == scaled.clamped(
            Scalar { bits: Y_SORT_LOW_BITS },
            Scalar { bits: Y_SORT_HIGH_BITS },
        ),
{
    scaled.clamp(Scalar { bits: Y_SORT_LOW_BITS }, Scalar { bits: Y_SORT_HIGH_BITS })
}

/// Put a sprite at a depth. Writes only a difference, so that a settled sprite
/// stays unchanged; returns whether it wrote.
pub fn apply_y_sort(z: &mut Scalar, wanted: Scalar) -> (r: bool)
    ensures
        r == !old(z).equal(wanted),
        *final(z) == (if r {
            wanted
        } else {
            *old(z)
        }),
{
    if !z.same(wanted) {
        *z = wanted;
        true
    } else {
        false
    }
}

} // verus!
