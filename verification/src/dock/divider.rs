//! Divider drags and collapsible bottom regions.

use vstd::prelude::*;

use crate::dock::docks::{Docks, DocksModel};
use crate::dock::drop::option_text;
use crate::dock::layout::{clamped_ratio, RATIO_HALF_BITS};
use crate::dock::tree::clamp_ratio;
use crate::scalar::{Point, Scalar, ZERO_BITS};
use crate::text::{find_first, position};

verus! {

/// A bottom pane dragged below this height (px) snaps closed: `48.0`.
pub const BOTTOM_SNAP_BITS: u32 = 0x4240_0000;

/// The parent split of a leaf, as its tab bar sees it.
pub struct ParentSplit {
    pub horizontal: bool,
    pub is_second: bool,
    pub path: Vec<bool>,
}

impl ParentSplit {
    /// Whether the leaf's tab bar lies along the split's divider, so that it
    /// can double as the divider's handle: the bar is the top slice of the
    /// leaf, so only the lower child of a stacked split has it there.
    pub open spec fn bar_on_divider(self) -> bool {
        !self.horizontal && self.is_second
    }

    pub fn aligned(&self) -> (r: bool)
        ensures
            r == self.bar_on_divider(),
    {
        !self.horizontal && self.is_second
    }
}

/// A request to collapse a bottom region.
pub struct BottomSnap {
    /// The ratio to restore when the region opens again.
    pub restore: Option<Scalar>,
    /// A panel of the region, for a nested one; `None` for the root's.
    pub target: Option<String>,
}

/// The pending collapse, if any.
pub struct BottomSnapRequest(pub Option<BottomSnap>);

/// Panels that mark the leaf they are in as a collapsible bottom strip.
pub struct BottomStripMarkers(pub Vec<String>);

/// The path of a divider that a held drag should adopt.
pub struct GrabRootDivider(pub Option<Vec<bool>>);

/// A divider handle.
pub struct DividerProbe {
    pub handle: u64,
    pub pressed: bool,
    /// Side-by-side panes: the divider moves left and right.
    pub horizontal: bool,
    pub path: Vec<bool>,
    pub area: u64,
    pub floating: bool,
    /// A panel of the bottom strip below, where the pane below is one.
    pub strip: Option<String>,
    /// The share of the first pane as it is laid out, where it is known.
    pub share: Option<Scalar>,
}

/// What a divider handle holds.
pub struct DividerSite {
    pub handle: u64,
    pub pressed: bool,
    pub horizontal: bool,
    pub path: Seq<bool>,
    pub area: u64,
    pub floating: bool,
    pub strip: Option<Seq<char>>,
    pub share: Option<Scalar>,
}

impl View for DividerProbe {
    type V = DividerSite;

    open spec fn view(&self) -> DividerSite {
        DividerSite {
            handle: self.handle,
            pressed: self.pressed,
            horizontal: self.horizontal,
            path: self.path@,
            area: self.area,
            floating: self.floating,
            strip: option_text(self.strip),
            share: self.share,
        }
    }
}

pub open spec fn divider_sites(dividers: Seq<DividerProbe>) -> Seq<DividerSite> {
    dividers.map_values(|d: DividerProbe| d@)
}

/// A divider drag in progress.
#[derive(Clone, Copy, Debug, PartialEq, Eq, Structural)]
pub struct DividerDrag {
    pub handle: u64,
    pub start_cursor: Point,
    pub start_ratio: Scalar,
}

/// The divider drag in progress, if any.
pub struct DraggedDivider(pub Option<DividerDrag>);

/// The first upright-moving divider of a docked area at `path`, or their number.
pub open spec fn grabbed(dividers: Seq<DividerSite>, path: Seq<bool>) -> int {
    position(
        dividers.map_values(|d: DividerSite| !d.floating && !d.horizontal && d.path == path),
        true,
    )
}

/// The first pressed divider, or their number.
pub open spec fn pressed_divider(dividers: Seq<DividerSite>) -> int {
    position(dividers.map_values(|d: DividerSite| d.pressed), true)
}

/// The divider with this handle, or their number.
pub open spec fn divider_index(dividers: Seq<DividerSite>, handle: u64) -> int {
    position(dividers.map_values(|d: DividerSite| d.handle == handle), true)
}

/// A drag of a divider from where it is.
pub open spec fn drag_from(site: DividerSite, cursor: Point) -> DividerDrag {
    DividerDrag {
        handle: site.handle,
        start_cursor: cursor,
        start_ratio: match site.share {
            Some(share) => share,
            None => Scalar { bits: RATIO_HALF_BITS },
        },
    }
}

pub open spec fn grab_path(grab: GrabRootDivider) -> Option<Seq<bool>> {
    match grab.0 {
        Some(path) => Some(path@),
        None => None,
    }
}

/// Where the left button and the cursor are in this frame.
#[derive(Clone, Copy, Debug, PartialEq, Eq, Structural)]
pub struct Pointer {
    pub just_pressed: bool,
    pub held: bool,
    pub just_released: bool,
    /// In physical screen px.
    pub cursor: Option<Point>,
}

/// The drag and the grab after this frame's button events.
pub open spec fn latched(
    drag: Option<DividerDrag>,
    grab: Option<Seq<bool>>,
    pointer: Pointer,
    dividers: Seq<DividerSite>,
) -> (Option<DividerDrag>, Option<Seq<bool>>) {
    let held_drag = if pointer.just_released {
        None
    } else {
        drag
    };
    let held_grab = if pointer.just_released {
        None
    } else {
        grab
    };
    match (pointer.cursor, held_drag) {
        (Some(cursor), None) => if pointer.held && held_grab is Some && grabbed(
            dividers,
            held_grab->0,
        ) < dividers.len() {
            (Some(drag_from(dividers[grabbed(dividers, held_grab->0)], cursor)), None)
        } else if pointer.just_pressed && pressed_divider(dividers) < dividers.len() {
            (Some(drag_from(dividers[pressed_divider(dividers)], cursor)), held_grab)
        } else {
            (None, held_grab)
        },
        _ => (held_drag, held_grab),
    }
}

fn same_path(a: &Vec<bool>, b: &Vec<bool>) -> (r: bool)
    ensures
        r == (a@ == b@),
{
    if a.len() != b.len() {
        return false;
    }
    let mut i: usize = 0;
    while i < a.len()
        invariant
            i <= a@.len(),
            a@.len() == b@.len(),
            forall|j: int| 0 <= j < i ==> a@[j] == b@[j],
        decreases a@.len() - i,
    {
        if a[i] != b[i] {
            return false;
        }
        i += 1;
    }
    assert(a@ =~= b@);
    true
}

fn start_drag(site: &DividerProbe, cursor: Point) -> (r: DividerDrag)
    ensures
        r == drag_from(site@, cursor),
{
    DividerDrag {
        handle: site.handle,
        start_cursor: cursor,
        start_ratio: match site.share {
            Some(share) => share,
            None => Scalar { bits: RATIO_HALF_BITS },
        },
    }
}

/// What a divider drag comes to in one frame.
pub enum DividerMove {
    Nothing,
    /// Ask for the bottom region to be collapsed; the drag is over.
    Snap(BottomSnap),
    /// Lay the first pane out at this share.
    Resize { handle: u64, ratio: Scalar },
}

/// What a divider move holds.
pub enum DividerMoveModel {
    Nothing,
    Snap { restore: Option<Scalar>, target: Option<Seq<char>> },
    Resize { handle: u64, ratio: Scalar },
}

impl View for DividerMove {
    type V = DividerMoveModel;

    open spec fn view(&self) -> DividerMoveModel {
        match self {
            DividerMove::Nothing => DividerMoveModel::Nothing,
            DividerMove::Snap(snap) => DividerMoveModel::Snap {
                restore: snap.restore,
                target: option_text(snap.target),
            },
            DividerMove::Resize { handle, ratio } => DividerMoveModel::Resize {
                handle: *handle,
                ratio: *ratio,
            },
        }
    }
}

/// How far a drag has come, in the measures of the split it resizes.
#[derive(Clone, Copy, Debug, PartialEq, Eq, Structural)]
pub struct Reach {
    /// The extent of the split along the drag, in physical px.
    pub extent: Scalar,
    /// The start ratio plus the moved share: what the ratio would be unclamped.
    pub raw: Scalar,
    /// `(1.0 - raw) * extent`: what would be left of the second pane, in px.
    pub below: Scalar,
}

/// Whether the drag overshoots a collapsible bottom region's divider far enough
/// to close it: the root's, or a nested strip's.
pub open spec fn snaps(site: DividerSite, reach: Reach) -> bool {
    !site.horizontal && !site.floating && (site.path.len() == 0 || site.strip is Some)
        && reach.below.less(Scalar { bits: BOTTOM_SNAP_BITS })
}

/// What a frame of a divider drag comes to. `reach` is `None` while the split's
/// size is not known.
pub open spec fn divider_move(
    drag: Option<DividerDrag>,
    dividers: Seq<DividerSite>,
    reach: Option<Reach>,
) -> (Option<DividerDrag>, DividerMoveModel) {
    match drag {
        None => (None, DividerMoveModel::Nothing),
        Some(d) => {
            let i = divider_index(dividers, d.handle);
            if i >= dividers.len() {
                (None, DividerMoveModel::Nothing)
            } else {
                match reach {
                    Some(at) if !at.extent.at_most(Scalar { bits: ZERO_BITS }) => if snaps(
                        dividers[i],
                        at,
                    ) {
                        (
                            None,
                            DividerMoveModel::Snap {
                                restore: Some(d.start_ratio),
                                target: if dividers[i].path.len() == 0 {
                                    None
                                } else {
                                    dividers[i].strip
                                },
                            },
                        )
                    } else {
                        (
                            drag,
                            DividerMoveModel::Resize {
                                handle: d.handle,
                                ratio: clamped_ratio(at.raw),
                            },
                        )
                    },
                    _ => (drag, DividerMoveModel::Nothing),
                }
            }
        },
    }
}

impl DocksModel {
    /// With a divider's new ratio in the tree it belongs to.
    pub open spec fn resized(
        self,
        moved: DividerMoveModel,
        dividers: Seq<DividerSite>,
    ) -> DocksModel {
        match moved {
            DividerMoveModel::Resize { handle, ratio } => {
                let site = dividers[divider_index(dividers, handle)];
                self.with_tree(site.area, self.tree_of(site.area).ratio_set(site.path, ratio))
            },
            _ => self,
        }
    }
}

impl DraggedDivider {
    /// Latch onto a divider: one that was just pressed, or the one that a
    /// consumer asked to be grabbed (the mouse is already held, so no press on
    /// the handle is needed). A release ends the drag and drops the grab.
    pub fn latch(
        &mut self,
        grab: &mut GrabRootDivider,
        pointer: Pointer,
        dividers: &Vec<DividerProbe>,
    )
        ensures
            (final(self).0, grab_path(*final(grab))) == latched(
                old(self).0,
                grab_path(*old(grab)),
                pointer,
                divider_sites(dividers@),
            ),
    {
        if pointer.just_released {
            self.0 = None;
            grab.0 = None;
        }
        let cursor = match pointer.cursor {
            Some(cursor) => cursor,
            None => {
                return;
            },
        };
        if self.0.is_some() {
            return;
        }
        let mut adopted: Option<DividerDrag> = None;
        if pointer.held {
            if let Some(path) = &grab.0 {
                let test = |d: &DividerProbe| -> (b: bool)
                    ensures
                        b == (!d@.floating && !d@.horizontal && d@.path == path@),
                    {
                        !d.floating && !d.horizontal && same_path(&d.path, path)
                    };
                let i: usize = find_first(
                    dividers,
                    test,
                    Ghost(
                        divider_sites(dividers@).map_values(
                            |d: DividerSite| !d.floating && !d.horizontal && d.path == path@,
                        ),
                    ),
                );
                if i < dividers.len() {
                    adopted = Some(start_drag(&dividers[i], cursor));
                }
            }
        }
        if adopted.is_some() {
            self.0 = adopted;
            grab.0 = None;
            return;
        }
        if pointer.just_pressed {
            let test = |d: &DividerProbe| -> (b: bool)
                ensures
                    b == d@.pressed,
                {
                    d.pressed
                };
            let i: usize = find_first(
                dividers,
                test,
                Ghost(divider_sites(dividers@).map_values(|d: DividerSite| d.pressed)),
            );
            if i < dividers.len() {
                self.0 = Some(start_drag(&dividers[i], cursor));
            }
        }
    }

    /// Drag a divider handle to resize its split: moves by cursor delta, resizes
    /// live and persists. Overshooting a collapsible bottom region's divider far
    /// enough ends the drag and asks the consumer to collapse the region; the
    /// clamp would otherwise just pin the pane at its smallest.
    pub fn resize(
        &mut self,
        docks: &mut Docks,
        dividers: &Vec<DividerProbe>,
        reach: Option<Reach>,
    ) -> (r: DividerMove)
        ensures
            (final(self).0, r@) == divider_move(old(self).0, divider_sites(dividers@), reach),
            final(docks)@ == old(docks)@.resized(r@, divider_sites(dividers@)),
    {
        let drag = match self.0 {
            Some(drag) => drag,
            None => {
                return DividerMove::Nothing;
            },
        };
        let handle: u64 = drag.handle;
        let test = |d: &DividerProbe| -> (b: bool)
            ensures
                b == (d@.handle == handle),
            {
                d.handle == handle
            };
        let i: usize = find_first(
            dividers,
            test,
            Ghost(divider_sites(dividers@).map_values(|d: DividerSite| d.handle == handle)),
        );
        if i >= dividers.len() {
            self.0 = None;
            return DividerMove::Nothing;
        }
        let site = &dividers[i];
        let at = match reach {
            Some(at) => at,
            None => {
                return DividerMove::Nothing;
            },
        };
        if at.extent.le(Scalar { bits: ZERO_BITS }) {
            return DividerMove::Nothing;
        }
        if !site.horizontal && !site.floating && (site.path.len() == 0 || site.strip.is_some())
            && at.below.lt(Scalar { bits: BOTTOM_SNAP_BITS }) {
            // The root region collapses content-agnostically; only a nested
            // strip needs the panel id to be found again.
            let target: Option<String> = if site.path.len() == 0 {
                None
            } else {
                match &site.strip {
                    Some(panel) => Some(panel.clone()),
                    None => None,
                }
            };
            self.0 = None;
            return DividerMove::Snap(BottomSnap { restore: Some(drag.start_ratio), target });
        }
        let ratio = clamp_ratio(at.raw);
        docks.area_tree_mut(site.area).update_ratio(site.path.as_slice(), ratio);
        DividerMove::Resize { handle, ratio }
    }
}

/// A collapse chevron.
pub struct CollapseProbe {
    pub pressed: bool,
    pub target: Option<String>,
}

/// The target of the last pressed chevron, if any is pressed.
pub open spec fn collapse_target(buttons: Seq<CollapseProbe>) -> Option<Option<Seq<char>>>
    decreases buttons.len(),
{
    if buttons.len() == 0 {
        None
    } else if buttons.last().pressed {
        Some(option_text(buttons.last().target))
    } else {
        collapse_target(buttons.drop_last())
    }
}

impl BottomSnapRequest {
    /// Click a bottom region's collapse chevron: ask the consumer to collapse
    /// that region. No ratio in the payload: unlike a divider snap, a click
    /// leaves the tree's ratio accurate, so the consumer records whatever the
    /// detach returns.
    pub fn collapse_clicked(&mut self, buttons: &Vec<CollapseProbe>)
        ensures
            match collapse_target(buttons@) {
                Some(target) => {
                    &&& final(self).0 matches Some(snap)
                    &&& snap.restore is None
                    &&& option_text(snap.target) == target
                },
                None => *final(self) == *old(self),
            },
    {
        let mut i: usize = buttons.len();
        assert(buttons@.take(i as int) == buttons@);
        while i > 0
            invariant
                i <= buttons@.len(),
                collapse_target(buttons@) == collapse_target(buttons@.take(i as int)),
                *self == *old(self),
            decreases i,
        {
            assert(buttons@.take(i as int).drop_last() == buttons@.take(i - 1));
            i -= 1;
            if buttons[i].pressed {
                let target: Option<String> = match &buttons[i].target {
                    Some(panel) => Some(panel.clone()),
                    None => None,
                };
                self.0 = Some(BottomSnap { restore: None, target });
                return;
            }
        }
        assert(buttons@.take(0).len() == 0);
    }
}

} // verus!
