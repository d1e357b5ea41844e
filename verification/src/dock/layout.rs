//! What a dock tree holds, as a mathematical value, and what each editing
//! operation makes of it.

use vstd::prelude::*;

use crate::scalar::Scalar;
use crate::text::position;

verus! {

/// Direction of a split in the dock tree.
#[derive(Clone, Copy, Debug, PartialEq, Eq, Structural)]
pub enum SplitDirection {
    /// Children are side-by-side (left / right).
    Horizontal,
    /// Children are stacked (top / bottom).
    Vertical,
}

/// Where a dragged panel will land on a leaf.
#[derive(Clone, Copy, Debug, PartialEq, Eq, Structural)]
pub enum DropZone {
    /// Add as a tab in the target leaf.
    Center,
    Left,
    Right,
    Top,
    Bottom,
}

/// What a dock tree holds, as a mathematical value.
pub enum Layout {
    Split { direction: SplitDirection, ratio: Scalar, first: Box<Layout>, second: Box<Layout> },
    Leaf { tabs: Seq<Seq<char>>, active: int },
    Empty,
}

/// The smallest share a split gives its first child: `0.1`.
pub const RATIO_MIN_BITS: u32 = 0x3DCC_CCCD;

/// The largest share a split gives its first child: `0.9`.
pub const RATIO_MAX_BITS: u32 = 0x3F66_6666;

/// An even split: `0.5`.
pub const RATIO_HALF_BITS: u32 = 0x3F00_0000;

/// Share of the dock a root-edge drop claims for the new panel: `0.2`. A side
/// rail, not a half split, since the gesture targets toolbars and inspectors.
pub const ROOT_DOCK_RATIO_BITS: u32 = 0x3E4C_CCCD;

/// What a root-edge drop leaves to the rest of the dock: `1.0 - 0.2`.
pub const ROOT_REST_RATIO_BITS: u32 = 0x3F4C_CCCD;

/// A ratio moved into `0.1..=0.9`.
pub open spec fn clamped_ratio(ratio: Scalar) -> Scalar {
    ratio.clamped(Scalar { bits: RATIO_MIN_BITS }, Scalar { bits: RATIO_MAX_BITS })
}

impl Layout {
    /// Every panel, in tree order.
    pub open spec fn panels(self) -> Seq<Seq<char>>
        decreases self,
    {
        match self {
            Layout::Split { first, second, .. } => first.panels() + second.panels(),
            Layout::Leaf { tabs, .. } => tabs,
            Layout::Empty => Seq::empty(),
        }
    }

    /// Whether a panel is somewhere in the tree.
    pub open spec fn holds(self, panel: Seq<char>) -> bool
        decreases self,
    {
        match self {
            Layout::Split { first, second, .. } => first.holds(panel) || second.holds(panel),
            Layout::Leaf { tabs, .. } => tabs.contains(panel),
            Layout::Empty => false,
        }
    }

    /// Whether a panel is the visible tab of some leaf.
    pub open spec fn shows(self, panel: Seq<char>) -> bool
        decreases self,
    {
        match self {
            Layout::Split { first, second, .. } => first.shows(panel) || second.shows(panel),
            Layout::Leaf { tabs, active } => 0 <= active < tabs.len() && tabs[active] == panel,
            Layout::Empty => false,
        }
    }

    /// The visible tab of every leaf that has one, in tree order.
    pub open spec fn shown(self) -> Seq<Seq<char>>
        decreases self,
    {
        match self {
            Layout::Split { first, second, .. } => first.shown() + second.shown(),
            Layout::Leaf { tabs, active } => if 0 <= active < tabs.len() {
                seq![tabs[active]]
            } else {
                Seq::empty()
            },
            Layout::Empty => Seq::empty(),
        }
    }

    /// The panels of the leaves before the first one that holds `panel`.
    pub open spec fn panels_before(self, panel: Seq<char>) -> Seq<Seq<char>>
        decreases self,
    {
        match self {
            Layout::Split { first, second, .. } => if first.holds(panel) {
                first.panels_before(panel)
            } else {
                first.panels() + second.panels_before(panel)
            },
            _ => Seq::empty(),
        }
    }

    /// The panels of the leaves after it.
    pub open spec fn panels_after(self, panel: Seq<char>) -> Seq<Seq<char>>
        decreases self,
    {
        match self {
            Layout::Split { first, second, .. } => if first.holds(panel) {
                first.panels_after(panel) + second.panels()
            } else {
                second.panels_after(panel)
            },
            _ => Seq::empty(),
        }
    }

    /// A tree as the dock keeps it: every ratio in range, every leaf with tabs
    /// and one of them visible, and no split around nothing.
    pub open spec fn sound(self) -> bool
        decreases self,
    {
        match self {
            Layout::Split { ratio, first, second, .. } => {
                &&& clamped_ratio(ratio) == ratio
                &&& !first.vacant()
                &&& !second.vacant()
                &&& first.sound()
                &&& second.sound()
            },
            Layout::Leaf { tabs, active } => 0 <= active < tabs.len(),
            Layout::Empty => true,
        }
    }

    /// As [`Layout::sound`], but for leaves without tabs and splits around
    /// nothing.
    pub open spec fn nearly_sound(self) -> bool
        decreases self,
    {
        match self {
            Layout::Split { ratio, first, second, .. } => {
                &&& clamped_ratio(ratio) == ratio
                &&& first.nearly_sound()
                &&& second.nearly_sound()
            },
            Layout::Leaf { tabs, active } => tabs.len() > 0 ==> 0 <= active < tabs.len(),
            Layout::Empty => true,
        }
    }

    /// No panels at this node: nothing, or a leaf without tabs.
    pub open spec fn vacant(self) -> bool {
        match self {
            Layout::Split { .. } => false,
            Layout::Leaf { tabs, .. } => tabs.len() == 0,
            Layout::Empty => true,
        }
    }

    /// The first leaf, in tree order, that holds a panel.
    pub open spec fn leaf_of(self, panel: Seq<char>) -> Option<Layout>
        decreases self,
    {
        match self {
            Layout::Split { first, second, .. } => if first.holds(panel) {
                first.leaf_of(panel)
            } else {
                second.leaf_of(panel)
            },
            Layout::Leaf { tabs, .. } => if tabs.contains(panel) {
                Some(self)
            } else {
                None
            },
            Layout::Empty => None,
        }
    }

    /// The tree with that leaf replaced.
    pub open spec fn with_leaf(self, panel: Seq<char>, leaf: Layout) -> Layout
        decreases self,
    {
        match self {
            Layout::Split { direction, ratio, first, second } => if first.holds(panel) {
                Layout::Split {
                    direction,
                    ratio,
                    first: Box::new(first.with_leaf(panel, leaf)),
                    second,
                }
            } else {
                Layout::Split {
                    direction,
                    ratio,
                    first,
                    second: Box::new(second.with_leaf(panel, leaf)),
                }
            },
            Layout::Leaf { tabs, .. } => if tabs.contains(panel) {
                leaf
            } else {
                self
            },
            Layout::Empty => self,
        }
    }
}

/// A split of two trees.
pub open spec fn split(
    direction: SplitDirection,
    ratio: Scalar,
    first: Layout,
    second: Layout,
) -> Layout {
    Layout::Split { direction, ratio, first: Box::new(first), second: Box::new(second) }
}

/// A leaf with one tab.
pub open spec fn single(panel: Seq<char>) -> Layout {
    Layout::Leaf { tabs: seq![panel], active: 0 }
}

/// Two trees side by side, or just one of them where the other has no panels.
pub open spec fn join(
    direction: SplitDirection,
    ratio: Scalar,
    first: Layout,
    second: Layout,
) -> Layout {
    if first.vacant() {
        second
    } else if second.vacant() {
        first
    } else {
        split(direction, ratio, first, second)
    }
}

/// `arrival` on one side of `resident`. `lead` is the share of an arrival that
/// comes first, `trail` that of a resident that comes first. The center has no
/// side to take.
pub open spec fn placed(
    zone: DropZone,
    resident: Layout,
    arrival: Layout,
    lead: Scalar,
    trail: Scalar,
) -> Layout {
    match zone {
        DropZone::Left => split(SplitDirection::Horizontal, lead, arrival, resident),
        DropZone::Right => split(SplitDirection::Horizontal, trail, resident, arrival),
        DropZone::Top => split(SplitDirection::Vertical, lead, arrival, resident),
        DropZone::Bottom => split(SplitDirection::Vertical, trail, resident, arrival),
        DropZone::Center => resident,
    }
}

/// `arrival` takes half of what `resident` had.
pub open spec fn halved(zone: DropZone, resident: Layout, arrival: Layout) -> Layout {
    placed(
        zone,
        resident,
        arrival,
        Scalar { bits: RATIO_HALF_BITS },
        Scalar { bits: RATIO_HALF_BITS },
    )
}

/// `arrival` becomes a rail along one edge of the whole dock.
pub open spec fn railed(zone: DropZone, resident: Layout, arrival: Layout) -> Layout {
    placed(
        zone,
        resident,
        arrival,
        Scalar { bits: ROOT_DOCK_RATIO_BITS },
        Scalar { bits: ROOT_REST_RATIO_BITS },
    )
}

/// Where in `tabs` a tab dropped before `before` goes: at the end when there is
/// no such tab.
pub open spec fn slot(tabs: Seq<Seq<char>>, before: Option<Seq<char>>) -> int {
    match before {
        Some(b) => position(tabs, b),
        None => tabs.len() as int,
    }
}

/// The visible tab after some tabs left: the same one where it is still there,
/// else the first.
pub open spec fn followed(tabs: Seq<Seq<char>>, active: int, kept: Seq<Seq<char>>) -> int {
    if 0 <= active < tabs.len() && kept.contains(tabs[active]) {
        position(kept, tabs[active])
    } else {
        0
    }
}

impl Layout {
    /// Without empty leaves and the splits around them.
    pub open spec fn tidy(self) -> Layout
        decreases self,
    {
        match self {
            Layout::Split { direction, ratio, first, second } => join(
                direction,
                ratio,
                first.tidy(),
                second.tidy(),
            ),
            Layout::Leaf { tabs, .. } => if tabs.len() == 0 {
                Layout::Empty
            } else {
                self
            },
            Layout::Empty => Layout::Empty,
        }
    }

    /// With `panel` the visible tab of its leaf.
    pub open spec fn activated(self, panel: Seq<char>) -> Layout {
        match self.leaf_of(panel) {
            Some(Layout::Leaf { tabs, .. }) => self.with_leaf(
                panel,
                Layout::Leaf { tabs, active: position(tabs, panel) },
            ),
            _ => self,
        }
    }

    /// Whether there is a leaf anywhere, with tabs or without.
    pub open spec fn has_leaf(self) -> bool
        decreases self,
    {
        match self {
            Layout::Split { first, second, .. } => first.has_leaf() || second.has_leaf(),
            Layout::Leaf { .. } => true,
            Layout::Empty => false,
        }
    }

    /// With `panel` as the last, visible tab of the first leaf in tree order;
    /// `None` where there is no leaf.
    pub open spec fn appended(self, panel: Seq<char>) -> Option<Layout>
        decreases self,
    {
        match self {
            Layout::Leaf { tabs, .. } => Some(
                Layout::Leaf { tabs: tabs.push(panel), active: tabs.len() as int },
            ),
            Layout::Split { direction, ratio, first, second } => match first.appended(panel) {
                Some(grown) => Some(split(direction, ratio, grown, *second)),
                None => match second.appended(panel) {
                    Some(grown) => Some(split(direction, ratio, *first, grown)),
                    None => None,
                },
            },
            Layout::Empty => None,
        }
    }

    /// Focused where it is present, appended where it is not.
    pub open spec fn focused_or_added(self, panel: Seq<char>) -> Layout {
        if self.holds(panel) {
            self.activated(panel)
        } else {
            match self.appended(panel) {
                Some(grown) => grown,
                None => self,
            }
        }
    }

    /// As [`Layout::focused_or_added`], but a tree without panels at its root,
    /// or without any leaf, becomes the panel's leaf.
    pub open spec fn adopted(self, panel: Seq<char>) -> Layout {
        if self.vacant() || !self.has_leaf() {
            single(panel)
        } else {
            self.focused_or_added(panel)
        }
    }

    /// Several panels adopted one after another.
    pub open spec fn adopted_all(self, panels: Seq<Seq<char>>) -> Layout
        decreases panels.len(),
    {
        if panels.len() == 0 {
            self
        } else {
            self.adopted_all(panels.drop_last()).adopted(panels.last())
        }
    }

    /// With `panel` as a tab of `sibling`'s leaf, at `slot`, and visible.
    pub open spec fn tab_added(
        self,
        sibling: Seq<char>,
        panel: Seq<char>,
        before: Option<Seq<char>>,
    ) -> Layout {
        match self.leaf_of(sibling) {
            Some(Layout::Leaf { tabs, .. }) => self.with_leaf(
                sibling,
                Layout::Leaf {
                    tabs: tabs.insert(slot(tabs, before), panel),
                    active: slot(tabs, before),
                },
            ),
            _ => self,
        }
    }

    /// With several tabs merged into `sibling`'s leaf, in order, the first of
    /// them visible.
    pub open spec fn tabs_added(
        self,
        sibling: Seq<char>,
        panels: Seq<Seq<char>>,
        before: Option<Seq<char>>,
    ) -> Layout {
        match self.leaf_of(sibling) {
            Some(Layout::Leaf { tabs, active }) => {
                let at = slot(tabs, before);
                self.with_leaf(
                    sibling,
                    Layout::Leaf {
                        tabs: tabs.take(at) + panels + tabs.skip(at),
                        active: if panels.len() > 0 {
                            at
                        } else {
                            active
                        },
                    },
                )
            },
            _ => self,
        }
    }

    /// The leaf of `panel` without it. A visible tab that was last moves to the
    /// one that is last now.
    pub open spec fn leaf_without(self, panel: Seq<char>) -> Layout {
        match self.leaf_of(panel) {
            Some(Layout::Leaf { tabs, active }) => {
                let rest = tabs.remove(position(tabs, panel));
                Layout::Leaf {
                    tabs: rest,
                    active: if active >= rest.len() && rest.len() > 0 {
                        rest.len() - 1
                    } else {
                        active
                    },
                }
            },
            _ => Layout::Empty,
        }
    }

    /// Without the first `panel`, emptied leaves and splits collapsed.
    pub open spec fn without_panel(self, panel: Seq<char>) -> Layout {
        if self.holds(panel) {
            self.with_leaf(panel, self.leaf_without(panel)).tidy()
        } else {
            self
        }
    }

    /// Without the whole leaf of `panel`, the split around it collapsed.
    pub open spec fn without_leaf(self, panel: Seq<char>) -> Layout {
        if self.holds(panel) {
            self.with_leaf(panel, Layout::Empty).tidy()
        } else {
            self
        }
    }

    /// Without any tab named in `ids`, emptied leaves and splits collapsed.
    pub open spec fn retired(self, ids: Seq<Seq<char>>) -> Layout
        decreases self,
    {
        match self {
            Layout::Split { direction, ratio, first, second } => join(
                direction,
                ratio,
                first.retired(ids),
                second.retired(ids),
            ),
            Layout::Leaf { tabs, active } => {
                let kept = tabs.filter(|t: Seq<char>| !ids.contains(t));
                if kept.len() == 0 {
                    Layout::Empty
                } else {
                    Layout::Leaf { tabs: kept, active: followed(tabs, active, kept) }
                }
            },
            Layout::Empty => Layout::Empty,
        }
    }

    /// With `arrival` against one edge of the whole tree. A tree without panels
    /// becomes the arrival; a center drop adopts the arrival's panels.
    pub open spec fn root_split(self, arrival: Layout, zone: DropZone) -> Layout {
        if arrival.vacant() {
            self
        } else if self.vacant() {
            arrival
        } else if zone == DropZone::Center {
            self.adopted_all(arrival.panels())
        } else {
            railed(zone, self, arrival)
        }
    }

    /// The node that a path of steps leads to: `false` is the first child.
    pub open spec fn node_at(self, path: Seq<bool>) -> Option<Layout>
        decreases path.len(),
    {
        if path.len() == 0 {
            Some(self)
        } else {
            match self {
                Layout::Split { first, second, .. } => if path[0] {
                    second.node_at(path.drop_first())
                } else {
                    first.node_at(path.drop_first())
                },
                _ => None,
            }
        }
    }

    /// The tree with the node at a path replaced.
    pub open spec fn with_node(self, path: Seq<bool>, node: Layout) -> Layout
        decreases path.len(),
    {
        if path.len() == 0 {
            node
        } else {
            match self {
                Layout::Split { direction, ratio, first, second } => if path[0] {
                    split(direction, ratio, *first, second.with_node(path.drop_first(), node))
                } else {
                    split(direction, ratio, first.with_node(path.drop_first(), node), *second)
                },
                _ => self,
            }
        }
    }

    /// With the ratio of the split at a path set.
    pub open spec fn ratio_set(self, path: Seq<bool>, new_ratio: Scalar) -> Layout {
        match self.node_at(path) {
            Some(Layout::Split { direction, first, second, .. }) => self.with_node(
                path,
                split(direction, clamped_ratio(new_ratio), *first, *second),
            ),
            _ => self,
        }
    }

    /// With `bottom` as a full-width region under the whole tree.
    pub open spec fn bottom_attached(self, bottom: Layout, ratio: Scalar) -> Layout {
        if bottom.vacant() {
            self
        } else if self.vacant() {
            bottom
        } else {
            split(SplitDirection::Vertical, clamped_ratio(ratio), self, bottom)
        }
    }

    /// The path of the first vertical split, from the root down and the first
    /// child before the second, whose bottom child holds `panel`.
    pub open spec fn strip_path(self, panel: Seq<char>) -> Option<Seq<bool>>
        decreases self,
    {
        match self {
            Layout::Split { direction, first, second, .. } => if direction
                == SplitDirection::Vertical && second.holds(panel) {
                Some(Seq::empty())
            } else {
                match first.strip_path(panel) {
                    Some(path) => Some(seq![false] + path),
                    None => match second.strip_path(panel) {
                        Some(path) => Some(seq![true] + path),
                        None => None,
                    },
                }
            },
            _ => None,
        }
    }

    /// Whether every one of `ids` is in the tree.
    pub open spec fn holds_all(self, ids: Seq<Seq<char>>) -> bool {
        forall|i: int| 0 <= i < ids.len() ==> self.holds(#[trigger] ids[i])
    }

    /// The path down to the smallest subtree that holds every one of `ids`.
    pub open spec fn anchor_path(self, ids: Seq<Seq<char>>) -> Seq<bool>
        decreases self,
    {
        match self {
            Layout::Split { first, second, .. } => if first.holds_all(ids) {
                seq![false] + first.anchor_path(ids)
            } else if second.holds_all(ids) {
                seq![true] + second.anchor_path(ids)
            } else {
                Seq::empty()
            },
            _ => Seq::empty(),
        }
    }

    /// Where a region anchored to `anchor` goes back: under the smallest
    /// subtree that holds the anchor's surviving panels, or under the whole
    /// tree when none survives.
    pub open spec fn attach_path(self, anchor: Seq<Seq<char>>) -> Seq<bool> {
        let present = anchor.filter(|p: Seq<char>| self.holds(p));
        if present.len() == 0 {
            Seq::empty()
        } else {
            self.anchor_path(present)
        }
    }

    /// With `bottom` under the node at a path.
    pub open spec fn bottom_attached_under(
        self,
        path: Seq<bool>,
        bottom: Layout,
        ratio: Scalar,
    ) -> Layout {
        self.with_node(
            path,
            split(
                SplitDirection::Vertical,
                clamped_ratio(ratio),
                self.node_at(path)->0,
                bottom,
            ),
        )
    }
}

/// A panel is present exactly where some leaf has it as a tab.
pub proof fn leaf_of_holds(t: Layout, panel: Seq<char>)
    ensures
        t.holds(panel) <==> t.leaf_of(panel) is Some,
        t.leaf_of(panel) matches Some(leaf) ==> (leaf matches Layout::Leaf { tabs, .. }
            && tabs.contains(panel)),
    decreases t,
{
    match t {
        Layout::Split { first, second, .. } => {
            leaf_of_holds(*first, panel);
            leaf_of_holds(*second, panel);
        },
        _ => {},
    }
}

/// What is left of a tidied tree without panels is nothing.
pub proof fn tidy_vacant(t: Layout)
    ensures
        t.tidy().vacant() ==> t.tidy() == Layout::Empty,
    decreases t,
{
    match t {
        Layout::Split { first, second, .. } => {
            tidy_vacant(*first);
            tidy_vacant(*second);
        },
        _ => {},
    }
}

/// Tidying a tidy tree changes nothing.
pub proof fn tidy_twice(t: Layout)
    ensures
        t.tidy().tidy() == t.tidy(),
    decreases t,
{
    match t {
        Layout::Split { first, second, .. } => {
            tidy_twice(*first);
            tidy_twice(*second);
        },
        _ => {},
    }
}

} // verus!
