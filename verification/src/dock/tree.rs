//! The dock tree and its editing operations.

use vstd::prelude::*;

use crate::dock::laws::{
    activating_shows, appending_shows, present_is_collected, visible_is_present,
};
use crate::dock::layout::{
    clamped_ratio, halved, leaf_of_holds, placed, single, slot, split, tidy_twice, DropZone, Layout,
    RATIO_HALF_BITS, RATIO_MAX_BITS, RATIO_MIN_BITS, ROOT_DOCK_RATIO_BITS, ROOT_REST_RATIO_BITS,
    SplitDirection,
};
use crate::scalar::Scalar;
use crate::text::{
    copy_texts, list_contains, list_position, names_contain, position_is_first, same_text,
    str_texts, texts,
};

verus! {

broadcast use crate::text::texts_push;

/// A node in the dock tree.
#[derive(Debug)]
pub enum DockTree {
    Split {
        direction: SplitDirection,
        /// Fraction of space given to the first child (0.1-0.9).
        ratio: Scalar,
        first: Box<DockTree>,
        second: Box<DockTree>,
    },
    Leaf {
        /// Panel ids shown as tabs.
        tabs: Vec<String>,
        /// Index of the currently visible tab.
        active_tab: usize,
    },
    Empty,
}

pub fn clamp_ratio(ratio: Scalar) -> (r: Scalar)
    ensures
        r == clamped_ratio(ratio),
{
    ratio.clamp(Scalar { bits: RATIO_MIN_BITS }, Scalar { bits: RATIO_MAX_BITS })
}

impl DockTree {
    /// What the tree holds.
    pub open spec fn model(&self) -> Layout
        decreases self,
    {
        match self {
            DockTree::Split { direction, ratio, first, second } => Layout::Split {
                direction: *direction,
                ratio: *ratio,
                first: Box::new(first.model()),
                second: Box::new(second.model()),
            },
            DockTree::Leaf { tabs, active_tab } => Layout::Leaf {
                tabs: texts(tabs@),
                active: *active_tab as int,
            },
            DockTree::Empty => Layout::Empty,
        }
    }
}

impl View for DockTree {
    type V = Layout;

    open spec fn view(&self) -> Layout {
        self.model()
    }
}

impl DockTree {
    /// Single-tab leaf.
    pub fn leaf(id: String) -> (r: Self)
        ensures
            r@ == single(id@),
    {
        let mut tabs: Vec<String> = Vec::new();
        tabs.push(id);
        assert(texts(tabs@) == seq![id@]);
        DockTree::Leaf { tabs, active_tab: 0 }
    }

    /// A leaf with several tabbed panels.
    pub fn tabs(tabs: &[&str]) -> (r: Self)
        ensures
            r@ == (Layout::Leaf { tabs: str_texts(tabs@), active: 0 }),
    {
        let mut list: Vec<String> = Vec::new();
        let mut i: usize = 0;
        while i < tabs.len()
            invariant
                i <= tabs@.len(),
                texts(list@) == str_texts(tabs@).take(i as int),
            decreases tabs@.len() - i,
        {
            let id: String = tabs[i].to_owned();
            list.push(id);
            assert(str_texts(tabs@).take(i + 1) == str_texts(tabs@).take(i as int).push(id@));
            i += 1;
        }
        assert(texts(list@) == str_texts(tabs@));
        DockTree::Leaf { tabs: list, active_tab: 0 }
    }

    /// Horizontal split (left / right).
    pub fn horizontal(first: DockTree, second: DockTree, ratio: Scalar) -> (r: Self)
        ensures
            r@ == split(SplitDirection::Horizontal, clamped_ratio(ratio), first@, second@),
    {
        DockTree::Split {
            direction: SplitDirection::Horizontal,
            ratio: clamp_ratio(ratio),
            first: Box::new(first),
            second: Box::new(second),
        }
    }

    /// Vertical split (top / bottom).
    pub fn vertical(first: DockTree, second: DockTree, ratio: Scalar) -> (r: Self)
        ensures
            r@ == split(SplitDirection::Vertical, clamped_ratio(ratio), first@, second@),
    {
        DockTree::Split {
            direction: SplitDirection::Vertical,
            ratio: clamp_ratio(ratio),
            first: Box::new(first),
            second: Box::new(second),
        }
    }

    /// Moves the tree out, leaving nothing.
    fn take_all(&mut self) -> (r: DockTree)
        ensures
            r == *old(self),
            *final(self) == DockTree::Empty,
    {
        let mut taken = DockTree::Empty;
        core::mem::swap(self, &mut taken);
        taken
    }

    /// Set the split ratio at `path` (`false`/`true` = first/second child;
    /// empty path targets this node). Persists a divider drag.
    pub fn update_ratio(&mut self, path: &[bool], new_ratio: Scalar)
        ensures
            final(self)@ == old(self)@.ratio_set(path@, new_ratio),
    {
        self.update_ratio_from(path, 0, new_ratio);
        assert(path@.skip(0) == path@);
    }

    fn update_ratio_from(&mut self, path: &[bool], from: usize, new_ratio: Scalar)
        requires
            from <= path@.len(),
        ensures
            final(self)@ == old(self)@.ratio_set(path@.skip(from as int), new_ratio),
        decreases *old(self),
    {
        let ghost rest = path@.skip(from as int);
        match self {
            DockTree::Split { ratio, first, second, .. } => {
                if from == path.len() {
                    *ratio = clamp_ratio(new_ratio);
                } else {
                    assert(rest.drop_first() == path@.skip(from + 1));
                    if path[from] {
                        second.update_ratio_from(path, from + 1, new_ratio);
                    } else {
                        first.update_ratio_from(path, from + 1, new_ratio);
                    }
                }
            },
            _ => {},
        }
    }

    /// The leaf that contains `panel`, if any.
    pub fn find_leaf_mut(&mut self, panel: &str) -> (r: Option<&mut DockTree>)
        ensures
            match r {
                Some(leaf) => {
                    &&& old(self)@.leaf_of(panel@) == Some(leaf@)
                    &&& final(self)@ == old(self)@.with_leaf(panel@, final(leaf)@)
                },
                None => {
                    &&& !old(self)@.holds(panel@)
                    &&& old(self)@.leaf_of(panel@) is None
                    &&& final(self)@ == old(self)@
                },
            },
        decreases *old(self),
    {
        match self {
            DockTree::Split { first, second, .. } => if first.contains_panel(panel) {
                first.find_leaf_mut(panel)
            } else {
                second.find_leaf_mut(panel)
            },
            DockTree::Leaf { tabs, .. } => if list_contains(tabs, panel) {
                Some(self)
            } else {
                None
            },
            DockTree::Empty => None,
        }
    }

    /// Collect every panel id in the tree (all tabs of all leaves) into `out`,
    /// in tree order. Used when a floating dock window closes to hand its
    /// panels back to the main dock instead of silently dropping them.
    pub fn collect_panels(&self, out: &mut Vec<String>)
        ensures
            texts(final(out)@) == texts(old(out)@) + self@.panels(),
        decreases self,
    {
        match self {
            DockTree::Split { first, second, .. } => {
                first.collect_panels(out);
                second.collect_panels(out);
            },
            DockTree::Leaf { tabs, .. } => {
                let mut i: usize = 0;
                while i < tabs.len()
                    invariant
                        i <= tabs@.len(),
                        texts(out@) == texts(old(out)@) + texts(tabs@).take(i as int),
                    decreases tabs@.len() - i,
                {
                    out.push(tabs[i].clone());
                    assert(texts(tabs@).take(i + 1) == texts(tabs@).take(i as int).push(
                        tabs@[i as int]@,
                    ));
                    assert(texts(out@) == texts(old(out)@) + texts(tabs@).take(i + 1));
                    i += 1;
                }
                assert(texts(tabs@).take(i as int) == texts(tabs@));
            },
            DockTree::Empty => {},
        }
    }

    /// The first panel id in tree order, if any: used to title a floating
    /// dock window after its lead panel.
    pub fn first_panel(&self) -> (r: Option<&str>)
        ensures
            match r {
                Some(panel) => self@.panels().len() > 0 && panel@ == self@.panels()[0],
                None => self@.panels().len() == 0,
            },
        decreases self,
    {
        match self {
            DockTree::Split { first, second, .. } => match first.first_panel() {
                Some(panel) => Some(panel),
                None => second.first_panel(),
            },
            DockTree::Leaf { tabs, .. } => if tabs.len() > 0 {
                assert(texts(tabs@)[0] == tabs@[0]@);
                Some(tabs[0].as_str())
            } else {
                None
            },
            DockTree::Empty => None,
        }
    }

    /// Add `panel` to the tree wherever it fits: focus it if present, append to
    /// the first leaf, or become the root leaf when the tree is empty (which
    /// `focus_or_add_panel` alone can't do: its walk has no leaf to append to).
    pub fn adopt_panel(&mut self, panel: &str)
        ensures
            final(self)@ == old(self)@.adopted(panel@),
    {
        if self.is_empty() {
            *self = DockTree::leaf(panel.to_owned());
        } else {
            let added = self.focus_or_add_panel(panel);
            proof {
                activating_shows(old(self)@, panel@);
                visible_is_present(old(self)@.activated(panel@), panel@);
                appending_shows(old(self)@, panel@);
                present_is_collected(old(self)@, panel@);
            }
            if !added && !self.contains_panel(panel) {
                *self = DockTree::leaf(panel.to_owned());
            }
        }
    }

    /// No panels anywhere: either the `Empty` variant or a leaf with no tabs.
    /// Consumers use this to decide whether a dock area is worth showing at
    /// all; an empty one renders as a bare bordered slab.
    pub fn is_empty(&self) -> (r: bool)
        ensures
            r == self@.vacant(),
    {
        match self {
            DockTree::Empty => true,
            DockTree::Leaf { tabs, .. } => tabs.len() == 0,
            DockTree::Split { .. } => false,
        }
    }

    /// Is `panel` present anywhere in the tree (visible or as a background tab)?
    pub fn contains_panel(&self, panel: &str) -> (r: bool)
        ensures
            r == self@.holds(panel@),
        decreases self,
    {
        match self {
            DockTree::Split { first, second, .. } => first.contains_panel(panel)
                || second.contains_panel(panel),
            DockTree::Leaf { tabs, .. } => list_contains(tabs, panel),
            DockTree::Empty => false,
        }
    }

    /// Is `panel` the active (visible) tab in its leaf?
    pub fn is_active_tab(&self, panel: &str) -> (r: bool)
        ensures
            r == self@.shows(panel@),
        decreases self,
    {
        match self {
            DockTree::Split { first, second, .. } => first.is_active_tab(panel)
                || second.is_active_tab(panel),
            DockTree::Leaf { tabs, active_tab } => *active_tab < tabs.len() && same_text(
                &tabs[*active_tab],
                panel,
            ),
            DockTree::Empty => false,
        }
    }

    /// Append the active (visible) panel id of every leaf to `out`, in tree
    /// order. The dock rebuild uses this to decide which preserved content the
    /// new tree will reuse.
    pub fn active_tab_ids(&self, out: &mut Vec<String>)
        ensures
            texts(final(out)@) == texts(old(out)@) + self@.shown(),
        decreases self,
    {
        match self {
            DockTree::Split { first, second, .. } => {
                first.active_tab_ids(out);
                second.active_tab_ids(out);
            },
            DockTree::Leaf { tabs, active_tab } => {
                if *active_tab < tabs.len() {
                    out.push(tabs[*active_tab].clone());
                }
            },
            DockTree::Empty => {},
        }
    }

    /// Make `panel` the active tab in its leaf.
    pub fn set_active_tab(&mut self, panel: &str)
        ensures
            final(self)@ == old(self)@.activated(panel@),
    {
        proof {
            leaf_of_holds(self@, panel@);
        }
        if let Some(leaf) = self.find_leaf_mut(panel) {
            if let DockTree::Leaf { tabs, active_tab } = leaf {
                *active_tab = list_position(tabs, panel);
            }
        }
    }

    /// Focus `panel` if it's already somewhere in the tree; otherwise append it
    /// to the first leaf (making it visible). Returns `true` if it was added.
    pub fn focus_or_add_panel(&mut self, panel: &str) -> (r: bool)
        ensures
            final(self)@ == old(self)@.focused_or_added(panel@),
            r == (!old(self)@.holds(panel@) && old(self)@.has_leaf()),
    {
        proof {
            appending_shows(self@, panel@);
        }
        if self.contains_panel(panel) {
            self.set_active_tab(panel);
            return false;
        }
        self.add_to_first_leaf(panel)
    }

    fn add_to_first_leaf(&mut self, panel: &str) -> (r: bool)
        ensures
            match old(self)@.appended(panel@) {
                Some(grown) => r && final(self)@ == grown,
                None => !r && final(self)@ == old(self)@,
            },
        decreases *old(self),
    {
        match self {
            DockTree::Leaf { tabs, active_tab } => {
                let ghost before = texts(tabs@);
                let last: usize = tabs.len();
                tabs.push(panel.to_owned());
                assert(texts(tabs@) == before.push(panel@));
                *active_tab = last;
                true
            },
            DockTree::Split { first, second, .. } => first.add_to_first_leaf(panel)
                || second.add_to_first_leaf(panel),
            DockTree::Empty => false,
        }
    }

    /// Append `new_panel` as a tab in the leaf containing `sibling`.
    pub fn add_tab(&mut self, sibling: &str, new_panel: String) -> (r: bool)
        ensures
            r == old(self)@.holds(sibling@),
            final(self)@ == old(self)@.tab_added(sibling@, new_panel@, None),
    {
        self.add_tab_before(sibling, new_panel, None)
    }

    /// Insert `new_panel` into `sibling`'s leaf before `before` (or at the end).
    pub fn add_tab_before(
        &mut self,
        sibling: &str,
        new_panel: String,
        before: Option<&str>,
    ) -> (r: bool)
        ensures
            r == old(self)@.holds(sibling@),
            final(self)@ == old(self)@.tab_added(sibling@, new_panel@, before_text(before)),
    {
        proof {
            leaf_of_holds(self@, sibling@);
        }
        if let Some(leaf) = self.find_leaf_mut(sibling) {
            if let DockTree::Leaf { tabs, active_tab } = leaf {
                let ghost tabs_before = tabs@;
                let at: usize = slot_in(tabs, before);
                tabs.insert(at, new_panel);
                assert(texts(tabs@) == texts(tabs_before).insert(at as int, new_panel@));
                *active_tab = at;
            }
            true
        } else {
            false
        }
    }

    /// Merge several tabs into the leaf containing `sibling`, in order, at
    /// `before` (append when `None`). Group-drag counterpart of
    /// [`Self::add_tab_before`]; the first inserted tab becomes active.
    pub fn add_tabs_before(
        &mut self,
        sibling: &str,
        new_tabs: &[String],
        before: Option<&str>,
    ) -> (r: bool)
        ensures
            r == old(self)@.holds(sibling@),
            final(self)@ == old(self)@.tabs_added(
                sibling@,
                texts(new_tabs@),
                before_text(before),
            ),
    {
        proof {
            leaf_of_holds(self@, sibling@);
        }
        if let Some(leaf) = self.find_leaf_mut(sibling) {
            if let DockTree::Leaf { tabs, active_tab } = leaf {
                let at: usize = slot_in(tabs, before);
                insert_all(tabs, at, new_tabs);
                if new_tabs.len() > 0 {
                    *active_tab = at;
                }
            }
            true
        } else {
            false
        }
    }

    /// Remove a panel from the tree, collapsing any emptied leaves/splits.
    pub fn remove_panel(&mut self, panel: &str) -> (r: bool)
        ensures
            r == old(self)@.holds(panel@),
            final(self)@ == old(self)@.without_panel(panel@),
        decreases *old(self),
    {
        proof {
            leaf_of_holds(self@, panel@);
            position_is_first(
                match self@.leaf_of(panel@) {
                    Some(Layout::Leaf { tabs, .. }) => tabs,
                    _ => Seq::empty(),
                },
                panel@,
            );
            match self@ {
                Layout::Split { first, second, .. } => {
                    tidy_twice(first.with_leaf(panel@, first.leaf_without(panel@)));
                    tidy_twice(second.with_leaf(panel@, second.leaf_without(panel@)));
                },
                _ => {},
            }
        }
        let removed = match self {
            DockTree::Split { first, second, .. } => first.remove_panel(panel)
                || second.remove_panel(panel),
            DockTree::Leaf { tabs, active_tab } => {
                let at: usize = list_position(tabs, panel);
                if at < tabs.len() {
                    let ghost tabs_before = tabs@;
                    tabs.remove(at);
                    assert(texts(tabs@) == texts(tabs_before).remove(at as int));
                    if *active_tab >= tabs.len() && tabs.len() > 0 {
                        *active_tab = tabs.len() - 1;
                    }
                    true
                } else {
                    false
                }
            },
            DockTree::Empty => false,
        };
        if removed {
            self.cleanup_empty();
        }
        removed
    }

    fn cleanup_empty(&mut self)
        ensures
            final(self)@ == old(self)@.tidy(),
        decreases *old(self),
    {
        match self {
            DockTree::Split { first, second, .. } => {
                first.cleanup_empty();
                second.cleanup_empty();
                if first.is_empty() {
                    let rest = second.take_all();
                    *self = rest;
                } else if second.is_empty() {
                    let rest = first.take_all();
                    *self = rest;
                }
            },
            DockTree::Leaf { tabs, .. } => {
                if tabs.len() == 0 {
                    *self = DockTree::Empty;
                }
            },
            DockTree::Empty => {},
        }
    }

    /// Drop every tab named in `ids` from the tree, collapsing any leaf left
    /// empty so the split around it closes up rather than leaving a blank pane.
    ///
    /// For panels that no longer exist. A saved layout outlives the build that
    /// wrote it, and a retired panel id would otherwise sit in it forever as a
    /// tab that opens a placeholder.
    pub fn retire_panels(&mut self, ids: &[&str])
        ensures
            final(self)@ == old(self)@.retired(str_texts(ids@)),
        decreases *old(self),
    {
        match self {
            DockTree::Split { first, second, .. } => {
                first.retire_panels(ids);
                second.retire_panels(ids);
                if first.is_empty() {
                    let rest = second.take_all();
                    *self = rest;
                } else if second.is_empty() {
                    let rest = first.take_all();
                    *self = rest;
                }
            },
            DockTree::Leaf { tabs, active_tab } => {
                let ghost tabs_before = texts(tabs@);
                let kept = keep_tabs(tabs, ids);
                if kept.len() == 0 {
                    *self = DockTree::Empty;
                } else {
                    // Follow the active tab across the removal rather than
                    // resetting to 0: dropping a background tab shouldn't switch
                    // the panel the user was last looking at.
                    let mut active: usize = 0;
                    if *active_tab < tabs.len() {
                        let at: usize = list_position(&kept, &tabs[*active_tab]);
                        if at < kept.len() {
                            active = at;
                        }
                    }
                    *tabs = kept;
                    *active_tab = active;
                }
            },
            DockTree::Empty => {},
        }
    }

    /// Split the leaf containing `target`, placing `new_panel` on the given side.
    pub fn split_at(&mut self, target: &str, new_panel: String, zone: DropZone) -> (r: bool)
        ensures
            r == (old(self)@.holds(target@) && zone != DropZone::Center),
            final(self)@ == (if r {
                old(self)@.with_leaf(
                    target@,
                    halved(zone, old(self)@.leaf_of(target@)->0, single(new_panel@)),
                )
            } else {
                old(self)@
            }),
    {
        self.split_leaf(target, DockTree::leaf(new_panel), zone)
    }

    /// Split the leaf containing `target`, placing an arbitrary `subtree` on
    /// the given side. Group-drag counterpart of [`Self::split_at`]: the
    /// dragged leaf's whole tab set moves as one unit.
    pub fn split_at_with(&mut self, target: &str, subtree: DockTree, zone: DropZone) -> (r: bool)
        ensures
            r == (subtree@.vacant() || old(self)@.holds(target@) && zone != DropZone::Center),
            final(self)@ == (if r && !subtree@.vacant() {
                old(self)@.with_leaf(
                    target@,
                    halved(zone, old(self)@.leaf_of(target@)->0, subtree@),
                )
            } else {
                old(self)@
            }),
    {
        if subtree.is_empty() {
            return true;
        }
        self.split_leaf(target, subtree, zone)
    }

    fn split_leaf(&mut self, target: &str, arrival: DockTree, zone: DropZone) -> (r: bool)
        ensures
            r == (old(self)@.holds(target@) && zone != DropZone::Center),
            final(self)@ == (if r {
                old(self)@.with_leaf(
                    target@,
                    halved(zone, old(self)@.leaf_of(target@)->0, arrival@),
                )
            } else {
                old(self)@
            }),
    {
        if zone == DropZone::Center {
            return false;
        }
        proof {
            leaf_of_holds(self@, target@);
        }
        let half = Scalar { bits: RATIO_HALF_BITS };
        if let Some(leaf) = self.find_leaf_mut(target) {
            let old = leaf.take_all();
            *leaf = place(zone, old, arrival, half, half);
            true
        } else {
            false
        }
    }

    /// Root-edge split with an arbitrary `subtree`: group-drag counterpart of
    /// [`Self::split_root`]. `Center` merges the subtree's tabs into the tree
    /// (adopting each panel) since a root center-drop has no side to take.
    pub fn split_root_with(&mut self, subtree: DockTree, zone: DropZone)
        ensures
            final(self)@ == old(self)@.root_split(subtree@, zone),
    {
        if subtree.is_empty() {
            return;
        }
        if self.is_empty() {
            *self = subtree;
            return;
        }
        if zone == DropZone::Center {
            let mut ids: Vec<String> = Vec::new();
            subtree.collect_panels(&mut ids);
            assert(texts(ids@) == subtree@.panels());
            self.adopt_panels(&ids);
            return;
        }
        let old = self.take_all();
        *self = place(
            zone,
            old,
            subtree,
            Scalar { bits: ROOT_DOCK_RATIO_BITS },
            Scalar { bits: ROOT_REST_RATIO_BITS },
        );
    }

    /// Adopt several panels, one after another.
    pub fn adopt_panels(&mut self, ids: &Vec<String>)
        ensures
            final(self)@ == old(self)@.adopted_all(texts(ids@)),
    {
        let ghost all = texts(ids@);
        let mut i: usize = 0;
        while i < ids.len()
            invariant
                i <= ids@.len(),
                all == texts(ids@),
                self@ == old(self)@.adopted_all(all.take(i as int)),
            decreases ids@.len() - i,
        {
            self.adopt_panel(&ids[i]);
            assert(all.take(i + 1).drop_last() == all.take(i as int));
            i += 1;
        }
        assert(all.take(i as int) == all);
    }

    /// Split the WHOLE tree against one edge: the new panel gets a full-height
    /// column (`Left`/`Right`) or full-width row (`Top`/`Bottom`) spanning the
    /// entire dock, regardless of the existing split structure. This is the
    /// edge/corner-drop gesture; `Center` (not a root gesture) just adds the
    /// panel as a tab in the first leaf.
    pub fn split_root(&mut self, new_panel: String, zone: DropZone)
        ensures
            final(self)@ == old(self)@.root_split(single(new_panel@), zone),
    {
        if self.is_empty() {
            *self = DockTree::leaf(new_panel);
            return;
        }
        if zone == DropZone::Center {
            self.adopt_panel(&new_panel);
            proof {
                let one = seq![new_panel@];
                assert(one.drop_last() == Seq::<Seq<char>>::empty());
                assert(one.last() == new_panel@);
                assert(old(self)@.adopted_all(one.drop_last()) == old(self)@);
            }
            return;
        }
        let old = self.take_all();
        *self = place(
            zone,
            old,
            DockTree::leaf(new_panel),
            Scalar { bits: ROOT_DOCK_RATIO_BITS },
            Scalar { bits: ROOT_REST_RATIO_BITS },
        );
    }

    /// Detach the tree's bottom region: when the root is a vertical split,
    /// remove and return its bottom child plus the split's ratio (the top
    /// share, so a re-attach restores the exact height). `None` when the root
    /// has no bottom region. Inverse of [`Self::attach_bottom`].
    pub fn detach_bottom(&mut self) -> (r: Option<(DockTree, Scalar)>)
        ensures
            match old(self)@ {
                Layout::Split { direction: SplitDirection::Vertical, ratio, first, second } => {
                    &&& r matches Some(cut)
                    &&& cut.0@ == *second
                    &&& cut.1 == ratio
                    &&& final(self)@ == *first
                },
                _ => r is None && final(self)@ == old(self)@,
            },
    {
        match self {
            DockTree::Split { direction: SplitDirection::Vertical, ratio, first, second } => {
                let share = *ratio;
                let bottom = second.take_all();
                let top = first.take_all();
                *self = top;
                Some((bottom, share))
            },
            _ => None,
        }
    }

    /// Re-attach `bottom` as a full-width bottom region under the whole tree,
    /// giving the existing content `ratio` of the space. Inverse of
    /// [`Self::detach_bottom`]. No-op for an empty `bottom`; an empty tree just
    /// becomes `bottom`.
    pub fn attach_bottom(&mut self, bottom: DockTree, ratio: Scalar)
        ensures
            final(self)@ == old(self)@.bottom_attached(bottom@, ratio),
    {
        if bottom.is_empty() {
            return;
        }
        if self.is_empty() {
            *self = bottom;
            return;
        }
        let old = self.take_all();
        *self = DockTree::vertical(old, bottom, ratio);
    }

    /// Detach a bottom region even when it isn't the root split: find the
    /// shallowest vertical split whose *bottom* child (`second`) contains
    /// `panel`, remove and return that child plus the split's ratio, and
    /// collapse the split so its top child takes its place. Also returns the
    /// panel ids that were in that top child: an **anchor** so
    /// [`Self::attach_bottom_at`] can restore the region under the same
    /// neighbour instead of full-width at the root.
    ///
    /// `None` when `panel` is nowhere below a vertical divider.
    pub fn detach_bottom_containing(
        &mut self,
        panel: &str,
    ) -> (r: Option<(DockTree, Scalar, Vec<String>)>)
        ensures
            match old(self)@.strip_path(panel@) {
                Some(path) => {
                    &&& r matches Some(cut)
                    &&& old(self)@.node_at(path) matches Some(
                        Layout::Split { ratio, first, second, .. },
                    )
                    &&& cut.0@ == *second
                    &&& cut.1 == ratio
                    &&& texts(cut.2@) == first.panels()
                    &&& final(self)@ == old(self)@.with_node(path, *first)
                },
                None => r is None && final(self)@ == old(self)@,
            },
        decreases *old(self),
    {
        let ghost before = self@;
        match self {
            DockTree::Split { direction, ratio, first, second } => {
                if *direction == SplitDirection::Vertical && second.contains_panel(panel) {
                    let share = *ratio;
                    let mut anchor: Vec<String> = Vec::new();
                    first.collect_panels(&mut anchor);
                    assert(texts(anchor@) == first@.panels());
                    let bottom = second.take_all();
                    let top = first.take_all();
                    *self = top;
                    return Some((bottom, share, anchor));
                }
                proof {
                    if let Some(path) = first@.strip_path(panel@) {
                        assert((seq![false] + path).drop_first() == path);
                    }
                    if let Some(path) = second@.strip_path(panel@) {
                        assert((seq![true] + path).drop_first() == path);
                    }
                }
                match first.detach_bottom_containing(panel) {
                    Some(cut) => Some(cut),
                    None => second.detach_bottom_containing(panel),
                }
            },
            _ => None,
        }
    }

    /// Re-attach `bottom` beneath the region identified by `anchor`: descend to
    /// the smallest subtree that still contains all of the (surviving) anchor
    /// panels, their common ancestor, and re-split it vertically, giving that
    /// region `ratio` of the height. Inverse of
    /// [`Self::detach_bottom_containing`].
    ///
    /// An empty anchor, or one whose panels have all left the tree, falls back
    /// to a full-width root attach (identical to [`Self::attach_bottom`]).
    ///
    /// Returns the **path** of the vertical split it created, in the divider
    /// path convention (`false` = descended into the first child): empty for
    /// a root attach.
    pub fn attach_bottom_at(
        &mut self,
        bottom: DockTree,
        ratio: Scalar,
        anchor: &[String],
    ) -> (r: Vec<bool>)
        ensures
            bottom@.vacant() ==> final(self)@ == old(self)@ && r@.len() == 0,
            !bottom@.vacant() && old(self)@.vacant() ==> final(self)@ == bottom@ && r@.len() == 0,
            !bottom@.vacant() && !old(self)@.vacant() ==> {
                &&& r@ == old(self)@.attach_path(texts(anchor@))
                &&& old(self)@.node_at(r@) is Some
                &&& final(self)@ == old(self)@.bottom_attached_under(r@, bottom@, ratio)
            },
    {
        let mut path: Vec<bool> = Vec::new();
        if bottom.is_empty() {
            return path;
        }
        if self.is_empty() {
            *self = bottom;
            return path;
        }
        let present = self.present_of(anchor);
        if present.len() == 0 {
            let old = self.take_all();
            *self = DockTree::vertical(old, bottom, ratio);
        } else {
            self.attach_under(bottom, ratio, &present, &mut path);
            assert(path@ == old(self)@.anchor_path(texts(present@)));
        }
        path
    }

    /// The panels of `anchor` that the tree holds.
    fn present_of(&self, anchor: &[String]) -> (r: Vec<String>)
        ensures
            texts(r@) == texts(anchor@).filter(|p: Seq<char>| self@.holds(p)),
    {
        let ghost here = |p: Seq<char>| self@.holds(p);
        let ghost all = texts(anchor@);
        let mut present: Vec<String> = Vec::new();
        let mut i: usize = 0;
        proof {
            reveal(Seq::filter);
            assert(all.take(0).filter(here) == Seq::<Seq<char>>::empty());
        }
        while i < anchor.len()
            invariant
                i <= anchor@.len(),
                all == texts(anchor@),
                here == (|p: Seq<char>| self@.holds(p)),
                texts(present@) == all.take(i as int).filter(here),
            decreases anchor@.len() - i,
        {
            proof {
                reveal(Seq::filter);
                assert(all.take(i + 1).drop_last() == all.take(i as int));
                assert(all.take(i + 1).last() == anchor@[i as int]@);
            }
            if self.contains_panel(&anchor[i]) {
                present.push(anchor[i].clone());
            }
            i += 1;
        }
        assert(all.take(i as int) == all);
        present
    }

    /// Whether the tree holds every one of `ids`.
    fn contains_all(&self, ids: &Vec<String>) -> (r: bool)
        ensures
            r == self@.holds_all(texts(ids@)),
    {
        let mut i: usize = 0;
        while i < ids.len()
            invariant
                i <= ids@.len(),
                forall|j: int| 0 <= j < i ==> self@.holds(#[trigger] texts(ids@)[j]),
            decreases ids@.len() - i,
        {
            assert(texts(ids@)[i as int] == ids@[i as int]@);
            if !self.contains_panel(&ids[i]) {
                return false;
            }
            i += 1;
        }
        true
    }

    fn attach_under(
        &mut self,
        bottom: DockTree,
        ratio: Scalar,
        ids: &Vec<String>,
        path: &mut Vec<bool>,
    )
        ensures
            final(path)@ == old(path)@ + old(self)@.anchor_path(texts(ids@)),
            old(self)@.node_at(old(self)@.anchor_path(texts(ids@))) is Some,
            final(self)@ == old(self)@.bottom_attached_under(
                old(self)@.anchor_path(texts(ids@)),
                bottom@,
                ratio,
            ),
        decreases *old(self),
    {
        let ghost walked = path@;
        let ghost all = texts(ids@);
        if let DockTree::Split { first, second, .. } = self {
            if first.contains_all(ids) {
                proof {
                    let below = first@.anchor_path(all);
                    assert((seq![false] + below).drop_first() == below);
                    assert(walked.push(false) + below == walked + (seq![false] + below));
                }
                path.push(false);
                first.attach_under(bottom, ratio, ids, path);
                return;
            }
            if second.contains_all(ids) {
                proof {
                    let below = second@.anchor_path(all);
                    assert((seq![true] + below).drop_first() == below);
                    assert(walked.push(true) + below == walked + (seq![true] + below));
                }
                path.push(true);
                second.attach_under(bottom, ratio, ids, path);
                return;
            }
        }
        let old = self.take_all();
        *self = DockTree::vertical(old, bottom, ratio);
    }

    /// Remove and return the whole leaf containing `panel`, tab set and active
    /// tab intact, collapsing the split it leaves behind. Unlike
    /// [`Self::remove_panel`] (one tab), this moves a leaf wholesale, so a
    /// multi-tab strip survives being stashed and re-attached as one unit.
    pub fn take_leaf_containing(&mut self, panel: &str) -> (r: Option<DockTree>)
        ensures
            match r {
                Some(leaf) => old(self)@.leaf_of(panel@) == Some(leaf@),
                None => old(self)@.leaf_of(panel@) is None,
            },
            final(self)@ == old(self)@.without_leaf(panel@),
    {
        proof {
            leaf_of_holds(self@, panel@);
        }
        let taken = match self.find_leaf_mut(panel) {
            Some(leaf) => leaf.take_all(),
            None => {
                return None;
            },
        };
        self.cleanup_empty();
        Some(taken)
    }
}

impl Clone for DockTree {
    fn clone(&self) -> (r: DockTree)
        ensures
            r@ == self@,
        decreases self,
    {
        match self {
            DockTree::Split { direction, ratio, first, second } => {
                let first_copy: DockTree = (**first).clone();
                let second_copy: DockTree = (**second).clone();
                DockTree::Split {
                    direction: *direction,
                    ratio: *ratio,
                    first: Box::new(first_copy),
                    second: Box::new(second_copy),
                }
            },
            DockTree::Leaf { tabs, active_tab } => DockTree::Leaf {
                tabs: copy_texts(tabs),
                active_tab: *active_tab,
            },
            DockTree::Empty => DockTree::Empty,
        }
    }
}

/// What an optional tab name holds.
pub open spec fn before_text(before: Option<&str>) -> Option<Seq<char>> {
    match before {
        Some(b) => Some(b@),
        None => None,
    }
}

/// Where a tab dropped before `before` goes.
fn slot_in(tabs: &Vec<String>, before: Option<&str>) -> (r: usize)
    ensures
        r == slot(texts(tabs@), before_text(before)),
        r <= tabs@.len(),
{
    match before {
        Some(b) => list_position(tabs, b),
        None => tabs.len(),
    }
}

/// Inserts copies of `items` at `at`, in order.
fn insert_all(tabs: &mut Vec<String>, at: usize, items: &[String])
    requires
        at <= old(tabs)@.len(),
    ensures
        texts(final(tabs)@) == texts(old(tabs)@).take(at as int) + texts(items@) + texts(
            old(tabs)@,
        ).skip(at as int),
{
    let ghost before = texts(tabs@);
    let ghost all = texts(items@);
    let mut n: usize = items.len();
    assert(all.skip(n as int) == Seq::<Seq<char>>::empty());
    assert(before == before.take(at as int) + all.skip(n as int) + before.skip(at as int));
    while n > 0
        invariant
            n <= items@.len(),
            all == texts(items@),
            at <= before.len(),
            at <= tabs@.len(),
            texts(tabs@) == before.take(at as int) + all.skip(n as int) + before.skip(at as int),
        decreases n,
    {
        n -= 1;
        let ghost tabs_before = tabs@;
        tabs.insert(at, items[n].clone());
        assert(texts(tabs@) == texts(tabs_before).insert(at as int, all[n as int]));
        assert(all.skip(n as int) == seq![all[n as int]] + all.skip(n + 1));
        assert(texts(tabs@) == before.take(at as int) + all.skip(n as int) + before.skip(
            at as int,
        ));
    }
    assert(all.skip(0) == all);
}

/// Copies of the tabs that are not named in `ids`.
fn keep_tabs(tabs: &Vec<String>, ids: &[&str]) -> (r: Vec<String>)
    ensures
        texts(r@) == texts(tabs@).filter(|t: Seq<char>| !str_texts(ids@).contains(t)),
{
    let ghost stays = |t: Seq<char>| !str_texts(ids@).contains(t);
    let ghost all = texts(tabs@);
    let mut kept: Vec<String> = Vec::new();
    let mut i: usize = 0;
    proof {
        reveal(Seq::filter);
        assert(all.take(0).filter(stays) == Seq::<Seq<char>>::empty());
    }
    while i < tabs.len()
        invariant
            i <= tabs@.len(),
            all == texts(tabs@),
            stays == (|t: Seq<char>| !str_texts(ids@).contains(t)),
            texts(kept@) == all.take(i as int).filter(stays),
        decreases tabs@.len() - i,
    {
        proof {
            reveal(Seq::filter);
            assert(all.take(i + 1).drop_last() == all.take(i as int));
            assert(all.take(i + 1).last() == tabs@[i as int]@);
        }
        if !names_contain(ids, &tabs[i]) {
            kept.push(tabs[i].clone());
        }
        i += 1;
    }
    assert(all.take(i as int) == all);
    kept
}

/// `arrival` on one side of `resident`.
fn place(zone: DropZone, resident: DockTree, arrival: DockTree, lead: Scalar, trail: Scalar) -> (r:
    DockTree)
    requires
        clamped_ratio(lead) == lead,
        clamped_ratio(trail) == trail,
    ensures
        r@ == placed(zone, resident@, arrival@, lead, trail),
{
    match zone {
        DropZone::Left => DockTree::horizontal(arrival, resident, lead),
        DropZone::Right => DockTree::horizontal(resident, arrival, trail),
        DropZone::Top => DockTree::vertical(arrival, resident, lead),
        DropZone::Bottom => DockTree::vertical(resident, arrival, trail),
        DropZone::Center => resident,
    }
}

} // verus!
