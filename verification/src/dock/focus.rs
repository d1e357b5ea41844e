//! The cursor, the focused panel and the visible tabs.

use vstd::prelude::*;

use crate::dock::docks::Docks;
use crate::dock::drop::option_text;
use crate::dock::target::{leaf_index, leaf_sites, leaf_under, LeafProbe, LeafSite};
use crate::scalar::Point;
use crate::text::{find_first, list_contains, position, same_text};

verus! {

// ── The cursor in screen space ──

/// The cursor in physical screen space.
pub struct GlobalCursor {
    pub pos: Option<Point>,
}

/// Equality of two points as numbers.
pub open spec fn same_point(a: Point, b: Point) -> bool {
    a.x.equal(b.x) && a.y.equal(b.y)
}

/// Equality of two optional points as numbers.
pub open spec fn same_place(a: Option<Point>, b: Option<Point>) -> bool {
    match (a, b) {
        (Some(p), Some(q)) => same_point(p, q),
        (None, None) => true,
        _ => false,
    }
}

/// Where the cursor is after a burst of moves. A move in a window that no
/// longer exists has no place.
pub open spec fn last_place(start: Option<Point>, moves: Seq<Option<Point>>) -> Option<Point>
    decreases moves.len(),
{
    if moves.len() == 0 {
        start
    } else if moves.last() is Some {
        moves.last()
    } else {
        last_place(start, moves.drop_last())
    }
}

impl GlobalCursor {
    /// Follow a burst of cursor moves. Consumers see only the final position:
    /// intermediate and duplicate ones are not published as changes. Returns
    /// whether there is one to publish.
    pub fn track(&mut self, moves: &Vec<Option<Point>>) -> (r: bool)
        ensures
            r == !same_place(old(self).pos, last_place(old(self).pos, moves@)),
            final(self).pos == (if r {
                last_place(old(self).pos, moves@)
            } else {
                old(self).pos
            }),
    {
        let mut next: Option<Point> = self.pos;
        let mut i: usize = 0;
        assert(moves@.take(0).len() == 0);
        while i < moves.len()
            invariant
                i <= moves@.len(),
                *self == *old(self),
                next == last_place(self.pos, moves@.take(i as int)),
            decreases moves@.len() - i,
        {
            assert(moves@.take(i + 1).drop_last() == moves@.take(i as int));
            if let Some(place) = moves[i] {
                next = Some(place);
            }
            i += 1;
        }
        assert(moves@.take(i as int) == moves@);
        let same: bool = match (self.pos, next) {
            (Some(p), Some(q)) => p.x.same(q.x) && p.y.same(q.y),
            (None, None) => true,
            _ => false,
        };
        if !same {
            self.pos = next;
        }
        !same
    }
}

// ── The focused panel ──

/// A panel to be focused, once.
pub struct FocusPanelRequest(pub Option<String>);

/// The panel the user last clicked into.
pub struct FocusedPanel(pub Option<String>);

/// A pending in-place tab switch: (leaf, panel to activate).
pub struct PendingSwitch(pub Option<(u64, String)>);

/// What a pending switch holds.
pub open spec fn switch_model(pending: PendingSwitch) -> Option<(u64, Seq<char>)> {
    match pending.0 {
        Some((leaf, id)) => Some((leaf, id@)),
        None => None,
    }
}

impl FocusedPanel {
    /// A left press over a leaf makes that leaf's visible panel the focused one.
    pub fn pressed(&mut self, leaves: &Vec<LeafProbe>)
        ensures
            option_text(final(self).0) == ({
                let sites = leaf_sites(leaves@);
                let i = leaf_under(sites);
                if i < sites.len() {
                    Some(sites[i].active)
                } else {
                    option_text(old(self).0)
                }
            }),
    {
        let test = |p: &LeafProbe| -> (b: bool)
            ensures
                b == p@.over,
            {
                p.over
            };
        let i: usize = find_first(
            leaves,
            test,
            Ghost(leaf_sites(leaves@).map_values(|l: LeafSite| l.over)),
        );
        if i < leaves.len() {
            let already: bool = match &self.0 {
                Some(panel) => same_text(panel, &leaves[i].active),
                None => false,
            };
            if !already {
                self.0 = Some(leaves[i].active.clone());
            }
        }
    }
}

/// The first leaf that has a panel among its tabs, or their number.
pub open spec fn leaf_with_tab(leaves: Seq<LeafSite>, id: Seq<char>) -> int {
    position(leaves.map_values(|l: LeafSite| l.tabs.contains(id)), true)
}

impl FocusPanelRequest {
    /// Turn a request into a pending tab switch: locate the leaf that holds the
    /// requested panel and, if it isn't already the active tab, queue the same
    /// in-place switch a click would. Focus counts even when no switch is
    /// needed. The request is used up either way.
    pub fn apply(
        &mut self,
        pending: &mut PendingSwitch,
        focused: &mut FocusedPanel,
        leaves: &Vec<LeafProbe>,
    )
        ensures
            final(self).0 is None,
            match option_text(old(self).0) {
                Some(id) => {
                    let sites = leaf_sites(leaves@);
                    let i = leaf_with_tab(sites, id);
                    if i < sites.len() {
                        &&& option_text(final(focused).0) == Some(id)
                        &&& switch_model(*final(pending)) == (if sites[i].active != id {
                            Some((sites[i].leaf, id))
                        } else {
                            switch_model(*old(pending))
                        })
                    } else {
                        *final(focused) == *old(focused) && *final(pending) == *old(pending)
                    }
                },
                None => *final(focused) == *old(focused) && *final(pending) == *old(pending),
            },
    {
        let id = match self.0.take() {
            Some(id) => id,
            None => {
                return;
            },
        };
        let test = |p: &LeafProbe| -> (b: bool)
            ensures
                b == p@.tabs.contains(id@),
            {
                list_contains(&p.tabs, &id)
            };
        let i: usize = find_first(
            leaves,
            test,
            Ghost(leaf_sites(leaves@).map_values(|l: LeafSite| l.tabs.contains(id@))),
        );
        if i < leaves.len() {
            if !same_text(&leaves[i].active, &id) {
                pending.0 = Some((leaves[i].leaf, id.clone()));
            }
            focused.0 = Some(id);
        }
    }
}

impl PendingSwitch {
    /// Apply a pending tab switch: focus the panel and make it the visible tab
    /// of its leaf in the tree that owns the leaf's area. Returns the leaf and
    /// its new active panel, for the tabs to be repainted.
    pub fn apply(
        &mut self,
        docks: &mut Docks,
        focused: &mut FocusedPanel,
        leaves: &Vec<LeafProbe>,
    ) -> (r: Option<(u64, String)>)
        ensures
            final(self).0 is None,
            match switch_model(*old(self)) {
                Some((leaf, id)) => {
                    let sites = leaf_sites(leaves@);
                    let i = leaf_index(sites, leaf);
                    &&& option_text(final(focused).0) == Some(id)
                    &&& r matches Some(done)
                    &&& done.0 == leaf
                    &&& done.1@ == id
                    &&& final(docks)@ == (if i < sites.len() {
                        let area = sites[i].area;
                        old(docks)@.with_tree(area, old(docks)@.tree_of(area).activated(id))
                    } else {
                        old(docks)@
                    })
                },
                None => {
                    &&& r is None
                    &&& *final(focused) == *old(focused)
                    &&& final(docks)@ == old(docks)@
                },
            },
    {
        let (leaf, id) = match self.0.take() {
            Some((leaf, id)) => (leaf, id),
            None => {
                return None;
            },
        };
        focused.0 = Some(id.clone());
        let i: usize = crate::dock::target::find_leaf(leaves, leaf);
        if i < leaves.len() {
            docks.switch_tab(leaves[i].area, &id);
        }
        Some((leaf, id))
    }
}

// ── Panes and tabs ──

/// A pane in a leaf's content.
pub struct PaneProbe {
    pub pane: u64,
    pub id: String,
}

/// Being a pane of another panel than `active`.
pub open spec fn inactive(active: Seq<char>) -> spec_fn(PaneProbe) -> bool {
    |p: PaneProbe| p.id@ != active
}

/// The panes of a leaf to despawn: those whose tab left the leaf or is not the
/// active one. While a rebuild is due, it owns the panes.
pub fn stale_panes(dirty: bool, active: &str, panes: &Vec<PaneProbe>) -> (r: Vec<u64>)
    ensures
        r@ == (if dirty {
            Seq::empty()
        } else {
            panes@.filter(inactive(active@)).map_values(|p: PaneProbe| p.pane)
        }),
{
    let mut out: Vec<u64> = Vec::new();
    if dirty {
        return out;
    }
    let mut i: usize = 0;
    proof {
        reveal(Seq::filter);
        assert(panes@.take(0).filter(inactive(active@)) =~= Seq::empty());
    }
    while i < panes.len()
        invariant
            i <= panes@.len(),
            out@ == panes@.take(i as int).filter(inactive(active@)).map_values(
                |p: PaneProbe| p.pane,
            ),
        decreases panes@.len() - i,
    {
        let ghost before = panes@.take(i as int).filter(inactive(active@));
        proof {
            reveal(Seq::filter);
            assert(panes@.take(i + 1).drop_last() == panes@.take(i as int));
            assert(panes@.take(i + 1).last() == panes@[i as int]);
        }
        if !same_text(&panes[i].id, active) {
            out.push(panes[i].pane);
            assert(before.push(panes@[i as int]).map_values(|p: PaneProbe| p.pane)
                =~= before.map_values(|p: PaneProbe| p.pane).push(panes@[i as int].pane));
        }
        i += 1;
    }
    assert(panes@.take(i as int) == panes@);
    out
}

/// How a control is touched.
#[derive(Clone, Copy, Debug, PartialEq, Eq, Structural)]
pub enum Touch {
    Idle,
    Hovered,
    Pressed,
}

impl Touch {
    pub open spec fn touched(self) -> bool {
        self != Touch::Idle
    }

    pub fn is_touched(self) -> (r: bool)
        ensures
            r == self.touched(),
    {
        self != Touch::Idle
    }
}

/// How a tab is painted.
#[derive(Clone, Copy, Debug, PartialEq, Eq, Structural)]
pub enum TabLook {
    Active,
    Hovered,
    Inactive,
}

/// A tab's look follows hover and active state; active wins. `leaf_active` is
/// the visible panel of the tab's own leaf, if that still exists: with floating
/// dock windows the same panel id can exist in several trees at once.
pub fn tab_look(id: &str, leaf_active: Option<&str>, touch: Touch) -> (r: TabLook)
    ensures
        r == (if leaf_active matches Some(a) && a@ == id@ {
            TabLook::Active
        } else if touch.touched() {
            TabLook::Hovered
        } else {
            TabLook::Inactive
        }),
{
    let active: bool = match leaf_active {
        Some(a) => same_text(a, id),
        None => false,
    };
    if active {
        TabLook::Active
    } else if touch.is_touched() {
        TabLook::Hovered
    } else {
        TabLook::Inactive
    }
}

/// A tab's undock handle shows while its tab, or the handle itself, is touched.
pub fn grip_shown(grip: Touch, tab: Option<Touch>) -> (r: bool)
    ensures
        r == (grip.touched() || (tab matches Some(t) && t.touched())),
{
    grip.is_touched() || match tab {
        Some(t) => t.is_touched(),
        None => false,
    }
}

} // verus!
