//! Where panels stand after an edit of a dock tree.

use vstd::prelude::*;

use crate::dock::drop::{differs_from, reordered_tabs, DropModel};
use crate::dock::laws::filter_keeps_all;
use crate::dock::layout::{
    clamped_ratio, halved, join, leaf_of_holds, railed, single, DropZone, Layout, SplitDirection,
};
use crate::scalar::Scalar;
use crate::text::{position, position_is_first};

verus! {

// ── Sides ──

/// A drop on a side of a leaf halves it, and the arrival gets the half on that
/// side: left and right halves stand side by side, top and bottom ones on each
/// other.
pub proof fn halves_stand_on_their_side(resident: Layout, arrival: Layout)
    ensures
        halved(DropZone::Left, resident, arrival) == (Layout::Split {
            direction: SplitDirection::Horizontal,
            ratio: Scalar { bits: 0x3F00_0000 },
            first: Box::new(arrival),
            second: Box::new(resident),
        }),
        halved(DropZone::Right, resident, arrival) == (Layout::Split {
            direction: SplitDirection::Horizontal,
            ratio: Scalar { bits: 0x3F00_0000 },
            first: Box::new(resident),
            second: Box::new(arrival),
        }),
        halved(DropZone::Top, resident, arrival) == (Layout::Split {
            direction: SplitDirection::Vertical,
            ratio: Scalar { bits: 0x3F00_0000 },
            first: Box::new(arrival),
            second: Box::new(resident),
        }),
        halved(DropZone::Bottom, resident, arrival) == (Layout::Split {
            direction: SplitDirection::Vertical,
            ratio: Scalar { bits: 0x3F00_0000 },
            first: Box::new(resident),
            second: Box::new(arrival),
        }),
        halved(DropZone::Left, resident, arrival) == halved(DropZone::Right, arrival, resident),
        halved(DropZone::Top, resident, arrival) == halved(DropZone::Bottom, arrival, resident),
        halved(DropZone::Center, resident, arrival) == resident,
{
}

/// A drop against an edge of the whole dock gives the arrival a fifth of it, on
/// that edge.
pub proof fn rails_stand_on_their_edge(resident: Layout, arrival: Layout)
    ensures
        railed(DropZone::Left, resident, arrival) == (Layout::Split {
            direction: SplitDirection::Horizontal,
            ratio: Scalar { bits: 0x3E4C_CCCD },
            first: Box::new(arrival),
            second: Box::new(resident),
        }),
        railed(DropZone::Right, resident, arrival) == (Layout::Split {
            direction: SplitDirection::Horizontal,
            ratio: Scalar { bits: 0x3F4C_CCCD },
            first: Box::new(resident),
            second: Box::new(arrival),
        }),
        railed(DropZone::Top, resident, arrival) == (Layout::Split {
            direction: SplitDirection::Vertical,
            ratio: Scalar { bits: 0x3E4C_CCCD },
            first: Box::new(arrival),
            second: Box::new(resident),
        }),
        railed(DropZone::Bottom, resident, arrival) == (Layout::Split {
            direction: SplitDirection::Vertical,
            ratio: Scalar { bits: 0x3F4C_CCCD },
            first: Box::new(resident),
            second: Box::new(arrival),
        }),
        railed(DropZone::Center, resident, arrival) == resident,
{
}

/// An arrival without panels changes nothing; a dock without panels becomes the
/// arrival; any other gets it as a rail along the edge.
pub proof fn edge_drop_makes_a_rail(t: Layout, arrival: Layout, zone: DropZone)
    ensures
        arrival.vacant() ==> t.root_split(arrival, zone) == t,
        !arrival.vacant() && t.vacant() ==> t.root_split(arrival, zone) == arrival,
        !arrival.vacant() && !t.vacant() && zone == DropZone::Left ==> t.root_split(arrival, zone)
            == (Layout::Split {
            direction: SplitDirection::Horizontal,
            ratio: Scalar { bits: 0x3E4C_CCCD },
            first: Box::new(arrival),
            second: Box::new(t),
        }),
        !arrival.vacant() && !t.vacant() && zone == DropZone::Right ==> t.root_split(arrival, zone)
            == (Layout::Split {
            direction: SplitDirection::Horizontal,
            ratio: Scalar { bits: 0x3F4C_CCCD },
            first: Box::new(t),
            second: Box::new(arrival),
        }),
        !arrival.vacant() && !t.vacant() && zone == DropZone::Top ==> t.root_split(arrival, zone)
            == (Layout::Split {
            direction: SplitDirection::Vertical,
            ratio: Scalar { bits: 0x3E4C_CCCD },
            first: Box::new(arrival),
            second: Box::new(t),
        }),
        !arrival.vacant() && !t.vacant() && zone == DropZone::Bottom ==> t.root_split(arrival, zone)
            == (Layout::Split {
            direction: SplitDirection::Vertical,
            ratio: Scalar { bits: 0x3F4C_CCCD },
            first: Box::new(t),
            second: Box::new(arrival),
        }),
{
}

/// A ratio is kept where it gives each child at least a tenth, and moved to the
/// nearer bound where it does not.
pub proof fn ratios_leave_a_tenth(ratio: Scalar)
    requires
        ratio.bits <= 0x7F80_0000,
    ensures
        0x3DCC_CCCD <= clamped_ratio(ratio).bits <= 0x3F66_6666,
        0x3DCC_CCCD <= ratio.bits <= 0x3F66_6666 ==> clamped_ratio(ratio) == ratio,
        ratio.bits < 0x3DCC_CCCD ==> clamped_ratio(ratio).bits == 0x3DCC_CCCD,
        ratio.bits > 0x3F66_6666 ==> clamped_ratio(ratio).bits == 0x3F66_6666,
{
}

/// A ratio below zero is moved to a tenth.
pub proof fn negative_ratios_become_a_tenth(ratio: Scalar)
    requires
        0x8000_0000 <= ratio.bits <= 0xFF80_0000,
    ensures
        clamped_ratio(ratio).bits == 0x3DCC_CCCD,
{
}

// ── What a tree holds and shows ──

/// The panels of a split are those of its first child and then those of its
/// second; a leaf's are its tabs; nothing has none. The visible ones are told in
/// the same order, one of each leaf.
pub proof fn panels_go_in_tree_order(t: Layout)
    ensures
        match t {
            Layout::Split { first, second, .. } => {
                &&& t.panels() == first.panels() + second.panels()
                &&& t.shown() == first.shown() + second.shown()
                &&& !t.vacant()
            },
            Layout::Leaf { tabs, active } => {
                &&& t.panels() == tabs
                &&& 0 <= active < tabs.len() ==> t.shown() == seq![tabs[active]]
                &&& !(0 <= active < tabs.len()) ==> t.shown().len() == 0
                &&& t.vacant() == (tabs.len() == 0)
            },
            Layout::Empty => t.panels().len() == 0 && t.shown().len() == 0 && t.vacant(),
        },
{
}

/// The leaf of a panel is the first with it, and only that leaf is replaced: the
/// split above it keeps its direction and ratio, and the child that has not got
/// the panel first.
pub proof fn only_the_first_leaf_is_replaced(t: Layout, panel: Seq<char>, leaf: Layout)
    ensures
        match t {
            Layout::Split { direction, ratio, first, second } => {
                &&& first.panels().contains(panel) ==> {
                    &&& t.leaf_of(panel) == first.leaf_of(panel)
                    &&& t.with_leaf(panel, leaf) == (Layout::Split {
                        direction,
                        ratio,
                        first: Box::new(first.with_leaf(panel, leaf)),
                        second,
                    })
                }
                &&& !first.panels().contains(panel) ==> {
                    &&& t.leaf_of(panel) == second.leaf_of(panel)
                    &&& t.with_leaf(panel, leaf) == (Layout::Split {
                        direction,
                        ratio,
                        first,
                        second: Box::new(second.with_leaf(panel, leaf)),
                    })
                }
            },
            Layout::Leaf { tabs, .. } => {
                &&& tabs.contains(panel) ==> t.leaf_of(panel) == Some(t) && t.with_leaf(
                    panel,
                    leaf,
                ) == leaf
                &&& !tabs.contains(panel) ==> t.leaf_of(panel) is None && t.with_leaf(panel, leaf)
                    == t
            },
            Layout::Empty => t.leaf_of(panel) is None && t.with_leaf(panel, leaf) == t,
        },
{
    if let Layout::Split { first, second, .. } = t {
        crate::dock::laws::present_is_collected(*first, panel);
        crate::dock::laws::present_is_collected(*second, panel);
    }
}

/// Splits around nothing go, and every other split stays as it is.
pub proof fn tidying_keeps_the_splits(t: Layout)
    ensures
        match t {
            Layout::Split { direction, ratio, first, second } => {
                &&& first.tidy().vacant() ==> t.tidy() == second.tidy()
                &&& !first.tidy().vacant() && second.tidy().vacant() ==> t.tidy() == first.tidy()
                &&& !first.tidy().vacant() && !second.tidy().vacant() ==> t.tidy()
                    == (Layout::Split {
                    direction,
                    ratio,
                    first: Box::new(first.tidy()),
                    second: Box::new(second.tidy()),
                })
            },
            Layout::Leaf { tabs, .. } => t.tidy() == (if tabs.len() == 0 {
                Layout::Empty
            } else {
                t
            }),
            Layout::Empty => t.tidy() == Layout::Empty,
        },
{
}

// ── Tabs ──

/// Whether `at` is where a tab goes that is put before `before`: where the first
/// such tab stands, or behind all of them.
pub open spec fn goes_at(tabs: Seq<Seq<char>>, before: Option<Seq<char>>, at: int) -> bool {
    &&& 0 <= at <= tabs.len()
    &&& match before {
        Some(b) => {
            &&& at < tabs.len() ==> tabs[at] == b
            &&& forall|j: int| 0 <= j < at ==> #[trigger] tabs[j] != b
        },
        None => at == tabs.len(),
    }
}

/// A tab added to a leaf stands before the one named, or last where that one is
/// not there; it is the visible one, and the others keep their order.
pub proof fn added_tab_stands_before(
    tabs: Seq<Seq<char>>,
    active: int,
    sibling: Seq<char>,
    panel: Seq<char>,
    before: Option<Seq<char>>,
)
    requires
        tabs.contains(sibling),
    ensures
        (Layout::Leaf { tabs, active }).tab_added(sibling, panel, before) matches Layout::Leaf {
            tabs: after,
            active: shown,
        } && goes_at(tabs, before, shown) && after.len() == tabs.len() + 1 && after[shown] == panel
            && after.remove(shown) == tabs,
{
    let t = Layout::Leaf { tabs, active };
    leaf_of_holds(t, sibling);
    if let Some(b) = before {
        position_is_first(tabs, b);
    }
    let at = crate::dock::layout::slot(tabs, before);
    assert(tabs.insert(at, panel).remove(at) =~= tabs);
}

/// Tabs merged into a leaf stand together, in their order, before the one named
/// or last; the first of them is visible, and the others keep their order.
pub proof fn merged_tabs_stand_together(
    tabs: Seq<Seq<char>>,
    active: int,
    sibling: Seq<char>,
    panels: Seq<Seq<char>>,
    before: Option<Seq<char>>,
)
    requires
        tabs.contains(sibling),
    ensures
        (Layout::Leaf { tabs, active }).tabs_added(sibling, panels, before) matches Layout::Leaf {
            tabs: after,
            active: shown,
        } && exists|at: int| #[trigger]
            goes_at(tabs, before, at) && after == tabs.subrange(0, at) + panels + tabs.subrange(
                at,
                tabs.len() as int,
            ) && (panels.len() > 0 ==> shown == at) && (panels.len() == 0 ==> shown == active),
{
    let t = Layout::Leaf { tabs, active };
    leaf_of_holds(t, sibling);
    if let Some(b) = before {
        position_is_first(tabs, b);
    }
    let at = crate::dock::layout::slot(tabs, before);
    assert(goes_at(tabs, before, at));
    assert(tabs.take(at) + panels + tabs.skip(at) =~= tabs.subrange(0, at) + panels
        + tabs.subrange(at, tabs.len() as int));
}

/// A tab that leaves a leaf leaves the others in order. The visible place stays
/// the same, but for one that has no tab any more: then it is the last.
pub proof fn leaving_tab_keeps_the_place(tabs: Seq<Seq<char>>, active: int, panel: Seq<char>)
    requires
        tabs.contains(panel),
    ensures
        (Layout::Leaf { tabs, active }).leaf_without(panel) matches Layout::Leaf {
            tabs: after,
            active: shown,
        } && exists|at: int| #[trigger]
            goes_at(tabs, Some(panel), at) && at < tabs.len() && after == tabs.remove(at) && shown
                == (if active < after.len() || after.len() == 0 {
                active
            } else {
                after.len() - 1
            }),
{
    position_is_first(tabs, panel);
    assert(goes_at(tabs, Some(panel), position(tabs, panel)));
}

/// Removing a panel takes it from its leaf; a leaf or split left without panels
/// goes.
pub proof fn removing_takes_it_from_its_leaf(t: Layout, panel: Seq<char>)
    ensures
        t.panels().contains(panel) ==> t.without_panel(panel) == t.with_leaf(
            panel,
            (t.leaf_of(panel)->0).leaf_without(panel),
        ).tidy(),
        !t.panels().contains(panel) ==> t.without_panel(panel) == t,
        t.panels().contains(panel) ==> t.without_leaf(panel) == t.with_leaf(
            panel,
            Layout::Empty,
        ).tidy(),
        !t.panels().contains(panel) ==> t.without_leaf(panel) == t,
{
    crate::dock::laws::present_is_collected(t, panel);
    leaf_of_holds(t, panel);
    if t.holds(panel) {
        leaf_of_is_its_own(t, panel);
    }
}

proof fn leaf_of_is_its_own(t: Layout, panel: Seq<char>)
    requires
        t.holds(panel),
    ensures
        t.leaf_of(panel) matches Some(leaf) && leaf.leaf_of(panel) == Some(leaf),
    decreases t,
{
    if let Layout::Split { first, second, .. } = t {
        if first.holds(panel) {
            leaf_of_is_its_own(*first, panel);
        } else {
            leaf_of_is_its_own(*second, panel);
        }
    }
}

/// Retiring panels keeps the splits that still have panels on both sides, and a
/// leaf goes on showing what it showed where that stays, else its first tab.
pub proof fn retiring_goes_on_showing(t: Layout, ids: Seq<Seq<char>>)
    ensures
        match t {
            Layout::Split { direction, ratio, first, second } => {
                &&& first.retired(ids).vacant() ==> t.retired(ids) == second.retired(ids)
                &&& !first.retired(ids).vacant() && second.retired(ids).vacant() ==> t.retired(ids)
                    == first.retired(ids)
                &&& !first.retired(ids).vacant() && !second.retired(ids).vacant() ==> t.retired(ids)
                    == (Layout::Split {
                    direction,
                    ratio,
                    first: Box::new(first.retired(ids)),
                    second: Box::new(second.retired(ids)),
                })
            },
            Layout::Leaf { tabs, active } => {
                let kept = tabs.filter(|p: Seq<char>| !ids.contains(p));
                &&& kept.len() == 0 ==> t.retired(ids) == Layout::Empty
                &&& kept.len() > 0 ==> (t.retired(ids) matches Layout::Leaf {
                    tabs: after,
                    active: shown,
                } && after == kept && {
                    &&& 0 <= active < tabs.len() && !ids.contains(tabs[active]) ==> 0 <= shown
                        < kept.len() && kept[shown] == tabs[active]
                    &&& !(0 <= active < tabs.len() && !ids.contains(tabs[active])) ==> shown == 0
                })
            },
            Layout::Empty => t.retired(ids) == Layout::Empty,
        },
{
    if let Layout::Leaf { tabs, active } = t {
        let stays = |p: Seq<char>| !ids.contains(p);
        let kept = tabs.filter(stays);
        if 0 <= active < tabs.len() {
            position_is_first(kept, tabs[active]);
            if stays(tabs[active]) {
                tabs.lemma_filter_contains(stays, active);
            } else if kept.contains(tabs[active]) {
                tabs.lemma_filter_pred(stays, position(kept, tabs[active]));
            }
        }
    }
}

/// Activating a panel shows its first tab in its leaf and changes nothing else.
pub proof fn activating_shows_the_first_tab(t: Layout, panel: Seq<char>)
    ensures
        match t.leaf_of(panel) {
            Some(Layout::Leaf { tabs, .. }) => exists|at: int| #[trigger]
                goes_at(tabs, Some(panel), at) && t.activated(panel) == t.with_leaf(
                    panel,
                    Layout::Leaf { tabs, active: at },
                ),
            _ => t.activated(panel) == t,
        },
{
    if let Some(Layout::Leaf { tabs, .. }) = t.leaf_of(panel) {
        position_is_first(tabs, panel);
        assert(goes_at(tabs, Some(panel), position(tabs, panel)));
    }
}

/// A panel is appended as the last tab of the first leaf there is, and shown.
pub proof fn appending_takes_the_first_leaf(t: Layout, panel: Seq<char>)
    ensures
        match t {
            Layout::Split { direction, ratio, first, second } => {
                &&& first.has_leaf() ==> t.appended(panel) == Some(
                    Layout::Split {
                        direction,
                        ratio,
                        first: Box::new(first.appended(panel)->0),
                        second,
                    },
                )
                &&& !first.has_leaf() && second.has_leaf() ==> t.appended(panel) == Some(
                    Layout::Split {
                        direction,
                        ratio,
                        first,
                        second: Box::new(second.appended(panel)->0),
                    },
                )
                &&& t.has_leaf() == (first.has_leaf() || second.has_leaf())
            },
            Layout::Leaf { tabs, .. } => {
                &&& t.has_leaf()
                &&& t.appended(panel) == Some(
                    Layout::Leaf { tabs: tabs.push(panel), active: tabs.len() as int },
                )
            },
            Layout::Empty => !t.has_leaf() && t.appended(panel) is None,
        },
{
    if let Layout::Split { first, second, .. } = t {
        crate::dock::laws::appending_shows(*first, panel);
        crate::dock::laws::appending_shows(*second, panel);
    }
}

/// Adopting a panel shows it where it is, or appends it, or makes it the whole of
/// a tree that has nowhere to put it.
pub proof fn adopting_shows_or_appends(t: Layout, panel: Seq<char>)
    ensures
        t.vacant() || !t.has_leaf() ==> t.adopted(panel) == (Layout::Leaf {
            tabs: seq![panel],
            active: 0,
        }),
        !t.vacant() && t.panels().contains(panel) ==> t.adopted(panel) == t.activated(panel)
            && t.focused_or_added(panel) == t.activated(panel),
        !t.vacant() && t.has_leaf() && !t.panels().contains(panel) ==> Some(t.adopted(panel))
            == t.appended(panel) && Some(t.focused_or_added(panel)) == t.appended(panel),
{
    crate::dock::laws::present_is_collected(t, panel);
    crate::dock::laws::appending_shows(t, panel);
}

// ── Drops ──

/// A drop on the side of another panel's leaf halves that leaf; one on its tabs
/// adds a tab; one against an edge makes a rail; and one whose target is gone, or
/// is the panel itself, is adopted.
pub proof fn drops_do_as_told(t: Layout, panel: Seq<char>, area: u64, rep: Seq<char>)
    ensures
        t.panels().contains(rep) && rep != panel ==> {
            let leaf = t.leaf_of(rep)->0;
            let one = Layout::Leaf { tabs: seq![panel], active: 0 };
            &&& t.dropped(panel, DropModel::Split { area, rep, zone: DropZone::Left })
                == t.with_leaf(rep, halved(DropZone::Left, leaf, one))
            &&& t.dropped(panel, DropModel::Split { area, rep, zone: DropZone::Right })
                == t.with_leaf(rep, halved(DropZone::Right, leaf, one))
            &&& t.dropped(panel, DropModel::Split { area, rep, zone: DropZone::Top })
                == t.with_leaf(rep, halved(DropZone::Top, leaf, one))
            &&& t.dropped(panel, DropModel::Split { area, rep, zone: DropZone::Bottom })
                == t.with_leaf(rep, halved(DropZone::Bottom, leaf, one))
            &&& t.dropped(panel, DropModel::Split { area, rep, zone: DropZone::Center })
                == t.adopted(panel)
            &&& forall|before: Option<Seq<char>>| #[trigger]
                t.dropped(panel, DropModel::Tab { area, rep, before }) == t.tab_added(
                    rep,
                    panel,
                    before,
                )
        },
        !t.panels().contains(rep) || rep == panel ==> {
            &&& forall|zone: DropZone| #[trigger]
                t.dropped(panel, DropModel::Split { area, rep, zone }) == t.adopted(panel)
            &&& forall|before: Option<Seq<char>>| #[trigger]
                t.dropped(panel, DropModel::Tab { area, rep, before }) == t.adopted(panel)
        },
        forall|zone: DropZone| #[trigger]
            t.dropped(panel, DropModel::RootSplit { area, zone }) == t.root_split(
                Layout::Leaf { tabs: seq![panel], active: 0 },
                zone,
            ),
{
    crate::dock::laws::present_is_collected(t, rep);
}

/// A whole leaf is dropped in the same way: beside another leaf with all its
/// tabs, or with its tabs merged into that leaf's, or as a rail.
pub proof fn leaf_drops_do_as_told(
    t: Layout,
    tabs: Seq<Seq<char>>,
    active: int,
    area: u64,
    rep: Seq<char>,
)
    requires
        tabs.len() > 0,
    ensures
        ({
            let leaf = Layout::Leaf { tabs, active };
            &&& t.panels().contains(rep) ==> {
                let host = t.leaf_of(rep)->0;
                &&& forall|zone: DropZone|
                    zone != DropZone::Center ==> #[trigger] t.leaf_dropped(
                        leaf,
                        DropModel::Split { area, rep, zone },
                    ) == t.with_leaf(rep, halved(zone, host, leaf))
                &&& t.leaf_dropped(leaf, DropModel::Split { area, rep, zone: DropZone::Center })
                    == t.adopted_all(tabs)
                &&& forall|before: Option<Seq<char>>| #[trigger]
                    t.leaf_dropped(leaf, DropModel::Tab { area, rep, before }) == t.tabs_added(
                        rep,
                        tabs,
                        before,
                    )
            }
            &&& !t.panels().contains(rep) ==> {
                &&& forall|zone: DropZone| #[trigger]
                    t.leaf_dropped(leaf, DropModel::Split { area, rep, zone }) == t.adopted_all(
                        tabs,
                    )
                &&& forall|before: Option<Seq<char>>| #[trigger]
                    t.leaf_dropped(leaf, DropModel::Tab { area, rep, before }) == t.adopted_all(
                        tabs,
                    )
            }
            &&& forall|zone: DropZone| #[trigger]
                t.leaf_dropped(leaf, DropModel::RootSplit { area, zone }) == t.root_split(
                    leaf,
                    zone,
                )
        }),
{
    crate::dock::laws::present_is_collected(t, rep);
}

/// Panels are adopted one after another, the first one first.
pub proof fn adopting_goes_in_order(t: Layout, panels: Seq<Seq<char>>, panel: Seq<char>)
    ensures
        t.adopted_all(Seq::empty()) == t,
        t.adopted_all(panels.push(panel)) == t.adopted_all(panels).adopted(panel),
{
    assert(panels.push(panel).drop_last() =~= panels);
}

/// A tab moved within its leaf stands before the one named, or last; every other
/// keeps its place among the rest, and it is there once.
pub proof fn moved_tab_stands_before(
    tabs: Seq<Seq<char>>,
    dragged: Seq<char>,
    before: Option<Seq<char>>,
)
    ensures
        ({
            let rest = tabs.filter(|t: Seq<char>| t != dragged);
            exists|at: int| #[trigger]
                goes_at(rest, before, at) && reordered_tabs(tabs, dragged, before) == rest.subrange(
                    0,
                    at,
                ) + seq![dragged] + rest.subrange(at, rest.len() as int)
        }),
{
    let other = |t: Seq<char>| t != dragged;
    let rest = tabs.filter(other);
    assert(other =~= differs_from(dragged));
    if let Some(b) = before {
        position_is_first(rest, b);
    }
    let at = crate::dock::layout::slot(rest, before);
    assert(goes_at(rest, before, at));
    assert(rest.insert(at, dragged) =~= rest.subrange(0, at) + seq![dragged] + rest.subrange(
        at,
        rest.len() as int,
    ));
}

// ── Nodes and strips ──

/// A step of a path leads to the first child or to the second, and replacing what
/// it leads to leaves the other child and the split as they are.
pub proof fn paths_lead_to_children(
    direction: SplitDirection,
    ratio: Scalar,
    first: Layout,
    second: Layout,
    path: Seq<bool>,
    node: Layout,
)
    ensures
        ({
            let t = Layout::Split {
                direction,
                ratio,
                first: Box::new(first),
                second: Box::new(second),
            };
            &&& t.node_at(Seq::empty()) == Some(t)
            &&& t.with_node(Seq::empty(), node) == node
            &&& t.node_at(seq![false] + path) == first.node_at(path)
            &&& t.node_at(seq![true] + path) == second.node_at(path)
            &&& t.with_node(seq![false] + path, node) == (Layout::Split {
                direction,
                ratio,
                first: Box::new(first.with_node(path, node)),
                second: Box::new(second),
            })
            &&& t.with_node(seq![true] + path, node) == (Layout::Split {
                direction,
                ratio,
                first: Box::new(first),
                second: Box::new(second.with_node(path, node)),
            })
        }),
{
    assert((seq![false] + path).drop_first() =~= path);
    assert((seq![true] + path).drop_first() =~= path);
}

/// Setting a ratio sets that of the split the path leads to, in range, and leaves
/// its direction and children and all other nodes.
pub proof fn ratio_is_set_at_the_path(t: Layout, path: Seq<bool>, ratio: Scalar)
    ensures
        match t.node_at(path) {
            Some(Layout::Split { direction, first, second, .. }) => t.ratio_set(path, ratio)
                == t.with_node(
                path,
                Layout::Split { direction, ratio: clamped_ratio(ratio), first, second },
            ),
            _ => t.ratio_set(path, ratio) == t,
        },
{
}

/// A bottom region goes under the whole tree: stacked, with the tree on top and
/// the top share as its ratio.
pub proof fn bottom_goes_below(t: Layout, bottom: Layout, ratio: Scalar)
    ensures
        bottom.vacant() ==> t.bottom_attached(bottom, ratio) == t,
        !bottom.vacant() && t.vacant() ==> t.bottom_attached(bottom, ratio) == bottom,
        !bottom.vacant() && !t.vacant() ==> t.bottom_attached(bottom, ratio) == (Layout::Split {
            direction: SplitDirection::Vertical,
            ratio: clamped_ratio(ratio),
            first: Box::new(t),
            second: Box::new(bottom),
        }),
{
}

/// A region that goes back under a part of the tree is stacked below that part.
pub proof fn strip_goes_below_its_anchor(
    t: Layout,
    path: Seq<bool>,
    bottom: Layout,
    ratio: Scalar,
)
    requires
        t.node_at(path) is Some,
    ensures
        t.bottom_attached_under(path, bottom, ratio) == t.with_node(
            path,
            Layout::Split {
                direction: SplitDirection::Vertical,
                ratio: clamped_ratio(ratio),
                first: Box::new(t.node_at(path)->0),
                second: Box::new(bottom),
            },
        ),
{
}

/// Two trees are joined side by side where both have panels, and else the one
/// that has stands alone.
pub proof fn joining_drops_the_vacant(
    direction: SplitDirection,
    ratio: Scalar,
    first: Layout,
    second: Layout,
)
    ensures
        first.vacant() ==> join(direction, ratio, first, second) == second,
        !first.vacant() && second.vacant() ==> join(direction, ratio, first, second) == first,
        !first.vacant() && !second.vacant() ==> join(direction, ratio, first, second)
            == (Layout::Split {
            direction,
            ratio,
            first: Box::new(first),
            second: Box::new(second),
        }),
{
}

/// A leaf for one panel has that panel as its one, visible tab.
pub proof fn single_has_one_tab(panel: Seq<char>)
    ensures
        single(panel) == (Layout::Leaf { tabs: seq![panel], active: 0 }),
{
}

/// Where anchors are present, a region goes back under the smallest part that has
/// all of those that are: both children lack one of them, or there are none.
pub proof fn anchor_is_the_smallest(t: Layout, ids: Seq<Seq<char>>)
    ensures
        t.anchor_path(ids).len() == 0 ==> (t matches Layout::Split { first, second, .. } ==> !(
        forall|i: int| 0 <= i < ids.len() ==> first.panels().contains(#[trigger] ids[i])) && !(
        forall|i: int| 0 <= i < ids.len() ==> second.panels().contains(#[trigger] ids[i]))),
        t.anchor_path(ids).len() > 0 ==> (t matches Layout::Split { first, second, .. } && {
            let child = if t.anchor_path(ids)[0] {
                second
            } else {
                first
            };
            &&& forall|i: int| 0 <= i < ids.len() ==> child.panels().contains(#[trigger] ids[i])
            &&& t.anchor_path(ids).drop_first() == child.anchor_path(ids)
        }),
{
    if let Layout::Split { first, second, .. } = t {
        assert forall|i: int| 0 <= i < ids.len() implies first.panels().contains(
            #[trigger] ids[i],
        ) == first.holds(ids[i]) by {
            crate::dock::laws::present_is_collected(*first, ids[i]);
        }
        assert forall|i: int| 0 <= i < ids.len() implies second.panels().contains(
            #[trigger] ids[i],
        ) == second.holds(ids[i]) by {
            crate::dock::laws::present_is_collected(*second, ids[i]);
        }
        let path = t.anchor_path(ids);
        if first.holds_all(ids) {
            assert(path.drop_first() =~= first.anchor_path(ids));
        } else if second.holds_all(ids) {
            assert(path.drop_first() =~= second.anchor_path(ids));
        }
    }
}

/// Anchors that are gone do not count, and with none left the region goes under
/// the whole tree.
pub proof fn gone_anchors_do_not_count(t: Layout, anchor: Seq<Seq<char>>)
    ensures
        (forall|i: int| 0 <= i < anchor.len() ==> !t.panels().contains(#[trigger] anchor[i]))
            ==> t.attach_path(anchor).len() == 0,
        (forall|i: int| 0 <= i < anchor.len() ==> t.panels().contains(#[trigger] anchor[i]))
            && anchor.len() > 0 ==> t.attach_path(anchor) == t.anchor_path(anchor),
{
    let here = |p: Seq<char>| t.holds(p);
    let present = anchor.filter(here);
    assert forall|i: int| 0 <= i < anchor.len() implies t.panels().contains(#[trigger] anchor[i])
        == t.holds(anchor[i]) by {
        crate::dock::laws::present_is_collected(t, anchor[i]);
    }
    if forall|i: int| 0 <= i < anchor.len() ==> !t.panels().contains(#[trigger] anchor[i]) {
        if present.len() > 0 {
            anchor.lemma_filter_pred(here, 0);
            anchor.lemma_filter_contains_rev(here, present[0]);
            let k = choose|k: int| 0 <= k < anchor.len() && anchor[k] == present[0];
            assert(!t.panels().contains(anchor[k]));
        }
    }
    if forall|i: int| 0 <= i < anchor.len() ==> t.panels().contains(#[trigger] anchor[i]) {
        filter_keeps_all(anchor, here);
    }
}

} // verus!
