//! What the dock's gestures do to the docks.

use vstd::prelude::*;

use crate::dock::divider::{
    collapse_target, divider_index, divider_move, latched, snaps, CollapseProbe, DividerDrag,
    DividerMoveModel, DividerSite, ParentSplit, Pointer, Reach,
};
use crate::dock::docks::{host_index, window_index, DocksModel, RequestModel, WindowModel};
use crate::dock::drag::{
    cursor_of, press_drag, press_pick, pressed_grip, pressed_tab, release_outcome, step_of,
    DragModel, DragStep, GripProbe, ReleasedModel, WindowCursor,
};
use crate::dock::drop::{option_text, reordered_tabs, DropModel};
use crate::dock::focus::{inactive, last_place, leaf_with_tab, same_place, PaneProbe, Touch};
use crate::dock::layout::{clamped_ratio, Layout};
use crate::dock::target::{LeafSite, TabSite};
use crate::dock::target_laws::leaf_named;
use crate::dock::windows::{
    close_list, default_grab, fresh_float, gone, ours, parts, stray, stray_cameras, ClosedWindow,
    FloatModel,
};
use crate::scalar::{Point, Scalar};
use crate::text::{position_found, position_is_first};

verus! {

// ── Areas and trees ──

/// Whether `i` is the first floating window that hosts an area.
pub open spec fn hosts(windows: Seq<WindowModel>, area: u64, i: int) -> bool {
    0 <= i < windows.len() && windows[i].area == area && forall|j: int|
        0 <= j < i ==> (#[trigger] windows[j]).area != area
}

/// Whether no floating window hosts an area.
pub open spec fn hosted_nowhere(windows: Seq<WindowModel>, area: u64) -> bool {
    forall|j: int| 0 <= j < windows.len() ==> (#[trigger] windows[j]).area != area
}

/// Whether `i` is the first floating window of an entity.
pub open spec fn window_at(windows: Seq<WindowModel>, window: u64, i: int) -> bool {
    0 <= i < windows.len() && windows[i].window == window && forall|j: int|
        0 <= j < i ==> (#[trigger] windows[j]).window != window
}

proof fn host_found(windows: Seq<WindowModel>, area: u64)
    ensures
        forall|i: int| #[trigger] hosts(windows, area, i) ==> host_index(windows, area) == i,
        hosted_nowhere(windows, area) ==> host_index(windows, area) == windows.len(),
        0 <= host_index(windows, area) <= windows.len(),
        host_index(windows, area) < windows.len() ==> hosts(
            windows,
            area,
            host_index(windows, area),
        ),
{
    let areas = windows.map_values(|w: WindowModel| w.area);
    position_is_first(areas, area);
    let at = host_index(windows, area);
    assert forall|j: int| 0 <= j < at implies (#[trigger] windows[j]).area != area by {
        assert(areas[j] != area);
    }
    assert forall|i: int| #[trigger] hosts(windows, area, i) implies at == i by {
        assert forall|j: int| 0 <= j < i implies areas[j] != area by {
            assert(windows[j].area != area);
        }
        assert(areas[i] == area);
        position_found(areas, area, i);
    }
    if hosted_nowhere(windows, area) && at < windows.len() {
        assert(areas[at] == area);
        assert(windows[at].area != area);
    }
}

proof fn window_found(windows: Seq<WindowModel>, window: u64)
    ensures
        forall|i: int| #[trigger] window_at(windows, window, i) ==> window_index(windows, window)
            == i,
        0 <= window_index(windows, window) <= windows.len(),
        window_index(windows, window) < windows.len() ==> window_at(
            windows,
            window,
            window_index(windows, window),
        ),
        window_index(windows, window) < windows.len() <==> exists|i: int|
            0 <= i < windows.len() && (#[trigger] windows[i]).window == window,
{
    let names = windows.map_values(|w: WindowModel| w.window);
    position_is_first(names, window);
    let at = window_index(windows, window);
    assert forall|j: int| 0 <= j < at implies (#[trigger] windows[j]).window != window by {
        assert(names[j] != window);
    }
    assert forall|i: int| #[trigger] window_at(windows, window, i) implies at == i by {
        assert forall|j: int| 0 <= j < i implies names[j] != window by {
            assert(windows[j].window != window);
        }
        assert(names[i] == window);
        position_found(names, window, i);
    }
    if exists|i: int| 0 <= i < windows.len() && (#[trigger] windows[i]).window == window {
        let i = choose|i: int| 0 <= i < windows.len() && (#[trigger] windows[i]).window == window;
        assert(names[i] == window);
    }
    if at < windows.len() {
        assert(names[at] == window);
        assert(windows[at].window == window);
    }
}

/// The fixed area leads to the fixed dock's tree, a floating window's area to its
/// own, and every other area to the primary dock's. An edit there changes that
/// tree and nothing else, and a flag that dock's flag and nothing else.
pub proof fn areas_lead_to_their_trees(docks: DocksModel, area: u64, tree: Layout, i: int)
    ensures
        docks.fixed_area == Some(area) ==> {
            &&& docks.tree_of(area) == docks.fixed
            &&& docks.with_tree(area, tree) == (DocksModel { fixed: tree, ..docks })
            &&& docks.flagged(area) == (DocksModel { fixed_dirty: true, ..docks })
        },
        docks.fixed_area != Some(area) && hosts(docks.windows, area, i) ==> {
            let w = docks.windows[i];
            &&& docks.tree_of(area) == w.tree
            &&& docks.with_tree(area, tree) == (DocksModel {
                windows: docks.windows.update(i, WindowModel { tree, ..w }),
                ..docks
            })
            &&& docks.flagged(area) == (DocksModel {
                windows: docks.windows.update(i, WindowModel { dirty: true, ..w }),
                ..docks
            })
        },
        docks.fixed_area != Some(area) && hosted_nowhere(docks.windows, area) ==> {
            &&& docks.tree_of(area) == docks.primary
            &&& docks.with_tree(area, tree) == (DocksModel { primary: tree, ..docks })
            &&& docks.flagged(area) == (DocksModel { primary_dirty: true, ..docks })
        },
{
    host_found(docks.windows, area);
}

/// A floating window whose tree has no panels is asked to close, and no other is.
pub proof fn only_an_empty_window_closes(docks: DocksModel, area: u64, i: int)
    ensures
        hosts(docks.windows, area, i) && docks.windows[i].tree.vacant() ==> docks.closed_if_empty(
            area,
        ) == (DocksModel { closes: docks.closes.push(docks.windows[i].window), ..docks }),
        hosts(docks.windows, area, i) && !docks.windows[i].tree.vacant() ==> docks.closed_if_empty(
            area,
        ) == docks,
        hosted_nowhere(docks.windows, area) ==> docks.closed_if_empty(area) == docks,
{
    host_found(docks.windows, area);
}

/// A torn-off panel leaves its tree, whose dock is flagged and closed where it
/// emptied, and waits alone for the window that was asked for.
pub proof fn torn_off_panel_waits_alone(
    docks: DocksModel,
    panel: Seq<char>,
    area: u64,
    position: Option<(i32, i32)>,
    size: (u32, u32),
    grab: bool,
)
    ensures
        ({
            let tree = docks.tree_of(area).without_panel(panel);
            let left = docks.with_tree(area, tree).flagged(area).closed_if_empty(area);
            docks.torn_off(panel, area, position, size, grab) == (DocksModel {
                requests: left.requests.push(
                    RequestModel {
                        tree: Layout::Leaf { tabs: seq![panel], active: 0 },
                        position,
                        size,
                        grab,
                    },
                ),
                ..left
            })
        }),
{
}

/// A closed tab leaves its tree, whose dock is flagged and closed where it
/// emptied; a tab that is not there changes nothing.
pub proof fn closed_tab_leaves(docks: DocksModel, area: u64, panel: Seq<char>)
    ensures
        docks.tree_of(area).panels().contains(panel) ==> docks.tab_closed(area, panel)
            == docks.with_tree(area, docks.tree_of(area).without_panel(panel)).flagged(
            area,
        ).closed_if_empty(area),
        !docks.tree_of(area).panels().contains(panel) ==> docks.tab_closed(area, panel) == docks,
{
    crate::dock::laws::present_is_collected(docks.tree_of(area), panel);
}

/// A picked panel is the last, visible tab beside its sibling, or the whole of an
/// empty area; and its dock is flagged.
pub proof fn picked_panel_joins_its_sibling(
    docks: DocksModel,
    area: u64,
    sibling: Seq<char>,
    panel: Seq<char>,
)
    ensures
        docks.picked(area, Some(sibling), panel) == docks.with_tree(
            area,
            docks.tree_of(area).tab_added(sibling, panel, None),
        ).flagged(area),
        docks.picked(area, None, panel) == docks.with_tree(
            area,
            Layout::Leaf { tabs: seq![panel], active: 0 },
        ).flagged(area),
{
}

/// A panel is visible where the primary dock, the fixed dock or some floating
/// window shows it; one that still waits for its window is not.
pub proof fn visible_in_some_dock(docks: DocksModel, panel: Seq<char>)
    ensures
        docks.shows(panel) <==> docks.primary.shown().contains(panel) || docks.fixed.shown().contains(
            panel,
        ) || exists|i: int|
            0 <= i < docks.windows.len() && (#[trigger] docks.windows[i]).tree.shown().contains(
                panel,
            ),
{
    crate::dock::laws::visible_is_present(docks.primary, panel);
    crate::dock::laws::visible_is_present(docks.fixed, panel);
    assert forall|i: int| 0 <= i < docks.windows.len() implies (
    #[trigger] docks.windows[i]).tree.shows(panel) == docks.windows[i].tree.shown().contains(
        panel,
    ) by {
        crate::dock::laws::visible_is_present(docks.windows[i].tree, panel);
    }
}

// ── Presses and drags ──

/// Whether `k` is the first pressed grip.
pub open spec fn first_grip(grips: Seq<GripProbe>, k: int) -> bool {
    0 <= k < grips.len() && grips[k].pressed && forall|j: int|
        0 <= j < k ==> !(#[trigger] grips[j]).pressed
}

/// Whether `k` is the first pressed tab.
pub open spec fn first_pressed(tabs: Seq<TabSite>, k: int) -> bool {
    0 <= k < tabs.len() && tabs[k].pressed && forall|j: int|
        0 <= j < k ==> !(#[trigger] tabs[j]).pressed
}

/// A press on a grip picks the whole leaf, by the tab it shows, or by its first
/// where that one is gone. It comes before a press on a tab.
pub proof fn grips_pick_the_leaf(
    grips: Seq<GripProbe>,
    tabs: Seq<TabSite>,
    leaves: Seq<LeafSite>,
    g: int,
    l: int,
)
    requires
        first_grip(grips, g),
        leaf_named(leaves, grips[g].leaf, l),
        leaves[l].tabs.len() > 0,
    ensures
        press_pick(grips, tabs, leaves) == Some(
            (
                if leaves[l].tabs.contains(leaves[l].active) {
                    leaves[l].active
                } else {
                    leaves[l].tabs[0]
                },
                grips[g].leaf,
                true,
            ),
        ),
{
    position_found(grips.map_values(|p: GripProbe| p.pressed), true, g);
    position_found(leaves.map_values(|s: LeafSite| s.leaf == grips[g].leaf), true, l);
}

/// With no grip pressed, the first pressed tab is picked, alone; with no tab
/// pressed either, nothing is.
pub proof fn tabs_are_picked_alone(
    grips: Seq<GripProbe>,
    tabs: Seq<TabSite>,
    leaves: Seq<LeafSite>,
    t: int,
)
    requires
        forall|k: int| 0 <= k < grips.len() ==> !(#[trigger] grips[k]).pressed,
    ensures
        first_pressed(tabs, t) ==> press_pick(grips, tabs, leaves) == Some(
            (tabs[t].id, tabs[t].leaf, false),
        ),
        (forall|k: int| 0 <= k < tabs.len() ==> !(#[trigger] tabs[k]).pressed) ==> press_pick(
            grips,
            tabs,
            leaves,
        ) is None,
{
    let flags = grips.map_values(|p: GripProbe| p.pressed);
    position_is_first(flags, true);
    if pressed_grip(grips) < grips.len() {
        assert(flags[pressed_grip(grips)]);
        assert(!grips[pressed_grip(grips)].pressed);
    }
    let down = tabs.map_values(|s: TabSite| s.pressed);
    position_is_first(down, true);
    if first_pressed(tabs, t) {
        position_found(down, true, t);
    }
    if pressed_tab(tabs) < tabs.len() {
        assert(down[pressed_tab(tabs)]);
        assert(tabs[pressed_tab(tabs)].pressed);
    }
}

/// A press that picked something starts a drag that has not moved yet, from the
/// leaf's own area, in the window that hosts it, at that window's cursor.
pub proof fn press_starts_where_it_is(
    grips: Seq<GripProbe>,
    tabs: Seq<TabSite>,
    leaves: Seq<LeafSite>,
    windows: Seq<WindowModel>,
    primary: Option<u64>,
    cursors: Seq<WindowCursor>,
    l: int,
    w: int,
)
    requires
        press_pick(grips, tabs, leaves) is Some,
        leaf_named(leaves, (press_pick(grips, tabs, leaves)->0).1, l),
    ensures
        ({
            let (id, leaf, group) = press_pick(grips, tabs, leaves)->0;
            let area = leaves[l].area;
            let drag = press_drag(grips, tabs, leaves, windows, primary, cursors);
            &&& drag matches Some(d) ==> {
                &&& d.id == id && d.leaf == leaf && d.group == group
                &&& d.source_area == area
                &&& !d.active && d.action is None
                &&& Some(d.start_cursor) == cursor_of(cursors, d.source_window)
                &&& hosts(windows, area, w) ==> d.source_window == windows[w].window
                &&& hosted_nowhere(windows, area) ==> Some(d.source_window) == primary
            }
            &&& hosts(windows, area, w) && cursor_of(cursors, windows[w].window) is Some
                ==> drag is Some
            &&& hosted_nowhere(windows, area) && primary is Some && cursor_of(
                cursors,
                primary->0,
            ) is Some ==> drag is Some
        }),
{
    let (id, leaf, group) = press_pick(grips, tabs, leaves)->0;
    position_found(leaves.map_values(|s: LeafSite| s.leaf == leaf), true, l);
    host_found(windows, leaves[l].area);
}

/// The cursor of a window is that of its first entry.
pub proof fn cursors_go_by_window(cursors: Seq<WindowCursor>, window: u64, k: int)
    ensures
        0 <= k < cursors.len() && cursors[k].window == window && (forall|j: int|
            0 <= j < k ==> (#[trigger] cursors[j]).window != window) ==> cursor_of(cursors, window)
            == cursors[k].cursor,
        (forall|j: int| 0 <= j < cursors.len() ==> (#[trigger] cursors[j]).window != window)
            ==> cursor_of(cursors, window) is None,
{
    let flags = cursors.map_values(|c: WindowCursor| c.window == window);
    position_is_first(flags, true);
    if 0 <= k < cursors.len() && cursors[k].window == window && (forall|j: int|
        0 <= j < k ==> (#[trigger] cursors[j]).window != window) {
        position_found(flags, true, k);
    }
    let i = crate::text::position(flags, true);
    if i < cursors.len() {
        assert(flags[i]);
        assert(cursors[i].window == window);
    }
}

/// A press becomes a drag once the cursor has moved more than 6 px. With control
/// held, that of a single panel tears it off. A group's drag is not published. A
/// drag goes on, and without a press nothing does.
pub proof fn presses_become_drags(drag: DragModel, moved: Scalar, control: bool)
    requires
        moved.bits <= 0x7F80_0000,
    ensures
        step_of(None, Some(moved), control) == DragStep::Wait,
        drag.active ==> step_of(Some(drag), Some(moved), control) == DragStep::Go && step_of(
            Some(drag),
            None,
            control,
        ) == DragStep::Go,
        !drag.active ==> {
            &&& step_of(Some(drag), None, control) == DragStep::Wait
            &&& moved.bits <= 0x40C0_0000 ==> step_of(Some(drag), Some(moved), control)
                == DragStep::Wait
            &&& moved.bits > 0x40C0_0000 && drag.group ==> step_of(
                Some(drag),
                Some(moved),
                control,
            ) == (DragStep::Start { publish: false })
            &&& moved.bits > 0x40C0_0000 && !drag.group && control ==> step_of(
                Some(drag),
                Some(moved),
                control,
            ) == DragStep::TearOff
            &&& moved.bits > 0x40C0_0000 && !drag.group && !control ==> step_of(
                Some(drag),
                Some(moved),
                control,
            ) == (DragStep::Start { publish: true })
        },
{
}

/// What a release does to the docks. A drop that was claimed, a press that never
/// moved and a drag over nothing do nothing. A single panel leaves the tree it
/// came from and is dropped where the drag points; a group takes its whole leaf
/// along. Both docks are then flagged, and the one it came from closed where it
/// emptied; within one dock only that one is flagged.
pub proof fn releases_move_what_was_dragged(
    docks: DocksModel,
    drag: DragModel,
    claim: bool,
    tabs: Option<Seq<Seq<char>>>,
)
    ensures
        claim || !drag.active || drag.action is None ==> docks.released(drag, claim, tabs) == docks,
        !claim && drag.active && drag.action is Some ==> {
            let action = drag.action->0;
            let source = drag.source_area;
            let target = match action {
                DropModel::Split { area, .. } => area,
                DropModel::RootSplit { area, .. } => area,
                DropModel::Tab { area, .. } => area,
            };
            let from = docks.tree_of(source);
            let out = docks.with_tree(source, from.without_panel(drag.id));
            let cut = docks.with_tree(source, from.without_leaf(drag.id));
            let moved = out.with_tree(target, out.tree_of(target).dropped(drag.id, action));
            let carried = cut.with_tree(
                target,
                cut.tree_of(target).leaf_dropped(from.leaf_of(drag.id)->0, action),
            );
            &&& drag.group && !from.panels().contains(drag.id) ==> docks.released(
                drag,
                claim,
                tabs,
            ) == docks
            &&& drag.group && from.panels().contains(drag.id) && source == target
                ==> docks.released(drag, claim, tabs) == carried.flagged(target)
            &&& drag.group && from.panels().contains(drag.id) && source != target
                ==> docks.released(drag, claim, tabs) == carried.flagged(target).flagged(
                source,
            ).closed_if_empty(source)
            &&& !drag.group && source != target ==> docks.released(drag, claim, tabs)
                == moved.flagged(target).flagged(source).closed_if_empty(source)
            &&& !drag.group && source == target && release_outcome(drag, claim, tabs)
                == ReleasedModel::Nothing ==> docks.released(drag, claim, tabs) == moved.flagged(
                target,
            )
            &&& !drag.group && source == target && release_outcome(drag, claim, tabs)
                != ReleasedModel::Nothing ==> docks.released(drag, claim, tabs) == moved
        },
{
    crate::dock::laws::present_is_collected(docks.tree_of(drag.source_area), drag.id);
}

/// What a release tells. A press on a tab that never moved switches to it. A tab
/// dropped among the tabs of its own leaf is put in its place there, without a
/// rebuild. All else is told by the trees alone.
pub proof fn releases_tell_what_to_repaint(
    drag: DragModel,
    claim: bool,
    tabs: Seq<Seq<char>>,
    rep: Seq<char>,
    before: Option<Seq<char>>,
)
    ensures
        release_outcome(drag, true, Some(tabs)) == ReleasedModel::Nothing,
        !drag.active && !drag.group ==> release_outcome(drag, false, Some(tabs))
            == (ReleasedModel::Switch { leaf: drag.leaf, id: drag.id }),
        !drag.active && drag.group ==> release_outcome(drag, false, Some(tabs))
            == ReleasedModel::Nothing,
        drag.active && drag.group ==> release_outcome(drag, false, Some(tabs))
            == ReleasedModel::Nothing,
        drag.active ==> release_outcome(drag, false, None) == ReleasedModel::Nothing,
        drag.active && !drag.group && drag.action == Some(
            DropModel::Tab { area: drag.source_area, rep, before },
        ) && tabs.contains(rep) ==> release_outcome(drag, false, Some(tabs))
            == (ReleasedModel::Reorder {
            leaf: drag.leaf,
            tabs: reordered_tabs(tabs, drag.id, before),
        }),
        drag.active && !(drag.action matches Some(DropModel::Tab { area, rep: r, .. }) && area
            == drag.source_area && tabs.contains(r)) ==> release_outcome(drag, false, Some(tabs))
            == ReleasedModel::Nothing,
{
}

// ── Focus ──

/// The cursor is where the last move left it; moves in windows that are gone do
/// not count.
pub proof fn last_move_counts(start: Option<Point>, moves: Seq<Option<Point>>, at: Point)
    ensures
        last_place(start, Seq::empty()) == start,
        last_place(start, moves.push(Some(at))) == Some(at),
        last_place(start, moves.push(None)) == last_place(start, moves),
        same_place(None, None),
        !same_place(Some(at), None) && !same_place(None, Some(at)),
{
    assert(moves.push(None).drop_last() =~= moves);
}

/// Two places are the same where both ways are.
pub proof fn places_go_by_both_ways(a: Point, b: Point)
    ensures
        same_place(Some(a), Some(b)) == (a.x.equal(b.x) && a.y.equal(b.y)),
{
}

/// The leaf of a panel is the first that has it among its tabs.
pub proof fn first_leaf_with_the_tab(leaves: Seq<LeafSite>, id: Seq<char>, l: int)
    ensures
        0 <= l < leaves.len() && leaves[l].tabs.contains(id) && (forall|j: int|
            0 <= j < l ==> !(#[trigger] leaves[j]).tabs.contains(id)) ==> leaf_with_tab(leaves, id)
            == l,
        (forall|j: int| 0 <= j < leaves.len() ==> !(#[trigger] leaves[j]).tabs.contains(id))
            ==> leaf_with_tab(leaves, id) == leaves.len(),
{
    let flags = leaves.map_values(|s: LeafSite| s.tabs.contains(id));
    position_is_first(flags, true);
    if 0 <= l < leaves.len() && leaves[l].tabs.contains(id) && (forall|j: int|
        0 <= j < l ==> !(#[trigger] leaves[j]).tabs.contains(id)) {
        position_found(flags, true, l);
    }
    let i = leaf_with_tab(leaves, id);
    if i < leaves.len() {
        assert(flags[i]);
        assert(leaves[i].tabs.contains(id));
    }
}

/// Every pane but the visible panel's is stale.
pub proof fn panes_of_others_are_stale(pane: PaneProbe, active: Seq<char>)
    ensures
        inactive(active)(pane) == (pane.id@ != active),
        Touch::Hovered.touched() && Touch::Pressed.touched() && !Touch::Idle.touched(),
{
}

// ── Dividers ──

/// Whether `k` is the first divider with a handle.
pub open spec fn divider_at(dividers: Seq<DividerSite>, handle: u64, k: int) -> bool {
    0 <= k < dividers.len() && dividers[k].handle == handle && forall|j: int|
        0 <= j < k ==> (#[trigger] dividers[j]).handle != handle
}

proof fn divider_found(dividers: Seq<DividerSite>, handle: u64, k: int)
    requires
        divider_at(dividers, handle, k),
    ensures
        divider_index(dividers, handle) == k,
{
    position_found(dividers.map_values(|d: DividerSite| d.handle == handle), true, k);
}

/// A drag resizes its own split, in range; but one that leaves less than 48 px
/// below the bottom divider of the dock, or of a bottom strip, snaps that region
/// away and ends, and the ratio it started from is kept for its return. The whole
/// dock's bottom is told by no panel, a strip by its own.
pub proof fn drags_resize_or_snap(
    drag: DividerDrag,
    dividers: Seq<DividerSite>,
    reach: Reach,
    k: int,
)
    requires
        divider_at(dividers, drag.handle, k),
        0 < reach.extent.bits <= 0x7F80_0000,
        reach.below.bits <= 0x7F80_0000,
    ensures
        ({
            let site = dividers[k];
            let (after, moved) = divider_move(Some(drag), dividers, Some(reach));
            let bottom = !site.horizontal && !site.floating && (site.path.len() == 0
                || site.strip is Some);
            &&& bottom && reach.below.bits < 0x4240_0000 ==> {
                &&& after is None
                &&& moved == (DividerMoveModel::Snap {
                    restore: Some(drag.start_ratio),
                    target: if site.path.len() == 0 {
                        None
                    } else {
                        site.strip
                    },
                })
            }
            &&& !(bottom && reach.below.bits < 0x4240_0000) ==> {
                &&& after == Some(drag)
                &&& moved == (DividerMoveModel::Resize {
                    handle: drag.handle,
                    ratio: clamped_ratio(reach.raw),
                })
            }
        }),
{
    divider_found(dividers, drag.handle, k);
}

/// A drag past the edge of the dock leaves less than nothing, and snaps too.
pub proof fn drags_past_the_edge_snap(
    drag: DividerDrag,
    dividers: Seq<DividerSite>,
    reach: Reach,
    k: int,
)
    requires
        divider_at(dividers, drag.handle, k),
        0 < reach.extent.bits <= 0x7F80_0000,
        0x8000_0000 <= reach.below.bits <= 0xFF80_0000,
        !dividers[k].horizontal,
        !dividers[k].floating,
        dividers[k].path.len() == 0 || dividers[k].strip is Some,
    ensures
        divider_move(Some(drag), dividers, Some(reach)).0 is None,
        divider_move(Some(drag), dividers, Some(reach)).1 is Snap,
{
    divider_found(dividers, drag.handle, k);
}

/// A drag whose divider is gone ends. One without a known reach, or over a split
/// without an extent, waits. Without a drag nothing moves.
pub proof fn lost_dividers_end_their_drag(
    drag: DividerDrag,
    dividers: Seq<DividerSite>,
    reach: Reach,
    k: int,
)
    ensures
        divider_move(None, dividers, Some(reach)) == (
            None::<DividerDrag>,
            DividerMoveModel::Nothing,
        ),
        (forall|j: int| 0 <= j < dividers.len() ==> (#[trigger] dividers[j]).handle != drag.handle)
            ==> divider_move(Some(drag), dividers, Some(reach)) == (
            None::<DividerDrag>,
            DividerMoveModel::Nothing,
        ),
        divider_at(dividers, drag.handle, k) ==> divider_move(Some(drag), dividers, None) == (
            Some(drag),
            DividerMoveModel::Nothing,
        ),
        divider_at(dividers, drag.handle, k) && (reach.extent.bits == 0 || 0x8000_0000
            <= reach.extent.bits <= 0xFF80_0000) ==> divider_move(
            Some(drag),
            dividers,
            Some(reach),
        ) == (Some(drag), DividerMoveModel::Nothing),
{
    let flags = dividers.map_values(|d: DividerSite| d.handle == drag.handle);
    position_is_first(flags, true);
    let i = divider_index(dividers, drag.handle);
    if i < dividers.len() {
        assert(flags[i]);
        assert(dividers[i].handle == drag.handle);
    }
    if divider_at(dividers, drag.handle, k) {
        divider_found(dividers, drag.handle, k);
    }
}

/// What was resized on the screen is resized in the tree of the divider's own
/// area, at its own path; what snaps, or does not move, leaves the trees.
pub proof fn resizes_reach_the_tree(
    docks: DocksModel,
    dividers: Seq<DividerSite>,
    handle: u64,
    ratio: Scalar,
    restore: Option<Scalar>,
    target: Option<Seq<char>>,
    k: int,
)
    requires
        divider_at(dividers, handle, k),
    ensures
        docks.resized(DividerMoveModel::Resize { handle, ratio }, dividers) == docks.with_tree(
            dividers[k].area,
            docks.tree_of(dividers[k].area).ratio_set(dividers[k].path, ratio),
        ),
        docks.resized(DividerMoveModel::Nothing, dividers) == docks,
        docks.resized(DividerMoveModel::Snap { restore, target }, dividers) == docks,
{
    divider_found(dividers, handle, k);
}

/// Whether `k` is the first divider of a docked area that moves up and down, at a
/// path.
pub open spec fn grab_at(dividers: Seq<DividerSite>, path: Seq<bool>, k: int) -> bool {
    &&& 0 <= k < dividers.len()
    &&& !dividers[k].floating && !dividers[k].horizontal && dividers[k].path == path
    &&& forall|j: int|
        0 <= j < k ==> (#[trigger] dividers[j]).floating || dividers[j].horizontal
            || dividers[j].path != path
}

/// A release ends the drag and forgets a grab. A drag goes on while there is one.
/// Else, with the button held, a divider that was asked for is taken up as soon as
/// it is there; and a press takes up the first divider pressed. Either starts
/// from the cursor and from the share laid out, or from a half.
pub proof fn dividers_are_latched(
    drag: Option<DividerDrag>,
    grab: Option<Seq<bool>>,
    pointer: Pointer,
    dividers: Seq<DividerSite>,
    k: int,
)
    ensures
        pointer.just_released && !pointer.held && !pointer.just_pressed ==> latched(
            drag,
            grab,
            pointer,
            dividers,
        ) == (None::<DividerDrag>, None::<Seq<bool>>),
        !pointer.just_released && drag is Some ==> latched(drag, grab, pointer, dividers) == (
            drag,
            grab,
        ),
        !pointer.just_released && pointer.cursor is None ==> latched(
            drag,
            grab,
            pointer,
            dividers,
        ) == (drag, grab),
        !pointer.just_released && drag is None && grab is None && !pointer.just_pressed ==> latched(
            drag,
            grab,
            pointer,
            dividers,
        ) == (drag, grab),
        !pointer.just_released && drag is None && pointer.cursor is Some && pointer.held
            && grab is Some && grab_at(dividers, grab->0, k) ==> latched(
            drag,
            grab,
            pointer,
            dividers,
        ) == (
            Some(
                DividerDrag {
                    handle: dividers[k].handle,
                    start_cursor: pointer.cursor->0,
                    start_ratio: match dividers[k].share {
                        Some(share) => share,
                        None => Scalar { bits: 0x3F00_0000 },
                    },
                },
            ),
            None::<Seq<bool>>,
        ),
        !pointer.just_released && drag is None && grab is None && pointer.cursor is Some
            && pointer.just_pressed && 0 <= k < dividers.len() && dividers[k].pressed && (forall|
            j: int,
        |
            0 <= j < k ==> !(#[trigger] dividers[j]).pressed) ==> latched(
            drag,
            grab,
            pointer,
            dividers,
        ) == (
            Some(
                DividerDrag {
                    handle: dividers[k].handle,
                    start_cursor: pointer.cursor->0,
                    start_ratio: match dividers[k].share {
                        Some(share) => share,
                        None => Scalar { bits: 0x3F00_0000 },
                    },
                },
            ),
            None::<Seq<bool>>,
        ),
{
    if grab is Some && grab_at(dividers, grab->0, k) {
        let path = grab->0;
        position_found(
            dividers.map_values(|d: DividerSite| !d.floating && !d.horizontal && d.path == path),
            true,
            k,
        );
    }
    if 0 <= k < dividers.len() && dividers[k].pressed && (forall|j: int|
        0 <= j < k ==> !(#[trigger] dividers[j]).pressed) {
        position_found(dividers.map_values(|d: DividerSite| d.pressed), true, k);
    }
}

/// A bar stands on a divider exactly below a split that is stacked.
pub proof fn bars_stand_on_dividers_below(seat: ParentSplit)
    ensures
        seat.bar_on_divider() == (!seat.horizontal && seat.is_second),
{
}

/// The last chevron pressed says which strip collapses.
pub proof fn last_chevron_counts(buttons: Seq<CollapseProbe>, button: CollapseProbe)
    ensures
        collapse_target(Seq::empty()) is None,
        button.pressed ==> collapse_target(buttons.push(button)) == Some(
            option_text(button.target),
        ),
        !button.pressed ==> collapse_target(buttons.push(button)) == collapse_target(buttons),
{
    assert(buttons.push(button).drop_last() =~= buttons);
}

// ── Windows ──

/// A requested window is opened last, with its tree, to be built; windows are
/// opened once there are fonts and no splash is up.
pub proof fn windows_open_as_requested(
    docks: DocksModel,
    request: RequestModel,
    ids: (u64, u64, u64, u64),
)
    ensures
        docks.opened(request, ids.0, ids.1, ids.2, ids.3) == (DocksModel {
            windows: docks.windows.push(
                WindowModel {
                    window: ids.0,
                    camera: ids.1,
                    root: ids.2,
                    area: ids.3,
                    tree: request.tree,
                    dirty: true,
                },
            ),
            ..docks
        }),
        docks.may_open(true, None) && docks.may_open(true, Some(true)),
        !docks.may_open(true, Some(false)) && !docks.may_open(false, None) && !docks.may_open(
            false,
            Some(true),
        ),
{
}

/// A window that is taken up by its bar is held where it was pressed, or 60 px
/// across and 13 px down, over nothing yet.
pub proof fn windows_are_taken_up_over_nothing(window: u64, grab: Point, redock: bool)
    ensures
        fresh_float(window, grab, redock) == (FloatModel {
            window,
            grab,
            redock,
            action: None,
            shown_overlay: None,
        }),
        default_grab() == (Point {
            x: Scalar { bits: 0x4270_0000 },
            y: Scalar { bits: 0x4150_0000 },
        }),
{
}

/// A window that is docked again gives its first panel to the tree it was dropped
/// on, which is flagged, and is asked to close.
pub proof fn redocked_window_gives_its_first(
    docks: DocksModel,
    window: u64,
    action: DropModel,
    i: int,
)
    requires
        window_at(docks.windows, window, i),
        docks.windows[i].tree.panels().len() > 0,
    ensures
        ({
            let w = docks.windows[i];
            let panel = w.tree.panels()[0];
            let target = match action {
                DropModel::Split { area, .. } => area,
                DropModel::RootSplit { area, .. } => area,
                DropModel::Tab { area, .. } => area,
            };
            let out = DocksModel {
                windows: docks.windows.update(
                    i,
                    WindowModel { tree: w.tree.without_panel(panel), ..w },
                ),
                ..docks
            };
            let docked = out.with_tree(target, out.tree_of(target).dropped(panel, action)).flagged(
                target,
            );
            docks.redocked(window, action) == (DocksModel {
                closes: docked.closes.push(window),
                ..docked
            })
        }),
{
    window_found(docks.windows, window);
}

/// A window that is closed goes, its panels are rescued into the primary dock,
/// which is flagged where one of them was missing there; one that is not among
/// them changes nothing.
pub proof fn closed_window_gives_its_panels(docks: DocksModel, window: u64, i: int)
    ensures
        window_at(docks.windows, window, i) ==> {
            let panels = docks.windows[i].tree.panels();
            let after = docks.closed_one(window);
            &&& after.primary == docks.primary.rescued(panels)
            &&& after.primary_dirty == (docks.primary_dirty || exists|k: int|
                0 <= k < panels.len() && !docks.primary.panels().contains(#[trigger] panels[k]))
            &&& after.windows.len() == docks.windows.len() - 1
            &&& after.fixed == docks.fixed && after.fixed_area == docks.fixed_area
                && after.fixed_dirty == docks.fixed_dirty
            &&& after.requests == docks.requests && after.closes == docks.closes
            &&& forall|k: int|
                0 <= k < docks.windows.len() && k != i ==> after.windows.contains(
                    #[trigger] docks.windows[k],
                )
        },
        (forall|k: int|
            0 <= k < docks.windows.len() ==> (#[trigger] docks.windows[k]).window != window)
            ==> docks.closed_one(window) == docks,
{
    window_found(docks.windows, window);
    if window_at(docks.windows, window, i) {
        let panels = docks.windows[i].tree.panels();
        let after = docks.closed_one(window);
        let last = docks.windows.len() - 1;
        assert forall|k: int| 0 <= k < docks.windows.len() && k != i implies after.windows.contains(
            #[trigger] docks.windows[k],
        ) by {
            if k == last {
                assert(after.windows[i] == docks.windows[k]);
            } else {
                assert(after.windows[k] == docks.windows[k]);
            }
        }
        assert forall|k: int| 0 <= k < panels.len() implies docks.primary.holds(
            #[trigger] panels[k],
        ) == docks.primary.panels().contains(panels[k]) by {
            crate::dock::laws::present_is_collected(docks.primary, panels[k]);
        }
    }
}

/// Panels are rescued in order, and one that is there already is left where it is.
pub proof fn rescuing_goes_in_order(t: Layout, panels: Seq<Seq<char>>, panel: Seq<char>)
    ensures
        t.rescued(Seq::empty()) == t,
        t.rescued(panels).panels().contains(panel) ==> t.rescued(panels.push(panel)) == t.rescued(
            panels,
        ),
        !t.rescued(panels).panels().contains(panel) ==> t.rescued(panels.push(panel)) == t.rescued(
            panels,
        ).adopted(panel),
{
    assert(panels.push(panel).drop_last() =~= panels);
    crate::dock::laws::present_is_collected(t.rescued(panels), panel);
}

/// Windows are closed one after another, and each one that is closed is told with
/// its camera and root.
pub proof fn closing_goes_in_order(docks: DocksModel, list: Seq<u64>, window: u64, i: int)
    ensures
        docks.closed_all(Seq::empty()) == docks,
        docks.closed_parts(Seq::empty()).len() == 0,
        docks.closed_all(list.push(window)) == docks.closed_all(list).closed_one(window),
        window_at(docks.closed_all(list).windows, window, i) ==> {
            let w = docks.closed_all(list).windows[i];
            docks.closed_parts(list.push(window)) == docks.closed_parts(list).push(
                ClosedWindow { window: w.window, camera: w.camera, root: w.root },
            )
        },
        (forall|k: int|
            0 <= k < docks.closed_all(list).windows.len() ==> (
            #[trigger] docks.closed_all(list).windows[k]).window != window) ==> docks.closed_parts(
            list.push(window),
        ) == docks.closed_parts(list),
{
    assert(list.push(window).drop_last() =~= list);
    window_found(docks.closed_all(list).windows, window);
}

/// What closes in a sweep: every window that was queued, that the system asked to
/// close and is one of the floating ones, that was despawned, or that is a
/// floating one and not alive; and no other.
pub proof fn sweeps_close_all_that_must(
    docks: DocksModel,
    os_closes: Seq<u64>,
    removed: Seq<u64>,
    alive: Seq<u64>,
    window: u64,
)
    ensures
        close_list(docks, os_closes, removed, alive).contains(window) <==> {
            let floating = exists|k: int|
                0 <= k < docks.windows.len() && (#[trigger] docks.windows[k]).window == window;
            docks.closes.contains(window) || (os_closes.contains(window) && floating)
                || removed.contains(window) || (floating && !alive.contains(window))
        },
{
    let names = docks.windows.map_values(|w: WindowModel| w.window);
    let asked = os_closes.filter(ours(docks.windows));
    let dead = names.filter(gone(alive));
    let list = close_list(docks, os_closes, removed, alive);
    let floating = exists|k: int|
        0 <= k < docks.windows.len() && (#[trigger] docks.windows[k]).window == window;
    window_found(docks.windows, window);
    assert(names.contains(window) <==> floating) by {
        if floating {
            let k = choose|k: int|
                0 <= k < docks.windows.len() && (#[trigger] docks.windows[k]).window == window;
            assert(names[k] == window);
        }
        if names.contains(window) {
            let k = choose|k: int| 0 <= k < names.len() && names[k] == window;
            assert(docks.windows[k].window == window);
        }
    }
    filter_holds(os_closes, ours(docks.windows), window);
    filter_holds(names, gone(alive), window);
    in_four(docks.closes, asked, removed, dead, window);
    assert(list == docks.closes + asked + removed + dead);
}

proof fn filter_holds<T>(list: Seq<T>, pass: spec_fn(T) -> bool, item: T)
    ensures
        list.filter(pass).contains(item) <==> list.contains(item) && pass(item),
{
    if list.contains(item) && pass(item) {
        crate::dock::windows::filter_finds(list, pass, item);
    }
    if list.filter(pass).contains(item) {
        let kept = list.filter(pass);
        let k = choose|k: int| 0 <= k < kept.len() && kept[k] == item;
        list.lemma_filter_pred(pass, k);
        list.lemma_filter_contains_rev(pass, item);
    }
}

proof fn in_four<T>(a: Seq<T>, b: Seq<T>, c: Seq<T>, d: Seq<T>, x: T)
    ensures
        (a + b + c + d).contains(x) <==> a.contains(x) || b.contains(x) || c.contains(x)
            || d.contains(x),
{
    let all = a + b + c + d;
    if a.contains(x) {
        let k = choose|k: int| 0 <= k < a.len() && a[k] == x;
        assert(all[k] == x);
    }
    if b.contains(x) {
        let k = choose|k: int| 0 <= k < b.len() && b[k] == x;
        assert(all[a.len() + k] == x);
    }
    if c.contains(x) {
        let k = choose|k: int| 0 <= k < c.len() && c[k] == x;
        assert(all[a.len() + b.len() + k] == x);
    }
    if d.contains(x) {
        let k = choose|k: int| 0 <= k < d.len() && d[k] == x;
        assert(all[a.len() + b.len() + c.len() + k] == x);
    }
    if all.contains(x) {
        let k = choose|k: int| 0 <= k < all.len() && all[k] == x;
        if k < a.len() {
            assert(a[k] == x);
        } else if k < a.len() + b.len() {
            assert(b[k - a.len()] == x);
        } else if k < a.len() + b.len() + c.len() {
            assert(c[k - a.len() - b.len()] == x);
        } else {
            assert(d[k - a.len() - b.len() - c.len()] == x);
        }
    }
}

/// A sweep closes that list and empties the queue; where the primary window was
/// despawned, every floating window that is left goes with it.
pub proof fn sweeps_follow_the_primary(
    docks: DocksModel,
    os_closes: Seq<u64>,
    removed: Seq<u64>,
    alive: Seq<u64>,
    primary: Option<u64>,
)
    ensures
        ({
            let list = close_list(docks, os_closes, removed, alive);
            let base = DocksModel { closes: Seq::empty(), ..docks };
            let lost = primary is Some && removed.contains(primary->0);
            &&& !lost ==> docks.swept(os_closes, removed, alive, primary) == base.closed_all(list)
                && docks.swept_parts(os_closes, removed, alive, primary) == base.closed_parts(list)
            &&& lost ==> docks.swept(os_closes, removed, alive, primary) == (DocksModel {
                windows: Seq::empty(),
                ..base.closed_all(list)
            }) && docks.swept_parts(os_closes, removed, alive, primary) == base.closed_parts(list)
                + base.closed_all(list).windows.map_values(
                |w: WindowModel|
                    ClosedWindow { window: w.window, camera: w.camera, root: w.root },
            )
        }),
{
    let list = close_list(docks, os_closes, removed, alive);
    let base = DocksModel { closes: Seq::empty(), ..docks };
    let left = base.closed_all(list).windows;
    assert(left.map_values(|w: WindowModel| parts(w)) =~= left.map_values(
        |w: WindowModel| ClosedWindow { window: w.window, camera: w.camera, root: w.root },
    ));
}

/// The cameras that go are those whose window is not alive.
pub proof fn cameras_of_dead_windows_go(
    cameras: Seq<(u64, u64)>,
    alive: Seq<u64>,
    camera: (u64, u64),
)
    ensures
        stray_cameras(cameras, alive).contains(camera) <==> cameras.contains(camera)
            && !alive.contains(camera.1),
{
    filter_holds(cameras, stray(alive), camera);
}

} // verus!
