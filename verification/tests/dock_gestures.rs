//! Dock gestures: drops, drags, dividers, floating windows, rebuilds, titles
//! and the picker.

use renzora::dock::divider::{
    BottomSnapRequest, CollapseProbe, DividerDrag, DividerMove, DividerProbe, DraggedDivider,
    GrabRootDivider, ParentSplit, Pointer, Reach,
};
use renzora::dock::docks::{
    area_window, panel_active, panel_visible_anywhere, Dock, DockDirty, DockWindowCloseRequests,
    DockWindowRequest, DockWindowRequests, DockWindowState, DockWindows, Docks, FixedDock,
};
use renzora::dock::drag::{
    DockDragWatch, DragStep, GripProbe, Released, TabDrag, TabDragState, WindowCursor,
};
use renzora::dock::drop::{insert_action, insert_leaf_action, reordered, DropAction};
use renzora::dock::focus::{
    grip_shown, stale_panes, tab_look, FocusPanelRequest, FocusedPanel, PaneProbe, PendingSwitch,
    TabLook, Touch,
};
use renzora::dock::layout::DropZone;
use renzora::dock::picker::{picker_entries, PanelInfo};
use renzora::dock::plan::{
    build_tree, plan_leaf, preserve_contents, AreaNode, OldLeaf, Plan, Preserved, TreeSource,
};
use renzora::dock::resize::{resize_zones, Extent, Octant, ResizeCursor};
use renzora::dock::target::{
    pick_root_zone, pick_zone, resolve_across_windows, resolve_in_window, resolve_redock,
    root_zone_rect, switch_shown, zone_rect, AreaProbe, BarProbe, LeafProbe, PercentRect, RootProbe,
    TabProbe,
};
use renzora::dock::title::{
    category_slug, float_title, ghost_title, humanize, lead_panel, tab_meta,
};
use renzora::dock::tree::DockTree;
use renzora::dock::windows::{guard_target_cameras, FloatDrag};
use renzora::scalar::{Point, Scalar};

fn num(x: f32) -> Scalar {
    Scalar { bits: x.to_bits() }
}

fn at(x: f32, y: f32) -> Point {
    Point { x: num(x), y: num(y) }
}

fn leaf(id: &str) -> DockTree {
    DockTree::leaf(id.to_string())
}

fn panels(tree: &DockTree) -> Vec<String> {
    let mut out = Vec::new();
    tree.collect_panels(&mut out);
    out
}

const PRIMARY: u64 = 100;
const FIXED: u64 = 101;
const FLOAT: u64 = 102;

fn window(window: u64, area: u64, tree: DockTree) -> DockWindowState {
    DockWindowState { window, camera: window + 1000, root: window + 2000, area, tree, dirty: false }
}

/// A primary dock with two leaves, a fixed one and a floating window.
fn docks() -> Docks {
    Docks {
        dock: Dock {
            tree: DockTree::horizontal(
                DockTree::tabs(&["viewport", "code"]),
                leaf("inspector"),
                num(0.7),
            ),
        },
        fixed: FixedDock { tree: leaf("console"), area: Some(FIXED), dirty: false },
        dirty: DockDirty(false),
        windows: DockWindows(vec![window(7, FLOAT, leaf("mixer"))]),
        requests: DockWindowRequests(Vec::new()),
        closes: DockWindowCloseRequests(Vec::new()),
    }
}

// ── Trees ──

#[test]
fn an_area_leads_to_its_own_tree() {
    let mut docks = docks();
    assert_eq!(panels(docks.area_tree_mut(FIXED)), vec!["console"]);
    assert_eq!(panels(docks.area_tree_mut(FLOAT)), vec!["mixer"]);
    assert_eq!(panels(docks.area_tree_mut(PRIMARY)), vec!["viewport", "code", "inspector"]);
    assert_eq!(area_window(FLOAT, &docks.windows, Some(1)), Some(7));
    assert_eq!(area_window(PRIMARY, &docks.windows, Some(1)), Some(1));
    docks.flag_area_dirty(FLOAT);
    assert!(docks.windows.0[0].dirty && !docks.dirty.0 && !docks.fixed.dirty);
    docks.flag_area_dirty(PRIMARY);
    assert!(docks.dirty.0);
    docks.track_fixed_dock_area(Some(55));
    assert_eq!(docks.fixed.area, Some(55));
    docks.forget_fixed_dock_area(FIXED);
    assert_eq!(docks.fixed.area, Some(55));
    docks.forget_fixed_dock_area(55);
    assert_eq!(docks.fixed.area, None);
    // With no fixed area, its old id leads to the primary dock.
    assert_eq!(panels(docks.area_tree_mut(55)), vec!["viewport", "code", "inspector"]);
}

#[test]
fn visible_panels_are_found_in_every_dock() {
    let docks = docks();
    let (dock, fixed, wins) = (Some(&docks.dock), Some(&docks.fixed), Some(&docks.windows));
    assert!(panel_visible_anywhere("viewport", dock, fixed, wins));
    assert!(!panel_visible_anywhere("code", dock, fixed, wins));
    assert!(panel_visible_anywhere("mixer", dock, fixed, wins));
    assert!(panel_visible_anywhere("console", dock, fixed, wins));
    assert!(!panel_visible_anywhere("mixer", dock, fixed, None));
    assert!(panel_active("viewport", dock, fixed, wins));
    assert!(!panel_active("code", dock, fixed, wins));
}

#[test]
fn opening_a_panel_shows_it() {
    let mut docks = docks();
    docks.open_or_focus_panel("code");
    assert!(docks.dock.tree.is_active_tab("code"));
    docks.open_or_focus_panel("profiler");
    assert!(docks.dock.tree.is_active_tab("profiler") && docks.dirty.0);
    docks.add_picked_panel(FIXED, Some("console"), "logs");
    assert_eq!(panels(&docks.fixed.tree), vec!["console", "logs"]);
    docks.switch_tab(FIXED, "console");
    assert!(docks.fixed.tree.is_active_tab("console"));
}

#[test]
fn closing_the_last_tab_of_a_window_closes_it() {
    let mut docks = docks();
    assert!(docks.close_tab(FLOAT, "mixer"));
    assert_eq!(docks.closes.0, vec![7]);
    assert!(!docks.close_tab(FLOAT, "mixer"));
    assert!(docks.close_tab(PRIMARY, "code"));
    assert!(docks.dirty.0);
    assert_eq!(panels(&docks.dock.tree), vec!["viewport", "inspector"]);
}

#[test]
fn a_torn_off_panel_waits_for_its_window() {
    let mut docks = docks();
    docks.tear_off_panel("code", PRIMARY, Some((3, 4)), (480, 640), true);
    assert!(!docks.dock.tree.contains_panel("code") && docks.dirty.0);
    let request = &docks.requests.0[0];
    assert_eq!(panels(&request.tree), vec!["code"]);
    assert_eq!((request.position, request.size, request.grab), (Some((3, 4)), (480, 640), true));
}

// ── Drops ──

fn split(rep: &str, zone: DropZone) -> DropAction {
    DropAction::Split { area: PRIMARY, rep: rep.to_string(), zone }
}

fn tab(rep: &str, before: Option<&str>) -> DropAction {
    DropAction::Tab { area: PRIMARY, rep: rep.to_string(), before: before.map(|b| b.to_string()) }
}

#[test]
fn a_drop_lands_where_it_points() {
    let mut tree = DockTree::tabs(&["a", "b"]);
    insert_action(&mut tree, "x", &tab("a", Some("b")));
    assert_eq!(panels(&tree), vec!["a", "x", "b"]);
    insert_action(&mut tree, "y", &split("a", DropZone::Right));
    assert_eq!(panels(&tree), vec!["a", "x", "b", "y"]);
    insert_action(&mut tree, "z", &DropAction::RootSplit { area: PRIMARY, zone: DropZone::Left });
    assert_eq!(panels(&tree), vec!["z", "a", "x", "b", "y"]);
    // A target that is gone: the panel is adopted, not lost.
    insert_action(&mut tree, "w", &tab("gone", None));
    assert!(tree.contains_panel("w"));
    let mut group = leaf("a");
    insert_leaf_action(&mut group, DockTree::tabs(&["p", "q"]), &split("gone", DropZone::Top));
    assert!(group.contains_panel("p") && group.contains_panel("q"));
    // Neither is one lost where the tree starts with nothing.
    let mut hollow = DockTree::horizontal(DockTree::Empty, leaf("a"), num(0.5));
    insert_action(&mut hollow, "b", &tab("gone", None));
    insert_leaf_action(&mut hollow, DockTree::tabs(&["c", "d"]), &split("gone", DropZone::Top));
    assert_eq!(panels(&hollow), vec!["a", "b", "c", "d"]);
}

#[test]
fn tabs_are_reordered_in_place() {
    let tabs: Vec<String> = ["a", "b", "c"].iter().map(|t| t.to_string()).collect();
    assert_eq!(reordered(&tabs, "c", Some("a")), vec!["c", "a", "b"]);
    assert_eq!(reordered(&tabs, "a", None), vec!["b", "c", "a"]);
    assert_eq!(reordered(&tabs, "b", Some("gone")), vec!["a", "c", "b"]);
}

// ── Targets ──

fn probe(x: f32, y: f32) -> RootProbe {
    RootProbe {
        x: num(x),
        y: num(y),
        width: num(1000.0),
        height: num(600.0),
        right: num(1000.0 - x),
        bottom: num(600.0 - y),
    }
}

#[test]
fn the_outer_quarters_of_a_leaf_split_it() {
    assert_eq!(pick_zone(num(0.24), num(0.1)), DropZone::Left);
    assert_eq!(pick_zone(num(0.76), num(0.1)), DropZone::Right);
    assert_eq!(pick_zone(num(0.25), num(0.24)), DropZone::Top);
    assert_eq!(pick_zone(num(0.5), num(0.8)), DropZone::Bottom);
    assert_eq!(pick_zone(num(0.5), num(0.5)), DropZone::Center);
    assert_eq!(zone_rect(DropZone::Right), PercentRect { left: 50, top: 0, width: 50, height: 100 });
    assert_eq!(
        root_zone_rect(DropZone::Bottom),
        PercentRect { left: 0, top: 80, width: 100, height: 20 }
    );
}

#[test]
fn root_edges_and_corners_are_narrow() {
    assert_eq!(pick_root_zone(probe(10.0, 300.0)), Some((DropZone::Left, false)));
    assert_eq!(pick_root_zone(probe(990.0, 300.0)), Some((DropZone::Right, false)));
    assert_eq!(pick_root_zone(probe(500.0, 560.0)), Some((DropZone::Bottom, false)));
    assert_eq!(pick_root_zone(probe(500.0, 5.0)), None);
    assert_eq!(pick_root_zone(probe(20.0, 30.0)), Some((DropZone::Left, true)));
    assert_eq!(pick_root_zone(probe(30.0, 20.0)), Some((DropZone::Top, true)));
    assert_eq!(pick_root_zone(probe(970.0, 590.0)), Some((DropZone::Bottom, true)));
    assert_eq!(pick_root_zone(probe(-1.0, 20.0)), None);
    assert_eq!(pick_root_zone(probe(1001.0, 20.0)), None);
}

fn area(over: bool, at: Option<RootProbe>) -> AreaProbe {
    AreaProbe { area: PRIMARY, over, probe: at, overlay: Some(900), floating: false }
}

fn leaf_probe(id: u64, tabs: &[&str], over: bool, at: Option<Point>) -> LeafProbe {
    LeafProbe {
        leaf: id,
        area: PRIMARY,
        overlay: id + 500,
        tabs: tabs.iter().map(|t| t.to_string()).collect(),
        active: tabs[0].to_string(),
        over,
        at,
    }
}

fn tab_probe(id: &str, leaf: u64, offset: Option<f32>) -> TabProbe {
    TabProbe { id: id.to_string(), leaf, marker: leaf + 700, pressed: false, offset: offset.map(num) }
}

#[test]
fn a_leaf_under_the_cursor_takes_the_drop() {
    let areas = vec![area(true, Some(probe(500.0, 300.0)))];
    let leaves = vec![
        leaf_probe(1, &["a", "b"], false, None),
        leaf_probe(2, &["c"], true, Some(at(0.9, 0.5))),
    ];
    let target = resolve_in_window(&areas, &vec![], &leaves, &vec![], "a", false, 1);
    assert!(
        matches!(&target.action, Some(DropAction::Split { rep, zone: DropZone::Right, .. }) if rep == "c")
    );
    assert_eq!(target.overlay, Some((502, DropZone::Right, false)));
    // A whole leaf cannot be dropped on itself.
    let onto_self = resolve_in_window(&areas, &vec![], &leaves, &vec![], "c", true, 2);
    assert!(onto_self.action.is_none() && onto_self.overlay.is_none());
    let across = resolve_across_windows(&leaves, PRIMARY, "a");
    assert!(matches!(&across.action, Some(DropAction::Split { rep, .. }) if rep == "c"));
    assert!(resolve_across_windows(&leaves, FIXED, "a").action.is_none());
}

#[test]
fn a_tab_bar_takes_tabs_and_a_corner_outranks_it() {
    let leaves = vec![leaf_probe(1, &["a"], true, Some(at(0.5, 0.0))), leaf_probe(2, &["x", "y"], false, None)];
    let bars = vec![BarProbe { leaf: 2, over: true }];
    let tabs = vec![tab_probe("x", 2, Some(-5.0)), tab_probe("y", 2, Some(-60.0))];
    let inside = vec![area(true, Some(probe(500.0, 300.0)))];
    let target = resolve_in_window(&inside, &bars, &leaves, &tabs, "a", false, 1);
    assert!(
        matches!(&target.action, Some(DropAction::Tab { before: Some(b), .. }) if b == "x")
    );
    let corner = vec![area(true, Some(probe(20.0, 30.0)))];
    let root = resolve_in_window(&corner, &bars, &leaves, &tabs, "a", false, 1);
    assert!(matches!(root.action, Some(DropAction::RootSplit { zone: DropZone::Left, .. })));
    assert_eq!(root.overlay, Some((900, DropZone::Left, true)));
    let redock = resolve_redock(&inside, &bars, &leaves);
    assert!(matches!(&redock.action, Some(DropAction::Tab { rep, .. }) if rep == "x" || rep == "y"));
    assert!(resolve_redock(&inside, &vec![], &leaves).action.is_none());
    let mut shown = Some(3);
    assert_eq!(switch_shown(&mut shown, Some(4)), Some(3));
    assert_eq!(switch_shown(&mut shown, Some(4)), None);
    assert_eq!(shown, Some(4));
}

// ── Tab drags ──

fn drag(id: &str, group: bool, active: bool, action: Option<DropAction>) -> TabDrag {
    TabDrag(Some(TabDragState {
        id: id.to_string(),
        leaf: 1,
        group,
        source_area: PRIMARY,
        source_window: 1,
        start_cursor: at(5.0, 5.0),
        active,
        action,
    }))
}

fn watch(claim: bool) -> DockDragWatch {
    DockDragWatch { dragging: Some("x".to_string()), claim }
}

#[test]
fn a_press_picks_up_a_tab_or_a_whole_leaf() {
    let leaves = vec![leaf_probe(1, &["viewport", "code"], false, None)];
    let mut tabs = vec![tab_probe("code", 1, None)];
    tabs[0].pressed = true;
    let cursors = vec![WindowCursor { window: 1, cursor: Some(at(5.0, 6.0)) }];
    let wins = DockWindows(Vec::new());
    let mut single = TabDrag(None);
    single.press(&vec![], &tabs, &leaves, &wins, Some(1), &cursors);
    let state = single.0.expect("picked up");
    assert_eq!((state.id.as_str(), state.group, state.source_area), ("code", false, PRIMARY));
    assert_eq!(state.start_cursor, at(5.0, 6.0));
    let grips = vec![GripProbe { leaf: 1, pressed: true }];
    let mut whole = TabDrag(None);
    whole.press(&grips, &tabs, &leaves, &wins, Some(1), &cursors);
    let state = whole.0.expect("picked up");
    assert_eq!((state.id.as_str(), state.group), ("viewport", true));
    let mut lost = TabDrag(None);
    lost.press(&grips, &tabs, &leaves, &wins, None, &cursors);
    assert!(lost.0.is_none());
}

#[test]
fn a_press_becomes_a_drag_past_the_threshold() {
    let mut held = drag("code", false, false, None);
    assert_eq!(held.step(Some(num(6.0)), false).0, DragStep::Wait);
    assert_eq!(held.step(None, false).0, DragStep::Wait);
    assert_eq!(held.step(Some(num(6.5)), false).0, DragStep::Start { publish: true });
    assert_eq!(held.step(Some(num(9.0)), false).0, DragStep::Go);
    let mut torn = drag("code", false, false, None);
    let (step, state) = torn.step(Some(num(7.0)), true);
    assert_eq!(step, DragStep::TearOff);
    assert_eq!(state.expect("handed over").id, "code");
    assert!(torn.0.is_none());
    let mut group = drag("code", true, false, None);
    assert_eq!(group.step(Some(num(7.0)), true).0, DragStep::Start { publish: false });
}

#[test]
fn a_release_moves_the_panel() {
    let mut docks = docks();
    let mut held = drag("code", false, true, Some(split("inspector", DropZone::Top)));
    let released = held.release(&mut docks, &mut watch(false), None);
    assert!(matches!(released, Released::Nothing));
    assert_eq!(panels(&docks.dock.tree), vec!["viewport", "code", "inspector"]);
    assert!(docks.dirty.0 && held.0.is_none());
    let DockTree::Split { second, .. } = &docks.dock.tree else {
        panic!("split");
    };
    assert_eq!(panels(second), vec!["code", "inspector"]);
}

#[test]
fn a_click_switches_a_claim_does_nothing_and_a_reorder_rebuilds_nothing() {
    let mut docks = docks();
    let mut click = drag("code", false, false, None);
    assert!(
        matches!(click.release(&mut docks, &mut watch(false), None), Released::Switch { leaf: 1, id } if id == "code")
    );
    let mut claimed = drag("code", false, true, Some(split("inspector", DropZone::Top)));
    let mut watching = watch(true);
    assert!(matches!(claimed.release(&mut docks, &mut watching, None), Released::Nothing));
    assert!(watching.dragging.is_none() && !watching.claim);
    assert_eq!(panels(&docks.dock.tree), vec!["viewport", "code", "inspector"]);
    let mut again = drag("code", false, true, Some(tab("viewport", Some("viewport"))));
    let tabs = vec!["viewport".to_string(), "code".to_string()];
    let released = again.release(&mut docks, &mut watch(false), Some(&tabs));
    assert!(
        matches!(released, Released::Reorder { leaf: 1, tabs } if tabs == ["code", "viewport"])
    );
    assert_eq!(panels(&docks.dock.tree), vec!["code", "viewport", "inspector"]);
    assert!(!docks.dirty.0);
}

#[test]
fn a_group_release_moves_the_whole_leaf() {
    let mut docks = docks();
    let mut held = drag("code", true, true, Some(split("inspector", DropZone::Bottom)));
    held.hover(Some(split("inspector", DropZone::Right)));
    held.release(&mut docks, &mut watch(false), None);
    assert_eq!(panels(&docks.dock.tree), vec!["inspector", "viewport", "code"]);
}

// ── Dividers ──

fn divider(path: &[bool], strip: Option<&str>) -> DividerProbe {
    DividerProbe {
        handle: 3,
        pressed: true,
        horizontal: false,
        path: path.to_vec(),
        area: PRIMARY,
        floating: false,
        strip: strip.map(|s| s.to_string()),
        share: Some(num(0.6)),
    }
}

fn pointer(just_pressed: bool, held: bool, just_released: bool) -> Pointer {
    Pointer { just_pressed, held, just_released, cursor: Some(at(1.0, 2.0)) }
}

#[test]
fn a_divider_follows_the_cursor_and_snaps_shut() {
    let mut docks = docks();
    docks.dock.tree = DockTree::vertical(leaf("viewport"), leaf("assets"), num(0.6));
    let dividers = vec![divider(&[], None)];
    let mut drag = DraggedDivider(None);
    let mut grab = GrabRootDivider(None);
    drag.latch(&mut grab, pointer(true, true, false), &dividers);
    assert_eq!(
        drag.0,
        Some(DividerDrag { handle: 3, start_cursor: at(1.0, 2.0), start_ratio: num(0.6) })
    );
    let reach = |raw: f32, below: f32| {
        Some(Reach { extent: num(1000.0), raw: num(raw), below: num(below) })
    };
    let moved = drag.resize(&mut docks, &dividers, reach(0.95, 50.0));
    assert!(matches!(moved, DividerMove::Resize { handle: 3, ratio } if ratio == num(0.9)));
    assert!(matches!(&docks.dock.tree, DockTree::Split { ratio, .. } if *ratio == num(0.9)));
    let snapped = drag.resize(&mut docks, &dividers, reach(0.96, 40.0));
    assert!(
        matches!(snapped, DividerMove::Snap(s) if s.restore == Some(num(0.6)) && s.target.is_none())
    );
    assert!(drag.0.is_none());
}

#[test]
fn a_nested_strip_snaps_by_its_panel() {
    let mut docks = docks();
    let strip = vec![divider(&[false], Some("assets"))];
    let mut drag = DraggedDivider(None);
    let mut grab = GrabRootDivider(Some(vec![false]));
    // A grab needs no press of its own, only the held button.
    drag.latch(&mut grab, pointer(false, true, false), &strip);
    assert!(drag.0.is_some() && grab.0.is_none());
    let reach = Some(Reach { extent: num(500.0), raw: num(0.99), below: num(5.0) });
    assert!(
        matches!(drag.resize(&mut docks, &strip, reach), DividerMove::Snap(s) if s.target.as_deref() == Some("assets"))
    );
    // Without a strip below, a nested divider never snaps.
    let plain = vec![divider(&[false], None)];
    drag.latch(&mut grab, pointer(true, true, false), &plain);
    assert!(matches!(drag.resize(&mut docks, &plain, reach), DividerMove::Resize { .. }));
    assert!(matches!(drag.resize(&mut docks, &plain, None), DividerMove::Nothing));
    drag.latch(&mut grab, pointer(false, false, true), &plain);
    assert!(drag.0.is_none());
    let mut request = BottomSnapRequest(None);
    request.collapse_clicked(&vec![CollapseProbe { pressed: false, target: None }]);
    assert!(request.0.is_none());
    request.collapse_clicked(&vec![CollapseProbe { pressed: true, target: Some("a".to_string()) }]);
    assert!(matches!(request.0, Some(s) if s.restore.is_none() && s.target.as_deref() == Some("a")));
}

// ── Floating windows ──

#[test]
fn a_requested_window_opens_and_follows_the_cursor() {
    let mut docks = docks();
    docks.requests.0.push(DockWindowRequest {
        tree: leaf("profiler"),
        position: None,
        size: (480, 640),
        grab: true,
    });
    assert!(docks.take_requests(false, None).is_empty());
    assert!(docks.take_requests(true, Some(false)).is_empty());
    let mut requests = docks.take_requests(true, Some(true));
    assert_eq!(requests.len(), 1);
    let mut drag = FloatDrag(None);
    docks.window_opened(&mut drag, requests.remove(0), 8, 9, 10, 11);
    assert_eq!(panels(docks.area_tree_mut(11)), vec!["profiler"]);
    let state = drag.0.as_ref().expect("grabbed");
    assert_eq!((state.window, state.grab, state.redock), (8, at(60.0, 13.0), false));
    // A tear-off does not dock where it is released.
    let over = DropAction::RootSplit { area: PRIMARY, zone: DropZone::Left };
    assert_eq!(drag.hover(Some(over), Some(900)), None);
    assert_eq!(drag.release(&mut docks), None);
    assert_eq!(docks.windows.0.len(), 2);
}

#[test]
fn a_window_dragged_by_its_bar_docks_again() {
    let mut docks = docks();
    let mut drag = FloatDrag(None);
    drag.bar_pressed(7, Some(at(4.0, 5.0)));
    assert_eq!(drag.0.as_ref().unwrap().grab, at(4.0, 5.0));
    assert_eq!(drag.hover(Some(tab("viewport", None)), Some(900)), None);
    assert_eq!(drag.hover(Some(tab("viewport", None)), Some(901)), Some(900));
    assert_eq!(drag.release(&mut docks), Some(901));
    assert_eq!(panels(&docks.dock.tree), vec!["viewport", "code", "mixer", "inspector"]);
    assert_eq!(docks.closes.0, vec![7]);
    let closed = docks.process_closes(&vec![], &vec![], &vec![1, 7], Some(1));
    assert_eq!(closed.len(), 1);
    assert_eq!((closed[0].window, closed[0].camera, closed[0].root), (7, 1007, 2007));
    assert!(docks.windows.0.is_empty() && docks.closes.0.is_empty());
}

#[test]
fn a_closed_window_gives_its_panels_back() {
    let mut docks = docks();
    let closed = docks.process_closes(&vec![7, 1], &vec![], &vec![1, 7], Some(1));
    assert_eq!(closed.len(), 1);
    assert!(docks.dock.tree.contains_panel("mixer") && docks.dirty.0);
    assert!(docks.close_window(7).is_none());
    docks.dock.tree = DockTree::vertical(DockTree::Empty, leaf("a"), num(0.5));
    docks.windows.0.push(window(9, 121, leaf("notes")));
    docks.process_closes(&vec![9], &vec![], &vec![1, 9], Some(1));
    assert_eq!(panels(&docks.dock.tree), vec!["a", "notes"]);
    // With the primary window gone, the rest go too.
    docks.windows.0.push(window(8, 120, leaf("graph")));
    let all = docks.process_closes(&vec![], &vec![1], &vec![8], Some(1));
    assert_eq!(all.len(), 1);
    assert!(docks.windows.0.is_empty());
    assert_eq!(guard_target_cameras(&vec![(5, 7), (6, 8)], &vec![8]), vec![(5, 7)]);
}

// ── Rebuilds ──

#[test]
fn a_rebuild_reuses_what_stays_visible() {
    let tree = DockTree::horizontal(DockTree::tabs(&["viewport", "code"]), leaf("assets"), num(0.7));
    let old = |area, active: &str, content, alive| OldLeaf {
        area,
        active: active.to_string(),
        content,
        alive,
    };
    let leaves = vec![
        old(PRIMARY, "viewport", 1, true),
        old(PRIMARY, "code", 2, true),
        old(FIXED, "assets", 3, true),
        old(PRIMARY, "assets", 4, false),
        old(PRIMARY, "assets", 5, true),
    ];
    let mut kept = preserve_contents(&leaves, PRIMARY, &tree);
    assert_eq!(
        kept.iter().map(|p| (p.id.as_str(), p.content)).collect::<Vec<_>>(),
        vec![("viewport", 1), ("assets", 5)]
    );
    let plan = build_tree(&tree, &vec!["assets".to_string()], false, true, None, vec![], &mut kept);
    assert!(kept.is_empty());
    let Plan::Split { row, ratio, path, first, second, .. } = plan else {
        panic!("split");
    };
    assert!(row && path.is_empty());
    assert_eq!(ratio, num(0.7));
    let (Plan::Leaf(a), Plan::Leaf(b)) = (*first, *second) else {
        panic!("leaves");
    };
    assert_eq!((a.active_id.as_str(), a.content), ("viewport", Some(1)));
    assert_eq!((b.active_id.as_str(), b.content), ("assets", Some(5)));
    let bar = a.bar.expect("a bar");
    assert!(bar.grip && !bar.pinned && bar.handle.is_none());
    assert_eq!(bar.tabs[0].title, "Viewport");
    assert!(bar.tabs[0].active && !bar.tabs[1].active);
}

#[test]
fn a_bar_under_its_divider_is_a_handle_and_floats_have_none() {
    let tabs = vec!["assets".to_string()];
    let below = Some(ParentSplit { horizontal: false, is_second: true, path: vec![true] });
    let mut none: Vec<Preserved> = Vec::new();
    let plan = plan_leaf(&tabs, 0, &tabs, false, false, &below, &mut none);
    let bar = plan.bar.expect("a bar");
    assert!(bar.pinned && !bar.grip);
    assert_eq!(bar.handle, Some((vec![true], Some("assets".to_string()))));
    assert_eq!(bar.chevron, Some(Some("assets".to_string())));
    assert!(plan_leaf(&tabs, 0, &tabs, true, true, &None, &mut none).bar.is_none());
}

#[test]
fn dirty_areas_are_rebuilt_once() {
    let mut docks = docks();
    docks.dirty.0 = true;
    docks.fixed.dirty = true;
    docks.windows.0[0].dirty = true;
    let areas = vec![
        AreaNode { area: FIXED, floating: false },
        AreaNode { area: PRIMARY, floating: false },
        AreaNode { area: FLOAT, floating: true },
    ];
    assert!(docks.take_rebuilds(false, &areas).is_empty());
    let rebuilds = docks.take_rebuilds(true, &areas);
    assert_eq!(rebuilds.iter().map(|r| r.area).collect::<Vec<_>>(), vec![PRIMARY, FIXED, FLOAT]);
    assert!(matches!(rebuilds[2].source, TreeSource::Window(0)));
    assert!(rebuilds[2].floating && !rebuilds[0].floating);
    assert!(docks.take_rebuilds(true, &areas).is_empty());
}

// ── Focus ──

#[test]
fn a_focus_request_switches_tabs() {
    let mut docks = docks();
    let leaves = vec![leaf_probe(1, &["viewport", "code"], true, None)];
    let mut request = FocusPanelRequest(Some("code".to_string()));
    let mut pending = PendingSwitch(None);
    let mut focused = FocusedPanel(None);
    request.apply(&mut pending, &mut focused, &leaves);
    assert!(request.0.is_none());
    assert_eq!(pending.0, Some((1, "code".to_string())));
    assert_eq!(pending.apply(&mut docks, &mut focused, &leaves), Some((1, "code".to_string())));
    assert!(docks.dock.tree.is_active_tab("code"));
    assert_eq!(focused.0.as_deref(), Some("code"));
    focused.pressed(&leaves);
    assert_eq!(focused.0.as_deref(), Some("viewport"));
    let pane = |pane, id: &str| PaneProbe { pane, id: id.to_string() };
    let panes = vec![pane(1, "code"), pane(2, "viewport")];
    assert_eq!(stale_panes(false, "code", &panes), vec![2]);
    assert!(stale_panes(true, "code", &panes).is_empty());
    assert_eq!(tab_look("code", Some("code"), Touch::Hovered), TabLook::Active);
    assert_eq!(tab_look("code", Some("viewport"), Touch::Hovered), TabLook::Hovered);
    assert_eq!(tab_look("code", None, Touch::Idle), TabLook::Inactive);
    assert!(grip_shown(Touch::Idle, Some(Touch::Pressed)));
    assert!(!grip_shown(Touch::Idle, None));
}

// ── Titles ──

#[test]
fn panel_ids_read_as_titles() {
    assert_eq!(humanize("asset_browser"), "Asset Browser");
    assert_eq!(humanize("scene-tree"), "Scene-tree");
    assert_eq!(humanize(""), "");
    // One letter can become two.
    assert_eq!(humanize("ßtraße"), "SStraße");
    assert_eq!(tab_meta("node_graph").0, "Node Graph");
    assert_eq!(ghost_title("assets", false, 12), "Assets");
    assert_eq!(ghost_title("assets", true, 1), "Assets");
    assert_eq!(ghost_title("assets", true, 12), "Assets +11");
    assert_eq!(float_title("assets", Some("My Assets")), "My Assets");
    assert_eq!(float_title("asset_store", None), "Asset Store");
    assert_eq!(lead_panel(&DockTree::tabs(&["assets", "code"])), "assets");
    assert_eq!(lead_panel(&DockTree::Empty), "panels");
    assert_eq!(category_slug("  Level ÉDITOR "), "level__ditor");
}

#[test]
fn the_picker_offers_missing_panels_by_title() {
    let info = |id: &str, title: &str, icon: &str, category: &str| PanelInfo {
        id: id.to_string(),
        title: title.to_string(),
        icon: icon.to_string(),
        category: category.to_string(),
    };
    let list = vec![
        info("c", "Zebra", "z", "Level Tools"),
        info("a", "Apple", "", ""),
        info("b", "Mango", "m", "X"),
        info("d", "Apple", "d", "X"),
    ];
    let entries = picker_entries(&list, &vec!["b".to_string()]);
    assert_eq!(entries.iter().map(|e| e.id.as_str()).collect::<Vec<_>>(), vec!["a", "d", "c"]);
    assert_eq!((entries[0].icon.as_str(), entries[0].category.as_str()), ("circle", "General"));
    assert_eq!(entries[0].slug, "general");
    assert_eq!(entries[2].slug, "level_tools");
}

// ── Resize zones ──

#[test]
fn every_side_and_corner_resizes() {
    let zones = resize_zones();
    assert_eq!(zones.len(), 8);
    assert_eq!(zones[0].octant, Octant::North);
    assert_eq!((zones[0].height, zones[0].width), (Extent::Px(num(5.0)), Extent::Full));
    assert_eq!(zones[0].left, Extent::Px(num(12.0)));
    let last = zones[7];
    assert_eq!((last.octant, last.cursor), (Octant::SouthEast, ResizeCursor::SouthEast));
    assert_eq!((last.right, last.bottom), (Extent::Px(num(0.0)), Extent::Px(num(0.0))));
    assert_eq!((last.width, last.height), (Extent::Px(num(12.0)), Extent::Px(num(12.0))));
}
