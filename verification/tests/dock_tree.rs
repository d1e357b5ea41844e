//! The dock tree.

use renzora::dock::divider::ParentSplit;
use renzora::dock::focus::GlobalCursor;
use renzora::dock::layout::{DropZone, SplitDirection};
use renzora::dock::tree::DockTree;
use renzora::scalar::{Point, Scalar};

fn num(x: f32) -> Scalar {
    Scalar { bits: x.to_bits() }
}

fn at(x: f32, y: f32) -> Point {
    Point { x: num(x), y: num(y) }
}

fn leaf(id: &str) -> DockTree {
    DockTree::leaf(id.to_string())
}

fn panels(tree: &DockTree) -> Vec<String> {
    let mut out = Vec::new();
    tree.collect_panels(&mut out);
    out
}

#[test]
fn cursor_bursts_publish_only_final_position_and_preserve_raw_messages() {
    let mut cursor = GlobalCursor { pos: None };
    // A window at (100, 200); the cursor is 5 left of it and 10 down.
    let moves = vec![Some(at(100.0 + -5.0, 200.0 + 10.0)); 1000];
    assert!(cursor.track(&moves));
    assert_eq!(cursor.pos, Some(at(95.0, 210.0)));
    assert_eq!(moves.len(), 1000);
    // Back to the same place, and one move in a window that is gone.
    assert!(!cursor.track(&vec![Some(at(100.0, 200.0)), Some(at(95.0, 210.0)), None]));
    // A second window at (300, 400).
    assert!(cursor.track(&vec![Some(at(300.0 + 1.0, 400.0))]));
    assert_eq!(cursor.pos, Some(at(301.0, 400.0)));
}

#[test]
fn cursor_stays_without_moves_and_treats_the_zeros_as_one() {
    let mut cursor = GlobalCursor { pos: Some(at(0.0, 1.0)) };
    assert!(!cursor.track(&vec![]));
    assert!(!cursor.track(&vec![None]));
    assert!(!cursor.track(&vec![Some(at(-0.0, 1.0))]));
    assert_eq!(cursor.pos, Some(at(0.0, 1.0)));
    assert!(cursor.track(&vec![Some(at(2.0, 1.0)), None]));
    assert_eq!(cursor.pos, Some(at(2.0, 1.0)));
}

#[test]
fn only_a_bar_under_its_divider_doubles_as_a_handle() {
    let split = |horizontal, is_second| ParentSplit { horizontal, is_second, path: Vec::new() };
    assert!(split(false, true).aligned());
    assert!(!split(false, false).aligned());
    assert!(!split(true, false).aligned());
    assert!(!split(true, true).aligned());
}

#[test]
fn detach_attach_bottom_round_trips() {
    let mut tree = DockTree::vertical(
        DockTree::tabs(&["viewport", "code"]),
        DockTree::tabs(&["assets", "console"]),
        num(0.72),
    );
    let (bottom, ratio) = tree.detach_bottom().expect("root vertical split");
    assert!(matches!(&tree, DockTree::Leaf { tabs, .. } if tabs == &["viewport", "code"]));
    assert!(matches!(&bottom, DockTree::Leaf { tabs, .. } if tabs == &["assets", "console"]));
    assert_eq!(ratio, num(0.72));

    tree.attach_bottom(bottom, ratio);
    let DockTree::Split { direction: SplitDirection::Vertical, ratio, second, .. } = &tree else {
        panic!("expected root vertical split after attach");
    };
    assert_eq!(*ratio, num(0.72));
    assert!(second.contains_panel("assets") && second.contains_panel("console"));
}

#[test]
fn detach_bottom_requires_vertical_root() {
    let mut tree = DockTree::horizontal(leaf("a"), leaf("b"), num(0.5));
    assert!(tree.detach_bottom().is_none());
    assert!(tree.contains_panel("a") && tree.contains_panel("b"));
}

#[test]
fn nested_bottom_detach_reattach_round_trips() {
    let mut tree = DockTree::horizontal(
        DockTree::vertical(
            leaf("viewport"),
            DockTree::tabs(&["assets", "console"]),
            num(0.7),
        ),
        leaf("inspector"),
        num(0.8),
    );
    let (bottom, ratio, anchor) =
        tree.detach_bottom_containing("assets").expect("nested bottom detaches");
    assert_eq!(ratio, num(0.7));
    assert_eq!(anchor, vec!["viewport".to_string()]);
    assert!(!tree.contains_panel("assets") && !tree.contains_panel("console"));
    assert!(matches!(&tree, DockTree::Split { direction: SplitDirection::Horizontal, .. }));

    let path = tree.attach_bottom_at(bottom, ratio, &anchor);
    assert_eq!(path, vec![false]);
    let DockTree::Split { direction: SplitDirection::Horizontal, first, .. } = &tree else {
        panic!("root should stay horizontal, not become a full-width vertical split");
    };
    let DockTree::Split { direction: SplitDirection::Vertical, second, .. } = &**first else {
        panic!("the viewport column should regain its bottom strip");
    };
    assert!(second.contains_panel("assets") && second.contains_panel("console"));
}

#[test]
fn attach_bottom_at_empty_anchor_is_full_width() {
    let mut tree = DockTree::horizontal(leaf("a"), leaf("b"), num(0.5));
    tree.attach_bottom_at(leaf("assets"), num(0.7), &[]);
    let DockTree::Split { direction: SplitDirection::Vertical, ratio, second, .. } = &tree else {
        panic!("empty anchor should attach a full-width root vertical split");
    };
    assert_eq!(*ratio, num(0.7));
    assert!(second.contains_panel("assets"));
}

#[test]
fn take_leaf_containing_moves_whole_leaf() {
    let mut tree = DockTree::horizontal(
        leaf("viewport"),
        DockTree::tabs(&["assets", "console", "mixer"]),
        num(0.7),
    );
    let taken = tree.take_leaf_containing("console").expect("leaf exists");
    assert!(
        matches!(&taken, DockTree::Leaf { tabs, .. } if tabs == &["assets", "console", "mixer"])
    );
    assert!(matches!(&tree, DockTree::Leaf { tabs, .. } if tabs == &["viewport"]));
    assert!(tree.take_leaf_containing("nonexistent").is_none());
}

#[test]
fn split_at_with_moves_group_intact() {
    let mut tree = DockTree::horizontal(
        leaf("viewport"),
        DockTree::tabs(&["hierarchy", "scenes", "shapes"]),
        num(0.7),
    );
    let group = tree.take_leaf_containing("scenes").expect("leaf exists");
    assert!(tree.split_at_with("viewport", group, DropZone::Bottom));
    let DockTree::Split { second, .. } = &tree else {
        panic!("expected split at root");
    };
    assert!(
        matches!(&**second, DockTree::Leaf { tabs, .. } if tabs == &["hierarchy", "scenes", "shapes"])
    );
    let group2 = DockTree::tabs(&["a", "b"]);
    assert!(!tree.split_at_with("viewport", group2, DropZone::Center));
}

#[test]
fn add_tabs_before_merges_group() {
    let mut tree = DockTree::tabs(&["viewport", "code"]);
    let dragged = ["hierarchy".to_string(), "scenes".to_string()];
    assert!(tree.add_tabs_before("viewport", &dragged, Some("code")));
    assert!(
        matches!(&tree, DockTree::Leaf { tabs, active_tab: 1, .. }
            if tabs == &["viewport", "hierarchy", "scenes", "code"])
    );
    assert!(!tree.add_tabs_before("nonexistent", &dragged, None));
}

#[test]
fn split_root_with_rails_group() {
    let mut tree = leaf("viewport");
    tree.split_root_with(DockTree::tabs(&["assets", "console"]), DropZone::Bottom);
    let DockTree::Split { direction: SplitDirection::Vertical, second, .. } = &tree else {
        panic!("expected root vertical split");
    };
    assert!(matches!(&**second, DockTree::Leaf { tabs, .. } if tabs == &["assets", "console"]));

    let mut center = leaf("viewport");
    center.split_root_with(DockTree::tabs(&["a", "b"]), DropZone::Center);
    assert!(center.contains_panel("a") && center.contains_panel("b"));
}

// ── Exact values ──

fn ratio_of(tree: &DockTree) -> Scalar {
    match tree {
        DockTree::Split { ratio, .. } => *ratio,
        _ => panic!("not a split"),
    }
}

#[test]
fn ratios_are_held_between_a_tenth_and_nine_tenths() {
    assert_eq!(ratio_of(&DockTree::horizontal(leaf("a"), leaf("b"), num(0.0))), num(0.1));
    assert_eq!(ratio_of(&DockTree::vertical(leaf("a"), leaf("b"), num(2.0))), num(0.9));
    assert_eq!(ratio_of(&DockTree::vertical(leaf("a"), leaf("b"), num(0.25))), num(0.25));
    let mut tree = DockTree::horizontal(
        leaf("a"),
        DockTree::vertical(leaf("b"), leaf("c"), num(0.5)),
        num(0.5),
    );
    tree.update_ratio(&[true], num(-1.0));
    let DockTree::Split { ratio, second, .. } = &tree else {
        panic!("split");
    };
    assert_eq!(*ratio, num(0.5));
    assert_eq!(ratio_of(second), num(0.1));
    tree.update_ratio(&[], num(0.4));
    assert_eq!(ratio_of(&tree), num(0.4));
    // A path that runs into a leaf changes nothing.
    tree.update_ratio(&[false], num(0.3));
    assert_eq!(ratio_of(&tree), num(0.4));
}

#[test]
fn a_root_edge_takes_a_fifth_and_a_split_takes_half() {
    let mut left = leaf("viewport");
    left.split_root("tools".to_string(), DropZone::Left);
    let DockTree::Split { direction, ratio, first, second } = &left else {
        panic!("split");
    };
    assert_eq!((*direction, *ratio), (SplitDirection::Horizontal, num(0.2)));
    assert_eq!((panels(first), panels(second)), (vec!["tools".to_string()], vec!["viewport".to_string()]));

    let mut right = leaf("viewport");
    right.split_root("tools".to_string(), DropZone::Right);
    assert_eq!(ratio_of(&right), num(1.0 - 0.2));

    let mut inner = leaf("viewport");
    assert!(inner.split_at("viewport", "code".to_string(), DropZone::Top));
    let DockTree::Split { direction, ratio, first, .. } = &inner else {
        panic!("split");
    };
    assert_eq!((*direction, *ratio), (SplitDirection::Vertical, num(0.5)));
    assert_eq!(panels(first), vec!["code".to_string()]);
    assert!(!inner.split_at("nowhere", "x".to_string(), DropZone::Top));
}

#[test]
fn an_empty_dock_takes_the_first_panel_whole() {
    let mut tree = DockTree::Empty;
    assert!(tree.is_empty());
    assert_eq!(tree.first_panel(), None);
    tree.adopt_panel("viewport");
    assert!(matches!(&tree, DockTree::Leaf { tabs, active_tab: 0 } if tabs == &["viewport"]));
    let mut other = DockTree::Empty;
    other.split_root("viewport".to_string(), DropZone::Left);
    assert!(matches!(&other, DockTree::Leaf { tabs, .. } if tabs == &["viewport"]));
    let mut third = DockTree::Empty;
    third.attach_bottom(leaf("console"), num(0.7));
    assert!(matches!(&third, DockTree::Leaf { tabs, .. } if tabs == &["console"]));
}

#[test]
fn removing_a_tab_keeps_the_others_and_collapses_an_emptied_split() {
    let mut tree =
        DockTree::horizontal(DockTree::tabs(&["a", "b", "c"]), leaf("d"), num(0.5));
    tree.set_active_tab("c");
    assert!(tree.is_active_tab("c"));
    assert!(tree.remove_panel("c"));
    assert_eq!(panels(&tree), vec!["a", "b", "d"]);
    assert!(tree.is_active_tab("b") || tree.is_active_tab("a"));
    assert!(tree.remove_panel("d"));
    assert!(matches!(&tree, DockTree::Leaf { tabs, .. } if tabs == &["a", "b"]));
    assert!(!tree.remove_panel("d"));
}

#[test]
fn retiring_panels_drops_them_everywhere() {
    let mut tree = DockTree::vertical(
        DockTree::tabs(&["a", "old", "b"]),
        DockTree::horizontal(leaf("old2"), leaf("c"), num(0.5)),
        num(0.5),
    );
    tree.retire_panels(&["old", "old2"]);
    assert_eq!(panels(&tree), vec!["a", "b", "c"]);
    tree.retire_panels(&["a", "b", "c"]);
    assert!(tree.is_empty());
}

#[test]
fn only_visible_tabs_are_active() {
    let tree = DockTree::horizontal(DockTree::tabs(&["a", "b"]), leaf("c"), num(0.5));
    let mut shown = Vec::new();
    tree.active_tab_ids(&mut shown);
    assert_eq!(shown, vec!["a", "c"]);
    assert!(!tree.is_active_tab("b"));
    assert!(tree.contains_panel("b"));
    assert!(!tree.contains_panel("z"));
}

#[test]
fn focusing_activates_or_adds() {
    let mut tree = DockTree::horizontal(DockTree::tabs(&["a", "b"]), leaf("c"), num(0.5));
    tree.focus_or_add_panel("b");
    assert!(tree.is_active_tab("b"));
    assert_eq!(panels(&tree), vec!["a", "b", "c"]);
    tree.focus_or_add_panel("d");
    assert!(tree.is_active_tab("d"));
    assert_eq!(panels(&tree), vec!["a", "b", "d", "c"]);
}

#[test]
fn a_panel_is_added_to_the_first_leaf_there_is() {
    let mut tree = DockTree::horizontal(DockTree::Empty, leaf("a"), num(0.5));
    assert!(tree.focus_or_add_panel("b"));
    let DockTree::Split { first, second, .. } = &tree else { panic!("a split stays one") };
    assert!(matches!(&**first, DockTree::Empty));
    assert!(
        matches!(&**second, DockTree::Leaf { tabs, active_tab: 1 } if tabs == &["a", "b"])
    );
    assert!(!tree.focus_or_add_panel("a"));
    assert!(tree.is_active_tab("a"));

    let mut adopted = DockTree::vertical(
        DockTree::horizontal(DockTree::Empty, DockTree::Empty, num(0.5)),
        leaf("a"),
        num(0.5),
    );
    adopted.adopt_panel("b");
    assert_eq!(panels(&adopted), vec!["a", "b"]);
    assert!(adopted.is_active_tab("b"));
}

#[test]
fn a_tree_without_a_leaf_becomes_the_adopted_panel() {
    let mut tree = DockTree::horizontal(DockTree::Empty, DockTree::Empty, num(0.5));
    assert!(!tree.focus_or_add_panel("a"));
    assert!(matches!(&tree, DockTree::Split { .. }));
    tree.adopt_panel("a");
    assert!(matches!(&tree, DockTree::Leaf { tabs, active_tab: 0 } if tabs == &["a"]));
    let mut center = DockTree::horizontal(DockTree::Empty, DockTree::Empty, num(0.5));
    center.split_root("a".to_string(), DropZone::Center);
    assert_eq!(panels(&center), vec!["a"]);
}

#[test]
fn a_tab_goes_before_the_one_named_or_last() {
    let mut tree = DockTree::tabs(&["a", "b"]);
    assert!(tree.add_tab_before("a", "x".to_string(), Some("b")));
    assert_eq!(panels(&tree), vec!["a", "x", "b"]);
    assert!(tree.add_tab("b", "y".to_string()));
    assert_eq!(panels(&tree), vec!["a", "x", "b", "y"]);
    assert!(tree.is_active_tab("y"));
    assert!(tree.add_tab_before("a", "z".to_string(), Some("nowhere")));
    assert_eq!(panels(&tree), vec!["a", "x", "b", "y", "z"]);
    assert!(!tree.add_tab("nowhere", "w".to_string()));
}

#[test]
fn a_leaf_can_be_found_and_edited_in_place() {
    let mut tree = DockTree::horizontal(leaf("a"), leaf("b"), num(0.5));
    *tree.find_leaf_mut("b").expect("there") = DockTree::tabs(&["x", "y"]);
    assert_eq!(panels(&tree), vec!["a", "x", "y"]);
    assert!(tree.find_leaf_mut("b").is_none());
    assert_eq!(tree.first_panel(), Some("a"));
}

#[test]
fn a_copy_of_a_tree_is_its_own() {
    let mut tree = DockTree::horizontal(leaf("a"), leaf("b"), num(0.5));
    let copy = tree.clone();
    assert!(tree.remove_panel("a"));
    assert_eq!(panels(&copy), vec!["a", "b"]);
    assert_eq!(panels(&tree), vec!["b"]);
}
