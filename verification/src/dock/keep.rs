//! No gesture loses a panel.

use vstd::prelude::*;

use crate::dock::docks::{host_index, DocksModel, WindowModel};
use crate::dock::drag::DragModel;
use crate::dock::drop::{
    counted, drop_loses_none, leaf_drop_loses_none, removing_keeps_others, DropModel,
};
use crate::dock::laws::{remove_takes_one, take_leaf_takes_its_tabs};
use crate::dock::layout::{single, Layout};
use crate::text::{position, position_is_first};

verus! {

/// An edit of one area's tree keeps every panel that the tree keeps, and a sound
/// tree in place of another keeps the docks sound.
pub proof fn editing_one_tree(docks: DocksModel, area: u64, tree: Layout, panel: Seq<char>)
    ensures
        docks.holds(panel) && (docks.tree_of(area).holds(panel) ==> tree.holds(panel))
            ==> docks.with_tree(area, tree).holds(panel),
        tree.holds(panel) ==> docks.with_tree(area, tree).holds(panel),
        docks.sound() && tree.sound() ==> docks.with_tree(area, tree).sound(),
        docks.with_tree(area, tree).tree_of(area) == tree,
{
    let after = docks.with_tree(area, tree);
    let areas = docks.windows.map_values(|w: WindowModel| w.area);
    position_is_first(areas, area);
    let h = host_index(docks.windows, area);
    if docks.is_floating(area) {
        assert(after.windows.map_values(|w: WindowModel| w.area) =~= areas);
        assert(after.windows[h].tree == tree);
    }
    if docks.holds(panel) && (docks.tree_of(area).holds(panel) ==> tree.holds(panel)) {
        if exists|i: int|
            0 <= i < docks.windows.len() && (#[trigger] docks.windows[i]).tree.holds(panel) {
            let i = choose|i: int|
                0 <= i < docks.windows.len() && (#[trigger] docks.windows[i]).tree.holds(panel);
            assert(after.windows[i].tree.holds(panel));
        } else if exists|i: int|
            0 <= i < docks.requests.len() && (#[trigger] docks.requests[i]).tree.holds(panel) {
            let i = choose|i: int|
                0 <= i < docks.requests.len() && (#[trigger] docks.requests[i]).tree.holds(panel);
            assert(after.requests[i].tree.holds(panel));
        }
    }
    if docks.sound() && tree.sound() {
        assert forall|i: int| 0 <= i < after.windows.len() implies (
        #[trigger] after.windows[i]).tree.sound() by {
            assert(docks.windows[i].tree.sound());
        }
    }
}

/// Flags and queued closes move no panel.
pub proof fn flagging_moves_nothing(docks: DocksModel, area: u64)
    ensures
        forall|p: Seq<char>| #[trigger] docks.flagged(area).holds(p) == docks.holds(p),
        docks.flagged(area).sound() == docks.sound(),
        forall|p: Seq<char>| #[trigger] docks.closed_if_empty(area).holds(p) == docks.holds(p),
        docks.closed_if_empty(area).sound() == docks.sound(),
{
    position_is_first(docks.windows.map_values(|w: WindowModel| w.area), area);
    let after = docks.flagged(area);
    assert(after.windows.len() == docks.windows.len());
    assert forall|i: int| 0 <= i < docks.windows.len() implies (#[trigger] after.windows[i]).tree
        == docks.windows[i].tree by {}
    assert forall|p: Seq<char>| #[trigger] after.holds(p) == docks.holds(p) by {
        if docks.holds(p) {
            if exists|i: int|
                0 <= i < docks.windows.len() && (#[trigger] docks.windows[i]).tree.holds(p) {
                let i = choose|i: int|
                    0 <= i < docks.windows.len() && (#[trigger] docks.windows[i]).tree.holds(p);
                assert(after.windows[i].tree.holds(p));
            }
        }
        if after.holds(p) {
            if exists|i: int|
                0 <= i < after.windows.len() && (#[trigger] after.windows[i]).tree.holds(p) {
                let i = choose|i: int|
                    0 <= i < after.windows.len() && (#[trigger] after.windows[i]).tree.holds(p);
                assert(docks.windows[i].tree.holds(p));
            }
        }
    }
    if docks.sound() {
        assert forall|i: int| 0 <= i < after.windows.len() implies (
        #[trigger] after.windows[i]).tree.sound() by {
            assert(docks.windows[i].tree.sound());
        }
    }
    if after.sound() {
        assert forall|i: int| 0 <= i < docks.windows.len() implies (
        #[trigger] docks.windows[i]).tree.sound() by {
            assert(after.windows[i].tree.sound());
        }
    }
}

proof fn settling_moves_nothing(docks: DocksModel, source: u64, target: u64)
    ensures
        forall|p: Seq<char>| #[trigger] docks.settled(source, target).holds(p) == docks.holds(p),
        docks.settled(source, target).sound() == docks.sound(),
{
    flagging_moves_nothing(docks, target);
    flagging_moves_nothing(docks.flagged(target), source);
    flagging_moves_nothing(docks.flagged(target).flagged(source), source);
    assert forall|p: Seq<char>| #[trigger] docks.settled(source, target).holds(p) == docks.holds(
        p,
    ) by {
        assert(docks.flagged(target).holds(p) == docks.holds(p));
        assert(docks.flagged(target).flagged(source).holds(p) == docks.flagged(target).holds(p));
    }
}

/// Removing a panel from one area's tree keeps every other panel of the docks.
proof fn removing_from_area(docks: DocksModel, area: u64, panel: Seq<char>)
    ensures
        docks.sound() ==> docks.removed(area, panel).sound(),
        forall|p: Seq<char>|
            p != panel && docks.holds(p) ==> #[trigger] docks.removed(area, panel).holds(p),
{
    let tree = docks.tree_of(area);
    tree_of_sound(docks, area);
    remove_takes_one(tree, panel);
    removing_keeps_others(tree, panel);
    editing_one_tree(docks, area, tree.without_panel(panel), panel);
    assert forall|p: Seq<char>| p != panel && docks.holds(p) implies #[trigger] docks.removed(
        area,
        panel,
    ).holds(p) by {
        editing_one_tree(docks, area, tree.without_panel(panel), p);
    }
}

/// The tree of an area is one of the docks' trees, hence sound with them.
pub proof fn tree_of_sound(docks: DocksModel, area: u64)
    ensures
        docks.sound() ==> docks.tree_of(area).sound(),
{
    position_is_first(docks.windows.map_values(|w: WindowModel| w.area), area);
}

/// Moving a panel, within an area or to another, loses no panel and keeps sound
/// trees sound.
pub proof fn panel_move_keeps_all(
    docks: DocksModel,
    id: Seq<char>,
    source: u64,
    action: DropModel,
)
    ensures
        docks.sound() ==> docks.panel_moved(id, source, action).sound(),
        forall|p: Seq<char>|
            docks.holds(p) || p == id ==> #[trigger] docks.panel_moved(id, source, action).holds(p),
{
    let out = docks.removed(source, id);
    removing_from_area(docks, source, id);
    let target = action.area();
    tree_of_sound(out, target);
    drop_loses_none(out.tree_of(target), id, action);
    let tree = out.tree_of(target).dropped(id, action);
    editing_one_tree(out, target, tree, id);
    assert forall|p: Seq<char>| docks.holds(p) || p == id implies #[trigger] docks.panel_moved(
        id,
        source,
        action,
    ).holds(p) by {
        editing_one_tree(out, target, tree, p);
        assert(out.tree_of(target).holds(p) ==> tree.holds(p));
        assert(tree.holds(id));
    }
}

/// Moving a whole leaf loses no panel and keeps sound trees sound.
pub proof fn leaf_move_keeps_all(docks: DocksModel, id: Seq<char>, source: u64, action: DropModel)
    requires
        docks.tree_of(source).holds(id),
    ensures
        docks.sound() ==> docks.leaf_moved(id, source, action).sound(),
        forall|p: Seq<char>|
            docks.holds(p) ==> #[trigger] docks.leaf_moved(id, source, action).holds(p),
{
    let tree = docks.tree_of(source);
    let rest = tree.without_leaf(id);
    let leaf = tree.leaf_of(id)->0;
    tree_of_sound(docks, source);
    take_leaf_takes_its_tabs(tree, id);
    let out = docks.with_tree(source, rest);
    editing_one_tree(docks, source, rest, id);
    let target = action.area();
    tree_of_sound(out, target);
    leaf_drop_loses_none(out.tree_of(target), leaf, action);
    let grown = out.tree_of(target).leaf_dropped(leaf, action);
    editing_one_tree(out, target, grown, id);
    assert forall|p: Seq<char>| docks.holds(p) implies #[trigger] docks.leaf_moved(
        id,
        source,
        action,
    ).holds(p) by {
        counted(tree, p);
        counted(rest, p);
        counted(leaf, p);
        editing_one_tree(docks, source, rest, p);
        editing_one_tree(out, target, grown, p);
        assert(out.tree_of(target).holds(p) || leaf.holds(p) ==> grown.holds(p));
    }
}

/// Whatever a drag ends in, every panel is still somewhere, and sound trees are
/// still sound.
pub proof fn release_keeps_all(
    docks: DocksModel,
    drag: DragModel,
    claim: bool,
    leaf_tabs: Option<Seq<Seq<char>>>,
)
    ensures
        docks.sound() ==> docks.released(drag, claim, leaf_tabs).sound(),
        forall|p: Seq<char>|
            docks.holds(p) ==> #[trigger] docks.released(drag, claim, leaf_tabs).holds(p),
{
    if let Some(action) = drag.action {
        if !claim && drag.active {
            let source = drag.source_area;
            if drag.group {
                if docks.tree_of(source).holds(drag.id) {
                    let moved = docks.leaf_moved(drag.id, source, action);
                    leaf_move_keeps_all(docks, drag.id, source, action);
                    settling_moves_nothing(moved, source, action.area());
                    assert forall|p: Seq<char>| docks.holds(p) implies #[trigger] docks.released(
                        drag,
                        claim,
                        leaf_tabs,
                    ).holds(p) by {
                        assert(moved.holds(p));
                    }
                }
            } else {
                let moved = docks.panel_moved(drag.id, source, action);
                panel_move_keeps_all(docks, drag.id, source, action);
                settling_moves_nothing(moved, source, action.area());
                assert forall|p: Seq<char>| docks.holds(p) implies #[trigger] docks.released(
                    drag,
                    claim,
                    leaf_tabs,
                ).holds(p) by {
                    assert(moved.holds(p));
                }
            }
        }
    }
}

/// A panel torn off is in the window that opens for it, and every other panel
/// stays where it was.
pub proof fn tear_off_keeps_all(
    docks: DocksModel,
    panel: Seq<char>,
    area: u64,
    position: Option<(i32, i32)>,
    size: (u32, u32),
    grab: bool,
)
    ensures
        docks.sound() ==> docks.torn_off(panel, area, position, size, grab).sound(),
        forall|p: Seq<char>|
            docks.holds(p) || p == panel ==> #[trigger] docks.torn_off(
                panel,
                area,
                position,
                size,
                grab,
            ).holds(p),
{
    let cut = docks.removed(area, panel);
    let flagged = cut.flagged(area);
    let closed = flagged.closed_if_empty(area);
    let after = docks.torn_off(panel, area, position, size, grab);
    removing_from_area(docks, area, panel);
    flagging_moves_nothing(cut, area);
    flagging_moves_nothing(flagged, area);
    let last = closed.requests.len() as int;
    assert(after.requests[last].tree == single(panel));
    counted(single(panel), panel);
    if docks.sound() {
        assert forall|i: int| 0 <= i < after.requests.len() implies (
        #[trigger] after.requests[i]).tree.sound() by {
            if i < last {
                assert(closed.requests[i].tree.sound());
            }
        }
    }
    assert forall|p: Seq<char>| docks.holds(p) || p == panel implies #[trigger] after.holds(p) by {
        if p == panel {
            assert(after.requests[last].tree.holds(p));
        } else {
            assert(cut.holds(p));
            assert(flagged.holds(p) == cut.holds(p));
            assert(closed.holds(p) == flagged.holds(p));
            if exists|i: int|
                0 <= i < closed.requests.len() && (#[trigger] closed.requests[i]).tree.holds(p) {
                let i = choose|i: int|
                    0 <= i < closed.requests.len() && (
                    #[trigger] closed.requests[i]).tree.holds(p);
                assert(after.requests[i].tree.holds(p));
            }
        }
    }
}

/// Closing a tab takes that panel and no other.
pub proof fn closing_keeps_others(docks: DocksModel, area: u64, panel: Seq<char>)
    ensures
        docks.sound() ==> docks.tab_closed(area, panel).sound(),
        forall|p: Seq<char>|
            p != panel && docks.holds(p) ==> #[trigger] docks.tab_closed(area, panel).holds(p),
{
    let cut = docks.removed(area, panel);
    removing_from_area(docks, area, panel);
    flagging_moves_nothing(cut, area);
    flagging_moves_nothing(cut.flagged(area), area);
    assert forall|p: Seq<char>| p != panel && docks.holds(p) implies #[trigger] docks.tab_closed(
        area,
        panel,
    ).holds(p) by {
        assert(cut.holds(p));
        assert(cut.flagged(area).holds(p) == cut.holds(p));
    }
}

} // verus!
