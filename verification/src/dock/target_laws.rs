//! What a drag's cursor position stands for, told from what is under it.

use vstd::prelude::*;

use crate::dock::drop::{differs_from, DropModel};
use crate::dock::layout::DropZone;
use crate::dock::target::{
    area_under, bar_target, bar_under, cross_window_target, docked_area, edge_rect, insertion,
    leaf_index, leaf_target, leaf_under, leaf_under_in, redock_target, right_of_cursor, stand_in,
    tab_index, window_target, zone_at, AreaProbe, BarProbe, LeafSite, PercentRect, RootProbe,
    TabSite, TargetModel,
};
use crate::scalar::{Point, Scalar};
use crate::text::{position, position_found, position_is_first};

verus! {

// ── Zones of a leaf ──

/// A number from zero up.
pub open spec fn from_zero(x: Scalar) -> bool {
    x.bits <= 0x7F80_0000
}

/// A number below zero.
pub open spec fn below_zero(x: Scalar) -> bool {
    0x8000_0000 < x.bits <= 0xFF80_0000
}

/// The outer quarters of a leaf are its sides and the rest is its center. Left
/// and right come before top and bottom.
pub proof fn outer_quarters_are_sides(x: Scalar, y: Scalar)
    requires
        from_zero(x),
        from_zero(y),
    ensures
        zone_at(x, y) == DropZone::Left <==> x.bits < 0x3E80_0000,
        zone_at(x, y) == DropZone::Right <==> x.bits > 0x3F40_0000,
        zone_at(x, y) == DropZone::Top <==> 0x3E80_0000 <= x.bits <= 0x3F40_0000 && y.bits
            < 0x3E80_0000,
        zone_at(x, y) == DropZone::Bottom <==> 0x3E80_0000 <= x.bits <= 0x3F40_0000 && y.bits
            > 0x3F40_0000,
        zone_at(x, y) == DropZone::Center <==> 0x3E80_0000 <= x.bits <= 0x3F40_0000
            && 0x3E80_0000 <= y.bits <= 0x3F40_0000,
{
}

/// Before its left edge a leaf is left, and above its top edge it is top.
pub proof fn before_a_leaf_is_its_side(x: Scalar, y: Scalar)
    ensures
        below_zero(x) ==> zone_at(x, y) == DropZone::Left,
        0x3E80_0000 <= x.bits <= 0x3F40_0000 && below_zero(y) ==> zone_at(x, y) == DropZone::Top,
{
}

// ── Edges of an area ──

/// The lesser of two patterns.
pub open spec fn nearer(a: Scalar, b: Scalar) -> u32 {
    if a.bits <= b.bits {
        a.bits
    } else {
        b.bits
    }
}

/// Whether a point is in its area, with numbers for all the ways.
pub open spec fn well_inside(p: RootProbe) -> bool {
    &&& from_zero(p.x) && from_zero(p.y) && from_zero(p.right) && from_zero(p.bottom)
    &&& from_zero(p.width) && from_zero(p.height)
    &&& p.x.bits <= p.width.bits && p.y.bits <= p.height.bits
}

/// The root zone of a point in an area. Within 48 px of a side and of the top or
/// bottom it is a corner's, and the nearer of the two edges has it. Away from the
/// corners, within 16 px of a side it is that side, and else within 48 px of the
/// bottom it is the bottom. Nowhere else is there one, and the nearer of two
/// opposite edges has it.
pub proof fn root_zones_line_the_edges(p: RootProbe)
    requires
        well_inside(p),
    ensures
        ({
            let across = nearer(p.x, p.right);
            let down = nearer(p.y, p.bottom);
            let corner = across <= 0x4240_0000 && down <= 0x4240_0000;
            let side = across <= 0x4180_0000;
            let floor = p.bottom.bits < p.y.bits && p.bottom.bits <= 0x4240_0000;
            &&& p.zone() is Some <==> corner || side || floor
            &&& p.zone() matches Some((zone, c)) ==> {
                &&& c == corner
                &&& zone != DropZone::Center
                &&& zone == DropZone::Left ==> p.x.bits <= p.right.bits
                &&& zone == DropZone::Right ==> p.right.bits < p.x.bits
                &&& zone == DropZone::Top ==> p.y.bits <= p.bottom.bits
                &&& zone == DropZone::Bottom ==> p.bottom.bits < p.y.bits
                &&& corner ==> ((zone == DropZone::Left || zone == DropZone::Right) <==> across
                    <= down)
                &&& !corner ==> ((zone == DropZone::Left || zone == DropZone::Right) <==> side)
                &&& !corner && !side ==> zone == DropZone::Bottom
            }
        }),
{
}

/// Outside an area there is no root zone.
pub proof fn outside_has_no_root_zone(p: RootProbe)
    ensures
        below_zero(p.x) || below_zero(p.y) ==> p.zone() is None,
        from_zero(p.x) && from_zero(p.width) && p.width.bits < p.x.bits ==> p.zone() is None,
        from_zero(p.y) && from_zero(p.height) && p.height.bits < p.y.bits ==> p.zone() is None,
{
}

/// Turned round left to right, a point's side zones turn round with it.
pub proof fn sides_mirror(p: RootProbe, q: RootProbe)
    requires
        well_inside(p),
        well_inside(q),
        p.x.bits != p.right.bits,
        q == (RootProbe { x: p.right, right: p.x, ..p }),
    ensures
        match p.zone() {
            Some((DropZone::Left, c)) => q.zone() == Some((DropZone::Right, c)),
            Some((DropZone::Right, c)) => q.zone() == Some((DropZone::Left, c)),
            other => q.zone() == other,
        },
{
}

/// What a preview covers lies against the edge it is for, with all of the other
/// extent, and the two previews of opposite edges are as large.
pub proof fn previews_lie_against_their_edge(percent: u32)
    requires
        percent <= 100,
    ensures
        ({
            let left = edge_rect(DropZone::Left, percent);
            let right = edge_rect(DropZone::Right, percent);
            let top = edge_rect(DropZone::Top, percent);
            let bottom = edge_rect(DropZone::Bottom, percent);
            let whole = edge_rect(DropZone::Center, percent);
            &&& left.left == 0 && left.top == 0 && left.width == percent && left.height == 100
            &&& right.left + right.width == 100 && right.width == percent && right.top == 0
                && right.height == 100
            &&& top.left == 0 && top.top == 0 && top.width == 100 && top.height == percent
            &&& bottom.top + bottom.height == 100 && bottom.height == percent && bottom.left == 0
                && bottom.width == 100
            &&& whole == (PercentRect { left: 0, top: 0, width: 100, height: 100 })
        }),
{
}

// ── What is under the cursor ──

/// Whether `k` is the first tab of a panel.
pub open spec fn first_tab(tabs: Seq<TabSite>, id: Seq<char>, k: int) -> bool {
    0 <= k < tabs.len() && tabs[k].id == id && forall|j: int|
        0 <= j < k ==> (#[trigger] tabs[j]).id != id
}

/// Whether the middle of a panel's tab is right of the cursor.
pub open spec fn lies_right(tabs: Seq<TabSite>, id: Seq<char>) -> bool {
    exists|k: int| #[trigger]
        first_tab(tabs, id, k) && (tabs[k].offset matches Some(x) && below_zero(x))
}

/// Whether `rep` is the first panel of a leaf other than the dragged one.
pub open spec fn first_other(tabs: Seq<Seq<char>>, dragged: Seq<char>, rep: Seq<char>) -> bool {
    exists|k: int|
        0 <= k < tabs.len() && #[trigger] tabs[k] == rep && rep != dragged && forall|j: int|
            0 <= j < k ==> #[trigger] tabs[j] == dragged
}

proof fn tab_found(tabs: Seq<TabSite>, id: Seq<char>)
    ensures
        0 <= tab_index(tabs, id) <= tabs.len(),
        tab_index(tabs, id) < tabs.len() ==> first_tab(tabs, id, tab_index(tabs, id)),
        tab_index(tabs, id) == tabs.len() ==> forall|k: int|
            0 <= k < tabs.len() ==> (#[trigger] tabs[k]).id != id,
        forall|k: int| #[trigger] first_tab(tabs, id, k) ==> k == tab_index(tabs, id),
        right_of_cursor(tabs, id) == lies_right(tabs, id),
{
    let flags = tabs.map_values(|t: TabSite| t.id == id);
    position_is_first(flags, true);
    let i = position(flags, true);
    assert forall|j: int| 0 <= j < i implies (#[trigger] tabs[j]).id != id by {
        assert(flags[j] != true);
    }
    if i < tabs.len() {
        assert(flags[i]);
    }
    assert forall|k: int| 0 <= k < tabs.len() && i == tabs.len() implies (#[trigger] tabs[k]).id
        != id by {}
    assert forall|k: int| #[trigger] first_tab(tabs, id, k) implies k == i by {
        assert forall|j: int| 0 <= j < k implies flags[j] != true by {
            assert(tabs[j].id != id);
        }
        assert(flags[k] == true);
        position_found(flags, true, k);
    }
    if right_of_cursor(tabs, id) {
        assert(first_tab(tabs, id, i));
    }
}

proof fn stand_in_is_first(tabs: Seq<Seq<char>>, dragged: Seq<char>)
    ensures
        match stand_in(tabs, dragged) {
            Some(rep) => first_other(tabs, dragged, rep),
            None => forall|k: int| 0 <= k < tabs.len() ==> #[trigger] tabs[k] == dragged,
        },
{
    let flags = tabs.map_values(differs_from(dragged));
    position_is_first(flags, true);
    let i = position(flags, true);
    assert forall|j: int| 0 <= j < i implies #[trigger] tabs[j] == dragged by {
        assert(flags[j] != true);
    }
    if i < tabs.len() {
        assert(flags[i]);
        assert(tabs[i] != dragged);
    }
}

/// A drop on a leaf's tab bar goes where the cursor is among the tabs: before the
/// first tab whose middle is right of the cursor, with the marker at that tab; or
/// after all of them, with the marker right of the last. The panel that stands
/// for the leaf is its first one other than the dragged, and a leaf that has no
/// other takes no drop.
pub proof fn bar_drop_goes_to_the_cursor(site: LeafSite, tabs: Seq<TabSite>, dragged: Seq<char>)
    ensures
        ({
            let target = bar_target(site, tabs, dragged);
            let alone = forall|k: int|
                0 <= k < site.tabs.len() ==> #[trigger] site.tabs[k] == dragged;
            &&& alone ==> target.action is None && target.marker is None
            &&& target.overlay is None
            &&& !alone ==> (target.action matches Some(DropModel::Tab { area, rep, before }) && {
                &&& area == site.area
                &&& first_other(site.tabs, dragged, rep)
                &&& before matches Some(b) ==> {
                    &&& lies_right(tabs, b)
                    &&& exists|at: int|
                        0 <= at < site.tabs.len() && #[trigger] site.tabs[at] == b && forall|j: int|
                            0 <= j < at ==> !lies_right(tabs, #[trigger] site.tabs[j])
                    &&& forall|k: int| #[trigger]
                        first_tab(tabs, b, k) ==> target.marker == Some((tabs[k].marker, false))
                }
                &&& before is None ==> {
                    &&& forall|j: int|
                        0 <= j < site.tabs.len() ==> !lies_right(tabs, #[trigger] site.tabs[j])
                    &&& forall|k: int| #[trigger]
                        first_tab(tabs, site.tabs.last(), k) ==> target.marker == Some(
                            (tabs[k].marker, true),
                        )
                    &&& target.marker matches Some((_, right)) ==> right
                }
            })
        }),
{
    let flags = site.tabs.map_values(|id: Seq<char>| right_of_cursor(tabs, id));
    let at = insertion(site.tabs, tabs);
    let target = bar_target(site, tabs, dragged);
    position_is_first(flags, true);
    stand_in_is_first(site.tabs, dragged);
    assert forall|j: int| 0 <= j < at implies !lies_right(tabs, #[trigger] site.tabs[j]) by {
        assert(flags[j] != true);
        tab_found(tabs, site.tabs[j]);
    }
    if at < site.tabs.len() {
        assert(flags[at]);
        tab_found(tabs, site.tabs[at]);
    } else if site.tabs.len() > 0 {
        tab_found(tabs, site.tabs.last());
    }
    if stand_in(site.tabs, dragged) is Some {
        let rep = stand_in(site.tabs, dragged)->0;
        let k = choose|k: int|
            0 <= k < site.tabs.len() && #[trigger] site.tabs[k] == rep && rep != dragged
                && forall|j: int| 0 <= j < k ==> #[trigger] site.tabs[j] == dragged;
        assert(site.tabs[k] != dragged);
    }
}

/// Which tabs are right of the cursor is all that a drop on a tab bar goes by.
pub proof fn tabs_alone_move_a_bar_drop(
    site: LeafSite,
    tabs: Seq<TabSite>,
    others: Seq<TabSite>,
    dragged: Seq<char>,
)
    requires
        forall|k: int|
            0 <= k < site.tabs.len() ==> lies_right(tabs, #[trigger] site.tabs[k]) == lies_right(
                others,
                site.tabs[k],
            ),
    ensures
        bar_target(site, tabs, dragged).action == bar_target(site, others, dragged).action,
{
    let a = site.tabs.map_values(|id: Seq<char>| right_of_cursor(tabs, id));
    let b = site.tabs.map_values(|id: Seq<char>| right_of_cursor(others, id));
    assert forall|k: int| 0 <= k < site.tabs.len() implies a[k] == b[k] by {
        tab_found(tabs, site.tabs[k]);
        tab_found(others, site.tabs[k]);
        assert(lies_right(tabs, site.tabs[k]) == lies_right(others, site.tabs[k]));
    }
    assert(a =~= b);
}

/// A drop on a leaf splits it on the side that the cursor is at, and adds a tab
/// at the end in its center. The zone is previewed on the leaf itself.
pub proof fn leaf_drop_takes_the_zone(site: LeafSite, dragged: Seq<char>, x: Scalar, y: Scalar)
    requires
        site.at == Some(Point { x, y }),
    ensures
        ({
            let target = leaf_target(site, dragged);
            let alone = forall|k: int|
                0 <= k < site.tabs.len() ==> #[trigger] site.tabs[k] == dragged;
            &&& target.marker is None
            &&& alone ==> target.action is None && target.overlay is None
            &&& !alone ==> target.overlay == Some((site.overlay, zone_at(x, y), false))
            &&& !alone ==> match target.action {
                Some(DropModel::Tab { area, rep, before }) => {
                    &&& zone_at(x, y) == DropZone::Center
                    &&& area == site.area
                    &&& first_other(site.tabs, dragged, rep)
                    &&& before is None
                },
                Some(DropModel::Split { area, rep, zone }) => {
                    &&& zone == zone_at(x, y) && zone != DropZone::Center
                    &&& area == site.area
                    &&& first_other(site.tabs, dragged, rep)
                },
                _ => false,
            }
        }),
{
    stand_in_is_first(site.tabs, dragged);
    if stand_in(site.tabs, dragged) is Some {
        let rep = stand_in(site.tabs, dragged)->0;
        let k = choose|k: int|
            0 <= k < site.tabs.len() && #[trigger] site.tabs[k] == rep && rep != dragged
                && forall|j: int| 0 <= j < k ==> #[trigger] site.tabs[j] == dragged;
        assert(site.tabs[k] != dragged);
    }
}

/// A leaf that the cursor's place in is not known takes no drop.
pub proof fn leaf_without_a_cursor_takes_none(site: LeafSite, dragged: Seq<char>)
    requires
        site.at is None,
    ensures
        leaf_target(site, dragged) == (TargetModel { action: None, overlay: None, marker: None }),
{
}

/// Whether `i` is the first area under the cursor.
pub open spec fn first_area(areas: Seq<AreaProbe>, i: int) -> bool {
    0 <= i < areas.len() && areas[i].over && forall|j: int|
        0 <= j < i ==> !(#[trigger] areas[j]).over
}

/// Whether `i` is the first tab bar under the cursor.
pub open spec fn first_bar(bars: Seq<BarProbe>, i: int) -> bool {
    0 <= i < bars.len() && bars[i].over && forall|j: int| 0 <= j < i ==> !(#[trigger] bars[j]).over
}

/// Whether `i` is the first leaf under the cursor.
pub open spec fn first_leaf(leaves: Seq<LeafSite>, i: int) -> bool {
    0 <= i < leaves.len() && leaves[i].over && forall|j: int|
        0 <= j < i ==> !(#[trigger] leaves[j]).over
}

/// Whether `i` is the leaf of an entity.
pub open spec fn leaf_named(leaves: Seq<LeafSite>, leaf: u64, i: int) -> bool {
    0 <= i < leaves.len() && leaves[i].leaf == leaf && forall|j: int|
        0 <= j < i ==> (#[trigger] leaves[j]).leaf != leaf
}

/// Whether the first area under the cursor shows a root zone there, and whether
/// it is a corner's.
pub open spec fn rail_under(areas: Seq<AreaProbe>, i: int, zone: DropZone, corner: bool) -> bool {
    &&& first_area(areas, i)
    &&& areas[i].overlay is Some
    &&& areas[i].probe matches Some(p) && p.zone() == Some((zone, corner))
}

/// Whether there is no such zone, or, where edges are allowed, none of a corner.
pub open spec fn no_rail(areas: Seq<AreaProbe>, edges_allowed: bool) -> bool {
    forall|i: int, zone: DropZone, corner: bool| #[trigger]
        rail_under(areas, i, zone, corner) ==> edges_allowed && !corner
}

proof fn area_found(areas: Seq<AreaProbe>, i: int)
    requires
        first_area(areas, i),
    ensures
        area_under(areas) == i,
{
    let flags = areas.map_values(|a: AreaProbe| a.over);
    position_found(flags, true, i);
}

proof fn bar_found(bars: Seq<BarProbe>, i: int)
    requires
        first_bar(bars, i),
    ensures
        bar_under(bars) == i,
{
    position_found(bars.map_values(|b: BarProbe| b.over), true, i);
}

proof fn named_found(leaves: Seq<LeafSite>, leaf: u64, i: int)
    requires
        leaf_named(leaves, leaf, i),
    ensures
        leaf_index(leaves, leaf) == i,
{
    position_found(leaves.map_values(|l: LeafSite| l.leaf == leaf), true, i);
}

proof fn leaf_found(leaves: Seq<LeafSite>, i: int)
    requires
        first_leaf(leaves, i),
    ensures
        leaf_under(leaves) == i,
{
    position_found(leaves.map_values(|l: LeafSite| l.over), true, i);
}

proof fn hit_is_a_rail(areas: Seq<AreaProbe>)
    ensures
        crate::dock::target::root_hit(areas) matches Some((area, zone, corner)) ==> {
            let i = area_under(areas);
            &&& first_area(areas, i) && areas[i] == area
            &&& area.overlay is Some ==> rail_under(areas, i, zone, corner)
        },
{
    let flags = areas.map_values(|a: AreaProbe| a.over);
    position_is_first(flags, true);
    let i = area_under(areas);
    assert forall|j: int| 0 <= j < i implies !(#[trigger] areas[j]).over by {
        assert(flags[j] != true);
    }
    if i < areas.len() {
        assert(flags[i]);
    }
}

/// The corner of an area outranks all else under the cursor: the drop goes
/// against that edge of the whole area.
pub proof fn corners_outrank_all(
    areas: Seq<AreaProbe>,
    bars: Seq<BarProbe>,
    leaves: Seq<LeafSite>,
    tabs: Seq<TabSite>,
    dragged: Seq<char>,
    group: bool,
    source_leaf: u64,
    i: int,
    zone: DropZone,
)
    requires
        rail_under(areas, i, zone, true),
    ensures
        ({
            let target = window_target(areas, bars, leaves, tabs, dragged, group, source_leaf);
            &&& target.action == Some(DropModel::RootSplit { area: areas[i].area, zone })
            &&& target.overlay == Some((areas[i].overlay->0, zone, true))
            &&& target.marker is None
        }),
{
    area_found(areas, i);
}

/// Away from the corners, a tab bar under the cursor takes the drop, among its
/// own leaf's tabs, whatever edge it lies along.
pub proof fn bars_outrank_edges(
    areas: Seq<AreaProbe>,
    bars: Seq<BarProbe>,
    leaves: Seq<LeafSite>,
    tabs: Seq<TabSite>,
    dragged: Seq<char>,
    group: bool,
    source_leaf: u64,
    b: int,
    l: int,
)
    requires
        no_rail(areas, true),
        first_bar(bars, b),
        !(group && bars[b].leaf == source_leaf),
        leaf_named(leaves, bars[b].leaf, l),
    ensures
        window_target(areas, bars, leaves, tabs, dragged, group, source_leaf) == bar_target(
            leaves[l],
            tabs,
            dragged,
        ),
{
    hit_is_a_rail(areas);
    bar_found(bars, b);
    named_found(leaves, bars[b].leaf, l);
}

/// Whether no tab bar under the cursor can take the drop.
pub open spec fn no_bar(bars: Seq<BarProbe>, group: bool, source_leaf: u64) -> bool {
    forall|b: int| #[trigger] first_bar(bars, b) ==> group && bars[b].leaf == source_leaf
}

proof fn no_bar_found(bars: Seq<BarProbe>, group: bool, source_leaf: u64)
    requires
        no_bar(bars, group, source_leaf),
    ensures
        !(bar_under(bars) < bars.len() && !(group && bars[bar_under(bars)].leaf == source_leaf)),
{
    let flags = bars.map_values(|b: BarProbe| b.over);
    position_is_first(flags, true);
    let i = bar_under(bars);
    if i < bars.len() {
        assert(flags[i]);
        assert forall|j: int| 0 <= j < i implies !(#[trigger] bars[j]).over by {
            assert(flags[j] != true);
        }
        assert(first_bar(bars, i));
    }
}

/// Off the tab bars, the edge of an area takes the drop before its leaves do.
pub proof fn edges_outrank_leaves(
    areas: Seq<AreaProbe>,
    bars: Seq<BarProbe>,
    leaves: Seq<LeafSite>,
    tabs: Seq<TabSite>,
    dragged: Seq<char>,
    group: bool,
    source_leaf: u64,
    i: int,
    zone: DropZone,
)
    requires
        rail_under(areas, i, zone, false),
        no_bar(bars, group, source_leaf),
    ensures
        ({
            let target = window_target(areas, bars, leaves, tabs, dragged, group, source_leaf);
            &&& target.action == Some(DropModel::RootSplit { area: areas[i].area, zone })
            &&& target.overlay == Some((areas[i].overlay->0, zone, true))
            &&& target.marker is None
        }),
{
    area_found(areas, i);
    no_bar_found(bars, group, source_leaf);
}

/// Off the bars and the edges, the leaf under the cursor takes the drop, but for
/// the leaf that is itself being moved.
pub proof fn leaves_take_the_rest(
    areas: Seq<AreaProbe>,
    bars: Seq<BarProbe>,
    leaves: Seq<LeafSite>,
    tabs: Seq<TabSite>,
    dragged: Seq<char>,
    group: bool,
    source_leaf: u64,
    l: int,
)
    requires
        no_rail(areas, false),
        no_bar(bars, group, source_leaf),
        first_leaf(leaves, l),
    ensures
        ({
            let target = window_target(areas, bars, leaves, tabs, dragged, group, source_leaf);
            if group && leaves[l].leaf == source_leaf {
                target.action is None && target.overlay is None && target.marker is None
            } else {
                target == leaf_target(leaves[l], dragged)
            }
        }),
{
    hit_is_a_rail(areas);
    no_bar_found(bars, group, source_leaf);
    leaf_found(leaves, l);
}

/// Over nothing, there is no drop.
pub proof fn nothing_under_takes_none(
    areas: Seq<AreaProbe>,
    bars: Seq<BarProbe>,
    leaves: Seq<LeafSite>,
    tabs: Seq<TabSite>,
    dragged: Seq<char>,
    group: bool,
    source_leaf: u64,
)
    requires
        no_rail(areas, false),
        no_bar(bars, group, source_leaf),
        forall|l: int| 0 <= l < leaves.len() ==> !(#[trigger] leaves[l]).over,
    ensures
        window_target(areas, bars, leaves, tabs, dragged, group, source_leaf) == (TargetModel {
            action: None,
            overlay: None,
            marker: None,
        }),
{
    hit_is_a_rail(areas);
    no_bar_found(bars, group, source_leaf);
    let flags = leaves.map_values(|l: LeafSite| l.over);
    position_is_first(flags, true);
    if leaf_under(leaves) < leaves.len() {
        assert(flags[leaf_under(leaves)]);
        assert(!leaves[leaf_under(leaves)].over);
    }
}

/// In another window, the first leaf under the cursor that belongs to the area
/// takes the drop, and nothing else does.
pub proof fn only_the_area_takes_a_crossing(
    leaves: Seq<LeafSite>,
    area: u64,
    dragged: Seq<char>,
    l: int,
)
    ensures
        0 <= l < leaves.len() && leaves[l].over && leaves[l].area == area && (forall|j: int|
            0 <= j < l ==> !((#[trigger] leaves[j]).over && leaves[j].area == area))
            ==> cross_window_target(leaves, area, dragged) == leaf_target(leaves[l], dragged),
        (forall|j: int|
            0 <= j < leaves.len() ==> !((#[trigger] leaves[j]).over && leaves[j].area == area))
            ==> cross_window_target(leaves, area, dragged) == (TargetModel {
            action: None,
            overlay: None,
            marker: None,
        }),
{
    let flags = leaves.map_values(|l: LeafSite| l.over && l.area == area);
    position_is_first(flags, true);
    if 0 <= l < leaves.len() && leaves[l].over && leaves[l].area == area && (forall|j: int|
        0 <= j < l ==> !((#[trigger] leaves[j]).over && leaves[j].area == area)) {
        position_found(flags, true, l);
    }
    if leaf_under_in(leaves, area) < leaves.len() {
        let k = leaf_under_in(leaves, area);
        assert(flags[k]);
        assert(leaves[k].over && leaves[k].area == area);
    }
}

/// Whether `i` is the first area that no floating window has.
pub open spec fn first_docked(areas: Seq<AreaProbe>, i: int) -> bool {
    0 <= i < areas.len() && !areas[i].floating && forall|j: int|
        0 <= j < i ==> (#[trigger] areas[j]).floating
}

proof fn docked_found(areas: Seq<AreaProbe>, i: int)
    requires
        first_docked(areas, i),
    ensures
        docked_area(areas) == i,
{
    position_found(areas.map_values(|a: AreaProbe| !a.floating), true, i);
}

/// A window dragged by its title bar docks as the last tab of the leaf whose tab
/// bar is under the cursor, in the main window's area.
pub proof fn bar_takes_a_window(
    areas: Seq<AreaProbe>,
    bars: Seq<BarProbe>,
    leaves: Seq<LeafSite>,
    a: int,
    b: int,
    l: int,
)
    requires
        first_docked(areas, a),
        first_bar(bars, b),
        leaf_named(leaves, bars[b].leaf, l),
    ensures
        ({
            let target = redock_target(areas, bars, leaves);
            &&& target.marker is None
            &&& areas[a].area == leaves[l].area && leaves[l].tabs.len() > 0 ==> {
                &&& target.action == Some(
                    DropModel::Tab {
                        area: leaves[l].area,
                        rep: leaves[l].tabs[0],
                        before: None,
                    },
                )
                &&& target.overlay == Some((leaves[l].overlay, DropZone::Center, false))
            }
            &&& !(areas[a].area == leaves[l].area && leaves[l].tabs.len() > 0)
                ==> target.action is None && target.overlay is None
        }),
{
    docked_found(areas, a);
    bar_found(bars, b);
    named_found(leaves, bars[b].leaf, l);
}

/// Off the tab bars, it docks against the edge of the main window's area that the
/// cursor is at, and nowhere else.
pub proof fn edge_takes_a_window(
    areas: Seq<AreaProbe>,
    bars: Seq<BarProbe>,
    leaves: Seq<LeafSite>,
    a: int,
)
    requires
        first_docked(areas, a),
        forall|b: int| 0 <= b < bars.len() ==> !(#[trigger] bars[b]).over,
    ensures
        ({
            let target = redock_target(areas, bars, leaves);
            &&& target.marker is None
            &&& match areas[a].probe {
                Some(p) => match p.zone() {
                    Some((zone, _)) => {
                        &&& target.action == Some(
                            DropModel::RootSplit { area: areas[a].area, zone },
                        )
                        &&& areas[a].overlay matches Some(o) ==> target.overlay == Some(
                            (o, zone, true),
                        )
                        &&& areas[a].overlay is None ==> target.overlay is None
                    },
                    None => target.action is None && target.overlay is None,
                },
                None => target.action is None && target.overlay is None,
            }
        }),
{
    docked_found(areas, a);
    let flags = bars.map_values(|b: BarProbe| b.over);
    position_is_first(flags, true);
    if bar_under(bars) < bars.len() {
        assert(flags[bar_under(bars)]);
        assert(!bars[bar_under(bars)].over);
    }
}

} // verus!
