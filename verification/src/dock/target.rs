//! Which drop a cursor position stands for.

use vstd::prelude::*;

use crate::dock::drop::{differs_from, option_text, DropAction, DropModel};
use crate::dock::layout::DropZone;
use crate::scalar::{Point, Scalar, ZERO_BITS};
use crate::text::{find_first, position, position_is_first, same_text, texts};

verus! {

/// The outer quarter of a leaf splits it: `0.25`.
pub const EDGE_NEAR_BITS: u32 = 0x3E80_0000;

/// Where the outer quarter on the far side starts: `0.75`.
pub const EDGE_FAR_BITS: u32 = 0x3F40_0000;

/// Corner squares this big (logical px) at the dock's four corners always
/// root-dock, even over a tab bar, so the gesture stays reachable along the
/// top edge: `48.0`.
pub const ROOT_CORNER_BITS: u32 = 0x4240_0000;

/// Thin bands along the dock's left/right edges that also root-dock (lower
/// priority than tab bars): `16.0`. No top band: the topmost tab bars line that
/// edge and tab drops there are far more common.
pub const ROOT_EDGE_BAND_BITS: u32 = 0x4180_0000;

/// The bottom band is much taller than the side bands: "drag it to the bottom"
/// is the gesture that docks a panel into the full-width bottom panel: `48.0`.
pub const ROOT_BOTTOM_BAND_BITS: u32 = 0x4240_0000;

/// Where on a leaf a drop lands: the outer quarters, left and right before top
/// and bottom, or the center.
pub open spec fn zone_at(x: Scalar, y: Scalar) -> DropZone {
    let near = Scalar { bits: EDGE_NEAR_BITS };
    let far = Scalar { bits: EDGE_FAR_BITS };
    if x.less(near) {
        DropZone::Left
    } else if far.less(x) {
        DropZone::Right
    } else if y.less(near) {
        DropZone::Top
    } else if far.less(y) {
        DropZone::Bottom
    } else {
        DropZone::Center
    }
}

/// The zone of a leaf that a point (0-1 across and down) is in.
pub fn pick_zone(x: Scalar, y: Scalar) -> (r: DropZone)
    ensures
        r == zone_at(x, y),
{
    let near = Scalar { bits: EDGE_NEAR_BITS };
    let far = Scalar { bits: EDGE_FAR_BITS };
    if x.lt(near) {
        DropZone::Left
    } else if far.lt(x) {
        DropZone::Right
    } else if y.lt(near) {
        DropZone::Top
    } else if far.lt(y) {
        DropZone::Bottom
    } else {
        DropZone::Center
    }
}

/// A point over a whole dock area, in dock-local logical px.
#[derive(Clone, Copy, Debug, PartialEq, Eq, Structural)]
pub struct RootProbe {
    pub x: Scalar,
    pub y: Scalar,
    pub width: Scalar,
    pub height: Scalar,
    /// `width - x`: the way to the right edge.
    pub right: Scalar,
    /// `height - y`: the way to the bottom edge.
    pub bottom: Scalar,
}

impl RootProbe {
    pub open spec fn outside(self) -> bool {
        let zero = Scalar { bits: ZERO_BITS };
        self.x.less(zero) || self.y.less(zero) || self.width.less(self.x) || self.height.less(
            self.y,
        )
    }

    /// The nearer of the two side edges.
    pub open spec fn side(self) -> DropZone {
        if self.x.at_most(self.right) {
            DropZone::Left
        } else {
            DropZone::Right
        }
    }

    /// The nearer of the top and bottom edges.
    pub open spec fn end(self) -> DropZone {
        if self.y.at_most(self.bottom) {
            DropZone::Top
        } else {
            DropZone::Bottom
        }
    }

    /// The root zone and whether it is a corner's.
    pub open spec fn zone(self) -> Option<(DropZone, bool)> {
        let across = self.x.lesser(self.right);
        let down = self.y.lesser(self.bottom);
        let corner = Scalar { bits: ROOT_CORNER_BITS };
        if self.outside() {
            None
        } else if across.at_most(corner) && down.at_most(corner) {
            Some(
                (
                    if across.at_most(down) {
                        self.side()
                    } else {
                        self.end()
                    },
                    true,
                ),
            )
        } else if across.at_most(Scalar { bits: ROOT_EDGE_BAND_BITS }) {
            Some((self.side(), false))
        } else if down.at_most(Scalar { bits: ROOT_BOTTOM_BAND_BITS }) && self.end()
            == DropZone::Bottom {
            Some((DropZone::Bottom, false))
        } else {
            None
        }
    }
}

/// Root edge/corner hit-test over the whole dock area. Returns the root zone
/// and whether it was a corner hit (corners outrank tab bars). Inside a corner,
/// the nearer edge wins: closer to the side is a full-height column, closer to
/// the top/bottom a full-width row.
pub fn pick_root_zone(probe: RootProbe) -> (r: Option<(DropZone, bool)>)
    ensures
        r == probe.zone(),
{
    let zero = Scalar { bits: ZERO_BITS };
    if probe.x.lt(zero) || probe.y.lt(zero) || probe.width.lt(probe.x) || probe.height.lt(probe.y) {
        return None;
    }
    let across = probe.x.min(probe.right);
    let down = probe.y.min(probe.bottom);
    let side = if probe.x.le(probe.right) {
        DropZone::Left
    } else {
        DropZone::Right
    };
    let end = if probe.y.le(probe.bottom) {
        DropZone::Top
    } else {
        DropZone::Bottom
    };
    let corner = Scalar { bits: ROOT_CORNER_BITS };
    if across.le(corner) && down.le(corner) {
        // The diagonal decides between the column and the row.
        return Some(
            (
                if across.le(down) {
                    side
                } else {
                    end
                },
                true,
            ),
        );
    }
    if across.le(Scalar { bits: ROOT_EDGE_BAND_BITS }) {
        return Some((side, false));
    }
    if down.le(Scalar { bits: ROOT_BOTTOM_BAND_BITS }) && end == DropZone::Bottom {
        return Some((end, false));
    }
    None
}

/// A rectangle in percent of what it lies over.
#[derive(Clone, Copy, Debug, PartialEq, Eq, Structural)]
pub struct PercentRect {
    pub left: u32,
    pub top: u32,
    pub width: u32,
    pub height: u32,
}

/// The share `percent` of a square against one of its edges; all of it for the
/// center.
pub open spec fn edge_rect(zone: DropZone, percent: u32) -> PercentRect {
    let rest = (100 - percent) as u32;
    match zone {
        DropZone::Center => PercentRect { left: 0, top: 0, width: 100, height: 100 },
        DropZone::Left => PercentRect { left: 0, top: 0, width: percent, height: 100 },
        DropZone::Right => PercentRect { left: rest, top: 0, width: percent, height: 100 },
        DropZone::Top => PercentRect { left: 0, top: 0, width: 100, height: percent },
        DropZone::Bottom => PercentRect { left: 0, top: rest, width: 100, height: percent },
    }
}

fn rect_at_edge(zone: DropZone, percent: u32) -> (r: PercentRect)
    requires
        percent <= 100,
    ensures
        r == edge_rect(zone, percent),
{
    let rest: u32 = 100 - percent;
    match zone {
        DropZone::Center => PercentRect { left: 0, top: 0, width: 100, height: 100 },
        DropZone::Left => PercentRect { left: 0, top: 0, width: percent, height: 100 },
        DropZone::Right => PercentRect { left: rest, top: 0, width: percent, height: 100 },
        DropZone::Top => PercentRect { left: 0, top: 0, width: 100, height: percent },
        DropZone::Bottom => PercentRect { left: 0, top: rest, width: 100, height: percent },
    }
}

/// Preview rect for a root edge drop: the fifth of the dock that the split will
/// actually use, so the highlight shows the real resulting area.
pub fn root_zone_rect(zone: DropZone) -> (r: PercentRect)
    ensures
        r == edge_rect(zone, 20),
{
    rect_at_edge(zone, 20)
}

/// Preview rect for a drop on a leaf: the half that the arrival gets.
pub fn zone_rect(zone: DropZone) -> (r: PercentRect)
    ensures
        r == edge_rect(zone, 50),
{
    rect_at_edge(zone, 50)
}

// ── What the cursor is over ──

/// A dock area under the cursor's window.
#[derive(Clone, Copy, Debug, PartialEq, Eq, Structural)]
pub struct AreaProbe {
    pub area: u64,
    pub over: bool,
    /// Where the cursor is in the area, where that is known.
    pub probe: Option<RootProbe>,
    /// The area's drop overlay.
    pub overlay: Option<u64>,
    /// The area belongs to a floating window.
    pub floating: bool,
}

/// A tab bar.
#[derive(Clone, Copy, Debug, PartialEq, Eq, Structural)]
pub struct BarProbe {
    pub leaf: u64,
    pub over: bool,
}

/// A leaf.
pub struct LeafProbe {
    pub leaf: u64,
    pub area: u64,
    pub overlay: u64,
    pub tabs: Vec<String>,
    pub active: String,
    pub over: bool,
    /// Where the cursor is in the leaf (0-1 across and down), where known.
    pub at: Option<Point>,
}

/// A tab.
pub struct TabProbe {
    pub id: String,
    pub leaf: u64,
    pub marker: u64,
    pub pressed: bool,
    /// How far right of the tab's middle the cursor is, where known.
    pub offset: Option<Scalar>,
}

/// What a leaf probe holds.
pub struct LeafSite {
    pub leaf: u64,
    pub area: u64,
    pub overlay: u64,
    pub tabs: Seq<Seq<char>>,
    pub active: Seq<char>,
    pub over: bool,
    pub at: Option<Point>,
}

/// What a tab probe holds.
pub struct TabSite {
    pub id: Seq<char>,
    pub leaf: u64,
    pub marker: u64,
    pub pressed: bool,
    pub offset: Option<Scalar>,
}

impl View for LeafProbe {
    type V = LeafSite;

    open spec fn view(&self) -> LeafSite {
        LeafSite {
            leaf: self.leaf,
            area: self.area,
            overlay: self.overlay,
            tabs: texts(self.tabs@),
            active: self.active@,
            over: self.over,
            at: self.at,
        }
    }
}

impl View for TabProbe {
    type V = TabSite;

    open spec fn view(&self) -> TabSite {
        TabSite {
            id: self.id@,
            leaf: self.leaf,
            marker: self.marker,
            pressed: self.pressed,
            offset: self.offset,
        }
    }
}

pub open spec fn leaf_sites(leaves: Seq<LeafProbe>) -> Seq<LeafSite> {
    leaves.map_values(|l: LeafProbe| l@)
}

pub open spec fn tab_sites(tabs: Seq<TabProbe>) -> Seq<TabSite> {
    tabs.map_values(|t: TabProbe| t@)
}

/// The first area the cursor is over, or their number.
pub open spec fn area_under(areas: Seq<AreaProbe>) -> int {
    position(areas.map_values(|a: AreaProbe| a.over), true)
}

/// The first tab bar the cursor is over, or their number.
pub open spec fn bar_under(bars: Seq<BarProbe>) -> int {
    position(bars.map_values(|b: BarProbe| b.over), true)
}

/// The first leaf the cursor is over, or their number.
pub open spec fn leaf_under(leaves: Seq<LeafSite>) -> int {
    position(leaves.map_values(|l: LeafSite| l.over), true)
}

/// The first leaf of an area that the cursor is over, or the number of leaves.
pub open spec fn leaf_under_in(leaves: Seq<LeafSite>, area: u64) -> int {
    position(leaves.map_values(|l: LeafSite| l.over && l.area == area), true)
}

/// The leaf with this entity, or the number of leaves.
pub open spec fn leaf_index(leaves: Seq<LeafSite>, leaf: u64) -> int {
    position(leaves.map_values(|l: LeafSite| l.leaf == leaf), true)
}

/// The first tab of this panel, or the number of tabs.
pub open spec fn tab_index(tabs: Seq<TabSite>, id: Seq<char>) -> int {
    position(tabs.map_values(|t: TabSite| t.id == id), true)
}

/// The first area that is not a floating window's, or their number.
pub open spec fn docked_area(areas: Seq<AreaProbe>) -> int {
    position(areas.map_values(|a: AreaProbe| !a.floating), true)
}

fn find_area_under(areas: &Vec<AreaProbe>) -> (r: usize)
    ensures
        r == area_under(areas@),
        r <= areas@.len(),
{
    let test = |a: &AreaProbe| -> (b: bool)
        ensures
            b == a.over,
        {
            a.over
        };
    find_first(areas, test, Ghost(areas@.map_values(|a: AreaProbe| a.over)))
}

fn find_docked_area(areas: &Vec<AreaProbe>) -> (r: usize)
    ensures
        r == docked_area(areas@),
        r <= areas@.len(),
{
    let test = |a: &AreaProbe| -> (b: bool)
        ensures
            b == !a.floating,
        {
            !a.floating
        };
    find_first(areas, test, Ghost(areas@.map_values(|a: AreaProbe| !a.floating)))
}

fn find_bar_under(bars: &Vec<BarProbe>) -> (r: usize)
    ensures
        r == bar_under(bars@),
        r <= bars@.len(),
{
    let test = |p: &BarProbe| -> (b: bool)
        ensures
            b == p.over,
        {
            p.over
        };
    find_first(bars, test, Ghost(bars@.map_values(|b: BarProbe| b.over)))
}

fn find_leaf_under(leaves: &Vec<LeafProbe>) -> (r: usize)
    ensures
        r == leaf_under(leaf_sites(leaves@)),
        r <= leaves@.len(),
{
    let test = |p: &LeafProbe| -> (b: bool)
        ensures
            b == p@.over,
        {
            p.over
        };
    find_first(leaves, test, Ghost(leaf_sites(leaves@).map_values(|l: LeafSite| l.over)))
}

fn find_leaf_under_in(leaves: &Vec<LeafProbe>, area: u64) -> (r: usize)
    ensures
        r == leaf_under_in(leaf_sites(leaves@), area),
        r <= leaves@.len(),
        r < leaves@.len() ==> leaves@[r as int].area == area,
{
    let test = |p: &LeafProbe| -> (b: bool)
        ensures
            b == (p@.over && p@.area == area),
        {
            p.over && p.area == area
        };
    find_first(
        leaves,
        test,
        Ghost(leaf_sites(leaves@).map_values(|l: LeafSite| l.over && l.area == area)),
    )
}

/// The leaf with this entity, or the number of leaves.
pub fn find_leaf(leaves: &Vec<LeafProbe>, leaf: u64) -> (r: usize)
    ensures
        r == leaf_index(leaf_sites(leaves@), leaf),
        r <= leaves@.len(),
        r < leaves@.len() ==> leaves@[r as int].leaf == leaf,
{
    let test = |p: &LeafProbe| -> (b: bool)
        ensures
            b == (p@.leaf == leaf),
        {
            p.leaf == leaf
        };
    find_first(leaves, test, Ghost(leaf_sites(leaves@).map_values(|l: LeafSite| l.leaf == leaf)))
}

fn find_tab(tabs: &Vec<TabProbe>, id: &str) -> (r: usize)
    ensures
        r == tab_index(tab_sites(tabs@), id@),
        r <= tabs@.len(),
{
    let test = |p: &TabProbe| -> (b: bool)
        ensures
            b == (p@.id == id@),
        {
            same_text(&p.id, id)
        };
    find_first(tabs, test, Ghost(tab_sites(tabs@).map_values(|t: TabSite| t.id == id@)))
}

// ── Resolving a drop ──

/// What a drag hovers over.
pub struct DropTarget {
    pub action: Option<DropAction>,
    /// The overlay to show, the zone it previews, and whether it is an area's.
    pub overlay: Option<(u64, DropZone, bool)>,
    /// The insertion marker to show, and whether it stands right of its tab.
    pub marker: Option<(u64, bool)>,
}

/// What a drop target holds.
pub struct TargetModel {
    pub action: Option<DropModel>,
    pub overlay: Option<(u64, DropZone, bool)>,
    pub marker: Option<(u64, bool)>,
}

impl View for DropTarget {
    type V = TargetModel;

    open spec fn view(&self) -> TargetModel {
        TargetModel {
            action: match self.action {
                Some(action) => Some(action@),
                None => None,
            },
            overlay: self.overlay,
            marker: self.marker,
        }
    }
}

/// Nothing to drop on.
pub open spec fn no_target() -> TargetModel {
    TargetModel { action: None, overlay: None, marker: None }
}

/// The panel that stands for a leaf while `dragged` is on its way: the first
/// other one.
pub open spec fn stand_in(tabs: Seq<Seq<char>>, dragged: Seq<char>) -> Option<Seq<char>> {
    let i = position(tabs.map_values(differs_from(dragged)), true);
    if i < tabs.len() {
        Some(tabs[i])
    } else {
        None
    }
}

/// A drop on a leaf: a tab in its center, a split on its sides.
pub open spec fn leaf_target(site: LeafSite, dragged: Seq<char>) -> TargetModel {
    match (site.at, stand_in(site.tabs, dragged)) {
        (Some(Point { x, y }), Some(rep)) => {
            let zone = zone_at(x, y);
            TargetModel {
                action: Some(
                    if zone == DropZone::Center {
                        DropModel::Tab { area: site.area, rep, before: None }
                    } else {
                        DropModel::Split { area: site.area, rep, zone }
                    },
                ),
                overlay: Some((site.overlay, zone, false)),
                marker: None,
            }
        },
        _ => no_target(),
    }
}

/// Whether the panel's tab lies right of the cursor.
pub open spec fn right_of_cursor(tabs: Seq<TabSite>, id: Seq<char>) -> bool {
    let i = tab_index(tabs, id);
    i < tabs.len() && (tabs[i].offset matches Some(x) && x.less(Scalar { bits: ZERO_BITS }))
}

/// The first tab of a leaf that lies right of the cursor, or their number.
pub open spec fn insertion(leaf_tabs: Seq<Seq<char>>, tabs: Seq<TabSite>) -> int {
    position(leaf_tabs.map_values(|id: Seq<char>| right_of_cursor(tabs, id)), true)
}

/// A drop on a leaf's tab bar: before the first tab right of the cursor, or
/// after the last one.
pub open spec fn bar_target(
    site: LeafSite,
    tabs: Seq<TabSite>,
    dragged: Seq<char>,
) -> TargetModel {
    let at = insertion(site.tabs, tabs);
    match stand_in(site.tabs, dragged) {
        Some(rep) => if at < site.tabs.len() {
            TargetModel {
                action: Some(
                    DropModel::Tab { area: site.area, rep, before: Some(site.tabs[at]) },
                ),
                overlay: None,
                marker: Some((tabs[tab_index(tabs, site.tabs[at])].marker, false)),
            }
        } else {
            let last = tab_index(tabs, site.tabs.last());
            TargetModel {
                action: Some(DropModel::Tab { area: site.area, rep, before: None }),
                overlay: None,
                marker: if last < tabs.len() {
                    Some((tabs[last].marker, true))
                } else {
                    None
                },
            }
        },
        None => no_target(),
    }
}

/// The root hit under the cursor: the area, the zone and whether it is a corner.
pub open spec fn root_hit(areas: Seq<AreaProbe>) -> Option<(AreaProbe, DropZone, bool)> {
    let i = area_under(areas);
    if i < areas.len() {
        match areas[i].probe {
            Some(probe) => match probe.zone() {
                Some((zone, corner)) => Some((areas[i], zone, corner)),
                None => None,
            },
            None => None,
        }
    } else {
        None
    }
}

/// A drop against the edge of a whole area.
pub open spec fn root_target(area: u64, zone: DropZone, overlay: u64) -> TargetModel {
    TargetModel {
        action: Some(DropModel::RootSplit { area, zone }),
        overlay: Some((overlay, zone, true)),
        marker: None,
    }
}

/// What a drag hovers over inside its own window. Corners of the area come
/// first, then tab bars, then the edges of the area, then leaves. A group drag
/// can land neither on the bar nor on the body of the leaf being moved.
pub open spec fn window_target(
    areas: Seq<AreaProbe>,
    bars: Seq<BarProbe>,
    leaves: Seq<LeafSite>,
    tabs: Seq<TabSite>,
    dragged: Seq<char>,
    group: bool,
    source_leaf: u64,
) -> TargetModel {
    let bar = bar_under(bars);
    let over_bar = bar < bars.len() && !(group && bars[bar].leaf == source_leaf);
    let hit = root_hit(areas);
    let reachable = hit matches Some((area, _, _)) && area.overlay is Some;
    if reachable && (hit->0).2 {
        root_target((hit->0).0.area, (hit->0).1, (hit->0).0.overlay->0)
    } else if over_bar {
        let i = leaf_index(leaves, bars[bar].leaf);
        if i < leaves.len() {
            bar_target(leaves[i], tabs, dragged)
        } else {
            no_target()
        }
    } else if reachable {
        root_target((hit->0).0.area, (hit->0).1, (hit->0).0.overlay->0)
    } else {
        let i = leaf_under(leaves);
        if i < leaves.len() && !(group && leaves[i].leaf == source_leaf) {
            leaf_target(leaves[i], dragged)
        } else {
            no_target()
        }
    }
}

/// What a drag hovers over in another window, where only the leaves of one area
/// can take it.
pub open spec fn cross_window_target(
    leaves: Seq<LeafSite>,
    area: u64,
    dragged: Seq<char>,
) -> TargetModel {
    let i = leaf_under_in(leaves, area);
    if i < leaves.len() {
        leaf_target(leaves[i], dragged)
    } else {
        no_target()
    }
}

/// What a floating window's title-bar drag hovers over in the main window: a
/// leaf's tab bar, or the edges of the area. Leaf centers don't take it.
pub open spec fn redock_target(
    areas: Seq<AreaProbe>,
    bars: Seq<BarProbe>,
    leaves: Seq<LeafSite>,
) -> TargetModel {
    let a = docked_area(areas);
    let bar = bar_under(bars);
    if bar < bars.len() {
        let i = leaf_index(leaves, bars[bar].leaf);
        if i < leaves.len() && a < areas.len() && areas[a].area == leaves[i].area
            && leaves[i].tabs.len() > 0 {
            TargetModel {
                action: Some(
                    DropModel::Tab {
                        area: leaves[i].area,
                        rep: leaves[i].tabs[0],
                        before: None,
                    },
                ),
                overlay: Some((leaves[i].overlay, DropZone::Center, false)),
                marker: None,
            }
        } else {
            no_target()
        }
    } else if a < areas.len() {
        match areas[a].probe {
            Some(probe) => match probe.zone() {
                Some((zone, _)) => TargetModel {
                    action: Some(DropModel::RootSplit { area: areas[a].area, zone }),
                    overlay: match areas[a].overlay {
                        Some(overlay) => Some((overlay, zone, true)),
                        None => None,
                    },
                    marker: None,
                },
                None => no_target(),
            },
            None => no_target(),
        }
    } else {
        no_target()
    }
}

fn nothing() -> (r: DropTarget)
    ensures
        r@ == no_target(),
{
    DropTarget { action: None, overlay: None, marker: None }
}

fn find_stand_in(tabs: &Vec<String>, dragged: &str) -> (r: Option<String>)
    ensures
        option_text(r) == stand_in(texts(tabs@), dragged@),
{
    let test = |t: &String| -> (b: bool)
        ensures
            b == (t@ != dragged@),
        {
            !same_text(t, dragged)
        };
    let i: usize = find_first(
        tabs,
        test,
        Ghost(texts(tabs@).map_values(differs_from(dragged@))),
    );
    if i < tabs.len() {
        Some(tabs[i].clone())
    } else {
        None
    }
}

fn leaf_drop(site: &LeafProbe, dragged: &str) -> (r: DropTarget)
    ensures
        r@ == leaf_target(site@, dragged@),
{
    match site.at {
        Some(Point { x, y }) => {
            let zone = pick_zone(x, y);
            match find_stand_in(&site.tabs, dragged) {
                Some(rep) => {
                    let action = if zone == DropZone::Center {
                        DropAction::Tab { area: site.area, rep, before: None }
                    } else {
                        DropAction::Split { area: site.area, rep, zone }
                    };
                    DropTarget {
                        action: Some(action),
                        overlay: Some((site.overlay, zone, false)),
                        marker: None,
                    }
                },
                None => nothing(),
            }
        },
        None => nothing(),
    }
}

fn is_right_of_cursor(tabs: &Vec<TabProbe>, id: &str) -> (r: bool)
    ensures
        r == right_of_cursor(tab_sites(tabs@), id@),
{
    let i: usize = find_tab(tabs, id);
    if i < tabs.len() {
        match tabs[i].offset {
            Some(x) => x.lt(Scalar { bits: ZERO_BITS }),
            None => false,
        }
    } else {
        false
    }
}

fn bar_drop(site: &LeafProbe, tabs: &Vec<TabProbe>, dragged: &str) -> (r: DropTarget)
    ensures
        r@ == bar_target(site@, tab_sites(tabs@), dragged@),
{
    let test = |id: &String| -> (b: bool)
        ensures
            b == right_of_cursor(tab_sites(tabs@), id@),
        {
            is_right_of_cursor(tabs, id)
        };
    let at: usize = find_first(
        &site.tabs,
        test,
        Ghost(texts(site.tabs@).map_values(|id: Seq<char>| right_of_cursor(tab_sites(tabs@), id))),
    );
    match find_stand_in(&site.tabs, dragged) {
        Some(rep) => if at < site.tabs.len() {
            let i: usize = find_tab(tabs, &site.tabs[at]);
            DropTarget {
                action: Some(
                    DropAction::Tab { area: site.area, rep, before: Some(site.tabs[at].clone()) },
                ),
                overlay: None,
                marker: Some((tabs[i].marker, false)),
            }
        } else {
            proof {
                position_is_first(
                    texts(site.tabs@).map_values(differs_from(dragged@)),
                    true,
                );
            }
            let i: usize = find_tab(tabs, &site.tabs[site.tabs.len() - 1]);
            DropTarget {
                action: Some(DropAction::Tab { area: site.area, rep, before: None }),
                overlay: None,
                marker: if i < tabs.len() {
                    Some((tabs[i].marker, true))
                } else {
                    None
                },
            }
        },
        None => nothing(),
    }
}

fn find_root_hit(areas: &Vec<AreaProbe>) -> (r: Option<(AreaProbe, DropZone, bool)>)
    ensures
        r == root_hit(areas@),
{
    let i: usize = find_area_under(areas);
    if i < areas.len() {
        let area: AreaProbe = areas[i];
        match area.probe {
            Some(probe) => match pick_root_zone(probe) {
                Some((zone, corner)) => Some((area, zone, corner)),
                None => None,
            },
            None => None,
        }
    } else {
        None
    }
}

fn root_drop(area: u64, zone: DropZone, overlay: u64) -> (r: DropTarget)
    ensures
        r@ == root_target(area, zone, overlay),
{
    DropTarget {
        action: Some(DropAction::RootSplit { area, zone }),
        overlay: Some((overlay, zone, true)),
        marker: None,
    }
}

/// Resolve the drop under the cursor inside the drag's own window.
pub fn resolve_in_window(
    areas: &Vec<AreaProbe>,
    bars: &Vec<BarProbe>,
    leaves: &Vec<LeafProbe>,
    tabs: &Vec<TabProbe>,
    dragged: &str,
    group: bool,
    source_leaf: u64,
) -> (r: DropTarget)
    ensures
        r@ == window_target(
            areas@,
            bars@,
            leaf_sites(leaves@),
            tab_sites(tabs@),
            dragged@,
            group,
            source_leaf,
        ),
{
    let hit = find_root_hit(areas);
    let rail: Option<(u64, DropZone, u64, bool)> = match hit {
        Some((area, zone, corner)) => match area.overlay {
            Some(overlay) => Some((area.area, zone, overlay, corner)),
            None => None,
        },
        None => None,
    };
    if let Some((area, zone, overlay, corner)) = rail {
        if corner {
            return root_drop(area, zone, overlay);
        }
    }
    let bar: usize = find_bar_under(bars);
    if bar < bars.len() && !(group && bars[bar].leaf == source_leaf) {
        let i: usize = find_leaf(leaves, bars[bar].leaf);
        return if i < leaves.len() {
            bar_drop(&leaves[i], tabs, dragged)
        } else {
            nothing()
        };
    }
    if let Some((area, zone, overlay, _)) = rail {
        return root_drop(area, zone, overlay);
    }
    let i: usize = find_leaf_under(leaves);
    if i < leaves.len() && !(group && leaves[i].leaf == source_leaf) {
        leaf_drop(&leaves[i], dragged)
    } else {
        nothing()
    }
}

/// Resolve the drop under the cursor in another window. The source window holds
/// the mouse capture, so the leaves are hit-tested in screen space and only the
/// main window's area is a target.
pub fn resolve_across_windows(leaves: &Vec<LeafProbe>, area: u64, dragged: &str) -> (r: DropTarget)
    ensures
        r@ == cross_window_target(leaf_sites(leaves@), area, dragged@),
{
    let i: usize = find_leaf_under_in(leaves, area);
    if i < leaves.len() {
        leaf_drop(&leaves[i], dragged)
    } else {
        nothing()
    }
}

/// Resolve where a floating window dragged by its title bar would re-dock. Only
/// *small, deliberate* targets re-dock: a leaf's tab bar (dock as a tab there)
/// or the dock's root edge/corner bands (full-height/width split).
pub fn resolve_redock(
    areas: &Vec<AreaProbe>,
    bars: &Vec<BarProbe>,
    leaves: &Vec<LeafProbe>,
) -> (r: DropTarget)
    ensures
        r@ == redock_target(areas@, bars@, leaf_sites(leaves@)),
{
    let a: usize = find_docked_area(areas);
    let bar: usize = find_bar_under(bars);
    if bar < bars.len() {
        let i: usize = find_leaf(leaves, bars[bar].leaf);
        if i < leaves.len() && a < areas.len() && areas[a].area == leaves[i].area
            && leaves[i].tabs.len() > 0 {
            assert(texts(leaves@[i as int].tabs@)[0] == leaves@[i as int].tabs@[0]@);
            DropTarget {
                action: Some(
                    DropAction::Tab {
                        area: leaves[i].area,
                        rep: leaves[i].tabs[0].clone(),
                        before: None,
                    },
                ),
                overlay: Some((leaves[i].overlay, DropZone::Center, false)),
                marker: None,
            }
        } else {
            nothing()
        }
    } else if a < areas.len() {
        let area: AreaProbe = areas[a];
        match area.probe {
            Some(probe) => match pick_root_zone(probe) {
                Some((zone, _)) => {
                    let overlay = match area.overlay {
                        Some(overlay) => Some((overlay, zone, true)),
                        None => None,
                    };
                    DropTarget {
                        action: Some(DropAction::RootSplit { area: area.area, zone }),
                        overlay,
                        marker: None,
                    }
                },
                None => nothing(),
            },
            None => nothing(),
        }
    } else {
        nothing()
    }
}

/// Show `next` in place of `shown`. Returns what has to be hidden.
pub fn switch_shown(shown: &mut Option<u64>, next: Option<u64>) -> (r: Option<u64>)
    ensures
        *final(shown) == next,
        r == (if *old(shown) != next {
            *old(shown)
        } else {
            None
        }),
{
    let change: bool = *shown != next;
    if change {
        let gone = *shown;
        *shown = next;
        gone
    } else {
        None
    }
}

proof fn stand_in_found(tabs: Seq<Seq<char>>, dragged: Seq<char>)
    ensures
        stand_in(tabs, dragged) matches Some(rep) ==> rep != dragged && tabs.contains(rep),
{
    let flags = tabs.map_values(differs_from(dragged));
    position_is_first(flags, true);
    let i = position(flags, true);
    if i < tabs.len() {
        assert(flags[i]);
        assert(tabs[i] != dragged);
    }
}

/// A drop never names the dragged panel as the one that stands for its target.
pub proof fn target_is_not_the_dragged(
    areas: Seq<AreaProbe>,
    bars: Seq<BarProbe>,
    leaves: Seq<LeafSite>,
    tabs: Seq<TabSite>,
    dragged: Seq<char>,
    group: bool,
    source_leaf: u64,
)
    ensures
        match window_target(areas, bars, leaves, tabs, dragged, group, source_leaf).action {
            Some(DropModel::Split { rep, .. }) => rep != dragged,
            Some(DropModel::Tab { rep, .. }) => rep != dragged,
            _ => true,
        },
{
    if bar_under(bars) < bars.len() {
        let i = leaf_index(leaves, bars[bar_under(bars)].leaf);
        stand_in_found(leaves[i].tabs, dragged);
    }
    stand_in_found(leaves[leaf_under(leaves)].tabs, dragged);
}

} // verus!
