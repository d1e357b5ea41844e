//! Tab drags: from the press on a tab or grip to the drop.

use vstd::prelude::*;

use crate::dock::docks::{
    area_window, host_index, window_models, DockWindows, Docks, DocksModel, WindowModel,
};
use crate::dock::drop::{
    insert_action, insert_leaf_action, option_str, reordered, reordered_tabs, DropAction, DropModel,
};
use crate::dock::layout::leaf_of_holds;
use crate::dock::target::{
    find_leaf, leaf_index, leaf_sites, tab_sites, LeafProbe, LeafSite, TabProbe, TabSite,
};
use crate::scalar::{Point, Scalar};
use crate::text::{find_first, list_contains, position, texts};

verus! {

/// A press turns into a drag once the cursor moved further than this: `6.0`.
pub const TAB_DRAG_THRESHOLD_BITS: u32 = 0x40C0_0000;

/// What the outside sees of a tab drag. A consumer that wants to handle the
/// drop itself sets `claim`; on release the dock then skips its own
/// re-dock/tab-switch and leaves the panel to the claimant.
pub struct DockDragWatch {
    /// Id of the panel currently being dragged (`None` when no active drag).
    pub dragging: Option<String>,
    /// Set by an external consumer to take ownership of the pending drop.
    pub claim: bool,
}

/// A press on a tab or on a leaf's grip, and the drag it turned into.
pub struct TabDragState {
    pub id: String,
    pub leaf: u64,
    /// True when the drag started on the leaf's grip: the whole tab set moves
    /// as one unit instead of just `id` (which is then the leaf's active tab).
    pub group: bool,
    /// The dock area the drag started in: the tree the panel is removed from.
    pub source_area: u64,
    /// The OS window hosting `source_area`.
    pub source_window: u64,
    /// Cursor at press, in the source window's logical coords.
    pub start_cursor: Point,
    pub active: bool,
    pub action: Option<DropAction>,
}

/// What a tab drag holds.
pub struct DragModel {
    pub id: Seq<char>,
    pub leaf: u64,
    pub group: bool,
    pub source_area: u64,
    pub source_window: u64,
    pub start_cursor: Point,
    pub active: bool,
    pub action: Option<DropModel>,
}

pub open spec fn action_model(action: Option<DropAction>) -> Option<DropModel> {
    match action {
        Some(a) => Some(a@),
        None => None,
    }
}

impl View for TabDragState {
    type V = DragModel;

    open spec fn view(&self) -> DragModel {
        DragModel {
            id: self.id@,
            leaf: self.leaf,
            group: self.group,
            source_area: self.source_area,
            source_window: self.source_window,
            start_cursor: self.start_cursor,
            active: self.active,
            action: action_model(self.action),
        }
    }
}

/// The tab drag in progress, if any.
pub struct TabDrag(pub Option<TabDragState>);

pub open spec fn drag_model(drag: TabDrag) -> Option<DragModel> {
    match drag.0 {
        Some(state) => Some(state@),
        None => None,
    }
}

// ── Press ──

/// A leaf's grip.
#[derive(Clone, Copy, Debug, PartialEq, Eq, Structural)]
pub struct GripProbe {
    pub leaf: u64,
    pub pressed: bool,
}

/// The cursor in one window.
#[derive(Clone, Copy, Debug, PartialEq, Eq, Structural)]
pub struct WindowCursor {
    pub window: u64,
    /// `None` while the cursor is outside the window.
    pub cursor: Option<Point>,
}

/// The first pressed grip, or their number.
pub open spec fn pressed_grip(grips: Seq<GripProbe>) -> int {
    position(grips.map_values(|g: GripProbe| g.pressed), true)
}

/// The first pressed tab, or their number.
pub open spec fn pressed_tab(tabs: Seq<TabSite>) -> int {
    position(tabs.map_values(|t: TabSite| t.pressed), true)
}

/// The panel that stands for a whole leaf: its active tab, or its first.
pub open spec fn lead_tab(site: LeafSite) -> Option<Seq<char>> {
    if site.tabs.contains(site.active) {
        Some(site.active)
    } else if site.tabs.len() > 0 {
        Some(site.tabs[0])
    } else {
        None
    }
}

/// What a pressed grip picks up.
pub open spec fn grip_pick(
    grips: Seq<GripProbe>,
    leaves: Seq<LeafSite>,
) -> Option<(Seq<char>, u64, bool)> {
    let g = pressed_grip(grips);
    if g < grips.len() {
        let i = leaf_index(leaves, grips[g].leaf);
        if i < leaves.len() {
            match lead_tab(leaves[i]) {
                Some(id) => Some((id, grips[g].leaf, true)),
                None => None,
            }
        } else {
            None
        }
    } else {
        None
    }
}

/// What a press picks up: (panel, leaf, whole leaf). A grip press outranks a
/// tab press.
pub open spec fn press_pick(
    grips: Seq<GripProbe>,
    tabs: Seq<TabSite>,
    leaves: Seq<LeafSite>,
) -> Option<(Seq<char>, u64, bool)> {
    match grip_pick(grips, leaves) {
        Some(pick) => Some(pick),
        None => {
            let t = pressed_tab(tabs);
            if t < tabs.len() {
                Some((tabs[t].id, tabs[t].leaf, false))
            } else {
                None
            }
        },
    }
}

/// The cursor of a window, where it is known.
pub open spec fn cursor_of(cursors: Seq<WindowCursor>, window: u64) -> Option<Point> {
    let i = position(cursors.map_values(|c: WindowCursor| c.window == window), true);
    if i < cursors.len() {
        cursors[i].cursor
    } else {
        None
    }
}

pub open spec fn hosting_window(
    windows: Seq<WindowModel>,
    area: u64,
    primary: Option<u64>,
) -> Option<u64> {
    let i = host_index(windows, area);
    if i < windows.len() {
        Some(windows[i].window)
    } else {
        primary
    }
}

/// The drag a press starts: one where the picked leaf, its window and the
/// cursor in that window are known.
pub open spec fn press_drag(
    grips: Seq<GripProbe>,
    tabs: Seq<TabSite>,
    leaves: Seq<LeafSite>,
    windows: Seq<WindowModel>,
    primary: Option<u64>,
    cursors: Seq<WindowCursor>,
) -> Option<DragModel> {
    match press_pick(grips, tabs, leaves) {
        Some((id, leaf, group)) => {
            let i = leaf_index(leaves, leaf);
            if i < leaves.len() {
                let area = leaves[i].area;
                match hosting_window(windows, area, primary) {
                    Some(window) => match cursor_of(cursors, window) {
                        Some(cursor) => Some(
                            DragModel {
                                id,
                                leaf,
                                group,
                                source_area: area,
                                source_window: window,
                                start_cursor: cursor,
                                active: false,
                                action: None,
                            },
                        ),
                        None => None,
                    },
                    None => None,
                }
            } else {
                None
            }
        },
        None => None,
    }
}

fn find_pick(grips: &Vec<GripProbe>, tabs: &Vec<TabProbe>, leaves: &Vec<LeafProbe>) -> (r: Option<
    (String, u64, bool),
>)
    ensures
        match r {
            Some((id, leaf, group)) => press_pick(grips@, tab_sites(tabs@), leaf_sites(leaves@))
                == Some((id@, leaf, group)),
            None => press_pick(grips@, tab_sites(tabs@), leaf_sites(leaves@)) is None,
        },
{
    let grip_test = |g: &GripProbe| -> (b: bool)
        ensures
            b == g.pressed,
        {
            g.pressed
        };
    let g: usize = find_first(
        grips,
        grip_test,
        Ghost(grips@.map_values(|g: GripProbe| g.pressed)),
    );
    if g < grips.len() {
        let i: usize = find_leaf(leaves, grips[g].leaf);
        if i < leaves.len() {
            let site = &leaves[i];
            if list_contains(&site.tabs, &site.active) {
                return Some((site.active.clone(), grips[g].leaf, true));
            }
            if site.tabs.len() > 0 {
                assert(texts(site.tabs@)[0] == site.tabs@[0]@);
                return Some((site.tabs[0].clone(), grips[g].leaf, true));
            }
        }
    }
    let tab_test = |t: &TabProbe| -> (b: bool)
        ensures
            b == t@.pressed,
        {
            t.pressed
        };
    let t: usize = find_first(
        tabs,
        tab_test,
        Ghost(tab_sites(tabs@).map_values(|t: TabSite| t.pressed)),
    );
    if t < tabs.len() {
        Some((tabs[t].id.clone(), tabs[t].leaf, false))
    } else {
        None
    }
}

fn find_cursor(cursors: &Vec<WindowCursor>, window: u64) -> (r: Option<Point>)
    ensures
        r == cursor_of(cursors@, window),
{
    let test = |c: &WindowCursor| -> (b: bool)
        ensures
            b == (c.window == window),
        {
            c.window == window
        };
    let i: usize = find_first(
        cursors,
        test,
        Ghost(cursors@.map_values(|c: WindowCursor| c.window == window)),
    );
    if i < cursors.len() {
        cursors[i].cursor
    } else {
        None
    }
}

impl TabDrag {
    /// The left button went down: pick up the pressed grip's leaf or the
    /// pressed tab, unless a drag is already in progress.
    pub fn press(
        &mut self,
        grips: &Vec<GripProbe>,
        tabs: &Vec<TabProbe>,
        leaves: &Vec<LeafProbe>,
        wins: &DockWindows,
        primary: Option<u64>,
        cursors: &Vec<WindowCursor>,
    )
        ensures
            drag_model(*final(self)) == (match drag_model(*old(self)) {
                Some(drag) => Some(drag),
                None => press_drag(
                    grips@,
                    tab_sites(tabs@),
                    leaf_sites(leaves@),
                    window_models(wins.0@),
                    primary,
                    cursors@,
                ),
            }),
    {
        if self.0.is_some() {
            return;
        }
        if let Some((id, leaf, group)) = find_pick(grips, tabs, leaves) {
            let i: usize = find_leaf(leaves, leaf);
            if i < leaves.len() {
                let source_area: u64 = leaves[i].area;
                if let Some(source_window) = area_window(source_area, wins, primary) {
                    if let Some(start_cursor) = find_cursor(cursors, source_window) {
                        self.0 = Some(
                            TabDragState {
                                id,
                                leaf,
                                group,
                                source_area,
                                source_window,
                                start_cursor,
                                active: false,
                                action: None,
                            },
                        );
                    }
                }
            }
        }
    }
}

// ── Motion ──

/// What a frame of a held press comes to.
#[derive(Clone, Copy, Debug, PartialEq, Eq, Structural)]
pub enum DragStep {
    /// No press, or one that has not moved far enough yet.
    Wait,
    /// Tear the panel off into a floating window; the drag is over.
    TearOff,
    /// The press just became a drag. Group drags don't publish the panel: the
    /// claim of an external target moves a single panel, which would tear the
    /// group apart.
    Start { publish: bool },
    /// The drag goes on.
    Go,
}

/// How far a press has come: `moved` is its distance from where it started,
/// where the cursor is still in its window.
pub open spec fn step_of(
    drag: Option<DragModel>,
    moved: Option<Scalar>,
    control: bool,
) -> DragStep {
    match drag {
        None => DragStep::Wait,
        Some(state) => if state.active {
            DragStep::Go
        } else {
            match moved {
                None => DragStep::Wait,
                Some(distance) => if distance.at_most(
                    Scalar { bits: TAB_DRAG_THRESHOLD_BITS },
                ) {
                    DragStep::Wait
                } else if !state.group && control {
                    DragStep::TearOff
                } else {
                    DragStep::Start { publish: !state.group }
                },
            }
        },
    }
}

impl TabDrag {
    /// Advance a held press by one frame. Ctrl+drag tears a single panel off
    /// instead of re-docking it; not for group drags, because floating windows
    /// are single-panel hosts. A tear-off hands the drag back, so that the
    /// caller can carry it out.
    pub fn step(&mut self, moved: Option<Scalar>, control: bool) -> (r: (
        DragStep,
        Option<TabDragState>,
    ))
        ensures
            r.0 == step_of(drag_model(*old(self)), moved, control),
            match r.0 {
                DragStep::TearOff => {
                    &&& final(self).0 is None
                    &&& r.1 matches Some(state)
                    &&& Some(state@) == drag_model(*old(self))
                },
                DragStep::Start { .. } => {
                    &&& r.1 is None
                    &&& drag_model(*old(self)) matches Some(before)
                    &&& drag_model(*final(self)) == Some(DragModel { active: true, ..before })
                },
                _ => r.1 is None && *final(self) == *old(self),
            },
    {
        let step = match &self.0 {
            None => DragStep::Wait,
            Some(state) => if state.active {
                DragStep::Go
            } else {
                match moved {
                    None => DragStep::Wait,
                    Some(distance) => if distance.le(Scalar { bits: TAB_DRAG_THRESHOLD_BITS }) {
                        DragStep::Wait
                    } else if !state.group && control {
                        DragStep::TearOff
                    } else {
                        DragStep::Start { publish: !state.group }
                    },
                }
            },
        };
        let mut torn: Option<TabDragState> = None;
        match step {
            DragStep::TearOff => {
                torn = self.0.take();
            },
            DragStep::Start { .. } => {
                if let Some(state) = &mut self.0 {
                    state.active = true;
                }
            },
            _ => {},
        }
        (step, torn)
    }

    /// Note what the drag hovers over now.
    pub fn hover(&mut self, action: Option<DropAction>)
        ensures
            drag_model(*final(self)) == (match drag_model(*old(self)) {
                Some(before) => Some(DragModel { action: action_model(action), ..before }),
                None => None,
            }),
    {
        if let Some(state) = &mut self.0 {
            state.action = action;
        }
    }
}

// ── Release ──

/// What is left to do after a release.
pub enum Released {
    Nothing,
    /// A plain click: switch the leaf to this panel.
    Switch { leaf: u64, id: String },
    /// The leaf's tabs are in this order now; nothing needs a rebuild.
    Reorder { leaf: u64, tabs: Vec<String> },
}

/// What a release outcome holds.
pub enum ReleasedModel {
    Nothing,
    Switch { leaf: u64, id: Seq<char> },
    Reorder { leaf: u64, tabs: Seq<Seq<char>> },
}

impl View for Released {
    type V = ReleasedModel;

    open spec fn view(&self) -> ReleasedModel {
        match self {
            Released::Nothing => ReleasedModel::Nothing,
            Released::Switch { leaf, id } => ReleasedModel::Switch { leaf: *leaf, id: id@ },
            Released::Reorder { leaf, tabs } => ReleasedModel::Reorder {
                leaf: *leaf,
                tabs: texts(tabs@),
            },
        }
    }
}

/// A drop that only changes the order of tabs in the leaf it came from.
pub open spec fn in_place(drag: DragModel, leaf_tabs: Option<Seq<Seq<char>>>) -> bool {
    drag.action matches Some(DropModel::Tab { area, rep, .. }) && area == drag.source_area && (
    leaf_tabs matches Some(tabs) && tabs.contains(rep))
}

impl DocksModel {
    /// With an area that took a drop flagged, and the one it came from too
    /// where it is another: closed, then, if that emptied its window.
    pub open spec fn settled(self, source: u64, target: u64) -> DocksModel {
        if source == target {
            self.flagged(target)
        } else {
            self.flagged(target).flagged(source).closed_if_empty(source)
        }
    }

    /// With the panel moved from its tree to where the drop points.
    pub open spec fn panel_moved(self, id: Seq<char>, source: u64, action: DropModel) -> DocksModel {
        let out = self.removed(source, id);
        out.with_tree(action.area(), out.tree_of(action.area()).dropped(id, action))
    }

    /// With the panel's whole leaf moved to where the drop points.
    pub open spec fn leaf_moved(self, id: Seq<char>, source: u64, action: DropModel) -> DocksModel {
        let tree = self.tree_of(source);
        let out = self.with_tree(source, tree.without_leaf(id));
        out.with_tree(
            action.area(),
            out.tree_of(action.area()).leaf_dropped(tree.leaf_of(id)->0, action),
        )
    }

    /// What a release makes of the docks.
    pub open spec fn released(
        self,
        drag: DragModel,
        claim: bool,
        leaf_tabs: Option<Seq<Seq<char>>>,
    ) -> DocksModel {
        match drag.action {
            Some(action) if !claim && drag.active => if drag.group {
                if self.tree_of(drag.source_area).holds(drag.id) {
                    self.leaf_moved(drag.id, drag.source_area, action).settled(
                        drag.source_area,
                        action.area(),
                    )
                } else {
                    self
                }
            } else if in_place(drag, leaf_tabs) {
                self.panel_moved(drag.id, drag.source_area, action)
            } else {
                self.panel_moved(drag.id, drag.source_area, action).settled(
                    drag.source_area,
                    action.area(),
                )
            },
            _ => self,
        }
    }
}

/// What a release leaves to do.
pub open spec fn release_outcome(
    drag: DragModel,
    claim: bool,
    leaf_tabs: Option<Seq<Seq<char>>>,
) -> ReleasedModel {
    if claim {
        ReleasedModel::Nothing
    } else if !drag.active {
        if drag.group {
            ReleasedModel::Nothing
        } else {
            ReleasedModel::Switch { leaf: drag.leaf, id: drag.id }
        }
    } else if !drag.group && in_place(drag, leaf_tabs) {
        ReleasedModel::Reorder {
            leaf: drag.leaf,
            tabs: reordered_tabs(
                leaf_tabs->0,
                drag.id,
                match drag.action {
                    Some(DropModel::Tab { before, .. }) => before,
                    _ => None,
                },
            ),
        }
    } else {
        ReleasedModel::Nothing
    }
}

/// The tabs of an optional leaf.
pub open spec fn tabs_of(leaf_tabs: Option<&Vec<String>>) -> Option<Seq<Seq<char>>> {
    match leaf_tabs {
        Some(tabs) => Some(texts(tabs@)),
        None => None,
    }
}

impl TabDrag {
    /// The left button went up: end the drag and carry out its drop. A claimed
    /// drop belongs to the claimant, so the dock does nothing. A group drag
    /// takes the WHOLE leaf out (tab set + active index travel together) and
    /// inserts it. A reorder within the same leaf only changes tab order, not
    /// structure, so nothing is flagged for a rebuild. Dragging the last panel
    /// out of a floating window leaves an empty shell, which is closed.
    ///
    /// `leaf_tabs` are the tabs of the leaf the drag started on, if it is still
    /// there.
    pub fn release(
        &mut self,
        docks: &mut Docks,
        watch: &mut DockDragWatch,
        leaf_tabs: Option<&Vec<String>>,
    ) -> (r: Released)
        ensures
            final(self).0 is None,
            final(watch).dragging is None,
            !final(watch).claim,
            match drag_model(*old(self)) {
                Some(drag) => {
                    &&& final(docks)@ == old(docks)@.released(
                        drag,
                        old(watch).claim,
                        tabs_of(leaf_tabs),
                    )
                    &&& r@ == release_outcome(drag, old(watch).claim, tabs_of(leaf_tabs))
                },
                None => final(docks)@ == old(docks)@ && r@ == ReleasedModel::Nothing,
            },
    {
        let claim: bool = watch.claim;
        watch.dragging = None;
        watch.claim = false;
        let state = match self.0.take() {
            Some(state) => state,
            None => {
                return Released::Nothing;
            },
        };
        if claim {
            return Released::Nothing;
        }
        if !state.active {
            return if state.group {
                Released::Nothing
            } else {
                Released::Switch { leaf: state.leaf, id: state.id }
            };
        }
        let action = match state.action {
            Some(action) => action,
            None => {
                return Released::Nothing;
            },
        };
        let target: u64 = action.area();
        let source: u64 = state.source_area;
        if state.group {
            proof {
                leaf_of_holds(docks@.tree_of(source), state.id@);
                crate::dock::docks::with_own_tree(docks@, source);
            }
            let taken = docks.area_tree_mut(source).take_leaf_containing(&state.id);
            if let Some(leaf_tree) = taken {
                insert_leaf_action(docks.area_tree_mut(target), leaf_tree, &action);
                settle(docks, source, target);
            }
            return Released::Nothing;
        }
        let reorder: Option<Vec<String>> = match (&action, leaf_tabs) {
            (DropAction::Tab { area, rep, before }, Some(tabs)) => if *area == source
                && list_contains(tabs, rep) {
                Some(reordered(tabs.as_slice(), &state.id, option_str(before)))
            } else {
                None
            },
            _ => None,
        };
        docks.area_tree_mut(source).remove_panel(&state.id);
        insert_action(docks.area_tree_mut(target), &state.id, &action);
        match reorder {
            Some(tabs) => Released::Reorder { leaf: state.leaf, tabs },
            None => {
                settle(docks, source, target);
                Released::Nothing
            },
        }
    }
}

fn settle(docks: &mut Docks, source: u64, target: u64)
    ensures
        final(docks)@ == old(docks)@.settled(source, target),
{
    docks.flag_area_dirty(target);
    if source != target {
        docks.flag_area_dirty(source);
        docks.close_empty_dock_window(source);
    }
}

} // verus!
