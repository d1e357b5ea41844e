//! Every tree the dock keeps: the primary dock's, the fixed area's and one per
//! floating window, with the flags that ask for a rebuild and the queues that
//! ask for windows to open and close.

use vstd::prelude::*;

use crate::dock::layout::{single, Layout};
use crate::dock::tree::DockTree;
use crate::text::{position, position_found, position_is_first};

verus! {

/// The live dock layout. Divider and tab drags mutate it in place; it persists
/// across rebuilds.
pub struct Dock {
    pub tree: DockTree,
}

impl Default for Dock {
    fn default() -> (r: Self)
        ensures
            r.tree@ == Layout::Empty,
    {
        Dock { tree: DockTree::Empty }
    }
}

/// A dock pinned to a fixed slot, with a tree of its own.
pub struct FixedDock {
    pub tree: DockTree,
    /// The area it renders into, once that has been spawned. `None` before then,
    /// and after it is despawned, until the next one is tracked.
    pub area: Option<u64>,
    pub dirty: bool,
}

impl Default for FixedDock {
    fn default() -> (r: Self)
        ensures
            r.tree@ == Layout::Empty,
            r.area is None,
            !r.dirty,
    {
        FixedDock { tree: DockTree::Empty, area: None, dirty: false }
    }
}

/// Set to have the primary dock rebuilt.
pub struct DockDirty(pub bool);

/// One floating dock window.
pub struct DockWindowState {
    pub window: u64,
    pub camera: u64,
    pub root: u64,
    pub area: u64,
    pub tree: DockTree,
    pub dirty: bool,
}

/// The open floating dock windows.
pub struct DockWindows(pub Vec<DockWindowState>);

/// A floating window to open.
pub struct DockWindowRequest {
    pub tree: DockTree,
    /// Top-left corner in physical screen pixels; placed by the system if `None`.
    pub position: Option<(i32, i32)>,
    pub size: (u32, u32),
    /// The new window follows the held cursor until release.
    pub grab: bool,
}

/// Floating windows waiting to be opened.
pub struct DockWindowRequests(pub Vec<DockWindowRequest>);

/// Floating windows waiting to be torn down.
pub struct DockWindowCloseRequests(pub Vec<u64>);

/// Everything the dock's gestures edit.
pub struct Docks {
    pub dock: Dock,
    pub fixed: FixedDock,
    pub dirty: DockDirty,
    pub windows: DockWindows,
    pub requests: DockWindowRequests,
    pub closes: DockWindowCloseRequests,
}

/// What a floating window holds.
pub struct WindowModel {
    pub window: u64,
    pub camera: u64,
    pub root: u64,
    pub area: u64,
    pub tree: Layout,
    pub dirty: bool,
}

/// What a request for a floating window holds.
pub struct RequestModel {
    pub tree: Layout,
    pub position: Option<(i32, i32)>,
    pub size: (u32, u32),
    pub grab: bool,
}

/// What the docks hold.
#[verifier::ext_equal]
pub struct DocksModel {
    pub primary: Layout,
    pub primary_dirty: bool,
    pub fixed: Layout,
    pub fixed_area: Option<u64>,
    pub fixed_dirty: bool,
    pub windows: Seq<WindowModel>,
    pub requests: Seq<RequestModel>,
    pub closes: Seq<u64>,
}

impl DockWindowState {
    pub open spec fn model(self) -> WindowModel {
        WindowModel {
            window: self.window,
            camera: self.camera,
            root: self.root,
            area: self.area,
            tree: self.tree@,
            dirty: self.dirty,
        }
    }
}

impl DockWindowRequest {
    pub open spec fn model(self) -> RequestModel {
        RequestModel {
            tree: self.tree@,
            position: self.position,
            size: self.size,
            grab: self.grab,
        }
    }
}

pub open spec fn window_models(list: Seq<DockWindowState>) -> Seq<WindowModel> {
    list.map_values(|w: DockWindowState| w.model())
}

pub open spec fn request_models(list: Seq<DockWindowRequest>) -> Seq<RequestModel> {
    list.map_values(|q: DockWindowRequest| q.model())
}

impl View for Docks {
    type V = DocksModel;

    open spec fn view(&self) -> DocksModel {
        DocksModel {
            primary: self.dock.tree@,
            primary_dirty: self.dirty.0,
            fixed: self.fixed.tree@,
            fixed_area: self.fixed.area,
            fixed_dirty: self.fixed.dirty,
            windows: window_models(self.windows.0@),
            requests: request_models(self.requests.0@),
            closes: self.closes.0@,
        }
    }
}

/// The index of the first floating window that hosts an area, or their number.
pub open spec fn host_index(windows: Seq<WindowModel>, area: u64) -> int {
    position(windows.map_values(|w: WindowModel| w.area), area)
}

/// The index of the first floating window with this window entity, or their
/// number.
pub open spec fn window_index(windows: Seq<WindowModel>, window: u64) -> int {
    position(windows.map_values(|w: WindowModel| w.window), window)
}

impl DocksModel {
    pub open spec fn is_fixed(self, area: u64) -> bool {
        self.fixed_area == Some(area)
    }

    /// Whether a floating window hosts the area.
    pub open spec fn is_floating(self, area: u64) -> bool {
        !self.is_fixed(area) && host_index(self.windows, area) < self.windows.len()
    }

    /// The tree that owns an area: the fixed dock's, a floating window's, or
    /// the primary dock's.
    pub open spec fn tree_of(self, area: u64) -> Layout {
        if self.is_fixed(area) {
            self.fixed
        } else if self.is_floating(area) {
            self.windows[host_index(self.windows, area)].tree
        } else {
            self.primary
        }
    }

    /// With that tree replaced.
    pub open spec fn with_tree(self, area: u64, tree: Layout) -> DocksModel {
        if self.is_fixed(area) {
            DocksModel { fixed: tree, ..self }
        } else if self.is_floating(area) {
            let i = host_index(self.windows, area);
            DocksModel {
                windows: self.windows.update(i, WindowModel { tree, ..self.windows[i] }),
                ..self
            }
        } else {
            DocksModel { primary: tree, ..self }
        }
    }

    /// With the area's tree flagged for a rebuild.
    pub open spec fn flagged(self, area: u64) -> DocksModel {
        if self.is_fixed(area) {
            DocksModel { fixed_dirty: true, ..self }
        } else if self.is_floating(area) {
            let i = host_index(self.windows, area);
            DocksModel {
                windows: self.windows.update(i, WindowModel { dirty: true, ..self.windows[i] }),
                ..self
            }
        } else {
            DocksModel { primary_dirty: true, ..self }
        }
    }

    /// With the area's floating window queued for close where its tree has no
    /// panels.
    pub open spec fn closed_if_empty(self, area: u64) -> DocksModel {
        let i = host_index(self.windows, area);
        if i < self.windows.len() && self.windows[i].tree.vacant() {
            DocksModel { closes: self.closes.push(self.windows[i].window), ..self }
        } else {
            self
        }
    }

    /// Without `panel` in the area's tree.
    pub open spec fn removed(self, area: u64, panel: Seq<char>) -> DocksModel {
        self.with_tree(area, self.tree_of(area).without_panel(panel))
    }

    /// With `panel` moved from its area into a floating window of its own.
    pub open spec fn torn_off(
        self,
        panel: Seq<char>,
        area: u64,
        position: Option<(i32, i32)>,
        size: (u32, u32),
        grab: bool,
    ) -> DocksModel {
        let out = self.removed(area, panel).flagged(area).closed_if_empty(area);
        DocksModel {
            requests: out.requests.push(
                RequestModel { tree: single(panel), position, size, grab },
            ),
            ..out
        }
    }

    /// With `panel` closed where it is in the area's tree.
    pub open spec fn tab_closed(self, area: u64, panel: Seq<char>) -> DocksModel {
        if self.tree_of(area).holds(panel) {
            self.removed(area, panel).flagged(area).closed_if_empty(area)
        } else {
            self
        }
    }

    /// With `panel` picked for the area: beside `sibling`, or as the whole tree.
    pub open spec fn picked(
        self,
        area: u64,
        sibling: Option<Seq<char>>,
        panel: Seq<char>,
    ) -> DocksModel {
        self.with_tree(
            area,
            match sibling {
                Some(s) => self.tree_of(area).tab_added(s, panel, None),
                None => single(panel),
            },
        ).flagged(area)
    }

    /// Whether some tree shows `panel`.
    pub open spec fn shows(self, panel: Seq<char>) -> bool {
        self.primary.shows(panel) || self.fixed.shows(panel) || exists|i: int|
            0 <= i < self.windows.len() && (#[trigger] self.windows[i]).tree.shows(panel)
    }

    /// Whether some tree, or a window about to open, holds `panel`.
    pub open spec fn holds(self, panel: Seq<char>) -> bool {
        self.primary.holds(panel) || self.fixed.holds(panel) || (exists|i: int|
            0 <= i < self.windows.len() && (#[trigger] self.windows[i]).tree.holds(panel)) || (
        exists|i: int|
            0 <= i < self.requests.len() && (#[trigger] self.requests[i]).tree.holds(panel))
    }

    /// Every tree is as the dock keeps it.
    pub open spec fn sound(self) -> bool {
        &&& self.primary.sound()
        &&& self.fixed.sound()
        &&& forall|i: int| 0 <= i < self.windows.len() ==> (#[trigger] self.windows[i]).tree.sound()
        &&& forall|i: int|
            0 <= i < self.requests.len() ==> (#[trigger] self.requests[i]).tree.sound()
    }
}

impl DockWindows {
    /// The index of the first window that hosts `area`, or their number.
    pub fn host_of(&self, area: u64) -> (r: usize)
        ensures
            r == host_index(window_models(self.0@), area),
            r <= self.0@.len(),
            r < self.0@.len() ==> self.0@[r as int].area == area,
    {
        let ghost models = window_models(self.0@);
        let ghost areas = models.map_values(|w: WindowModel| w.area);
        let mut i: usize = 0;
        while i < self.0.len()
            invariant
                i <= self.0@.len(),
                models == window_models(self.0@),
                areas == models.map_values(|w: WindowModel| w.area),
                forall|j: int| 0 <= j < i ==> areas[j] != area,
            decreases self.0@.len() - i,
        {
            assert(areas[i as int] == self.0@[i as int].area);
            if self.0[i].area == area {
                proof {
                    position_found(areas, area, i as int);
                }
                return i;
            }
            i += 1;
        }
        proof {
            position_found(areas, area, i as int);
        }
        i
    }

    /// The index of the first state of `window`, or their number.
    pub fn state_of(&self, window: u64) -> (r: usize)
        ensures
            r == window_index(window_models(self.0@), window),
            r <= self.0@.len(),
            r < self.0@.len() ==> self.0@[r as int].window == window,
    {
        let ghost models = window_models(self.0@);
        let ghost names = models.map_values(|w: WindowModel| w.window);
        let mut i: usize = 0;
        while i < self.0.len()
            invariant
                i <= self.0@.len(),
                models == window_models(self.0@),
                names == models.map_values(|w: WindowModel| w.window),
                forall|j: int| 0 <= j < i ==> names[j] != window,
            decreases self.0@.len() - i,
        {
            assert(names[i as int] == self.0@[i as int].window);
            if self.0[i].window == window {
                proof {
                    position_found(names, window, i as int);
                }
                return i;
            }
            i += 1;
        }
        proof {
            position_found(names, window, i as int);
        }
        i
    }

    /// Whether some floating window shows `id`.
    pub fn shows(&self, id: &str) -> (r: bool)
        ensures
            r == exists|i: int|
                0 <= i < self.0@.len() && (#[trigger] self.0@[i]).tree@.shows(id@),
    {
        let mut i: usize = 0;
        while i < self.0.len()
            invariant
                i <= self.0@.len(),
                forall|j: int| 0 <= j < i ==> !(#[trigger] self.0@[j]).tree@.shows(id@),
            decreases self.0@.len() - i,
        {
            if self.0[i].tree.is_active_tab(id) {
                return true;
            }
            i += 1;
        }
        false
    }
}

/// The OS window hosting dock area `area` (the floating window's, else the
/// primary window).
pub fn area_window(area: u64, wins: &DockWindows, primary: Option<u64>) -> (r: Option<u64>)
    ensures
        r == ({
            let models = window_models(wins.0@);
            let i = host_index(models, area);
            if i < models.len() {
                Some(models[i].window)
            } else {
                primary
            }
        }),
{
    let i: usize = wins.host_of(area);
    if i < wins.0.len() {
        Some(wins.0[i].window)
    } else {
        primary
    }
}

/// Whether `id` is the visible tab of some leaf in any of the docks that exist.
pub fn panel_visible_anywhere(
    id: &str,
    dock: Option<&Dock>,
    fixed: Option<&FixedDock>,
    wins: Option<&DockWindows>,
) -> (r: bool)
    ensures
        r == ((dock matches Some(d) && d.tree@.shows(id@)) || (fixed matches Some(f)
            && f.tree@.shows(id@)) || (wins matches Some(w) && exists|i: int|
            0 <= i < w.0@.len() && (#[trigger] w.0@[i]).tree@.shows(id@))),
{
    let in_dock = match dock {
        Some(d) => d.tree.is_active_tab(id),
        None => false,
    };
    let in_fixed = match fixed {
        Some(f) => f.tree.is_active_tab(id),
        None => false,
    };
    let in_windows = match wins {
        Some(w) => w.shows(id),
        None => false,
    };
    in_dock || in_fixed || in_windows
}

/// `true` while `id` is the active (visible) tab in its dock leaf, `false` when
/// it's a background tab or not in a dock at all. Gates a panel's per-frame
/// view work.
pub fn panel_active(
    id: &str,
    dock: Option<&Dock>,
    fixed: Option<&FixedDock>,
    wins: Option<&DockWindows>,
) -> (r: bool)
    ensures
        r == ((dock matches Some(d) && d.tree@.shows(id@)) || (fixed matches Some(f)
            && f.tree@.shows(id@)) || (wins matches Some(w) && exists|i: int|
            0 <= i < w.0@.len() && (#[trigger] w.0@[i]).tree@.shows(id@))),
{
    panel_visible_anywhere(id, dock, fixed, wins)
}

impl Docks {
    /// The live tree owning dock area `area`: the fixed dock's if it is that
    /// area, a floating window's if `area` belongs to one, else the primary's.
    ///
    /// The primary is the fallback rather than a match. That is why the fixed
    /// area is checked before falling through: every drag, drop, tab switch and
    /// close routes through this one function.
    pub fn area_tree_mut(&mut self, area: u64) -> (r: &mut DockTree)
        ensures
            r@ == old(self)@.tree_of(area),
            final(self)@ == old(self)@.with_tree(area, final(r)@),
    {
        if self.fixed.area == Some(area) {
            return &mut self.fixed.tree;
        }
        let i: usize = self.windows.host_of(area);
        if i < self.windows.0.len() {
            return &mut self.windows.0[i].tree;
        }
        &mut self.dock.tree
    }

    /// Flag `area`'s tree for rebuild: the primary dock's flag, the fixed
    /// area's, or that of the floating window.
    pub fn flag_area_dirty(&mut self, area: u64)
        ensures
            final(self)@ == old(self)@.flagged(area),
    {
        if self.fixed.area == Some(area) {
            self.fixed.dirty = true;
            return;
        }
        let i: usize = self.windows.host_of(area);
        if i < self.windows.0.len() {
            self.windows.0[i].dirty = true;
        } else {
            self.dirty.0 = true;
        }
    }

    /// If `area` belongs to a floating dock window whose tree just emptied,
    /// queue that window for close. An empty floating shell has no way to gain
    /// panels, so leaving it open is just clutter.
    pub fn close_empty_dock_window(&mut self, area: u64)
        ensures
            final(self)@ == old(self)@.closed_if_empty(area),
    {
        let i: usize = self.windows.host_of(area);
        if i < self.windows.0.len() && self.windows.0[i].tree.is_empty() {
            self.closes.0.push(self.windows.0[i].window);
        }
    }

    /// Note a fixed area that just appeared and ask for it to be filled.
    pub fn track_fixed_dock_area(&mut self, added: Option<u64>)
        ensures
            final(self)@ == (match added {
                Some(area) => DocksModel {
                    fixed_area: Some(area),
                    fixed_dirty: true,
                    ..old(self)@
                },
                None => old(self)@,
            }),
    {
        if let Some(area) = added {
            self.fixed.area = Some(area);
            self.fixed.dirty = true;
        }
    }

    /// Forget the fixed area where it is the one that was despawned.
    pub fn forget_fixed_dock_area(&mut self, gone: u64)
        ensures
            final(self)@ == (if old(self)@.is_fixed(gone) {
                DocksModel { fixed_area: None, ..old(self)@ }
            } else {
                old(self)@
            }),
    {
        if let Some(area) = self.fixed.area {
            if area == gone {
                self.fixed.area = None;
            }
        }
    }

    /// Show `panel` in the primary dock, adding it where it is missing.
    pub fn open_or_focus_panel(&mut self, panel: &str)
        ensures
            final(self)@ == (DocksModel {
                primary: old(self)@.primary.adopted(panel@),
                primary_dirty: true,
                ..old(self)@
            }),
    {
        self.dock.tree.adopt_panel(panel);
        self.dirty.0 = true;
    }

    /// Undock `id` from `source_area` into a new floating window: remove it from
    /// the owning tree, flag that tree, close its window where it emptied, and
    /// queue the window request. `grab` makes the new window follow the held
    /// cursor until release (the drag gestures); the context-menu path passes
    /// `false` so the window just opens under the cursor. Shared by Ctrl+drag,
    /// the header grip, and the right-click menu.
    pub fn tear_off_panel(
        &mut self,
        id: &str,
        source_area: u64,
        position: Option<(i32, i32)>,
        size: (u32, u32),
        grab: bool,
    )
        ensures
            final(self)@ == old(self)@.torn_off(id@, source_area, position, size, grab),
    {
        self.area_tree_mut(source_area).remove_panel(id);
        self.flag_area_dirty(source_area);
        self.close_empty_dock_window(source_area);
        let ghost before = self@.requests;
        let tree = DockTree::leaf(id.to_owned());
        self.requests.0.push(DockWindowRequest { tree, position, size, grab });
        assert(self@.requests == before.push(
            RequestModel { tree: single(id@), position, size, grab },
        ));
    }

    /// Close a tab: remove that panel from its dock tree (primary, fixed or a
    /// floating window's; closing a floating window's last tab closes the
    /// window). Returns whether it was there.
    pub fn close_tab(&mut self, area: u64, id: &str) -> (r: bool)
        ensures
            r == old(self)@.tree_of(area).holds(id@),
            final(self)@ == old(self)@.tab_closed(area, id@),
    {
        let removed = self.area_tree_mut(area).remove_panel(id);
        if removed {
            self.flag_area_dirty(area);
            self.close_empty_dock_window(area);
        } else {
            proof {
                with_own_tree(old(self)@, area);
            }
        }
        removed
    }

    /// Add a panel picked from the `+` menu: as a tab beside `sibling`, the
    /// first tab of the leaf the menu was opened on, or as the root leaf where
    /// there is no such leaf yet.
    pub fn add_picked_panel(&mut self, area: u64, sibling: Option<&str>, id: &str)
        ensures
            final(self)@ == old(self)@.picked(
                area,
                match sibling {
                    Some(s) => Some(s@),
                    None => None,
                },
                id@,
            ),
    {
        let tree = self.area_tree_mut(area);
        match sibling {
            Some(s) => {
                tree.add_tab(s, id.to_owned());
            },
            None => {
                *tree = DockTree::leaf(id.to_owned());
            },
        }
        self.flag_area_dirty(area);
    }

    /// Make `id` the visible tab of its leaf in the area's tree.
    pub fn switch_tab(&mut self, area: u64, id: &str)
        ensures
            final(self)@ == old(self)@.with_tree(area, old(self)@.tree_of(area).activated(id@)),
    {
        self.area_tree_mut(area).set_active_tab(id);
    }
}

/// Writing an area's own tree back changes nothing.
pub proof fn with_own_tree(docks: DocksModel, area: u64)
    ensures
        docks.with_tree(area, docks.tree_of(area)) == docks,
{
    let i = host_index(docks.windows, area);
    position_is_first(docks.windows.map_values(|w: WindowModel| w.area), area);
    if docks.is_floating(area) {
        assert(docks.windows.update(i, docks.windows[i]) =~= docks.windows);
    }
}

} // verus!
