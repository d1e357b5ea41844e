//! Floating dock windows: opening, dragging and closing them.

use vstd::prelude::*;

use crate::dock::docks::{
    request_models, window_index, window_models, DockWindowRequest, DockWindowState, Docks,
    DocksModel, RequestModel, WindowModel,
};
use crate::dock::drag::action_model;
use crate::dock::drop::{
    drop_loses_none, insert_action, removing_keeps_others, DropAction, DropModel,
};
use crate::dock::keep::{editing_one_tree, flagging_moves_nothing, tree_of_sound};
use crate::dock::laws::{adopting_all_loses_none, present_is_collected, remove_takes_one};
use crate::dock::layout::Layout;
use crate::dock::tree::DockTree;
use crate::scalar::{Point, Scalar};
use crate::text::{find_first, position_is_first, texts};

verus! {

/// Where a torn-off window is held: `60.0` px from its left edge.
pub const GRAB_X_BITS: u32 = 0x4270_0000;

/// Half the height of a floating window's title bar: `13.0` px.
pub const GRAB_Y_BITS: u32 = 0x4150_0000;

/// A floating window following the cursor.
pub struct FloatDragState {
    pub window: u64,
    /// Where inside the window it is held, in logical px.
    pub grab: Point,
    /// Releasing over the main dock docks the window's panel there. Not for a
    /// tear-off: its release point is still over the tab bar the panel just
    /// left, so re-docking there would undo the gesture.
    pub redock: bool,
    pub action: Option<DropAction>,
    pub shown_overlay: Option<u64>,
}

/// The floating window drag in progress, if any.
pub struct FloatDrag(pub Option<FloatDragState>);

/// What a floating window drag holds.
pub struct FloatModel {
    pub window: u64,
    pub grab: Point,
    pub redock: bool,
    pub action: Option<DropModel>,
    pub shown_overlay: Option<u64>,
}

pub open spec fn float_model(drag: FloatDrag) -> Option<FloatModel> {
    match drag.0 {
        Some(state) => Some(
            FloatModel {
                window: state.window,
                grab: state.grab,
                redock: state.redock,
                action: action_model(state.action),
                shown_overlay: state.shown_overlay,
            },
        ),
        None => None,
    }
}

/// A drag of a window that nothing has happened to yet.
pub open spec fn fresh_float(window: u64, grab: Point, redock: bool) -> FloatModel {
    FloatModel { window, grab, redock, action: None, shown_overlay: None }
}

/// Where a torn-off window is held.
pub open spec fn default_grab() -> Point {
    Point { x: Scalar { bits: GRAB_X_BITS }, y: Scalar { bits: GRAB_Y_BITS } }
}

impl DocksModel {
    /// Requests wait until fonts exist, and in the editor until the splash is
    /// over. `splash` is whether the editor proper is showing, where there is a
    /// splash at all.
    pub open spec fn may_open(self, fonts: bool, splash: Option<bool>) -> bool {
        fonts && splash != Some(false)
    }

    /// With a requested window open.
    pub open spec fn opened(
        self,
        request: RequestModel,
        window: u64,
        camera: u64,
        root: u64,
        area: u64,
    ) -> DocksModel {
        DocksModel {
            windows: self.windows.push(
                WindowModel { window, camera, root, area, tree: request.tree, dirty: true },
            ),
            ..self
        }
    }

    /// With a floating window's lead panel docked where the drag points, and the
    /// window queued for close.
    pub open spec fn redocked(self, window: u64, action: DropModel) -> DocksModel {
        let i = window_index(self.windows, window);
        if i < self.windows.len() && self.windows[i].tree.panels().len() > 0 {
            let tree = self.windows[i].tree;
            let panel = tree.panels()[0];
            let out = DocksModel {
                windows: self.windows.update(
                    i,
                    WindowModel { tree: tree.without_panel(panel), ..self.windows[i] },
                ),
                ..self
            };
            let docked = out.with_tree(
                action.area(),
                out.tree_of(action.area()).dropped(panel, action),
            ).flagged(action.area());
            DocksModel { closes: docked.closes.push(window), ..docked }
        } else {
            self
        }
    }
}

impl Docks {
    /// Take the requests that can be opened now: all of them, or none while
    /// fonts are missing or the splash is up.
    pub fn take_requests(&mut self, fonts: bool, splash: Option<bool>) -> (r: Vec<
        DockWindowRequest,
    >)
        ensures
            request_models(r@) == (if old(self)@.may_open(fonts, splash) {
                old(self)@.requests
            } else {
                Seq::empty()
            }),
            final(self)@ == (if old(self)@.may_open(fonts, splash) {
                DocksModel { requests: Seq::empty(), ..old(self)@ }
            } else {
                old(self)@
            }),
    {
        let mut taken: Vec<DockWindowRequest> = Vec::new();
        let ready: bool = fonts && match splash {
            Some(showing) => showing,
            None => true,
        };
        if ready {
            core::mem::swap(&mut self.requests.0, &mut taken);
        }
        taken
    }

    /// A requested window was spawned: keep its tree, ask for it to be built,
    /// and let it follow the cursor if it was torn off by a drag.
    pub fn window_opened(
        &mut self,
        drag: &mut FloatDrag,
        request: DockWindowRequest,
        window: u64,
        camera: u64,
        root: u64,
        area: u64,
    )
        ensures
            final(self)@ == old(self)@.opened(request.model(), window, camera, root, area),
            float_model(*final(drag)) == (if request.grab {
                Some(fresh_float(window, default_grab(), false))
            } else {
                float_model(*old(drag))
            }),
    {
        let grab: bool = request.grab;
        let ghost before = self@.windows;
        self.windows.0.push(
            DockWindowState { window, camera, root, area, tree: request.tree, dirty: true },
        );
        assert(self@.windows == before.push(
            WindowModel { window, camera, root, area, tree: request.tree@, dirty: true },
        ));
        if grab {
            drag.0 = Some(
                FloatDragState {
                    window,
                    grab: Point { x: Scalar { bits: GRAB_X_BITS }, y: Scalar { bits: GRAB_Y_BITS } },
                    redock: false,
                    action: None,
                    shown_overlay: None,
                },
            );
        }
    }
}

impl FloatDrag {
    /// A press on a floating window's title bar starts dragging it, unless a
    /// drag is already in progress. The grab offset is where inside the window
    /// the cursor pressed, so the window doesn't jump under the cursor.
    pub fn bar_pressed(&mut self, window: u64, cursor: Option<Point>)
        ensures
            float_model(*final(self)) == (match float_model(*old(self)) {
                Some(drag) => Some(drag),
                None => Some(
                    fresh_float(
                        window,
                        match cursor {
                            Some(at) => at,
                            None => default_grab(),
                        },
                        true,
                    ),
                ),
            }),
    {
        if self.0.is_some() {
            return;
        }
        let grab = match cursor {
            Some(at) => at,
            None => Point { x: Scalar { bits: GRAB_X_BITS }, y: Scalar { bits: GRAB_Y_BITS } },
        };
        self.0 = Some(
            FloatDragState { window, grab, redock: true, action: None, shown_overlay: None },
        );
    }

    /// Note what the window hovers over now. A drag that must not re-dock
    /// hovers over nothing. Returns the overlay to hide.
    pub fn hover(&mut self, action: Option<DropAction>, overlay: Option<u64>) -> (r: Option<u64>)
        ensures
            match float_model(*old(self)) {
                Some(before) => {
                    let takes = before.redock;
                    let shown = if takes {
                        overlay
                    } else {
                        None
                    };
                    &&& float_model(*final(self)) == Some(
                        FloatModel {
                            action: if takes {
                                action_model(action)
                            } else {
                                None
                            },
                            shown_overlay: shown,
                            ..before
                        },
                    )
                    &&& r == (if before.shown_overlay != shown {
                        before.shown_overlay
                    } else {
                        None
                    })
                },
                None => float_model(*final(self)) is None && r is None,
            },
    {
        match &mut self.0 {
            Some(state) => {
                let redock: bool = state.redock;
                let before: Option<u64> = state.shown_overlay;
                let shown: Option<u64> = if redock {
                    overlay
                } else {
                    None
                };
                state.action = if redock {
                    action
                } else {
                    None
                };
                state.shown_overlay = shown;
                if before != shown {
                    before
                } else {
                    None
                }
            },
            None => None,
        }
    }

    /// The button went up: apply the re-dock (if any) and end the drag. The
    /// float's panel (floats host exactly one) moves into the target tree, and
    /// the emptied window is queued for close. Returns the overlay to hide.
    pub fn release(&mut self, docks: &mut Docks) -> (r: Option<u64>)
        ensures
            final(self).0 is None,
            match float_model(*old(self)) {
                Some(drag) => {
                    &&& r == drag.shown_overlay
                    &&& final(docks)@ == (match drag.action {
                        Some(action) => old(docks)@.redocked(drag.window, action),
                        None => old(docks)@,
                    })
                },
                None => r is None && final(docks)@ == old(docks)@,
            },
    {
        let state = match self.0.take() {
            Some(state) => state,
            None => {
                return None;
            },
        };
        if let Some(action) = &state.action {
            let i: usize = docks.windows.state_of(state.window);
            if i < docks.windows.0.len() {
                let lead: Option<String> = match docks.windows.0[i].tree.first_panel() {
                    Some(panel) => Some(panel.to_owned()),
                    None => None,
                };
                if let Some(panel) = lead {
                    let ghost before = docks@;
                    docks.windows.0[i].tree.remove_panel(&panel);
                    assert(docks@.windows == before.windows.update(
                        i as int,
                        WindowModel {
                            tree: before.windows[i as int].tree.without_panel(panel@),
                            ..before.windows[i as int]
                        },
                    ));
                    insert_action(docks.area_tree_mut(action.area()), &panel, action);
                    docks.flag_area_dirty(action.area());
                    docks.closes.0.push(state.window);
                }
            }
        }
        state.shown_overlay
    }
}

// ── Closing ──

/// The entities of a floating window, to be despawned together.
#[derive(Clone, Copy, Debug, PartialEq, Eq, Structural)]
pub struct ClosedWindow {
    pub window: u64,
    pub camera: u64,
    pub root: u64,
}

impl Layout {
    /// With every one of `panels` present: the missing ones adopted in turn.
    pub open spec fn rescued(self, panels: Seq<Seq<char>>) -> Layout
        decreases panels.len(),
    {
        if panels.len() == 0 {
            self
        } else {
            let before = self.rescued(panels.drop_last());
            if before.holds(panels.last()) {
                before
            } else {
                before.adopted(panels.last())
            }
        }
    }
}

/// What is despawned with a window.
pub open spec fn parts(window: WindowModel) -> ClosedWindow {
    ClosedWindow { window: window.window, camera: window.camera, root: window.root }
}

impl DocksModel {
    /// With one window closed: its state gone, its panels back in the primary
    /// dock.
    pub open spec fn closed_one(self, window: u64) -> DocksModel {
        let i = window_index(self.windows, window);
        if i < self.windows.len() {
            let panels = self.windows[i].tree.panels();
            DocksModel {
                windows: self.windows.update(i, self.windows.last()).drop_last(),
                primary: self.primary.rescued(panels),
                primary_dirty: self.primary_dirty || !self.primary.holds_all(panels),
                ..self
            }
        } else {
            self
        }
    }

    /// With several windows closed, one after another.
    pub open spec fn closed_all(self, list: Seq<u64>) -> DocksModel
        decreases list.len(),
    {
        if list.len() == 0 {
            self
        } else {
            self.closed_all(list.drop_last()).closed_one(list.last())
        }
    }

    /// What is despawned when several windows close, in order.
    pub open spec fn closed_parts(self, list: Seq<u64>) -> Seq<ClosedWindow>
        decreases list.len(),
    {
        if list.len() == 0 {
            Seq::empty()
        } else {
            let before = self.closed_all(list.drop_last());
            let i = window_index(before.windows, list.last());
            if i < before.windows.len() {
                self.closed_parts(list.drop_last()).push(parts(before.windows[i]))
            } else {
                self.closed_parts(list.drop_last())
            }
        }
    }
}

/// Whether a window is one of the floating ones.
pub open spec fn is_ours(windows: Seq<WindowModel>, window: u64) -> bool {
    window_index(windows, window) < windows.len()
}

/// Being one of the floating windows.
pub open spec fn ours(windows: Seq<WindowModel>) -> spec_fn(u64) -> bool {
    |w: u64| is_ours(windows, w)
}

/// Being no live window.
pub open spec fn gone(alive: Seq<u64>) -> spec_fn(u64) -> bool {
    |w: u64| !alive.contains(w)
}

/// Everything that has to close this frame: what was queued, the floating
/// windows the OS asked to close, the windows that were despawned, and the
/// floating windows that are no longer alive.
pub open spec fn close_list(
    docks: DocksModel,
    os_closes: Seq<u64>,
    removed: Seq<u64>,
    alive: Seq<u64>,
) -> Seq<u64> {
    docks.closes + os_closes.filter(ours(docks.windows)) + removed + docks.windows.map_values(
        |w: WindowModel| w.window,
    ).filter(gone(alive))
}

impl DocksModel {
    /// The docks once everything that has to close is closed. When the primary
    /// window is gone, every floating window goes with it.
    pub open spec fn swept(
        self,
        os_closes: Seq<u64>,
        removed: Seq<u64>,
        alive: Seq<u64>,
        primary: Option<u64>,
    ) -> DocksModel {
        let after = DocksModel { closes: Seq::empty(), ..self }.closed_all(
            close_list(self, os_closes, removed, alive),
        );
        if primary_gone(removed, primary) {
            DocksModel { windows: Seq::empty(), ..after }
        } else {
            after
        }
    }

    /// What has to be despawned, in order.
    pub open spec fn swept_parts(
        self,
        os_closes: Seq<u64>,
        removed: Seq<u64>,
        alive: Seq<u64>,
        primary: Option<u64>,
    ) -> Seq<ClosedWindow> {
        let list = close_list(self, os_closes, removed, alive);
        let base = DocksModel { closes: Seq::empty(), ..self };
        if primary_gone(removed, primary) {
            base.closed_parts(list) + base.closed_all(list).windows.map_values(
                |w: WindowModel| parts(w),
            )
        } else {
            base.closed_parts(list)
        }
    }
}

/// Whether the last known primary window was despawned.
pub open spec fn primary_gone(removed: Seq<u64>, primary: Option<u64>) -> bool {
    primary matches Some(w) && removed.contains(w)
}

fn contains_id(list: &Vec<u64>, id: u64) -> (r: bool)
    ensures
        r == list@.contains(id),
{
    let test = |x: &u64| -> (b: bool)
        ensures
            b == (*x == id),
        {
            *x == id
        };
    let ghost flags = list@.map_values(|x: u64| x == id);
    let i: usize = find_first(list, test, Ghost(flags));
    proof {
        position_is_first(flags, true);
        if i < list@.len() {
            assert(list@[i as int] == id);
        } else if list@.contains(id) {
            let k = choose|k: int| 0 <= k < list@.len() && list@[k] == id;
            assert(flags[k]);
        }
    }
    i < list.len()
}

impl DockTree {
    /// Adopt the panels that are missing. Returns whether any was.
    fn rescue(&mut self, panels: &Vec<String>) -> (r: bool)
        ensures
            final(self)@ == old(self)@.rescued(texts(panels@)),
            r == !old(self)@.holds_all(texts(panels@)),
    {
        let ghost all = texts(panels@);
        let ghost before = self@;
        let mut missing: bool = false;
        let mut i: usize = 0;
        while i < panels.len()
            invariant
                i <= panels@.len(),
                all == texts(panels@),
                before == old(self)@,
                self@ == before.rescued(all.take(i as int)),
                !missing ==> self@ == before,
                missing == !before.holds_all(all.take(i as int)),
            decreases panels@.len() - i,
        {
            proof {
                let next = all.take(i + 1);
                assert(next.drop_last() == all.take(i as int));
                assert(next.last() == panels@[i as int]@);
                if !before.holds_all(all.take(i as int)) {
                    let k = choose|k: int|
                        0 <= k < i && !before.holds(#[trigger] all.take(i as int)[k]);
                    assert(next[k] == all.take(i as int)[k]);
                } else if before.holds(next.last()) {
                    assert forall|k: int| 0 <= k < next.len() implies before.holds(
                        #[trigger] next[k],
                    ) by {
                        if k < i {
                            assert(all.take(i as int)[k] == next[k]);
                        }
                    }
                } else {
                    assert(!before.holds(next[i as int]));
                }
            }
            if !self.contains_panel(&panels[i]) {
                self.adopt_panel(&panels[i]);
                missing = true;
            }
            i += 1;
        }
        assert(all.take(i as int) == all);
        missing
    }
}

impl Docks {
    /// Close one floating window, if it is one: its panels return to the
    /// primary dock so they're never lost.
    pub fn close_window(&mut self, window: u64) -> (r: Option<ClosedWindow>)
        ensures
            final(self)@ == old(self)@.closed_one(window),
            r == ({
                let i = window_index(old(self)@.windows, window);
                if i < old(self)@.windows.len() {
                    Some(parts(old(self)@.windows[i]))
                } else {
                    None
                }
            }),
    {
        let i: usize = self.windows.state_of(window);
        if i >= self.windows.0.len() {
            return None;
        }
        let ghost before = self@.windows;
        let st = self.windows.0.swap_remove(i);
        assert(self@.windows == before.update(i as int, before.last()).drop_last());
        let mut panels: Vec<String> = Vec::new();
        st.tree.collect_panels(&mut panels);
        assert(texts(panels@) == before[i as int].tree.panels());
        if self.dock.tree.rescue(&panels) {
            self.dirty.0 = true;
        }
        Some(ClosedWindow { window: st.window, camera: st.camera, root: st.root })
    }

    /// Tear down closing floating dock windows: everything queued, plus the
    /// windows the OS asked to close (only ours: the primary window's close is
    /// not the dock's business), plus any window despawned externally, plus any
    /// state whose window is no longer alive. Their panels return to the primary
    /// dock. When the primary window itself is gone, every remaining floating
    /// window goes with it. Returns what has to be despawned.
    pub fn process_closes(
        &mut self,
        os_closes: &Vec<u64>,
        removed: &Vec<u64>,
        alive: &Vec<u64>,
        primary: Option<u64>,
    ) -> (r: Vec<ClosedWindow>)
        ensures
            final(self)@ == old(self)@.swept(os_closes@, removed@, alive@, primary),
            r@ == old(self)@.swept_parts(os_closes@, removed@, alive@, primary),
    {
        let ghost start = self@;
        let list = self.take_close_list(os_closes, removed, alive);
        let ghost base = DocksModel { closes: Seq::empty(), ..start };
        let mut closed: Vec<ClosedWindow> = Vec::new();
        let mut i: usize = 0;
        assert(list@.take(0) == Seq::<u64>::empty());
        while i < list.len()
            invariant
                i <= list@.len(),
                self@ == base.closed_all(list@.take(i as int)),
                closed@ == base.closed_parts(list@.take(i as int)),
            decreases list@.len() - i,
        {
            assert(list@.take(i + 1).drop_last() == list@.take(i as int));
            if let Some(part) = self.close_window(list[i]) {
                closed.push(part);
            }
            i += 1;
        }
        assert(list@.take(i as int) == list@);
        let all_go: bool = match primary {
            Some(w) => contains_id(removed, w),
            None => false,
        };
        if all_go {
            let ghost after = self@;
            let mut rest: Vec<DockWindowState> = Vec::new();
            core::mem::swap(&mut self.windows.0, &mut rest);
            let ghost models = window_models(rest@);
            let ghost before = closed@;
            let mut k: usize = 0;
            while k < rest.len()
                invariant
                    k <= rest@.len(),
                    models == window_models(rest@),
                    closed@ == before + models.map_values(|w: WindowModel| parts(w)).take(k as int),
                decreases rest@.len() - k,
            {
                closed.push(
                    ClosedWindow {
                        window: rest[k].window,
                        camera: rest[k].camera,
                        root: rest[k].root,
                    },
                );
                proof {
                    let all = models.map_values(|w: WindowModel| parts(w));
                    assert(all.take(k + 1) == all.take(k as int).push(all[k as int]));
                }
                k += 1;
            }
            assert(models.map_values(|w: WindowModel| parts(w)).take(k as int) == models.map_values(
                |w: WindowModel| parts(w),
            ));
            assert(self@.windows == Seq::<WindowModel>::empty());
        }
        closed
    }

    fn take_close_list(
        &mut self,
        os_closes: &Vec<u64>,
        removed: &Vec<u64>,
        alive: &Vec<u64>,
    ) -> (r: Vec<u64>)
        ensures
            r@ == close_list(old(self)@, os_closes@, removed@, alive@),
            final(self)@ == (DocksModel { closes: Seq::empty(), ..old(self)@ }),
    {
        let ghost models = self@.windows;
        let ghost names = models.map_values(|w: WindowModel| w.window);
        let mut list: Vec<u64> = Vec::new();
        core::mem::swap(&mut self.closes.0, &mut list);
        let ghost queued = list@;
        let mut i: usize = 0;
        proof {
            reveal(Seq::filter);
            assert(os_closes@.take(0).filter(ours(models)) == Seq::<u64>::empty());
        }
        while i < os_closes.len()
            invariant
                i <= os_closes@.len(),
                models == self@.windows,
                list@ == queued + os_closes@.take(i as int).filter(ours(models)),
            decreases os_closes@.len() - i,
        {
            proof {
                reveal(Seq::filter);
                assert(os_closes@.take(i + 1).drop_last() == os_closes@.take(i as int));
            }
            if self.windows.state_of(os_closes[i]) < self.windows.0.len() {
                list.push(os_closes[i]);
            }
            i += 1;
        }
        assert(os_closes@.take(i as int) == os_closes@);
        let ghost asked = list@;
        let mut j: usize = 0;
        while j < removed.len()
            invariant
                j <= removed@.len(),
                list@ == asked + removed@.take(j as int),
            decreases removed@.len() - j,
        {
            list.push(removed[j]);
            assert(removed@.take(j + 1) == removed@.take(j as int).push(removed@[j as int]));
            j += 1;
        }
        assert(removed@.take(j as int) == removed@);
        let ghost despawned = list@;
        let mut k: usize = 0;
        proof {
            reveal(Seq::filter);
            assert(names.take(0).filter(gone(alive@)) == Seq::<u64>::empty());
        }
        while k < self.windows.0.len()
            invariant
                k <= self.windows.0@.len(),
                models == window_models(self.windows.0@),
                names == models.map_values(|w: WindowModel| w.window),
                list@ == despawned + names.take(k as int).filter(gone(alive@)),
            decreases self.windows.0@.len() - k,
        {
            proof {
                reveal(Seq::filter);
                assert(names.take(k + 1).drop_last() == names.take(k as int));
                assert(names.take(k + 1).last() == self.windows.0@[k as int].window);
            }
            if !contains_id(alive, self.windows.0[k].window) {
                list.push(self.windows.0[k].window);
            }
            k += 1;
        }
        assert(names.take(k as int) == names);
        list
    }
}

/// The cameras that target a window that no longer exists: they have to go
/// before they are rendered.
pub open spec fn stray_cameras(cameras: Seq<(u64, u64)>, alive: Seq<u64>) -> Seq<(u64, u64)> {
    cameras.filter(stray(alive))
}

/// Targeting no live window.
pub open spec fn stray(alive: Seq<u64>) -> spec_fn((u64, u64)) -> bool {
    |c: (u64, u64)| !alive.contains(c.1)
}

/// Last line of defense: of the (camera, window) pairs given, those whose
/// window is gone, whatever despawned it.
pub fn guard_target_cameras(cameras: &Vec<(u64, u64)>, alive: &Vec<u64>) -> (r: Vec<(u64, u64)>)
    ensures
        r@ == stray_cameras(cameras@, alive@),
{
    let mut out: Vec<(u64, u64)> = Vec::new();
    let mut i: usize = 0;
    proof {
        reveal(Seq::filter);
        assert(cameras@.take(0).filter(stray(alive@)) == Seq::<(u64, u64)>::empty());
    }
    while i < cameras.len()
        invariant
            i <= cameras@.len(),
            out@ == cameras@.take(i as int).filter(stray(alive@)),
        decreases cameras@.len() - i,
    {
        proof {
            reveal(Seq::filter);
            assert(cameras@.take(i + 1).drop_last() == cameras@.take(i as int));
        }
        if !contains_id(alive, cameras[i].1) {
            out.push(cameras[i]);
        }
        i += 1;
    }
    assert(cameras@.take(i as int) == cameras@);
    out
}

// ── Closing loses no panel ──

/// Rescuing panels into a tree adds exactly the missing ones, and keeps a sound
/// tree sound.
pub proof fn rescue_keeps_all(t: Layout, panels: Seq<Seq<char>>)
    ensures
        t.sound() ==> t.rescued(panels).sound(),
        forall|p: Seq<char>| #[trigger]
            t.rescued(panels).holds(p) <==> t.holds(p) || panels.contains(p),
    decreases panels.len(),
{
    if panels.len() > 0 {
        let rest = panels.drop_last();
        let last = panels.last();
        let before = t.rescued(rest);
        let after = t.rescued(panels);
        rescue_keeps_all(t, rest);
        let one = seq![last];
        adopting_all_loses_none(before, one);
        assert(one.drop_last() =~= Seq::<Seq<char>>::empty());
        assert(before.adopted_all(one.drop_last()) == before);
        assert(before.adopted_all(one) == before.adopted(last));
        assert forall|p: Seq<char>| #[trigger] after.holds(p) <==> t.holds(p) || panels.contains(
            p,
        ) by {
            assert(before.holds(p) <==> t.holds(p) || rest.contains(p));
            assert(before.adopted_all(one).holds(p) <==> before.holds(p) || one.contains(p));
            assert(one.contains(p) <==> p == last) by {
                assert(one[0] == last);
            }
            if rest.contains(p) {
                let k = choose|k: int| 0 <= k < rest.len() && rest[k] == p;
                assert(panels[k] == p);
            }
            if p == last {
                assert(panels[panels.len() - 1] == p);
            }
            if panels.contains(p) && p != last {
                let k = choose|k: int| 0 <= k < panels.len() && panels[k] == p;
                assert(rest[k] == p);
            }
        }
    }
}

/// Closing a floating window loses none of its panels and none of the others'.
pub proof fn close_keeps_all(docks: DocksModel, window: u64)
    ensures
        docks.sound() ==> docks.closed_one(window).sound(),
        forall|p: Seq<char>| docks.holds(p) ==> #[trigger] docks.closed_one(window).holds(p),
{
    let names = docks.windows.map_values(|w: WindowModel| w.window);
    position_is_first(names, window);
    let i = window_index(docks.windows, window);
    let after = docks.closed_one(window);
    if i < docks.windows.len() {
        let tree = docks.windows[i].tree;
        rescue_keeps_all(docks.primary, tree.panels());
        let last = docks.windows.len() - 1;
        if docks.sound() {
            assert forall|k: int| 0 <= k < after.windows.len() implies (
            #[trigger] after.windows[k]).tree.sound() by {
                assert(docks.windows[k].tree.sound());
                assert(docks.windows[last].tree.sound());
            }
        }
        assert forall|p: Seq<char>| docks.holds(p) implies #[trigger] after.holds(p) by {
            present_is_collected(tree, p);
            assert(after.primary.holds(p) <==> docks.primary.holds(p) || tree.panels().contains(p));
            if exists|k: int|
                0 <= k < docks.windows.len() && (#[trigger] docks.windows[k]).tree.holds(p) {
                let k = choose|k: int|
                    0 <= k < docks.windows.len() && (#[trigger] docks.windows[k]).tree.holds(p);
                if k == i {
                } else if k == last {
                    assert(after.windows[i].tree.holds(p));
                } else {
                    assert(after.windows[k].tree.holds(p));
                }
            } else if exists|k: int|
                0 <= k < docks.requests.len() && (#[trigger] docks.requests[k]).tree.holds(p) {
                let k = choose|k: int|
                    0 <= k < docks.requests.len() && (#[trigger] docks.requests[k]).tree.holds(p);
                assert(after.requests[k].tree.holds(p));
            }
        }
    }
}

/// Closing any number of floating windows loses no panel.
pub proof fn closes_keep_all(docks: DocksModel, list: Seq<u64>)
    ensures
        docks.sound() ==> docks.closed_all(list).sound(),
        forall|p: Seq<char>| docks.holds(p) ==> #[trigger] docks.closed_all(list).holds(p),
    decreases list.len(),
{
    if list.len() > 0 {
        closes_keep_all(docks, list.drop_last());
        close_keeps_all(docks.closed_all(list.drop_last()), list.last());
        assert forall|p: Seq<char>| docks.holds(p) implies #[trigger] docks.closed_all(list).holds(
            p,
        ) by {
            assert(docks.closed_all(list.drop_last()).holds(p));
        }
    }
}

/// Unless the primary window is gone, the sweep of closing windows loses no
/// panel.
pub proof fn sweep_keeps_all(
    docks: DocksModel,
    os_closes: Seq<u64>,
    removed: Seq<u64>,
    alive: Seq<u64>,
    primary: Option<u64>,
)
    requires
        !primary_gone(removed, primary),
    ensures
        docks.sound() ==> docks.swept(os_closes, removed, alive, primary).sound(),
        forall|p: Seq<char>|
            docks.holds(p) ==> #[trigger] docks.swept(os_closes, removed, alive, primary).holds(p),
{
    let base = DocksModel { closes: Seq::empty(), ..docks };
    let list = close_list(docks, os_closes, removed, alive);
    assert(docks.sound() ==> base.sound());
    closes_keep_all(base, list);
    assert forall|p: Seq<char>| docks.holds(p) implies #[trigger] docks.swept(
        os_closes,
        removed,
        alive,
        primary,
    ).holds(p) by {
        assert(base.holds(p));
        assert(base.closed_all(list).holds(p));
    }
}

/// The window entities of the floating windows.
pub open spec fn window_names(docks: DocksModel) -> Seq<u64> {
    docks.windows.map_values(|w: WindowModel| w.window)
}

proof fn close_forgets(docks: DocksModel, window: u64)
    requires
        window_names(docks).no_duplicates(),
    ensures
        window_names(docks.closed_one(window)).no_duplicates(),
        !window_names(docks.closed_one(window)).contains(window),
        forall|w: u64|
            #![trigger window_names(docks.closed_one(window)).contains(w)]
            window_names(docks.closed_one(window)).contains(w) ==> window_names(docks).contains(w),
{
    let names = window_names(docks);
    let after = window_names(docks.closed_one(window));
    position_is_first(names, window);
    let i = window_index(docks.windows, window);
    if i < docks.windows.len() {
        let last = docks.windows.len() - 1;
        assert(after.len() == last);
        assert forall|k: int| 0 <= k < after.len() implies #[trigger] after[k] == names[if k == i {
            last
        } else {
            k
        }] by {}
        assert(names[i] == window);
        assert forall|w: u64| #[trigger] after.contains(w) implies names.contains(w) by {
            let k = choose|k: int| 0 <= k < after.len() && after[k] == w;
            assert(names[if k == i {
                last
            } else {
                k
            }] == w);
        }
        if after.contains(window) {
            let k = choose|k: int| 0 <= k < after.len() && after[k] == window;
            assert(names[if k == i {
                last
            } else {
                k
            }] == window);
        }
    }
}

/// Where no two floating windows share an entity, a window that was asked to
/// close is closed.
pub proof fn closed_are_gone(docks: DocksModel, list: Seq<u64>)
    requires
        window_names(docks).no_duplicates(),
    ensures
        window_names(docks.closed_all(list)).no_duplicates(),
        forall|w: u64| #[trigger]
            window_names(docks.closed_all(list)).contains(w) ==> window_names(docks).contains(w)
                && !list.contains(w),
    decreases list.len(),
{
    if list.len() > 0 {
        let before = docks.closed_all(list.drop_last());
        closed_are_gone(docks, list.drop_last());
        close_forgets(before, list.last());
        assert forall|w: u64| #[trigger]
            window_names(docks.closed_all(list)).contains(w) implies window_names(docks).contains(w)
            && !list.contains(w) by {
            assert(window_names(before.closed_one(list.last())).contains(w));
            assert(window_names(before).contains(w));
            if list.contains(w) {
                let k = choose|k: int| 0 <= k < list.len() && list[k] == w;
                if k < list.len() - 1 {
                    assert(list.drop_last()[k] == w);
                }
            }
        }
    }
}

/// Where no two floating windows share an entity, every floating window left
/// after a sweep is alive and was not asked to close.
pub proof fn sweep_leaves_live_windows(
    docks: DocksModel,
    os_closes: Seq<u64>,
    removed: Seq<u64>,
    alive: Seq<u64>,
    primary: Option<u64>,
)
    requires
        window_names(docks).no_duplicates(),
    ensures
        forall|w: u64|
            #![trigger window_names(docks.swept(os_closes, removed, alive, primary)).contains(w)]
            window_names(docks.swept(os_closes, removed, alive, primary)).contains(w)
                ==> alive.contains(w) && !docks.closes.contains(w) && !os_closes.contains(w)
                && !removed.contains(w),
{
    let list = close_list(docks, os_closes, removed, alive);
    let base = DocksModel { closes: Seq::empty(), ..docks };
    let names = window_names(docks);
    assert(window_names(base) == names);
    closed_are_gone(base, list);
    let asked = os_closes.filter(ours(docks.windows));
    let dead = names.filter(gone(alive));
    assert forall|w: u64|
        #![trigger window_names(docks.swept(os_closes, removed, alive, primary)).contains(w)]
        window_names(docks.swept(os_closes, removed, alive, primary)).contains(w)
            implies alive.contains(w) && !docks.closes.contains(w) && !os_closes.contains(w)
        && !removed.contains(w) by {
        assert(window_names(base.closed_all(list)).contains(w));
        assert(names.contains(w) && !list.contains(w));
        position_is_first(names, w);
        assert(is_ours(docks.windows, w));
        if docks.closes.contains(w) {
            let k = choose|k: int| 0 <= k < docks.closes.len() && docks.closes[k] == w;
            assert(list[k] == w);
        }
        if os_closes.contains(w) {
            filter_finds(os_closes, ours(docks.windows), w);
            let k = choose|k: int| 0 <= k < asked.len() && asked[k] == w;
            assert(list[docks.closes.len() + k] == w);
        }
        if removed.contains(w) {
            let k = choose|k: int| 0 <= k < removed.len() && removed[k] == w;
            assert(list[docks.closes.len() + asked.len() + k] == w);
        }
        if !alive.contains(w) {
            filter_finds(names, gone(alive), w);
            let k = choose|k: int| 0 <= k < dead.len() && dead[k] == w;
            assert(list[docks.closes.len() + asked.len() + removed.len() + k] == w);
        }
    }
}

/// A filter keeps what passes it.
pub proof fn filter_finds<T>(list: Seq<T>, pass: spec_fn(T) -> bool, item: T)
    requires
        list.contains(item),
        pass(item),
    ensures
        list.filter(pass).contains(item),
    decreases list.len(),
{
    reveal(Seq::filter);
    let rest = list.drop_last();
    if list.last() == item {
        let out = list.filter(pass);
        assert(out[out.len() - 1] == item);
    } else {
        let k = choose|k: int| 0 <= k < list.len() && list[k] == item;
        assert(rest[k] == item);
        filter_finds(rest, pass, item);
        let sub = rest.filter(pass);
        let j = choose|j: int| 0 <= j < sub.len() && sub[j] == item;
        assert(list.filter(pass)[j] == item);
    }
}

/// Docking a floating window back loses no panel: the one it leads with is in
/// the tree it was dropped on, and every other one is where it was.
pub proof fn redock_keeps_all(docks: DocksModel, window: u64, action: DropModel)
    ensures
        docks.sound() ==> docks.redocked(window, action).sound(),
        forall|p: Seq<char>|
            docks.holds(p) ==> #[trigger] docks.redocked(window, action).holds(p),
{
    let i = window_index(docks.windows, window);
    position_is_first(docks.windows.map_values(|w: WindowModel| w.window), window);
    if i < docks.windows.len() && docks.windows[i].tree.panels().len() > 0 {
        let tree = docks.windows[i].tree;
        let panel = tree.panels()[0];
        let out = DocksModel {
            windows: docks.windows.update(
                i,
                WindowModel { tree: tree.without_panel(panel), ..docks.windows[i] },
            ),
            ..docks
        };
        remove_takes_one(tree, panel);
        removing_keeps_others(tree, panel);
        if docks.sound() {
            assert forall|k: int| 0 <= k < out.windows.len() implies (
            #[trigger] out.windows[k]).tree.sound() by {
                assert(docks.windows[k].tree.sound());
            }
        }
        let target = action.area();
        tree_of_sound(out, target);
        drop_loses_none(out.tree_of(target), panel, action);
        let grown = out.tree_of(target).dropped(panel, action);
        let docked = out.with_tree(target, grown);
        editing_one_tree(out, target, grown, panel);
        flagging_moves_nothing(docked, target);
        let after = docks.redocked(window, action);
        assert(docks.sound() ==> after.sound());
        assert forall|p: Seq<char>| docks.holds(p) implies #[trigger] after.holds(p) by {
            editing_one_tree(out, target, grown, p);
            if p != panel {
                if exists|k: int|
                    0 <= k < docks.windows.len() && (#[trigger] docks.windows[k]).tree.holds(p) {
                    let k = choose|k: int|
                        0 <= k < docks.windows.len() && (#[trigger] docks.windows[k]).tree.holds(p);
                    assert(out.windows[k].tree.holds(p));
                }
                assert(out.holds(p));
            }
            assert(docked.holds(p));
            assert(docked.flagged(target).holds(p) == docked.holds(p));
        }
    }
}

} // verus!
