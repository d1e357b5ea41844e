//! Drawing order: what stands higher in the hierarchy is drawn on top.

use vstd::prelude::*;

use crate::lineage::{find_parent, holds_id, parent_of, Link};

verus! {

/// A child of a sibling group.
#[derive(Clone, Copy, Debug, PartialEq, Eq, Structural)]
pub struct Sibling {
    pub entity: u64,
    /// A canvas or a widget.
    pub ui: bool,
    /// Its place in the drawing order, where it has one.
    pub z: Option<i32>,
}

/// A place in the drawing order to write.
#[derive(Clone, Copy, Debug, PartialEq, Eq, Structural)]
pub struct ZChange {
    pub entity: u64,
    pub z: i32,
}

/// How many of the siblings from `from` on are interface.
pub open spec fn ui_from(children: Seq<Sibling>, from: int) -> int
    decreases children.len() - from,
{
    if from < 0 || from >= children.len() {
        0
    } else {
        ui_from(children, from + 1) + if children[from].ui {
            1int
        } else {
            0int
        }
    }
}

/// The place of the `i`th sibling: how many interface siblings come after it.
/// The first one is on top.
pub open spec fn place(children: Seq<Sibling>, i: int) -> int {
    ui_from(children, i + 1)
}

/// The places to write among the first `n` siblings: those of interface whose
/// place differs.
pub open spec fn order_changes(children: Seq<Sibling>, n: int) -> Seq<ZChange>
    decreases n,
{
    if n <= 0 {
        Seq::empty()
    } else {
        let before = order_changes(children, n - 1);
        let i = n - 1;
        if children[i].ui && children[i].z != Some(place(children, i) as i32) {
            before.push(ZChange { entity: children[i].entity, z: place(children, i) as i32 })
        } else {
            before
        }
    }
}

proof fn ui_from_bounds(children: Seq<Sibling>, from: int)
    requires
        0 <= from,
    ensures
        0 <= ui_from(children, from),
        from <= children.len() ==> ui_from(children, from) <= children.len() - from,
    decreases children.len() - from,
{
    if from < children.len() {
        ui_from_bounds(children, from + 1);
    }
}

/// The places to write in one sibling group, in the group's order. Only
/// interface siblings count, and only differences are written.
pub fn sibling_order(children: &Vec<Sibling>) -> (r: Vec<ZChange>)
    requires
        children@.len() <= i32::MAX,
    ensures
        r@ == order_changes(children@, children@.len() as int),
{
    let mut rest: i32 = 0;
    let mut i: usize = children.len();
    let total: usize = children.len();
    while i > 0
        invariant
            i <= total,
            total == children@.len(),
            total <= i32::MAX,
            rest == ui_from(children@, i as int),
            0 <= rest <= total - i,
        decreases i,
    {
        i -= 1;
        if children[i].ui {
            rest += 1;
        }
    }
    let mut out: Vec<ZChange> = Vec::new();
    let mut k: usize = 0;
    while k < children.len()
        invariant
            k <= children@.len(),
            children@.len() <= i32::MAX,
            rest == ui_from(children@, k as int),
            out@ == order_changes(children@, k as int),
        decreases children@.len() - k,
    {
        proof {
            ui_from_bounds(children@, k as int);
            ui_from_bounds(children@, k + 1);
        }
        if children[k].ui {
            rest -= 1;
            let current: bool = match children[k].z {
                Some(z) => z == rest,
                None => false,
            };
            if !current {
                out.push(ZChange { entity: children[k].entity, z: rest });
            }
        }
        k += 1;
    }
    out
}

/// A root canvas.
#[derive(Clone, Copy, Debug, PartialEq, Eq, Structural)]
pub struct RootCanvas {
    pub entity: u64,
    pub sort_order: i32,
    pub has_parent: bool,
    /// Its place in the global order, where it has one.
    pub z: Option<i32>,
}

/// Being a root canvas whose place in the global order is not its sort order.
pub open spec fn out_of_place() -> spec_fn(RootCanvas) -> bool {
    |c: RootCanvas| !c.has_parent && c.z != Some(c.sort_order)
}

/// The places to write for root-level canvases: their sort order, where it
/// differs.
pub fn root_order(canvases: &Vec<RootCanvas>) -> (r: Vec<ZChange>)
    ensures
        r@ == canvases@.filter(out_of_place()).map_values(
            |c: RootCanvas| ZChange { entity: c.entity, z: c.sort_order },
        ),
{
    let mut out: Vec<ZChange> = Vec::new();
    let mut i: usize = 0;
    proof {
        reveal(Seq::filter);
        assert(canvases@.take(0).filter(out_of_place()) =~= Seq::<RootCanvas>::empty());
    }
    while i < canvases.len()
        invariant
            i <= canvases@.len(),
            out@ == canvases@.take(i as int).filter(out_of_place()).map_values(
                |c: RootCanvas| ZChange { entity: c.entity, z: c.sort_order },
            ),
        decreases canvases@.len() - i,
    {
        let ghost before = canvases@.take(i as int).filter(out_of_place());
        proof {
            reveal(Seq::filter);
            assert(canvases@.take(i + 1).drop_last() == canvases@.take(i as int));
            assert(canvases@.take(i + 1).last() == canvases@[i as int]);
        }
        let c: RootCanvas = canvases[i];
        let current: bool = match c.z {
            Some(z) => z == c.sort_order,
            None => false,
        };
        if !c.has_parent && !current {
            out.push(ZChange { entity: c.entity, z: c.sort_order });
            assert(before.push(c).map_values(
                |c: RootCanvas| ZChange { entity: c.entity, z: c.sort_order },
            ) =~= before.map_values(
                |c: RootCanvas| ZChange { entity: c.entity, z: c.sort_order },
            ).push(ZChange { entity: c.entity, z: c.sort_order }));
        }
        i += 1;
    }
    assert(canvases@.take(i as int) == canvases@);
    out
}

/// What changed in the interface since the last frame.
pub struct UiOrderChanges {
    /// Entities whose list of children changed.
    pub children: Vec<u64>,
    /// Interface entities that were added, moved or re-placed, or that stopped
    /// being interface or lost their place.
    pub items: Vec<u64>,
    /// Entities that were disabled or enabled.
    pub disabled: Vec<u64>,
}

/// Whether a sibling group has to be ordered again: its list of children
/// changed, or one of its members did. Enabling a parent affects its own group
/// too.
pub open spec fn group_changed(
    children: Seq<u64>,
    items: Seq<u64>,
    disabled: Seq<u64>,
    links: Seq<Link>,
    parent: u64,
) -> bool {
    children.contains(parent) || disabled.contains(parent) || (exists|k: int|
        0 <= k < items.len() && parent_of(links, #[trigger] items[k]) == Some(parent)) || (exists|k: int|
        0 <= k < disabled.len() && parent_of(links, #[trigger] disabled[k]) == Some(parent))
}

fn add_once(list: &mut Vec<u64>, id: u64)
    ensures
        forall|x: u64| #[trigger] final(list)@.contains(x) <==> old(list)@.contains(x) || x == id,
        old(list)@.no_duplicates() ==> final(list)@.no_duplicates(),
{
    let ghost before = list@;
    if holds_id(list, id) {
        return;
    }
    list.push(id);
    assert forall|x: u64| #[trigger] list@.contains(x) <==> before.contains(x) || x == id by {
        if before.contains(x) {
            let k = choose|k: int| 0 <= k < before.len() && before[k] == x;
            assert(list@[k] == x);
        }
        if x == id {
            assert(list@[before.len() as int] == x);
        }
    }
}

impl UiOrderChanges {
    /// The parents whose sibling groups have to be ordered again, each once.
    pub fn collect_parents(&self, links: &Vec<Link>) -> (r: Vec<u64>)
        ensures
            r@.no_duplicates(),
            forall|p: u64| #[trigger]
                r@.contains(p) <==> group_changed(
                    self.children@,
                    self.items@,
                    self.disabled@,
                    links@,
                    p,
                ),
    {
        let mut out: Vec<u64> = Vec::new();
        let mut i: usize = 0;
        while i < self.children.len()
            invariant
                i <= self.children@.len(),
                out@.no_duplicates(),
                forall|p: u64| #[trigger]
                    out@.contains(p) <==> exists|k: int| 0 <= k < i && self.children@[k] == p,
            decreases self.children@.len() - i,
        {
            let ghost before = out@;
            add_once(&mut out, self.children[i]);
            assert forall|p: u64| #[trigger] out@.contains(p) <==> exists|k: int|
                0 <= k < i + 1 && self.children@[k] == p by {
                if before.contains(p) {
                    let k = choose|k: int| 0 <= k < i && self.children@[k] == p;
                    assert(self.children@[k] == p);
                }
                if p == self.children@[i as int] {
                    assert(self.children@[i as int] == p);
                }
            }
            i += 1;
        }
        let mut j: usize = 0;
        while j < self.items.len()
            invariant
                j <= self.items@.len(),
                out@.no_duplicates(),
                forall|p: u64| #[trigger]
                    out@.contains(p) <==> self.children@.contains(p) || exists|k: int|
                        0 <= k < j && parent_of(links@, #[trigger] self.items@[k]) == Some(p),
            decreases self.items@.len() - j,
        {
            let ghost before = out@;
            let parent: Option<u64> = find_parent(links, self.items[j]);
            if let Some(p) = parent {
                add_once(&mut out, p);
            }
            assert forall|p: u64| #[trigger] out@.contains(p) <==> self.children@.contains(p)
                || exists|k: int|
                0 <= k < j + 1 && parent_of(links@, #[trigger] self.items@[k]) == Some(p) by {
                if exists|k: int|
                    0 <= k < j + 1 && parent_of(links@, #[trigger] self.items@[k]) == Some(p) {
                    let k = choose|k: int|
                        0 <= k < j + 1 && parent_of(links@, #[trigger] self.items@[k]) == Some(p);
                    if k < j {
                        assert(before.contains(p));
                    }
                }
                if parent == Some(p) {
                    assert(parent_of(links@, self.items@[j as int]) == Some(p));
                }
                if before.contains(p) && !self.children@.contains(p) {
                    let k = choose|k: int|
                        0 <= k < j && parent_of(links@, #[trigger] self.items@[k]) == Some(p);
                    assert(parent_of(links@, self.items@[k]) == Some(p));
                }
            }
            j += 1;
        }
        let mut m: usize = 0;
        while m < self.disabled.len()
            invariant
                m <= self.disabled@.len(),
                out@.no_duplicates(),
                forall|p: u64| #[trigger]
                    out@.contains(p) <==> self.children@.contains(p) || (exists|k: int|
                        0 <= k < self.items@.len() && parent_of(links@, #[trigger] self.items@[k])
                            == Some(p)) || (exists|k: int|
                        0 <= k < m && #[trigger] self.disabled@[k] == p) || (exists|k: int|
                        0 <= k < m && parent_of(links@, #[trigger] self.disabled@[k]) == Some(p)),
            decreases self.disabled@.len() - m,
        {
            let ghost before = out@;
            let e: u64 = self.disabled[m];
            add_once(&mut out, e);
            let ghost middle = out@;
            let parent: Option<u64> = find_parent(links, e);
            if let Some(p) = parent {
                add_once(&mut out, p);
            }
            assert forall|p: u64| #[trigger] out@.contains(p) <==> self.children@.contains(p) || (
            exists|k: int|
                0 <= k < self.items@.len() && parent_of(links@, #[trigger] self.items@[k]) == Some(
                    p,
                )) || (exists|k: int| 0 <= k < m + 1 && #[trigger] self.disabled@[k] == p) || (
            exists|k: int|
                0 <= k < m + 1 && parent_of(links@, #[trigger] self.disabled@[k]) == Some(p)) by {
                assert(middle.contains(p) <==> before.contains(p) || p == e);
                assert(out@.contains(p) <==> middle.contains(p) || parent == Some(p));
                if exists|k: int| 0 <= k < m + 1 && #[trigger] self.disabled@[k] == p {
                    let k = choose|k: int| 0 <= k < m + 1 && #[trigger] self.disabled@[k] == p;
                    if k < m {
                        assert(before.contains(p));
                    }
                }
                if exists|k: int|
                    0 <= k < m + 1 && parent_of(links@, #[trigger] self.disabled@[k]) == Some(p) {
                    let k = choose|k: int|
                        0 <= k < m + 1 && parent_of(links@, #[trigger] self.disabled@[k]) == Some(p);
                    if k < m {
                        assert(before.contains(p));
                    }
                }
                if p == e {
                    assert(self.disabled@[m as int] == p);
                }
                if parent == Some(p) {
                    assert(parent_of(links@, self.disabled@[m as int]) == Some(p));
                }
                if before.contains(p) {
                    if exists|k: int| 0 <= k < m && #[trigger] self.disabled@[k] == p {
                        let k = choose|k: int| 0 <= k < m && #[trigger] self.disabled@[k] == p;
                        assert(self.disabled@[k] == p);
                    }
                    if exists|k: int|
                        0 <= k < m && parent_of(links@, #[trigger] self.disabled@[k]) == Some(p) {
                        let k = choose|k: int|
                            0 <= k < m && parent_of(links@, #[trigger] self.disabled@[k]) == Some(
                                p,
                            );
                        assert(parent_of(links@, self.disabled@[k]) == Some(p));
                    }
                }
            }
            m += 1;
        }
        out
    }
}

/// Whether some component other than the standard one disables entities. The
/// change readers do not know of such components.
pub fn custom_disabling(disabling: &Vec<u64>, standard: u64) -> (r: bool)
    ensures
        r == exists|k: int| 0 <= k < disabling@.len() && #[trigger] disabling@[k] != standard,
{
    let mut i: usize = 0;
    while i < disabling.len()
        invariant
            i <= disabling@.len(),
            forall|k: int| 0 <= k < i ==> #[trigger] disabling@[k] == standard,
        decreases disabling@.len() - i,
    {
        if disabling[i] != standard {
            return true;
        }
        i += 1;
    }
    false
}

/// The sibling groups to order again. Where entities can be disabled in ways
/// that leave no trace in `changes`, that is every group with an interface
/// entity in it, so no stale order stays behind.
pub fn groups_to_order(
    changes: UiOrderChanges,
    custom: bool,
    interface: &Vec<u64>,
    links: &Vec<Link>,
) -> (r: Vec<u64>)
    ensures
        r@.no_duplicates(),
        forall|p: u64| #[trigger]
            r@.contains(p) <==> group_changed(
                changes.children@,
                if custom {
                    changes.items@ + interface@
                } else {
                    changes.items@
                },
                changes.disabled@,
                links@,
                p,
            ),
{
    let mut all = changes;
    if custom {
        let mut i: usize = 0;
        assert(all.items@ + interface@.take(0) =~= all.items@);
        while i < interface.len()
            invariant
                i <= interface@.len(),
                all.children == changes.children,
                all.disabled == changes.disabled,
                all.items@ == changes.items@ + interface@.take(i as int),
            decreases interface@.len() - i,
        {
            all.items.push(interface[i]);
            i += 1;
            assert(all.items@ =~= changes.items@ + interface@.take(i as int));
        }
        assert(interface@.take(i as int) =~= interface@);
    }
    all.collect_parents(links)
}


/// The siblings once their places are written.
pub open spec fn ordered(children: Seq<Sibling>) -> Seq<Sibling> {
    Seq::new(
        children.len(),
        |i: int|
            if children[i].ui {
                Sibling { z: Some(place(children, i) as i32), ..children[i] }
            } else {
                children[i]
            },
    )
}

/// An earlier interface sibling is drawn above a later one.
pub proof fn earlier_is_on_top(children: Seq<Sibling>, i: int, j: int)
    requires
        0 <= i < j < children.len(),
        children[j].ui,
    ensures
        place(children, i) > place(children, j),
    decreases j - i,
{
    ui_from_bounds(children, j + 1);
    if i + 1 < j {
        earlier_is_on_top(children, i + 1, j);
        assert(ui_from(children, i + 1) >= ui_from(children, i + 2));
    }
}

/// A group in order needs no writes: placing it again changes nothing.
pub proof fn settled_order_is_quiet(children: Seq<Sibling>, n: int)
    requires
        0 <= n <= children.len(),
    ensures
        order_changes(ordered(children), n).len() == 0,
    decreases n,
{
    if n > 0 {
        settled_order_is_quiet(children, n - 1);
        same_places(children, n);
    }
}

proof fn same_places(children: Seq<Sibling>, from: int)
    requires
        0 <= from,
    ensures
        ui_from(ordered(children), from) == ui_from(children, from),
    decreases children.len() - from,
{
    if from < children.len() {
        same_places(children, from + 1);
    }
}

/// A canvas of the scene's hierarchy.
#[derive(Clone, Copy, Debug, PartialEq, Eq, Structural)]
pub struct HierarchyCanvas {
    pub entity: u64,
    /// Its place in the hierarchy panel, from the top.
    pub order: u32,
    pub sort_order: i32,
}

/// The largest place in the hierarchy, `0` where there is none.
pub open spec fn deepest(canvases: Seq<HierarchyCanvas>) -> int
    decreases canvases.len(),
{
    if canvases.len() == 0 {
        0
    } else {
        let rest = deepest(canvases.drop_last());
        if canvases.last().order > rest {
            canvases.last().order as int
        } else {
            rest
        }
    }
}

/// Sync canvases' sort order from the hierarchy: the top of the hierarchy gets
/// the highest order and is drawn on top. Returns the orders that differ.
pub fn sort_order_from_hierarchy(canvases: &Vec<HierarchyCanvas>) -> (r: Vec<ZChange>)
    requires
        forall|i: int| 0 <= i < canvases@.len() ==> (#[trigger] canvases@[i]).order <= i32::MAX,
    ensures
        r@ == canvases@.filter(out_of_order(deepest(canvases@))).map_values(
            |c: HierarchyCanvas|
                ZChange { entity: c.entity, z: (deepest(canvases@) - c.order) as i32 },
        ),
{
    let mut max: u32 = 0;
    let mut i: usize = 0;
    assert(canvases@.take(0).len() == 0);
    while i < canvases.len()
        invariant
            i <= canvases@.len(),
            forall|k: int| 0 <= k < canvases@.len() ==> (#[trigger] canvases@[k]).order <= i32::MAX,
            max == deepest(canvases@.take(i as int)),
            max <= i32::MAX,
            forall|k: int| 0 <= k < i ==> (#[trigger] canvases@[k]).order <= max,
        decreases canvases@.len() - i,
    {
        assert(canvases@.take(i + 1).drop_last() == canvases@.take(i as int));
        assert(canvases@.take(i + 1).last() == canvases@[i as int]);
        if canvases[i].order > max {
            max = canvases[i].order;
        }
        i += 1;
    }
    assert(canvases@.take(i as int) == canvases@);
    let ghost top = deepest(canvases@);
    let mut out: Vec<ZChange> = Vec::new();
    let mut k: usize = 0;
    proof {
        reveal(Seq::filter);
        assert(canvases@.take(0).filter(out_of_order(top)) =~= Seq::<HierarchyCanvas>::empty());
    }
    while k < canvases.len()
        invariant
            k <= canvases@.len(),
            top == deepest(canvases@),
            max == top,
            max <= i32::MAX,
            forall|n: int| 0 <= n < canvases@.len() ==> (#[trigger] canvases@[n]).order <= max,
            out@ == canvases@.take(k as int).filter(out_of_order(top)).map_values(
                |c: HierarchyCanvas| ZChange { entity: c.entity, z: (top - c.order) as i32 },
            ),
        decreases canvases@.len() - k,
    {
        let ghost before = canvases@.take(k as int).filter(out_of_order(top));
        proof {
            reveal(Seq::filter);
            assert(canvases@.take(k + 1).drop_last() == canvases@.take(k as int));
            assert(canvases@.take(k + 1).last() == canvases@[k as int]);
        }
        let c: HierarchyCanvas = canvases[k];
        let wanted: i32 = (max - c.order) as i32;
        if c.sort_order != wanted {
            out.push(ZChange { entity: c.entity, z: wanted });
            assert(before.push(c).map_values(
                |c: HierarchyCanvas| ZChange { entity: c.entity, z: (top - c.order) as i32 },
            ) =~= before.map_values(
                |c: HierarchyCanvas| ZChange { entity: c.entity, z: (top - c.order) as i32 },
            ).push(ZChange { entity: c.entity, z: wanted }));
        }
        k += 1;
    }
    assert(canvases@.take(k as int) == canvases@);
    out
}

/// Having another sort order than the hierarchy gives.
pub open spec fn out_of_order(top: int) -> spec_fn(HierarchyCanvas) -> bool {
    |c: HierarchyCanvas| c.sort_order != top - c.order
}

} // verus!
