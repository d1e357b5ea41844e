//! The canvas invariant: a widget lives under a canvas, and a canvas never
//! lives under a widget.

use vstd::prelude::*;

use crate::lineage::{
    ancestor, ancestors_add, at_or_under_marked, has_marked_ancestor, holds_id,
    is_at_or_under_marked, nothing_above, parent_of, under_marked, Link,
};
use crate::scalar::Scalar;

verus! {

/// Whether a widget is in scope: it, or an ancestor of it, is a canvas or the
/// root of a world panel.
pub open spec fn scoped(links: Seq<Link>, scopes: Seq<u64>, widget: u64) -> bool {
    at_or_under_marked(links, widget, scopes)
}

/// Sorted, each once.
pub open spec fn ascending(list: Seq<u64>) -> bool {
    forall|i: int, j: int| 0 <= i < j < list.len() ==> list[i] < list[j]
}

fn insert_sorted(list: &mut Vec<u64>, id: u64)
    requires
        ascending(old(list)@),
    ensures
        ascending(final(list)@),
        forall|x: u64| #[trigger] final(list)@.contains(x) <==> old(list)@.contains(x) || x == id,
{
    let mut at: usize = 0;
    while at < list.len() && list[at] < id
        invariant
            at <= list@.len(),
            ascending(list@),
            list@ == old(list)@,
            forall|k: int| 0 <= k < at ==> list@[k] < id,
        decreases list@.len() - at,
    {
        at += 1;
    }
    let ghost before = list@;
    if at < list.len() && list[at] == id {
        return;
    }
    list.insert(at, id);
    proof {
        let after = list@;
        assert forall|i: int, j: int| 0 <= i < j < after.len() implies after[i] < after[j] by {
            let a = if i < at {
                i
            } else {
                i - 1
            };
            let b = if j < at {
                j
            } else {
                j - 1
            };
            if i != at && j != at {
                assert(before[a] < before[b]);
            } else if i == at {
                assert(before[b] >= before[at as int]);
            }
        }
        assert forall|x: u64| #[trigger] after.contains(x) <==> before.contains(x) || x == id by {
            if before.contains(x) {
                let k = choose|k: int| 0 <= k < before.len() && before[k] == x;
                assert(after[if k < at {
                    k
                } else {
                    k + 1
                }] == x);
            }
            if x == id {
                assert(after[at as int] == x);
            }
            if after.contains(x) && x != id {
                let k = choose|k: int| 0 <= k < after.len() && after[k] == x;
                assert(before[if k < at {
                    k
                } else {
                    k - 1
                }] == x);
            }
        }
    }
}

/// The widgets that may have to be re-homed: those at the root, and those that
/// moved to where no scope is above them. Each once, in ascending order.
pub fn orphan_candidates(
    links: &Vec<Link>,
    scopes: &Vec<u64>,
    roots: &Vec<u64>,
    moved: &Vec<u64>,
) -> (r: Vec<u64>)
    ensures
        ascending(r@),
        forall|w: u64| #[trigger]
            r@.contains(w) <==> roots@.contains(w) || (moved@.contains(w) && !scoped(
                links@,
                scopes@,
                w,
            )),
{
    let mut out: Vec<u64> = Vec::new();
    let mut i: usize = 0;
    while i < roots.len()
        invariant
            i <= roots@.len(),
            ascending(out@),
            forall|w: u64| #[trigger] out@.contains(w) <==> roots@.take(i as int).contains(w),
        decreases roots@.len() - i,
    {
        let ghost before = out@;
        insert_sorted(&mut out, roots[i]);
        assert(roots@.take(i + 1) == roots@.take(i as int).push(roots@[i as int]));
        assert forall|w: u64| #[trigger] out@.contains(w) <==> roots@.take(i + 1).contains(w) by {
            push_contains(roots@.take(i as int), roots@[i as int], w);
        }
        i += 1;
    }
    assert(roots@.take(i as int) == roots@);
    let mut j: usize = 0;
    assert forall|w: u64| #[trigger] out@.contains(w) <==> roots@.contains(w) || (moved@.take(
        0,
    ).contains(w) && !scoped(links@, scopes@, w)) by {}
    while j < moved.len()
        invariant
            j <= moved@.len(),
            ascending(out@),
            forall|w: u64| #[trigger]
                out@.contains(w) <==> roots@.contains(w) || (moved@.take(j as int).contains(w)
                    && !scoped(links@, scopes@, w)),
        decreases moved@.len() - j,
    {
        let lost: bool = !is_at_or_under_marked(links, moved[j], scopes);
        if lost {
            insert_sorted(&mut out, moved[j]);
        }
        assert(moved@.take(j + 1) == moved@.take(j as int).push(moved@[j as int]));
        assert forall|w: u64| #[trigger] out@.contains(w) <==> roots@.contains(w) || (moved@.take(
            j + 1,
        ).contains(w) && !scoped(links@, scopes@, w)) by {
            push_contains(moved@.take(j as int), moved@[j as int], w);
        }
        j += 1;
    }
    assert(moved@.take(j as int) == moved@);
    out
}

proof fn push_contains(list: Seq<u64>, item: u64, x: u64)
    ensures
        list.push(item).contains(x) <==> list.contains(x) || x == item,
{
    if list.contains(x) {
        let k = choose|k: int| 0 <= k < list.len() && list[k] == x;
        assert(list.push(item)[k] == x);
    }
    if x == item {
        assert(list.push(item)[list.len() as int] == x);
    }
    if list.push(item).contains(x) && x != item {
        let k = choose|k: int| 0 <= k < list.push(item).len() && list.push(item)[k] == x;
        assert(list[k] == x);
    }
}

/// The state of a healing: the links, the scopes, and the adoptions so far.
pub struct Healing {
    pub links: Seq<Link>,
    pub scopes: Seq<u64>,
    pub adopted: Seq<Link>,
}

/// A healing of `candidates` in turn. One that is no widget any more, or that an
/// earlier adoption already put in scope, is left alone; any other goes under
/// the next fresh canvas.
pub open spec fn healed(
    links: Seq<Link>,
    scopes: Seq<u64>,
    widgets: Seq<u64>,
    candidates: Seq<u64>,
    fresh: Seq<u64>,
) -> Healing
    decreases candidates.len(),
{
    if candidates.len() == 0 {
        Healing { links, scopes, adopted: Seq::empty() }
    } else {
        let before = healed(links, scopes, widgets, candidates.drop_last(), fresh);
        let w = candidates.last();
        if widgets.contains(w) && !scoped(before.links, before.scopes, w) {
            let canvas = fresh[before.adopted.len() as int];
            let link = Link { child: w, parent: canvas };
            Healing {
                links: before.links.push(link),
                scopes: before.scopes.push(canvas),
                adopted: before.adopted.push(link),
            }
        } else {
            before
        }
    }
}

/// Wrap any widget that has lost its canvas in a fresh root canvas. `fresh` are
/// the canvases that can be used; returns which widget goes under which.
pub fn heal_orphaned_ui_widgets(
    links: &mut Vec<Link>,
    scopes: &mut Vec<u64>,
    widgets: &Vec<u64>,
    candidates: &Vec<u64>,
    fresh: &Vec<u64>,
) -> (r: Vec<Link>)
    requires
        candidates@.len() <= fresh@.len(),
    ensures
        ({
            let end = healed(old(links)@, old(scopes)@, widgets@, candidates@, fresh@);
            &&& final(links)@ == end.links
            &&& final(scopes)@ == end.scopes
            &&& r@ == end.adopted
        }),
{
    let ghost first_links = links@;
    let ghost first_scopes = scopes@;
    let mut adopted: Vec<Link> = Vec::new();
    let mut i: usize = 0;
    assert(candidates@.take(0).len() == 0);
    while i < candidates.len()
        invariant
            i <= candidates@.len(),
            candidates@.len() <= fresh@.len(),
            adopted@.len() <= i,
            ({
                let end = healed(
                    first_links,
                    first_scopes,
                    widgets@,
                    candidates@.take(i as int),
                    fresh@,
                );
                &&& links@ == end.links
                &&& scopes@ == end.scopes
                &&& adopted@ == end.adopted
            }),
        decreases candidates@.len() - i,
    {
        assert(candidates@.take(i + 1).drop_last() == candidates@.take(i as int));
        assert(candidates@.take(i + 1).last() == candidates@[i as int]);
        let w: u64 = candidates[i];
        if holds_id(widgets, w) && !is_at_or_under_marked(links, w, scopes) {
            let canvas: u64 = fresh[adopted.len()];
            let link = Link { child: w, parent: canvas };
            links.push(link);
            scopes.push(canvas);
            adopted.push(link);
        }
        i += 1;
    }
    assert(candidates@.take(i as int) == candidates@);
    adopted
}

proof fn new_link_wins(links: Seq<Link>, link: Link, id: u64)
    ensures
        parent_of(links.push(link), id) == (if id == link.child {
            Some(link.parent)
        } else {
            parent_of(links, id)
        }),
{
    assert(links.push(link).drop_last() =~= links);
}

/// A chain that does not pass the adopted widget is not changed by the adoption.
proof fn chain_unchanged(links: Seq<Link>, link: Link, id: u64, n: nat)
    requires
        forall|k: nat| k < n ==> #[trigger] ancestor(links, id, k) != Some(link.child),
    ensures
        ancestor(links.push(link), id, n) == ancestor(links, id, n),
    decreases n,
{
    if n > 0 {
        chain_unchanged(links, link, id, (n - 1) as nat);
        if let Some(a) = ancestor(links, id, (n - 1) as nat) {
            new_link_wins(links, link, a);
        }
    }
}

/// Adopting a widget that is out of scope takes no other out of scope.
proof fn adoption_keeps_scope(links: Seq<Link>, scopes: Seq<u64>, link: Link, id: u64)
    requires
        scoped(links, scopes, id),
        !scoped(links, scopes, link.child),
    ensures
        scoped(links.push(link), scopes.push(link.parent), id),
{
    let after = links.push(link);
    let marks = scopes.push(link.parent);
    if scopes.contains(id) {
        push_contains(scopes, link.parent, id);
    } else {
        let n = choose|n: nat|
            n > 0 && (#[trigger] ancestor(links, id, n) matches Some(a) && scopes.contains(a));
        let a = ancestor(links, id, n)->0;
        assert forall|k: nat| k < n implies #[trigger] ancestor(links, id, k) != Some(link.child) by {
            if ancestor(links, id, k) == Some(link.child) {
                let m = (n - k) as nat;
                ancestors_add(links, id, k, m);
                assert(k + m == n);
                assert(ancestor(links, link.child, m) == Some(a));
            }
        }
        chain_unchanged(links, link, id, n);
        push_contains(scopes, link.parent, a);
        assert(ancestor(after, id, n) == Some(a) && marks.contains(a));
    }
}

proof fn adoption_scopes(links: Seq<Link>, scopes: Seq<u64>, link: Link)
    ensures
        scoped(links.push(link), scopes.push(link.parent), link.child),
{
    let after = links.push(link);
    let marks = scopes.push(link.parent);
    new_link_wins(links, link, link.child);
    assert(ancestor(after, link.child, 0) == Some(link.child));
    assert(ancestor(after, link.child, 1) == Some(link.parent));
    push_contains(scopes, link.parent, link.parent);
    assert(marks.contains(link.parent));
}

/// After a healing every candidate that is still a widget is in scope, and what
/// was in scope before still is.
pub proof fn healing_restores_scope(
    links: Seq<Link>,
    scopes: Seq<u64>,
    widgets: Seq<u64>,
    candidates: Seq<u64>,
    fresh: Seq<u64>,
)
    ensures
        ({
            let end = healed(links, scopes, widgets, candidates, fresh);
            &&& forall|w: u64|
                candidates.contains(w) && widgets.contains(w) ==> #[trigger] scoped(
                    end.links,
                    end.scopes,
                    w,
                )
            &&& forall|w: u64|
                scoped(links, scopes, w) ==> #[trigger] scoped(end.links, end.scopes, w)
        }),
    decreases candidates.len(),
{
    let end = healed(links, scopes, widgets, candidates, fresh);
    if candidates.len() > 0 {
        let rest = candidates.drop_last();
        let before = healed(links, scopes, widgets, rest, fresh);
        let last = candidates.last();
        healing_restores_scope(links, scopes, widgets, rest, fresh);
        let adopts = widgets.contains(last) && !scoped(before.links, before.scopes, last);
        let link = Link { child: last, parent: fresh[before.adopted.len() as int] };
        if adopts {
            adoption_scopes(before.links, before.scopes, link);
        }
        assert forall|w: u64| scoped(before.links, before.scopes, w) implies #[trigger] scoped(
            end.links,
            end.scopes,
            w,
        ) by {
            if adopts {
                adoption_keeps_scope(before.links, before.scopes, link, w);
            }
        }
        assert forall|w: u64|
            candidates.contains(w) && widgets.contains(w) implies #[trigger] scoped(
            end.links,
            end.scopes,
            w,
        ) by {
            if w != last {
                let k = choose|k: int| 0 <= k < candidates.len() && candidates[k] == w;
                assert(rest[k] == w);
                assert(rest.contains(w));
                assert(scoped(before.links, before.scopes, w));
            }
        }
        assert forall|w: u64| scoped(links, scopes, w) implies #[trigger] scoped(
            end.links,
            end.scopes,
            w,
        ) by {
            assert(scoped(before.links, before.scopes, w));
        }
    }
}

/// A healing of what is in scope already adopts nothing.
pub proof fn healthy_is_left_alone(
    links: Seq<Link>,
    scopes: Seq<u64>,
    widgets: Seq<u64>,
    candidates: Seq<u64>,
    fresh: Seq<u64>,
)
    requires
        forall|k: int|
            0 <= k < candidates.len() ==> scoped(links, scopes, #[trigger] candidates[k]),
    ensures
        healed(links, scopes, widgets, candidates, fresh) == (Healing {
            links,
            scopes,
            adopted: Seq::empty(),
        }),
    decreases candidates.len(),
{
    if candidates.len() > 0 {
        let rest = candidates.drop_last();
        assert forall|k: int| 0 <= k < rest.len() implies scoped(
            links,
            scopes,
            #[trigger] rest[k],
        ) by {
            assert(rest[k] == candidates[k]);
        }
        healthy_is_left_alone(links, scopes, widgets, rest, fresh);
        assert(candidates[candidates.len() - 1] == candidates.last());
    }
}

/// Having a widget above it.
pub open spec fn nested(links: Seq<Link>, widgets: Seq<u64>) -> spec_fn(u64) -> bool {
    |c: u64| under_marked(links, c, widgets)
}

/// The canvases to pop back to the scene root: those that moved under a widget.
/// Widgets belong to canvases, never the reverse.
pub fn heal_nested_ui_canvases(links: &Vec<Link>, widgets: &Vec<u64>, moved: &Vec<u64>) -> (r: Vec<
    u64,
>)
    ensures
        r@ == moved@.filter(nested(links@, widgets@)),
{
    let mut out: Vec<u64> = Vec::new();
    let mut i: usize = 0;
    proof {
        reveal(Seq::filter);
        assert(moved@.take(0).filter(nested(links@, widgets@)) =~= Seq::<u64>::empty());
    }
    while i < moved.len()
        invariant
            i <= moved@.len(),
            out@ == moved@.take(i as int).filter(nested(links@, widgets@)),
        decreases moved@.len() - i,
    {
        proof {
            reveal(Seq::filter);
            assert(moved@.take(i + 1).drop_last() == moved@.take(i as int));
        }
        if has_marked_ancestor(links, moved[i], widgets) {
            out.push(moved[i]);
        }
        i += 1;
    }
    assert(moved@.take(i as int) == moved@);
    out
}

// ── The geometry of a canvas root ──

/// Keeping the links of all but some entities.
pub open spec fn not_of(popped: Seq<u64>) -> spec_fn(Link) -> bool {
    |l: Link| !popped.contains(l.child)
}

proof fn unlinked_has_no_parent(links: Seq<Link>, popped: Seq<u64>, id: u64)
    requires
        popped.contains(id),
    ensures
        parent_of(links.filter(not_of(popped)), id) is None,
    decreases links.len(),
{
    reveal(Seq::filter);
    if links.len() > 0 {
        unlinked_has_no_parent(links.drop_last(), popped, id);
        let rest = links.drop_last().filter(not_of(popped));
        if not_of(popped)(links.last()) {
            assert(rest.push(links.last()).drop_last() =~= rest);
        }
    }
}

/// A popped canvas is at the root: no widget is above it any more.
pub proof fn popped_canvas_is_at_the_root(
    links: Seq<Link>,
    widgets: Seq<u64>,
    popped: Seq<u64>,
    canvas: u64,
)
    requires
        popped.contains(canvas),
    ensures
        !under_marked(links.filter(not_of(popped)), canvas, widgets),
{
    let after = links.filter(not_of(popped));
    unlinked_has_no_parent(links, popped, canvas);
    assert forall|n: nat| n > 0 implies #[trigger] ancestor(after, canvas, n) is None by {
        nothing_above(after, canvas, n);
    }
}

/// A length in a layout.
#[derive(Clone, Copy, Debug, PartialEq, Eq, Structural)]
pub enum Length {
    Auto,
    Px(Scalar),
    Percent(Scalar),
}

impl Length {
    /// Equality of lengths as numbers.
    pub open spec fn equal(self, other: Length) -> bool {
        match (self, other) {
            (Length::Auto, Length::Auto) => true,
            (Length::Px(a), Length::Px(b)) => a.equal(b),
            (Length::Percent(a), Length::Percent(b)) => a.equal(b),
            _ => false,
        }
    }

    pub fn same(self, other: Length) -> (r: bool)
        ensures
            r == self.equal(other),
    {
        match (self, other) {
            (Length::Auto, Length::Auto) => true,
            (Length::Px(a), Length::Px(b)) => a.same(b),
            (Length::Percent(a), Length::Percent(b)) => a.same(b),
            _ => false,
        }
    }
}

/// The part of a node's layout that makes a canvas root fill its target.
#[derive(Clone, Copy, Debug, PartialEq, Eq, Structural)]
pub struct RootGeometry {
    pub absolute: bool,
    pub left: Length,
    pub top: Length,
    pub width: Length,
    pub height: Length,
}

impl RootGeometry {
    /// Equality of geometries as numbers.
    pub open spec fn equal(self, other: RootGeometry) -> bool {
        self.absolute == other.absolute && self.left.equal(other.left) && self.top.equal(other.top)
            && self.width.equal(other.width) && self.height.equal(other.height)
    }
}

/// Force a canvas root back to full-target geometry. Writes only on a mismatch,
/// so that a healthy canvas does not invalidate the layout. Returns whether it
/// wrote.
pub fn heal_canvas_root_geometry(node: &mut RootGeometry, want: RootGeometry) -> (r: bool)
    ensures
        r == !old(node).equal(want),
        *final(node) == (if r {
            want
        } else {
            *old(node)
        }),
{
    let same: bool = node.absolute == want.absolute && node.left.same(want.left) && node.top.same(
        want.top,
    ) && node.width.same(want.width) && node.height.same(want.height);
    if !same {
        *node = want;
    }
    !same
}

} // verus!
