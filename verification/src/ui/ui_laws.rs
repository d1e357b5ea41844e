//! What canvases, widgets, orders and plots go by.

use vstd::prelude::*;

use crate::lineage::{parent_of, Link};
use crate::scalar::{Point, Scalar};
use crate::ui::canvas::{misrouted, mode_shows, no_size, routed, scale_sizes_of, CanvasTarget, ScaleSizes};
use crate::ui::heal::{ascending, healed, nested, not_of, scoped, Healing, Length, RootGeometry};
use crate::ui::inspector::{CanvasChoice, CanvasModel};
use crate::ui::order::{
    deepest, group_changed, order_changes, out_of_order, out_of_place, place, HierarchyCanvas,
    RootCanvas, Sibling, ZChange,
};
use crate::ui::plot::{greatest_of, least_of, packed, recent, unit};

verus! {

// ── Canvases ──

/// A canvas for play shows in play, one for the editor outside of it, and any
/// other always.
pub proof fn modes_show_where_they_say(mode: Seq<char>, in_play: bool)
    ensures
        mode_shows("play_only"@, in_play) == in_play,
        mode != "play_only"@ && mode != "editor_only"@ ==> mode_shows(mode, in_play),
        mode == "editor_only"@ ==> mode_shows(mode, in_play) == !in_play,
{
    reveal_strlit("play_only");
    reveal_strlit("editor_only");
    assert("play_only"@[0] != "editor_only"@[0]);
}

/// A canvas is routed to the target unless it is drawn in the world, and then its
/// camera is the target; nothing else of it changes.
pub proof fn canvases_are_routed_to_the_target(target: u64, c: CanvasTarget)
    ensures
        misrouted(target)(c) <==> !c.world && c.camera != Some(target),
        routed(target)(c).entity == c.entity && routed(target)(c).world == c.world,
        !c.world ==> routed(target)(c).camera == Some(target),
        c.world ==> routed(target)(c).camera == c.camera,
{
}

/// The interface is scaled from the canvas's reference size, or 1280 by 720, to
/// the size of the target, or of the window; and not where one of them has no
/// extent.
pub proof fn scales_go_from_reference_to_target(
    canvas: Option<Point>,
    target: Option<Point>,
    window: Option<Point>,
)
    ensures
        ({
            let reference = if canvas is Some {
                canvas->0
            } else {
                Point { x: Scalar { bits: 0x44A0_0000 }, y: Scalar { bits: 0x4434_0000 } }
            };
            let known = if target is Some {
                target
            } else {
                window
            };
            &&& known is None ==> scale_sizes_of(canvas, target, window) is None
            &&& known is Some && (no_size(reference) || no_size(known->0)) ==> scale_sizes_of(
                canvas,
                target,
                window,
            ) is None
            &&& known is Some && !no_size(reference) && !no_size(known->0) ==> scale_sizes_of(
                canvas,
                target,
                window,
            ) == Some(ScaleSizes { reference, actual: known->0 })
        }),
{
}

/// A size has an extent where both ways are above zero.
pub proof fn sizes_have_both_ways(size: Point)
    ensures
        0 < size.x.bits <= 0x7F80_0000 && 0 < size.y.bits <= 0x7F80_0000 ==> !no_size(size),
        size.x.bits == 0 || size.y.bits == 0 ==> no_size(size),
        0x8000_0000 <= size.x.bits <= 0xFF80_0000 ==> no_size(size),
        0x8000_0000 <= size.y.bits <= 0xFF80_0000 ==> no_size(size),
{
}

/// Each choice of a canvas is a field of its own, and setting it sets that field.
pub proof fn choices_are_fields(c: CanvasModel, word: Seq<char>)
    ensures
        c.choice(CanvasChoice::Visibility) == c.visibility_mode,
        c.choice(CanvasChoice::RenderSpace) == c.render_space,
        c.choice(CanvasChoice::RenderMode) == c.render_mode,
        c.with_choice(CanvasChoice::Visibility, word) == (CanvasModel {
            visibility_mode: word,
            ..c
        }),
        c.with_choice(CanvasChoice::RenderSpace, word) == (CanvasModel { render_space: word, ..c }),
        c.with_choice(CanvasChoice::RenderMode, word) == (CanvasModel { render_mode: word, ..c }),
{
}

// ── Healing ──

/// A widget is in scope where it is a scope itself, or its parent is in one.
pub proof fn scope_comes_from_above(links: Seq<Link>, scopes: Seq<u64>, widget: u64)
    ensures
        scopes.contains(widget) ==> scoped(links, scopes, widget),
        !scopes.contains(widget) && parent_of(links, widget) is None ==> !scoped(
            links,
            scopes,
            widget,
        ),
        !scopes.contains(widget) ==> (parent_of(links, widget) matches Some(p) ==> scoped(
            links,
            scopes,
            widget,
        ) == scoped(links, scopes, p)),
{
    crate::lineage::marks_reach_all_below(links, widget, scopes);
}

/// Candidates are healed one by one: one that is a widget and in no scope by then
/// goes under the next fresh canvas, which is a scope from then on; any other is
/// left alone.
pub proof fn widgets_are_healed_one_by_one(
    links: Seq<Link>,
    scopes: Seq<u64>,
    widgets: Seq<u64>,
    candidates: Seq<u64>,
    fresh: Seq<u64>,
    w: u64,
)
    ensures
        healed(links, scopes, widgets, Seq::empty(), fresh) == (Healing {
            links,
            scopes,
            adopted: Seq::empty(),
        }),
        ({
            let so_far = healed(links, scopes, widgets, candidates, fresh);
            let after = healed(links, scopes, widgets, candidates.push(w), fresh);
            let canvas = fresh[so_far.adopted.len() as int];
            let link = Link { child: w, parent: canvas };
            &&& widgets.contains(w) && !scoped(so_far.links, so_far.scopes, w) ==> after
                == (Healing {
                links: so_far.links.push(link),
                scopes: so_far.scopes.push(canvas),
                adopted: so_far.adopted.push(link),
            })
            &&& !(widgets.contains(w) && !scoped(so_far.links, so_far.scopes, w)) ==> after
                == so_far
        }),
{
    assert(candidates.push(w).drop_last() =~= candidates);
}

/// A canvas is nested where its parent is a widget or is itself under one; and to
/// pop it out takes its own link away and no other's.
pub proof fn nested_canvases_are_under_widgets(
    links: Seq<Link>,
    widgets: Seq<u64>,
    c: u64,
    popped: Seq<u64>,
    l: Link,
)
    ensures
        parent_of(links, c) is None ==> !nested(links, widgets)(c),
        parent_of(links, c) matches Some(p) ==> (nested(links, widgets)(c) <==> widgets.contains(p)
            || nested(links, widgets)(p)),
        not_of(popped)(l) == !popped.contains(l.child),
{
    crate::lineage::marks_reach_all_below(links, c, widgets);
}

/// Two lengths are equal where they are of one sort and their numbers are; and two
/// geometries where all of theirs are.
pub proof fn geometries_go_by_all_parts(a: Scalar, b: Scalar, g: RootGeometry, h: RootGeometry)
    ensures
        Length::Px(a).equal(Length::Px(b)) == a.equal(b),
        Length::Percent(a).equal(Length::Percent(b)) == a.equal(b),
        Length::Auto.equal(Length::Auto),
        !Length::Px(a).equal(Length::Percent(b)) && !Length::Percent(a).equal(Length::Px(b)),
        !Length::Auto.equal(Length::Px(b)) && !Length::Px(a).equal(Length::Auto)
            && !Length::Auto.equal(Length::Percent(b)) && !Length::Percent(a).equal(Length::Auto),
        g.equal(h) <==> g.absolute == h.absolute && g.left.equal(h.left) && g.top.equal(h.top)
            && g.width.equal(h.width) && g.height.equal(h.height),
{
}

/// Ids ascend where each one more is greater than the one it follows.
pub proof fn ids_ascend_one_by_one(list: Seq<u64>, id: u64)
    ensures
        ascending(Seq::<u64>::empty()),
        ascending(list.push(id)) <==> ascending(list) && (list.len() > 0 ==> list.last() < id),
{
    let more = list.push(id);
    let n = list.len() as int;
    if ascending(more) {
        assert forall|i: int, j: int| 0 <= i < j < n implies list[i] < list[j] by {
            assert(more[i] < more[j]);
        }
        if n > 0 {
            assert(more[n - 1] < more[n]);
        }
    }
    if ascending(list) && (n > 0 ==> list.last() < id) {
        assert forall|i: int, j: int| 0 <= i < j < more.len() implies more[i] < more[j] by {
            if j == n && i < n - 1 {
                assert(list[i] < list[n - 1]);
            }
        }
    }
}

// ── Order ──

/// The place of a sibling is how many interface siblings come after it: the last
/// one is drawn lowest.
pub proof fn places_count_what_comes_after(children: Seq<Sibling>, i: int)
    requires
        0 <= i < children.len(),
    ensures
        place(children, children.len() - 1) == 0,
        i + 1 < children.len() && children[i + 1].ui ==> place(children, i) == place(
            children,
            i + 1,
        ) + 1,
        i + 1 < children.len() && !children[i + 1].ui ==> place(children, i) == place(
            children,
            i + 1,
        ),
{
}

/// Siblings are gone through in order: an interface one whose place is not the one
/// it has is given it, and any other is left.
pub proof fn only_misplaced_siblings_are_written(children: Seq<Sibling>, n: int)
    requires
        0 <= n < children.len(),
        children.len() <= i32::MAX,
    ensures
        ({
            let c = children[n];
            let so_far = order_changes(children, n);
            let z = place(children, n);
            &&& order_changes(children, 0).len() == 0
            &&& c.ui && c.z != Some(z as i32) ==> order_changes(children, n + 1) == so_far.push(
                ZChange { entity: c.entity, z: z as i32 },
            )
            &&& !c.ui || c.z == Some(z as i32) ==> order_changes(children, n + 1) == so_far
        }),
{
}

/// A root canvas stands at its sort order; one with a parent is not placed so.
pub proof fn roots_stand_at_their_order(c: RootCanvas)
    ensures
        out_of_place()(c) <==> !c.has_parent && c.z != Some(c.sort_order),
{
}

/// A group is ordered anew where its children changed, or it was switched on or
/// off, or one of its own was changed or switched.
pub proof fn changed_groups_are_ordered(
    children: Seq<u64>,
    items: Seq<u64>,
    disabled: Seq<u64>,
    links: Seq<Link>,
    parent: u64,
)
    ensures
        group_changed(children, items, disabled, links, parent) <==> children.contains(parent)
            || disabled.contains(parent) || (exists|id: u64|
            items.contains(id) && #[trigger] parent_of(links, id) == Some(parent)) || (exists|
            id: u64,
        |
            disabled.contains(id) && #[trigger] parent_of(links, id) == Some(parent)),
{
    if exists|k: int| 0 <= k < items.len() && parent_of(links, #[trigger] items[k]) == Some(parent) {
        let k = choose|k: int|
            0 <= k < items.len() && parent_of(links, #[trigger] items[k]) == Some(parent);
        assert(items.contains(items[k]));
    }
    if exists|k: int|
        0 <= k < disabled.len() && parent_of(links, #[trigger] disabled[k]) == Some(parent) {
        let k = choose|k: int|
            0 <= k < disabled.len() && parent_of(links, #[trigger] disabled[k]) == Some(parent);
        assert(disabled.contains(disabled[k]));
    }
    if exists|id: u64| items.contains(id) && #[trigger] parent_of(links, id) == Some(parent) {
        let id = choose|id: u64| items.contains(id) && #[trigger] parent_of(links, id) == Some(parent);
        let k = choose|k: int| 0 <= k < items.len() && items[k] == id;
        assert(parent_of(links, items[k]) == Some(parent));
    }
    if exists|id: u64| disabled.contains(id) && #[trigger] parent_of(links, id) == Some(parent) {
        let id = choose|id: u64|
            disabled.contains(id) && #[trigger] parent_of(links, id) == Some(parent);
        let k = choose|k: int| 0 <= k < disabled.len() && disabled[k] == id;
        assert(parent_of(links, disabled[k]) == Some(parent));
    }
}

/// The lowest canvas of the hierarchy has sort order zero, and each other one as
/// much more as it stands higher.
pub proof fn higher_canvases_have_higher_orders(canvases: Seq<HierarchyCanvas>, i: int)
    requires
        0 <= i < canvases.len(),
    ensures
        canvases[i].order <= deepest(canvases),
        exists|k: int| 0 <= k < canvases.len() && (#[trigger] canvases[k]).order == deepest(canvases),
        out_of_order(deepest(canvases))(canvases[i]) <==> canvases[i].sort_order + canvases[i].order
            != deepest(canvases),
    decreases canvases.len(),
{
    let rest = canvases.drop_last();
    let last = canvases.len() - 1;
    if rest.len() > 0 {
        let k = if i < last {
            i
        } else {
            0
        };
        higher_canvases_have_higher_orders(rest, k);
        let m = choose|m: int| 0 <= m < rest.len() && (#[trigger] rest[m]).order == deepest(rest);
        assert(canvases[m].order == deepest(rest));
        if i < last {
            assert(rest[i] == canvases[i]);
        }
    } else {
        assert(deepest(rest) == 0);
    }
    assert(canvases[last].order == canvases.last().order);
}

// ── Plots ──

/// A number from zero to one is kept, and any other moved to the nearer of them.
pub proof fn shares_are_kept_in_range(x: Scalar)
    ensures
        x.bits <= 0x3F80_0000 ==> unit(x) == x,
        0x3F80_0000 < x.bits <= 0x7F80_0000 ==> unit(x) == (Scalar { bits: 0x3F80_0000 }),
        0x8000_0000 < x.bits <= 0xFF80_0000 ==> unit(x) == (Scalar { bits: 0 }),
{
}

/// A chart shows its last 32 samples, or all where there are fewer, and none where
/// there are fewer than two.
pub proof fn charts_show_the_last_samples(values: Seq<Scalar>)
    ensures
        values.len() < 2 ==> recent(values) is None,
        2 <= values.len() <= 32 ==> recent(values) == Some(values),
        values.len() > 32 ==> recent(values) == Some(
            values.subrange(values.len() - 32, values.len() as int),
        ),
{
    if values.len() > 32 {
        assert(values.skip(values.len() - 32) =~= values.subrange(
            values.len() - 32,
            values.len() as int,
        ));
    }
}

/// The bounds of samples are samples themselves, where they are numbers.
pub proof fn bounds_are_samples(values: Seq<Scalar>, low: Scalar, high: Scalar)
    requires
        values.len() > 0,
        !low.nan(),
        !high.nan(),
        forall|k: int| 0 <= k < values.len() ==> !(#[trigger] values[k]).nan(),
    ensures
        least_of(values, low) == low || values.contains(least_of(values, low)),
        greatest_of(values, high) == high || values.contains(greatest_of(values, high)),
        forall|k: int|
            0 <= k < values.len() ==> least_of(values, low).at_most(#[trigger] values[k])
                && values[k].at_most(greatest_of(values, high)),
        least_of(values, low).at_most(low) && high.at_most(greatest_of(values, high)),
        !least_of(values, low).nan() && !greatest_of(values, high).nan(),
    decreases values.len(),
{
    let rest = values.drop_last();
    let last = values.len() - 1;
    assert(values[last] == values.last());
    if rest.len() > 0 {
        assert forall|k: int| 0 <= k < rest.len() implies !(#[trigger] rest[k]).nan() by {
            assert(rest[k] == values[k]);
        }
        bounds_are_samples(rest, low, high);
        if rest.contains(least_of(rest, low)) {
            let k = choose|k: int| 0 <= k < rest.len() && rest[k] == least_of(rest, low);
            assert(values[k] == least_of(rest, low));
        }
        if rest.contains(greatest_of(rest, high)) {
            let k = choose|k: int| 0 <= k < rest.len() && rest[k] == greatest_of(rest, high);
            assert(values[k] == greatest_of(rest, high));
        }
    } else {
        assert(least_of(rest, low) == low);
        assert(greatest_of(rest, high) == high);
    }
    assert(values.contains(values[last]));
    assert forall|k: int| 0 <= k < values.len() implies least_of(values, low).at_most(
        #[trigger] values[k],
    ) && values[k].at_most(greatest_of(values, high)) by {
        if k < last {
            assert(rest[k] == values[k]);
        }
    }
}

/// Samples are packed in order, each from zero to one, with zeros behind them, 32
/// in all.
pub proof fn samples_are_packed_in_order(samples: Seq<Scalar>, k: int)
    requires
        0 <= k < 32,
    ensures
        packed(samples).len() == 32,
        k < samples.len() ==> packed(samples)[k] == unit(samples[k]),
        k >= samples.len() ==> packed(samples)[k] == (Scalar { bits: 0 }),
{
}

} // verus!
