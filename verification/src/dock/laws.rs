//! What holds of every dock tree and every edit.

use vstd::prelude::*;

use crate::dock::layout::{
    clamped_ratio, halved, leaf_of_holds, slot, split, DropZone, Layout, SplitDirection,
};
use crate::scalar::Scalar;
use crate::text::{position, position_found, position_is_first};

verus! {

proof fn concat_contains<T>(a: Seq<T>, b: Seq<T>, x: T)
    ensures
        (a + b).contains(x) <==> a.contains(x) || b.contains(x),
{
    let both = a + b;
    if a.contains(x) {
        let i = choose|i: int| 0 <= i < a.len() && a[i] == x;
        assert(both[i] == x);
    }
    if b.contains(x) {
        let i = choose|i: int| 0 <= i < b.len() && b[i] == x;
        assert(both[a.len() + i] == x);
    }
    if both.contains(x) {
        let i = choose|i: int| 0 <= i < both.len() && both[i] == x;
        if i < a.len() {
            assert(a[i] == x);
        } else {
            assert(b[i - a.len()] == x);
        }
    }
}

/// A panel is present exactly where it is among the collected panels.
pub proof fn present_is_collected(t: Layout, panel: Seq<char>)
    ensures
        t.holds(panel) <==> t.panels().contains(panel),
    decreases t,
{
    match t {
        Layout::Split { first, second, .. } => {
            present_is_collected(*first, panel);
            present_is_collected(*second, panel);
            concat_contains(first.panels(), second.panels(), panel);
        },
        _ => {},
    }
}

/// A visible panel is present.
pub proof fn visible_is_present(t: Layout, panel: Seq<char>)
    ensures
        t.shows(panel) ==> t.holds(panel),
        t.shows(panel) <==> t.shown().contains(panel),
    decreases t,
{
    match t {
        Layout::Split { first, second, .. } => {
            visible_is_present(*first, panel);
            visible_is_present(*second, panel);
            concat_contains(first.shown(), second.shown(), panel);
        },
        Layout::Leaf { tabs, active } => {
            if 0 <= active < tabs.len() {
                assert(t.shown()[0] == tabs[active]);
            }
        },
        Layout::Empty => {},
    }
}

/// Replacing the leaf of a panel touches no other leaf.
pub proof fn other_leaves_stay(t: Layout, panel: Seq<char>, leaf: Layout)
    requires
        t.holds(panel),
    ensures
        t.leaf_of(panel) is Some,
        t.panels() == t.panels_before(panel) + (t.leaf_of(panel)->0).panels() + t.panels_after(
            panel,
        ),
        t.with_leaf(panel, leaf).panels() == t.panels_before(panel) + leaf.panels()
            + t.panels_after(panel),
        !t.panels_before(panel).contains(panel),
    decreases t,
{
    leaf_of_holds(t, panel);
    match t {
        Layout::Split { first, second, .. } => {
            if first.holds(panel) {
                other_leaves_stay(*first, panel, leaf);
            } else {
                other_leaves_stay(*second, panel, leaf);
                present_is_collected(*first, panel);
                concat_contains(first.panels(), second.panels_before(panel), panel);
            }
        },
        _ => {},
    }
}

/// Collapsing empty leaves and splits loses no panel and moves none.
pub proof fn tidy_keeps_panels(t: Layout)
    ensures
        t.tidy().panels() == t.panels(),
    decreases t,
{
    match t {
        Layout::Split { first, second, .. } => {
            tidy_keeps_panels(*first);
            tidy_keeps_panels(*second);
        },
        _ => {},
    }
}

/// A tidied tree has no empty leaf and no split around nothing.
pub proof fn tidy_is_sound(t: Layout)
    requires
        t.nearly_sound(),
    ensures
        t.tidy().sound(),
    decreases t,
{
    match t {
        Layout::Split { first, second, .. } => {
            tidy_is_sound(*first);
            tidy_is_sound(*second);
        },
        _ => {},
    }
}

/// A sound tree is tidy already.
pub proof fn sound_is_tidy(t: Layout)
    requires
        t.sound(),
    ensures
        t.tidy() == t,
        t.nearly_sound(),
    decreases t,
{
    match t {
        Layout::Split { first, second, .. } => {
            sound_is_tidy(*first);
            sound_is_tidy(*second);
        },
        _ => {},
    }
}

/// In a sound tree, a node with no panels is nothing at all.
pub proof fn sound_has_panels(t: Layout)
    requires
        t.sound(),
    ensures
        t.vacant() <==> t.panels().len() == 0,
        t.vacant() <==> t == Layout::Empty,
    decreases t,
{
    match t {
        Layout::Split { first, second, .. } => {
            sound_has_panels(*first);
            sound_has_panels(*second);
        },
        _ => {},
    }
}

/// Replacing the leaf of a panel by a sound tree keeps a tree sound.
pub proof fn with_leaf_sound(t: Layout, panel: Seq<char>, leaf: Layout)
    requires
        t.sound(),
        leaf.sound(),
        !leaf.vacant(),
    ensures
        t.with_leaf(panel, leaf).sound(),
        t.with_leaf(panel, leaf).vacant() ==> t.vacant(),
    decreases t,
{
    match t {
        Layout::Split { first, second, .. } => {
            with_leaf_sound(*first, panel, leaf);
            with_leaf_sound(*second, panel, leaf);
        },
        _ => {},
    }
}

proof fn with_leaf_nearly_sound(t: Layout, panel: Seq<char>, leaf: Layout)
    requires
        t.nearly_sound(),
        leaf.nearly_sound(),
    ensures
        t.with_leaf(panel, leaf).nearly_sound(),
    decreases t,
{
    match t {
        Layout::Split { first, second, .. } => {
            with_leaf_nearly_sound(*first, panel, leaf);
            with_leaf_nearly_sound(*second, panel, leaf);
        },
        _ => {},
    }
}

proof fn leaf_of_sound(t: Layout, panel: Seq<char>)
    requires
        t.sound(),
    ensures
        t.leaf_of(panel) matches Some(leaf) ==> leaf.sound() && !leaf.vacant(),
    decreases t,
{
    match t {
        Layout::Split { first, second, .. } => {
            leaf_of_sound(*first, panel);
            leaf_of_sound(*second, panel);
        },
        _ => {},
    }
}

/// Removing a panel takes exactly its first occurrence, in tree order, and
/// leaves a sound tree sound.
pub proof fn remove_takes_one(t: Layout, panel: Seq<char>)
    ensures
        t.holds(panel) ==> t.without_panel(panel).panels() == t.panels().remove(
            position(t.panels(), panel),
        ),
        !t.holds(panel) ==> t.without_panel(panel) == t,
        t.sound() ==> t.without_panel(panel).sound(),
{
    if t.holds(panel) {
        let leaf = t.leaf_without(panel);
        leaf_of_holds(t, panel);
        other_leaves_stay(t, panel, leaf);
        tidy_keeps_panels(t.with_leaf(panel, leaf));
        let tabs = match t.leaf_of(panel) {
            Some(Layout::Leaf { tabs, .. }) => tabs,
            _ => Seq::empty(),
        };
        let before = t.panels_before(panel);
        let after = t.panels_after(panel);
        let at = position(tabs, panel);
        position_is_first(tabs, panel);
        assert forall|j: int| 0 <= j < before.len() + at implies t.panels()[j] != panel by {
            if j < before.len() {
                assert(before[j] == t.panels()[j]);
                assert(before.contains(before[j]));
            } else {
                assert(tabs[j - before.len()] == t.panels()[j]);
            }
        }
        assert(t.panels()[before.len() + at] == panel);
        position_found(t.panels(), panel, before.len() + at);
        assert(before + tabs.remove(at) + after =~= (before + tabs + after).remove(
            before.len() + at,
        ));
        if t.sound() {
            sound_is_tidy(t);
            leaf_of_sound(t, panel);
            with_leaf_nearly_sound(t, panel, leaf);
            tidy_is_sound(t.with_leaf(panel, leaf));
        }
    }
}

/// Taking a leaf takes all of its tabs and nothing else.
pub proof fn take_leaf_takes_its_tabs(t: Layout, panel: Seq<char>)
    requires
        t.holds(panel),
    ensures
        t.leaf_of(panel) is Some,
        t.panels().to_multiset() == t.without_leaf(panel).panels().to_multiset().add(
            (t.leaf_of(panel)->0).panels().to_multiset(),
        ),
        t.sound() ==> t.without_leaf(panel).sound() && (t.leaf_of(panel)->0).sound(),
{
    other_leaves_stay(t, panel, Layout::Empty);
    let cut = t.with_leaf(panel, Layout::Empty);
    tidy_keeps_panels(cut);
    let before = t.panels_before(panel);
    let after = t.panels_after(panel);
    let tabs = (t.leaf_of(panel)->0).panels();
    assert(before + Seq::empty() + after =~= before + after);
    vstd::seq_lib::lemma_multiset_commutative(before + tabs, after);
    vstd::seq_lib::lemma_multiset_commutative(before, tabs);
    vstd::seq_lib::lemma_multiset_commutative(before, after);
    assert(t.panels().to_multiset() =~= cut.panels().to_multiset().add(tabs.to_multiset()));
    if t.sound() {
        sound_is_tidy(t);
        leaf_of_sound(t, panel);
        with_leaf_nearly_sound(t, panel, Layout::Empty);
        tidy_is_sound(cut);
    }
}

/// Retiring panels drops exactly the named ones, in place.
pub proof fn retire_drops_the_named(t: Layout, ids: Seq<Seq<char>>)
    ensures
        t.retired(ids).panels() == t.panels().filter(|p: Seq<char>| !ids.contains(p)),
        t.nearly_sound() ==> t.retired(ids).sound(),
        t.retired(ids).vacant() ==> t.retired(ids) == Layout::Empty,
    decreases t,
{
    let stays = |p: Seq<char>| !ids.contains(p);
    match t {
        Layout::Split { first, second, .. } => {
            retire_drops_the_named(*first, ids);
            retire_drops_the_named(*second, ids);
            Seq::filter_distributes_over_add(first.panels(), second.panels(), stays);
        },
        Layout::Leaf { tabs, active } => {
            let kept = tabs.filter(stays);
            position_is_first(kept, tabs[active]);
        },
        Layout::Empty => {
            assert(Seq::<Seq<char>>::empty().filter(stays) =~= Seq::empty()) by {
                reveal(Seq::filter);
            }
        },
    }
}

/// Activating a present panel makes it visible and moves nothing.
pub proof fn activating_shows(t: Layout, panel: Seq<char>)
    ensures
        t.holds(panel) ==> t.activated(panel).shows(panel),
        t.activated(panel).panels() == t.panels(),
        t.sound() ==> t.activated(panel).sound(),
        t.activated(panel).vacant() == t.vacant(),
    decreases t,
{
    leaf_of_holds(t, panel);
    if t.holds(panel) {
        let tabs = match t.leaf_of(panel) {
            Some(Layout::Leaf { tabs, .. }) => tabs,
            _ => Seq::empty(),
        };
        position_is_first(tabs, panel);
        let leaf = Layout::Leaf { tabs, active: position(tabs, panel) };
        other_leaves_stay(t, panel, leaf);
        if t.sound() {
            with_leaf_sound(t, panel, leaf);
        }
        match t {
            Layout::Split { first, second, .. } => {
                activating_shows(*first, panel);
                activating_shows(*second, panel);
                leaf_of_holds(*first, panel);
                leaf_of_holds(*second, panel);
            },
            _ => {},
        }
    }
}

/// Appending a panel makes it present and visible, and keeps every other.
pub proof fn appending_shows(t: Layout, panel: Seq<char>)
    ensures
        t.appended(panel) matches Some(grown) ==> {
            &&& grown.shows(panel)
            &&& grown.panels().to_multiset() == t.panels().to_multiset().insert(panel)
            &&& !grown.vacant()
        },
        t.appended(panel) is Some <==> t.has_leaf(),
        !t.has_leaf() ==> t.panels().len() == 0,
        t.sound() && !t.vacant() ==> t.appended(panel) is Some,
        t.sound() ==> (t.appended(panel) matches Some(grown) ==> grown.sound()),
    decreases t,
{
    match t {
        Layout::Split { first, second, .. } => {
            appending_shows(*first, panel);
            appending_shows(*second, panel);
            vstd::seq_lib::lemma_multiset_commutative(first.panels(), second.panels());
            if let Some(grown) = first.appended(panel) {
                vstd::seq_lib::lemma_multiset_commutative(grown.panels(), second.panels());
                assert(t.appended(panel)->0.panels().to_multiset()
                    =~= t.panels().to_multiset().insert(panel));
            } else if let Some(grown) = second.appended(panel) {
                vstd::seq_lib::lemma_multiset_commutative(first.panels(), grown.panels());
                assert(t.appended(panel)->0.panels().to_multiset()
                    =~= t.panels().to_multiset().insert(panel));
            }
        },
        Layout::Leaf { tabs, .. } => {
            tabs.to_multiset_ensures();
        },
        Layout::Empty => {},
    }
}

/// Adopting a panel makes it present and visible, adds it only where it was
/// missing, loses no other panel, and keeps a sound tree sound.
pub proof fn adopting_shows(t: Layout, panel: Seq<char>)
    ensures
        t.sound() ==> t.adopted(panel).sound(),
        t.adopted(panel).shows(panel),
        t.adopted(panel).holds(panel),
        t.adopted(panel).panels().to_multiset() == (if t.holds(panel) {
            t.panels().to_multiset()
        } else {
            t.panels().to_multiset().insert(panel)
        }),
        !t.adopted(panel).vacant(),
{
    activating_shows(t, panel);
    appending_shows(t, panel);
    present_is_collected(t, panel);
    visible_is_present(t.adopted(panel), panel);
    if t.vacant() || !t.has_leaf() {
        assert(seq![panel] =~= Seq::<Seq<char>>::empty().push(panel));
        Seq::<Seq<char>>::empty().to_multiset_ensures();
        assert(t.panels() =~= Seq::empty());
        assert(t.adopted(panel).panels() =~= t.panels().push(panel));
    }
}

/// A panel that is present stays present when another is adopted.
pub proof fn adopting_keeps(t: Layout, panel: Seq<char>, other: Seq<char>)
    requires
        t.holds(other),
    ensures
        t.adopted(panel).holds(other),
{
    adopting_shows(t, panel);
    present_is_collected(t, other);
    present_is_collected(t.adopted(panel), other);
    t.panels().to_multiset_ensures();
    t.adopted(panel).panels().to_multiset_ensures();
    assert(t.panels().to_multiset().count(other) > 0);
    assert(t.adopted(panel).panels().to_multiset().count(other) > 0);
}

/// Adopting several panels loses none of them and none of those that were
/// there, and keeps a sound tree sound.
pub proof fn adopting_all_loses_none(t: Layout, panels: Seq<Seq<char>>)
    ensures
        t.sound() ==> t.adopted_all(panels).sound(),
        forall|p: Seq<char>| #[trigger]
            t.adopted_all(panels).holds(p) <==> t.holds(p) || panels.contains(p),
    decreases panels.len(),
{
    if panels.len() > 0 {
        let rest = panels.drop_last();
        let last = panels.last();
        let before = t.adopted_all(rest);
        let after = t.adopted_all(panels);
        adopting_all_loses_none(t, rest);
        adopting_shows(before, last);
        assert forall|p: Seq<char>| #[trigger] after.holds(p) <==> t.holds(p) || panels.contains(
            p,
        ) by {
            assert(panels =~= rest.push(last));
            concat_contains(rest, seq![last], p);
            assert(rest + seq![last] =~= panels);
            assert(seq![last].contains(p) <==> p == last) by {
                assert(seq![last][0] == last);
            }
            present_is_collected(before, p);
            present_is_collected(after, p);
            before.panels().to_multiset_ensures();
            after.panels().to_multiset_ensures();
            assert(before.holds(p) == (before.panels().to_multiset().count(p) > 0));
            assert(after.holds(p) == (after.panels().to_multiset().count(p) > 0));
        }
    }
}

/// Splitting a leaf adds the arrival beside it and moves nothing else.
pub proof fn splitting_adds(t: Layout, target: Seq<char>, arrival: Layout, zone: DropZone)
    requires
        t.holds(target),
        zone != DropZone::Center,
    ensures
        t.leaf_of(target) is Some,
        t.with_leaf(target, halved(zone, t.leaf_of(target)->0, arrival)).panels().to_multiset()
            == t.panels().to_multiset().add(arrival.panels().to_multiset()),
        t.sound() && arrival.sound() && !arrival.vacant() ==> t.with_leaf(
            target,
            halved(zone, t.leaf_of(target)->0, arrival),
        ).sound(),
{
    leaf_of_holds(t, target);
    let leaf = t.leaf_of(target)->0;
    let new = halved(zone, leaf, arrival);
    other_leaves_stay(t, target, new);
    let before = t.panels_before(target);
    let after = t.panels_after(target);
    vstd::seq_lib::lemma_multiset_commutative(before + leaf.panels(), after);
    vstd::seq_lib::lemma_multiset_commutative(before, leaf.panels());
    vstd::seq_lib::lemma_multiset_commutative(before + new.panels(), after);
    vstd::seq_lib::lemma_multiset_commutative(before, new.panels());
    vstd::seq_lib::lemma_multiset_commutative(leaf.panels(), arrival.panels());
    vstd::seq_lib::lemma_multiset_commutative(arrival.panels(), leaf.panels());
    assert(t.with_leaf(target, new).panels().to_multiset() =~= t.panels().to_multiset().add(
        arrival.panels().to_multiset(),
    ));
    if t.sound() && arrival.sound() && !arrival.vacant() {
        leaf_of_sound(t, target);
        with_leaf_sound(t, target, new);
    }
}

/// Merging tabs into a leaf adds exactly those tabs.
pub proof fn merging_adds(
    t: Layout,
    sibling: Seq<char>,
    panels: Seq<Seq<char>>,
    before: Option<Seq<char>>,
)
    requires
        t.holds(sibling),
    ensures
        t.tabs_added(sibling, panels, before).panels().to_multiset()
            == t.panels().to_multiset().add(panels.to_multiset()),
        t.sound() ==> t.tabs_added(sibling, panels, before).sound(),
        panels.len() > 0 ==> t.tabs_added(sibling, panels, before).holds(panels[0]),
{
    leaf_of_holds(t, sibling);
    let (tabs, active) = match t.leaf_of(sibling) {
        Some(Layout::Leaf { tabs, active }) => (tabs, active),
        _ => (Seq::empty(), 0),
    };
    let at = slot(tabs, before);
    if let Some(b) = before {
        position_is_first(tabs, b);
    }
    let merged = tabs.take(at) + panels + tabs.skip(at);
    let leaf = Layout::Leaf {
        tabs: merged,
        active: if panels.len() > 0 {
            at
        } else {
            active
        },
    };
    other_leaves_stay(t, sibling, leaf);
    let pre = t.panels_before(sibling);
    let post = t.panels_after(sibling);
    vstd::seq_lib::lemma_multiset_commutative(pre + tabs, post);
    vstd::seq_lib::lemma_multiset_commutative(pre, tabs);
    vstd::seq_lib::lemma_multiset_commutative(pre + merged, post);
    vstd::seq_lib::lemma_multiset_commutative(pre, merged);
    vstd::seq_lib::lemma_multiset_commutative(tabs.take(at) + panels, tabs.skip(at));
    vstd::seq_lib::lemma_multiset_commutative(tabs.take(at), panels);
    vstd::seq_lib::lemma_multiset_commutative(tabs.take(at), tabs.skip(at));
    assert(tabs =~= tabs.take(at) + tabs.skip(at));
    let result = t.tabs_added(sibling, panels, before);
    assert(result.panels().to_multiset() =~= t.panels().to_multiset().add(panels.to_multiset()));
    if t.sound() {
        leaf_of_sound(t, sibling);
        with_leaf_sound(t, sibling, leaf);
    }
    if panels.len() > 0 {
        present_is_collected(result, panels[0]);
        assert(result.panels()[pre.len() + at] == panels[0]);
    }
}

/// Inserting one tab is merging a group of one.
pub proof fn adding_is_merging_one(
    t: Layout,
    sibling: Seq<char>,
    panel: Seq<char>,
    before: Option<Seq<char>>,
)
    ensures
        t.tab_added(sibling, panel, before) == t.tabs_added(sibling, seq![panel], before),
{
    if let Some(Layout::Leaf { tabs, .. }) = t.leaf_of(sibling) {
        if let Some(b) = before {
            position_is_first(tabs, b);
        }
        let at = slot(tabs, before);
        assert(tabs.insert(at, panel) =~= tabs.take(at) + seq![panel] + tabs.skip(at));
    }
}

/// A root-edge drop adds the arrival's panels and leaves a sound tree sound.
pub proof fn railing_adds(t: Layout, arrival: Layout, zone: DropZone)
    ensures
        t.sound() && arrival.sound() ==> t.root_split(arrival, zone).sound(),
        forall|p: Seq<char>| #[trigger]
            t.root_split(arrival, zone).holds(p) <==> t.holds(p) || arrival.holds(p),
        zone != DropZone::Center ==> t.root_split(arrival, zone).panels().to_multiset()
            == t.panels().to_multiset().add(arrival.panels().to_multiset()),
{
    let result = t.root_split(arrival, zone);
    vstd::seq_lib::lemma_multiset_commutative(t.panels(), arrival.panels());
    vstd::seq_lib::lemma_multiset_commutative(arrival.panels(), t.panels());
    assert(t.panels().to_multiset().add(arrival.panels().to_multiset())
        =~= arrival.panels().to_multiset().add(t.panels().to_multiset()));
    if t.vacant() {
        assert(t.panels() + arrival.panels() =~= arrival.panels());
    }
    if arrival.vacant() {
        assert(t.panels() + arrival.panels() =~= t.panels());
    }
    if zone == DropZone::Center && !t.vacant() && !arrival.vacant() {
        adopting_all_loses_none(t, arrival.panels());
    }
    assert forall|p: Seq<char>| #[trigger] result.holds(p) <==> t.holds(p) || arrival.holds(p) by {
        present_is_collected(arrival, p);
    }
}

/// What a detached full-width bottom region needs to go back exactly as it was.
pub proof fn bottom_round_trip(t: Layout)
    requires
        t.sound(),
    ensures
        t matches Layout::Split {
            direction: SplitDirection::Vertical,
            ratio,
            first,
            second,
        } ==> first.bottom_attached(*second, ratio) == t,
{
}

/// Attaching a bottom region and detaching it gives back both parts.
pub proof fn attach_then_detach(t: Layout, bottom: Layout, ratio: Scalar)
    requires
        !t.vacant(),
        !bottom.vacant(),
    ensures
        t.bottom_attached(bottom, ratio) == split(
            SplitDirection::Vertical,
            clamped_ratio(ratio),
            t,
            bottom,
        ),
{
}

/// The node at a path can be read back, overwritten and restored.
pub proof fn node_replaced(t: Layout, path: Seq<bool>, a: Layout, b: Layout)
    requires
        t.node_at(path) is Some,
    ensures
        t.with_node(path, a).node_at(path) == Some(a),
        t.with_node(path, a).with_node(path, b) == t.with_node(path, b),
        t.with_node(path, t.node_at(path)->0) == t,
    decreases path.len(),
{
    if path.len() > 0 {
        if let Layout::Split { first, second, .. } = t {
            if path[0] {
                node_replaced(*second, path.drop_first(), a, b);
            } else {
                node_replaced(*first, path.drop_first(), a, b);
            }
        }
    }
}

proof fn node_holds(t: Layout, path: Seq<bool>, panel: Seq<char>)
    requires
        t.node_at(path) is Some,
    ensures
        (t.node_at(path)->0).holds(panel) ==> t.holds(panel),
    decreases path.len(),
{
    if path.len() > 0 {
        if let Layout::Split { first, second, .. } = t {
            if path[0] {
                node_holds(*second, path.drop_first(), panel);
            } else {
                node_holds(*first, path.drop_first(), panel);
            }
        }
    }
}

proof fn node_sound(t: Layout, path: Seq<bool>)
    requires
        t.sound(),
        t.node_at(path) is Some,
    ensures
        (t.node_at(path)->0).sound(),
    decreases path.len(),
{
    if path.len() > 0 {
        if let Layout::Split { first, second, .. } = t {
            if path[0] {
                node_sound(*second, path.drop_first());
            } else {
                node_sound(*first, path.drop_first());
            }
        }
    }
}

/// The split that hosts a strip: vertical, with the panel below.
pub proof fn strip_host(t: Layout, panel: Seq<char>)
    ensures
        t.strip_path(panel) matches Some(path) ==> (t.node_at(path) matches Some(
            Layout::Split { direction, second, .. },
        ) && direction == SplitDirection::Vertical && second.holds(panel)),
    decreases t,
{
    if let Layout::Split { direction, first, second, .. } = t {
        strip_host(*first, panel);
        strip_host(*second, panel);
        if let Some(path) = first.strip_path(panel) {
            assert((seq![false] + path).drop_first() =~= path);
        }
        if let Some(path) = second.strip_path(panel) {
            assert((seq![true] + path).drop_first() =~= path);
        }
    }
}

/// No panel of one child of a split is in the other.
proof fn children_disjoint(first: Layout, second: Layout, panel: Seq<char>)
    requires
        (first.panels() + second.panels()).no_duplicates(),
    ensures
        !(first.holds(panel) && second.holds(panel)),
{
    present_is_collected(first, panel);
    present_is_collected(second, panel);
    if first.holds(panel) && second.holds(panel) {
        let a = first.panels();
        let b = second.panels();
        let i = choose|i: int| 0 <= i < a.len() && a[i] == panel;
        let j = choose|j: int| 0 <= j < b.len() && b[j] == panel;
        assert((a + b)[i] == panel);
        assert((a + b)[a.len() + j] == panel);
    }
}

proof fn children_distinct(first: Layout, second: Layout)
    requires
        (first.panels() + second.panels()).no_duplicates(),
    ensures
        first.panels().no_duplicates(),
        second.panels().no_duplicates(),
{
    let a = first.panels();
    let b = second.panels();
    assert forall|i: int, j: int| 0 <= i < a.len() && 0 <= j < a.len() && i != j implies a[i]
        != a[j] by {
        assert((a + b)[i] == a[i]);
        assert((a + b)[j] == a[j]);
    }
    assert forall|i: int, j: int| 0 <= i < b.len() && 0 <= j < b.len() && i != j implies b[i]
        != b[j] by {
        assert((a + b)[a.len() + i] == b[i]);
        assert((a + b)[a.len() + j] == b[j]);
    }
}

/// Both children of a sound split have panels, so neither holds them all.
proof fn whole_is_its_own_anchor(t: Layout)
    requires
        t.sound(),
        t.panels().no_duplicates(),
    ensures
        t.anchor_path(t.panels()) == Seq::<bool>::empty(),
{
    if let Layout::Split { first, second, .. } = t {
        let ids = t.panels();
        let at = first.panels().len() as int;
        sound_has_panels(*first);
        sound_has_panels(*second);
        assert(ids[0] == first.panels()[0]);
        assert(ids[at] == second.panels()[0]);
        present_is_collected(*first, ids[0]);
        present_is_collected(*second, ids[at]);
        assert(first.panels().contains(ids[0]));
        assert(second.panels().contains(ids[at]));
        children_disjoint(*first, *second, ids[0]);
        children_disjoint(*first, *second, ids[at]);
        assert(!first.holds(ids[at]));
        assert(!second.holds(ids[0]));
    }
}

proof fn anchor_leads_back(t: Layout, path: Seq<bool>)
    requires
        t.sound(),
        t.panels().no_duplicates(),
        t.node_at(path) matches Some(Layout::Split { .. }),
    ensures
        t.node_at(path) matches Some(Layout::Split { first: top, .. }) ==> t.with_node(
            path,
            *top,
        ).anchor_path(top.panels()) == path,
    decreases path.len(),
{
    let top = match t.node_at(path) {
        Some(Layout::Split { first, .. }) => *first,
        _ => Layout::Empty,
    };
    let ids = top.panels();
    let rest = t.with_node(path, top);
    node_sound(t, path);
    sound_has_panels(top);
    assert(ids.len() > 0);
    if let Layout::Split { first, second, .. } = t {
        children_distinct(*first, *second);
        if path.len() == 0 {
            assert(top == *first);
            whole_is_its_own_anchor(top);
            assert(rest.anchor_path(ids) =~= path);
        } else {
            let below = path.drop_first();
            let child = if path[0] {
                *second
            } else {
                *first
            };
            anchor_leads_back(child, below);
            node_replaced(child, below, top, top);
            let cut = child.with_node(below, top);
            assert forall|i: int| 0 <= i < ids.len() implies cut.holds(#[trigger] ids[i]) by {
                present_is_collected(top, ids[i]);
                node_holds(cut, below, ids[i]);
            }
            assert(cut.holds_all(ids));
            if path[0] {
                present_is_collected(top, ids[0]);
                assert(top.panels().contains(ids[0]));
                assert((t.node_at(path)->0).holds(ids[0]));
                node_holds(child, below, ids[0]);
                children_disjoint(*first, *second, ids[0]);
                assert(!first.holds_all(ids));
            }
            assert(seq![path[0]] + below =~= path);
        }
    }
}

/// A bottom region detached from anywhere in a sound tree without duplicate
/// panels goes back, by its anchor, to exactly where it was, and the path of
/// the split that takes it back is the path it was detached from.
pub proof fn strip_round_trip(t: Layout, panel: Seq<char>)
    requires
        t.sound(),
        t.panels().no_duplicates(),
        t.strip_path(panel) is Some,
    ensures
        ({
            let path = t.strip_path(panel)->0;
            &&& t.node_at(path) matches Some(
                Layout::Split { ratio, first: top, second: bottom, .. },
            )
            &&& t.with_node(path, *top).attach_path(top.panels()) == path
            &&& t.with_node(path, *top).bottom_attached_under(path, *bottom, ratio) == t
            &&& !bottom.vacant()
            &&& !t.with_node(path, *top).vacant()
        }),
{
    strip_host(t, panel);
    let path = t.strip_path(panel)->0;
    if let Some(Layout::Split { direction, ratio, first: top, second: bottom }) = t.node_at(path) {
        let rest = t.with_node(path, *top);
        let ids = top.panels();
        node_sound(t, path);
        node_replaced(t, path, *top, split(direction, ratio, *top, *bottom));
        sound_has_panels(*top);
        anchor_leads_back(t, path);
        let here = |p: Seq<char>| rest.holds(p);
        assert forall|i: int| 0 <= i < ids.len() implies here(#[trigger] ids[i]) by {
            present_is_collected(*top, ids[i]);
            node_holds(rest, path, ids[i]);
        }
        filter_keeps_all(ids, here);
        if path.len() == 0 {
            assert(rest == *top);
        }
    }
}

/// A filter that everything passes keeps everything.
pub proof fn filter_keeps_all<T>(list: Seq<T>, pass: spec_fn(T) -> bool)
    requires
        forall|i: int| 0 <= i < list.len() ==> pass(#[trigger] list[i]),
    ensures
        list.filter(pass) == list,
    decreases list.len(),
{
    reveal(Seq::filter);
    if list.len() > 0 {
        filter_keeps_all(list.drop_last(), pass);
        assert(list.drop_last().push(list.last()) =~= list);
    }
}

/// Where a panel occurs once, the strip found is the shallowest: no vertical
/// split with the panel below it is nearer to the root.
pub proof fn strip_is_shallowest(t: Layout, panel: Seq<char>, other: Seq<bool>)
    requires
        t.panels().no_duplicates(),
        t.node_at(other) matches Some(Layout::Split { direction, second, .. }) && direction
            == SplitDirection::Vertical && second.holds(panel),
    ensures
        t.strip_path(panel) matches Some(path) && path.len() <= other.len(),
    decreases other.len(),
{
    if let Layout::Split { direction, first, second, .. } = t {
        if other.len() > 0 {
            children_distinct(*first, *second);
            let below = other.drop_first();
            if other[0] {
                strip_is_shallowest(*second, panel, below);
                node_holds(*second, below, panel);
                children_disjoint(*first, *second, panel);
                strip_host(*first, panel);
                if let Some(path) = first.strip_path(panel) {
                    node_holds(*first, path, panel);
                }
            } else {
                strip_is_shallowest(*first, panel, below);
            }
        }
    }
}

/// Setting a ratio keeps the tree sound and moves no panel.
pub proof fn ratio_set_keeps(t: Layout, path: Seq<bool>, ratio: Scalar)
    ensures
        t.ratio_set(path, ratio).panels() == t.panels(),
        t.sound() ==> t.ratio_set(path, ratio).sound(),
        t.ratio_set(path, ratio).vacant() == t.vacant(),
    decreases path.len(),
{
    if let Layout::Split { first, second, .. } = t {
        if path.len() > 0 {
            if path[0] {
                ratio_set_keeps(*second, path.drop_first(), ratio);
                node_back(*second, path.drop_first());
            } else {
                ratio_set_keeps(*first, path.drop_first(), ratio);
                node_back(*first, path.drop_first());
            }
        }
    }
}

proof fn node_back(t: Layout, path: Seq<bool>)
    ensures
        t.node_at(path) matches Some(node) ==> t.with_node(path, node) == t,
{
    if let Some(node) = t.node_at(path) {
        node_replaced(t, path, node, node);
    }
}

} // verus!
