//! What a drop does to a tree.

use vstd::prelude::*;

use crate::dock::laws::{
    adding_is_merging_one, adopting_all_loses_none, merging_adds, present_is_collected,
    railing_adds, remove_takes_one, splitting_adds, take_leaf_takes_its_tabs,
};
use crate::dock::layout::{halved, leaf_of_holds, single, slot, DropZone, Layout};
use crate::dock::tree::{before_text, DockTree};
use crate::text::{list_position, position, position_is_first, same_text, texts};

verus! {

broadcast use crate::text::texts_push;

/// Where a drop lands. Every variant carries the **target** dock area, which
/// may differ from the drag's source area (cross-window drops).
pub enum DropAction {
    Split { area: u64, rep: String, zone: DropZone },
    /// Full-height / full-width split against the whole dock (edge/corner drop).
    RootSplit { area: u64, zone: DropZone },
    Tab { area: u64, rep: String, before: Option<String> },
}

/// What a drop action holds.
pub enum DropModel {
    Split { area: u64, rep: Seq<char>, zone: DropZone },
    RootSplit { area: u64, zone: DropZone },
    Tab { area: u64, rep: Seq<char>, before: Option<Seq<char>> },
}

/// What an optional string holds.
pub open spec fn option_text(text: Option<String>) -> Option<Seq<char>> {
    match text {
        Some(s) => Some(s@),
        None => None,
    }
}

impl View for DropAction {
    type V = DropModel;

    open spec fn view(&self) -> DropModel {
        match self {
            DropAction::Split { area, rep, zone } => DropModel::Split {
                area: *area,
                rep: rep@,
                zone: *zone,
            },
            DropAction::RootSplit { area, zone } => DropModel::RootSplit {
                area: *area,
                zone: *zone,
            },
            DropAction::Tab { area, rep, before } => DropModel::Tab {
                area: *area,
                rep: rep@,
                before: option_text(*before),
            },
        }
    }
}

impl DropModel {
    /// The area the drop lands in.
    pub open spec fn area(self) -> u64 {
        match self {
            DropModel::Split { area, .. } => area,
            DropModel::RootSplit { area, .. } => area,
            DropModel::Tab { area, .. } => area,
        }
    }
}

impl DropAction {
    /// The area the drop lands in.
    pub fn area(&self) -> (r: u64)
        ensures
            r == self@.area(),
    {
        match self {
            DropAction::Split { area, .. } => *area,
            DropAction::RootSplit { area, .. } => *area,
            DropAction::Tab { area, .. } => *area,
        }
    }
}

/// The text of an optional string, as a slice.
pub fn option_str(text: &Option<String>) -> (r: Option<&str>)
    ensures
        before_text(r) == option_text(*text),
{
    match text {
        Some(s) => Some(s.as_str()),
        None => None,
    }
}

impl Layout {
    /// With one panel dropped into the tree. A drop that the stated sibling
    /// can't take is adopted somewhere in the tree.
    pub open spec fn dropped(self, panel: Seq<char>, action: DropModel) -> Layout {
        match action {
            DropModel::Split { rep, zone, .. } => if rep != panel && self.holds(rep) && zone
                != DropZone::Center {
                self.with_leaf(rep, halved(zone, self.leaf_of(rep)->0, single(panel)))
            } else {
                self.adopted(panel)
            },
            DropModel::RootSplit { zone, .. } => self.root_split(single(panel), zone),
            DropModel::Tab { rep, before, .. } => if rep != panel && self.holds(rep) {
                self.tab_added(rep, panel, before)
            } else {
                self.adopted(panel)
            },
        }
    }

    /// With a whole leaf dropped into the tree. A leaf that the stated sibling
    /// can't take has its panels adopted somewhere in the tree.
    pub open spec fn leaf_dropped(self, leaf: Layout, action: DropModel) -> Layout {
        match action {
            DropModel::Split { rep, zone, .. } => if leaf.vacant() {
                self
            } else if self.holds(rep) && zone != DropZone::Center {
                self.with_leaf(rep, halved(zone, self.leaf_of(rep)->0, leaf))
            } else {
                self.adopted_all(leaf.panels())
            },
            DropModel::RootSplit { zone, .. } => self.root_split(leaf, zone),
            DropModel::Tab { rep, before, .. } => match leaf {
                Layout::Leaf { tabs, .. } if self.holds(rep) => self.tabs_added(
                    rep,
                    tabs,
                    before,
                ),
                _ => self.adopted_all(leaf.panels()),
            },
        }
    }
}

/// Insert `dragged` into `tree` per `action`. The removal from the source tree
/// already happened (possibly in a *different* window's tree). Total: if the
/// stated sibling can't take the panel, it's adopted somewhere in the tree
/// rather than silently dropped.
pub fn insert_action(tree: &mut DockTree, dragged: &str, action: &DropAction)
    ensures
        final(tree)@ == old(tree)@.dropped(dragged@, action@),
{
    match action {
        DropAction::Split { rep, zone, .. } => {
            if same_text(rep, dragged) || !tree.split_at(rep, dragged.to_owned(), *zone) {
                tree.adopt_panel(dragged);
            }
        },
        DropAction::RootSplit { zone, .. } => {
            tree.split_root(dragged.to_owned(), *zone);
        },
        DropAction::Tab { rep, before, .. } => {
            if same_text(rep, dragged) {
                tree.adopt_panel(dragged);
            } else {
                let ghost before_insert = tree@;
                let added = tree.add_tab_before(rep, dragged.to_owned(), option_str(before));
                proof {
                    leaf_of_holds(before_insert, rep@);
                }
                if !added {
                    tree.adopt_panel(dragged);
                }
            }
        },
    }
}

/// Insert a whole dragged leaf (`leaf_tree`) into `tree` per `action`: the
/// group-drag counterpart of [`insert_action`]. Total in the same way: if the
/// stated sibling can't take the subtree, every panel in it is adopted
/// somewhere in the tree rather than silently dropped.
pub fn insert_leaf_action(tree: &mut DockTree, leaf_tree: DockTree, action: &DropAction)
    ensures
        final(tree)@ == old(tree)@.leaf_dropped(leaf_tree@, action@),
{
    match action {
        DropAction::Split { rep, zone, .. } => {
            if !tree.split_at_with(rep, leaf_tree.clone(), *zone) {
                adopt_all(tree, &leaf_tree);
            }
        },
        DropAction::RootSplit { zone, .. } => {
            tree.split_root_with(leaf_tree, *zone);
        },
        DropAction::Tab { rep, before, .. } => {
            proof {
                leaf_of_holds(tree@, rep@);
            }
            let merged = match &leaf_tree {
                DockTree::Leaf { tabs, .. } => tree.add_tabs_before(
                    rep,
                    tabs.as_slice(),
                    option_str(before),
                ),
                _ => false,
            };
            if !merged {
                adopt_all(tree, &leaf_tree);
            }
        },
    }
}

fn adopt_all(tree: &mut DockTree, sub: &DockTree)
    ensures
        final(tree)@ == old(tree)@.adopted_all(sub@.panels()),
{
    let mut ids: Vec<String> = Vec::new();
    sub.collect_panels(&mut ids);
    assert(texts(ids@) == sub@.panels());
    tree.adopt_panels(&ids);
}

/// Being another text than `item`.
pub open spec fn differs_from(item: Seq<char>) -> spec_fn(Seq<char>) -> bool {
    |t: Seq<char>| t != item
}

/// The tabs other than `dragged`.
pub open spec fn others(tabs: Seq<Seq<char>>, dragged: Seq<char>) -> Seq<Seq<char>> {
    tabs.filter(differs_from(dragged))
}

/// The tab order after `dragged` left and came back before `before`.
pub open spec fn reordered_tabs(
    tabs: Seq<Seq<char>>,
    dragged: Seq<char>,
    before: Option<Seq<char>>,
) -> Seq<Seq<char>> {
    let rest = others(tabs, dragged);
    rest.insert(slot(rest, before), dragged)
}

/// The new tab order for a same-leaf reorder: `dragged` removed and re-inserted
/// before `before` (or appended).
pub fn reordered(old: &[String], dragged: &str, before: Option<&str>) -> (r: Vec<String>)
    ensures
        texts(r@) == reordered_tabs(texts(old@), dragged@, before_text(before)),
{
    let ghost stays = differs_from(dragged@);
    let ghost all = texts(old@);
    let mut rest: Vec<String> = Vec::new();
    let mut i: usize = 0;
    proof {
        reveal(Seq::filter);
        assert(all.take(0).filter(stays) == Seq::<Seq<char>>::empty());
    }
    while i < old.len()
        invariant
            i <= old@.len(),
            all == texts(old@),
            stays == differs_from(dragged@),
            texts(rest@) == all.take(i as int).filter(stays),
        decreases old@.len() - i,
    {
        proof {
            reveal(Seq::filter);
            assert(all.take(i + 1).drop_last() == all.take(i as int));
            assert(all.take(i + 1).last() == old@[i as int]@);
        }
        if !same_text(&old[i], dragged) {
            rest.push(old[i].clone());
        }
        i += 1;
    }
    assert(all.take(i as int) == all);
    let at: usize = match before {
        Some(b) => list_position(&rest, b),
        None => rest.len(),
    };
    let ghost kept = rest@;
    rest.insert(at, dragged.to_owned());
    assert(texts(rest@) == texts(kept).insert(at as int, dragged@));
    rest
}

/// A panel dropped into a tree is in it afterwards, with everything that was
/// there, and a sound tree is still sound.
pub proof fn drop_loses_none(t: Layout, panel: Seq<char>, action: DropModel)
    ensures
        t.sound() ==> t.dropped(panel, action).sound(),
        forall|p: Seq<char>| #[trigger]
            t.dropped(panel, action).holds(p) <==> t.holds(p) || p == panel,
{
    let result = t.dropped(panel, action);
    let one = seq![panel];
    assert(one[0] == panel);
    adopting_all_loses_none(t, one);
    assert(one.drop_last() =~= Seq::<Seq<char>>::empty());
    assert(t.adopted_all(one.drop_last()) == t);
    assert(t.adopted_all(one) == t.adopted(panel));
    match action {
        DropModel::Split { rep, zone, .. } => {
            if rep != panel && t.holds(rep) && zone != DropZone::Center {
                splitting_adds(t, rep, single(panel), zone);
                assert forall|p: Seq<char>| #[trigger] result.holds(p) <==> t.holds(p) || p
                    == panel by {
                    counted(result, p);
                    counted(t, p);
                    counted(single(panel), p);
                }
            }
        },
        DropModel::RootSplit { zone, .. } => {
            railing_adds(t, single(panel), zone);
            assert forall|p: Seq<char>| single(panel).holds(p) <==> p == panel by {
                if single(panel).holds(p) {
                    assert(one.contains(p));
                }
            }
        },
        DropModel::Tab { rep, before, .. } => {
            if rep != panel && t.holds(rep) {
                adding_is_merging_one(t, rep, panel, before);
                merging_adds(t, rep, one, before);
                assert forall|p: Seq<char>| #[trigger] result.holds(p) <==> t.holds(p) || p
                    == panel by {
                    counted(result, p);
                    counted(t, p);
                    counted(single(panel), p);
                }
            }
        },
    }
}

/// A panel is present exactly where it counts among the collected panels.
pub proof fn counted(t: Layout, panel: Seq<char>)
    ensures
        t.holds(panel) <==> t.panels().to_multiset().count(panel) > 0,
        t == single(panel) ==> t.holds(panel),
        forall|other: Seq<char>|
            t == #[trigger] single(other) ==> (t.holds(panel) <==> panel == other),
{
    present_is_collected(t, panel);
    t.panels().to_multiset_ensures();
    assert forall|other: Seq<char>| t == #[trigger] single(other) implies (t.holds(panel)
        <==> panel == other) by {
        assert(t.panels() == seq![other]);
        assert(seq![other][0] == other);
    }
    if t == single(panel) {
        assert(t.panels()[0] == panel);
    }
}

/// A leaf dropped into a tree keeps all of its panels and all of the tree's, and
/// where both were sound the tree still is.
pub proof fn leaf_drop_loses_none(t: Layout, leaf: Layout, action: DropModel)
    ensures
        t.sound() && leaf.sound() ==> t.leaf_dropped(leaf, action).sound(),
        forall|p: Seq<char>| #[trigger]
            t.leaf_dropped(leaf, action).holds(p) <==> t.holds(p) || leaf.holds(p),
{
    let result = t.leaf_dropped(leaf, action);
    adopting_all_loses_none(t, leaf.panels());
    assert forall|p: Seq<char>| #[trigger] leaf.panels().contains(p) <==> leaf.holds(p) by {
        present_is_collected(leaf, p);
    }
    match action {
        DropModel::Split { rep, zone, .. } => {
            if leaf.vacant() {
                assert forall|p: Seq<char>| #[trigger] result.holds(p) <==> t.holds(p)
                    || leaf.holds(p) by {
                    assert(!leaf.panels().contains(p));
                }
            } else if t.holds(rep) && zone != DropZone::Center {
                splitting_adds(t, rep, leaf, zone);
                assert forall|p: Seq<char>| #[trigger] result.holds(p) <==> t.holds(p)
                    || leaf.holds(p) by {
                    counted(result, p);
                    counted(t, p);
                    counted(leaf, p);
                }
            }
        },
        DropModel::RootSplit { zone, .. } => {
            railing_adds(t, leaf, zone);
        },
        DropModel::Tab { rep, before, .. } => {
            if let Layout::Leaf { tabs, .. } = leaf {
                if t.holds(rep) {
                    merging_adds(t, rep, tabs, before);
                    assert forall|p: Seq<char>| #[trigger] result.holds(p) <==> t.holds(p)
                        || leaf.holds(p) by {
                        counted(result, p);
                        counted(t, p);
                        counted(leaf, p);
                    }
                }
            }
        },
    }
    assert forall|p: Seq<char>| #[trigger] result.holds(p) <==> t.holds(p) || leaf.holds(p) by {
        present_is_collected(leaf, p);
    }
}

/// Moving a panel within one tree keeps exactly the panels there are, and a
/// sound tree sound.
pub proof fn move_loses_none(t: Layout, panel: Seq<char>, action: DropModel)
    requires
        t.holds(panel),
    ensures
        t.sound() ==> t.without_panel(panel).dropped(panel, action).sound(),
        forall|p: Seq<char>| #[trigger]
            t.without_panel(panel).dropped(panel, action).holds(p) <==> t.holds(p),
{
    remove_takes_one(t, panel);
    let rest = t.without_panel(panel);
    drop_loses_none(rest, panel, action);
    removing_keeps_others(t, panel);
}

/// Removing a panel keeps every other.
pub proof fn removing_keeps_others(t: Layout, panel: Seq<char>)
    ensures
        forall|p: Seq<char>| p != panel ==> (#[trigger] t.without_panel(panel).holds(p)
            <==> t.holds(p)),
{
    remove_takes_one(t, panel);
    let rest = t.without_panel(panel);
    if t.holds(panel) {
        assert forall|p: Seq<char>| p != panel implies (#[trigger] rest.holds(p)
            <==> t.holds(p)) by {
            present_is_collected(t, p);
            present_is_collected(rest, p);
            present_is_collected(t, panel);
            position_is_first(t.panels(), panel);
            let at = position(t.panels(), panel);
            if t.holds(p) {
                let i = choose|i: int| 0 <= i < t.panels().len() && t.panels()[i] == p;
                if i < at {
                    assert(rest.panels()[i] == p);
                } else {
                    assert(rest.panels()[i - 1] == p);
                }
            }
            if rest.holds(p) {
                let i = choose|i: int| 0 <= i < rest.panels().len() && rest.panels()[i] == p;
                if i < at {
                    assert(t.panels()[i] == p);
                } else {
                    assert(t.panels()[i + 1] == p);
                }
            }
        }
    }
}

/// Moving a whole leaf within one tree keeps exactly the panels there are, and a
/// sound tree sound.
pub proof fn leaf_move_loses_none(t: Layout, panel: Seq<char>, action: DropModel)
    requires
        t.holds(panel),
    ensures
        t.sound() ==> t.without_leaf(panel).leaf_dropped(t.leaf_of(panel)->0, action).sound(),
        forall|p: Seq<char>| #[trigger]
            t.without_leaf(panel).leaf_dropped(t.leaf_of(panel)->0, action).holds(p) <==> t.holds(
                p,
            ),
{
    take_leaf_takes_its_tabs(t, panel);
    let rest = t.without_leaf(panel);
    let leaf = t.leaf_of(panel)->0;
    leaf_drop_loses_none(rest, leaf, action);
    assert forall|p: Seq<char>| #[trigger] rest.leaf_dropped(leaf, action).holds(p) <==> t.holds(
        p,
    ) by {
        counted(t, p);
        counted(rest, p);
        counted(leaf, p);
    }
}

/// A same-leaf reorder done in place leaves the tabs in the order that the tree
/// has them in: the order of a leaf without duplicates after the panel left and
/// came back.
pub proof fn reorder_in_place_agrees(
    tabs: Seq<Seq<char>>,
    active: int,
    dragged: Seq<char>,
    rep: Seq<char>,
    before: Option<Seq<char>>,
    area: u64,
)
    requires
        tabs.no_duplicates(),
        tabs.contains(dragged),
        tabs.contains(rep),
        rep != dragged,
    ensures
        ({
            let leaf = Layout::Leaf { tabs, active };
            let action = DropModel::Tab { area, rep, before };
            leaf.without_panel(dragged).dropped(dragged, action) matches Layout::Leaf {
                tabs: moved,
                ..
            } && moved == reordered_tabs(tabs, dragged, before)
        }),
{
    let leaf = Layout::Leaf { tabs, active };
    let at = position(tabs, dragged);
    position_is_first(tabs, dragged);
    let rest = tabs.remove(at);
    filter_out_is_remove(tabs, dragged);
    let k = choose|k: int| 0 <= k < tabs.len() && tabs[k] == rep;
    if k < at {
        assert(rest[k] == rep);
    } else {
        assert(rest[k - 1] == rep);
    }
    assert(rest.contains(rep));
    let out = leaf.without_panel(dragged);
    assert(leaf.leaf_of(dragged) == Some(leaf));
    assert(leaf.with_leaf(dragged, leaf.leaf_without(dragged)) == leaf.leaf_without(dragged));
    assert(out == leaf.leaf_without(dragged));
    assert(out.holds(rep));
    assert(out.leaf_of(rep) == Some(out));
    let back = Layout::Leaf {
        tabs: rest.insert(slot(rest, before), dragged),
        active: slot(rest, before),
    };
    assert(out.with_leaf(rep, back) == back);
    assert(out.tab_added(rep, dragged, before) == back);
    let action = DropModel::Tab { area, rep, before };
    assert(out.dropped(dragged, action) == back);
    assert(reordered_tabs(tabs, dragged, before) == rest.insert(slot(rest, before), dragged));
}

/// Without duplicates, filtering an item out removes it.
proof fn filter_out_is_remove(tabs: Seq<Seq<char>>, dragged: Seq<char>)
    requires
        tabs.no_duplicates(),
        tabs.contains(dragged),
    ensures
        others(tabs, dragged) == tabs.remove(position(tabs, dragged)),
{
    let at = position(tabs, dragged);
    position_is_first(tabs, dragged);
    let rest = tabs.remove(at);
    let stays = differs_from(dragged);
    let head = tabs.take(at);
    let tail = tabs.skip(at + 1);
    assert(tabs =~= head + seq![dragged] + tail);
    assert(rest =~= head + tail);
    Seq::filter_distributes_over_add(head + seq![dragged], tail, stays);
    Seq::filter_distributes_over_add(head, seq![dragged], stays);
    assert forall|i: int| 0 <= i < head.len() implies stays(#[trigger] head[i]) by {
        assert(head[i] == tabs[i]);
    }
    assert forall|i: int| 0 <= i < tail.len() implies stays(#[trigger] tail[i]) by {
        assert(tail[i] == tabs[at + 1 + i]);
        assert(tabs[at + 1 + i] != tabs[at]);
    }
    crate::dock::laws::filter_keeps_all(head, stays);
    crate::dock::laws::filter_keeps_all(tail, stays);
    assert(seq![dragged].filter(stays) =~= Seq::<Seq<char>>::empty()) by {
        reveal(Seq::filter);
        let one = seq![dragged];
        assert(one.drop_last() =~= Seq::<Seq<char>>::empty());
        assert(one.drop_last().filter(stays) =~= Seq::<Seq<char>>::empty());
        assert(!stays(one.last()));
    }
    assert(head + Seq::<Seq<char>>::empty() =~= head);
    assert(tabs.filter(stays) == rest);
}

} // verus!
