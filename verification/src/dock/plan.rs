//! What a rebuild makes of a tree: which nodes it needs, what each of them
//! carries, and which panel contents survive it.

use vstd::prelude::*;

use crate::dock::divider::ParentSplit;
use crate::dock::docks::{request_models, Docks, DocksModel, WindowModel};
use crate::dock::drop::option_text;
use crate::dock::layout::{clamped_ratio, Layout, SplitDirection};
use crate::dock::title::{humanize, humanized};
use crate::dock::tree::{clamp_ratio, DockTree};
use crate::scalar::Scalar;
use crate::text::{find_first, list_contains, position, position_found, position_is_first, texts};

verus! {

// ── Contents that survive a rebuild ──

/// A panel's content, kept across a rebuild.
pub struct Preserved {
    pub id: String,
    pub content: u64,
}

/// What kept contents hold: (panel, content).
pub open spec fn kept(list: Seq<Preserved>) -> Seq<(Seq<char>, u64)> {
    list.map_values(|p: Preserved| (p.id@, p.content))
}

/// The panels of kept contents.
pub open spec fn kept_ids(list: Seq<(Seq<char>, u64)>) -> Seq<Seq<char>> {
    list.map_values(|p: (Seq<char>, u64)| p.0)
}

/// The entities of kept contents.
pub open spec fn kept_contents(list: Seq<(Seq<char>, u64)>) -> Seq<u64> {
    list.map_values(|p: (Seq<char>, u64)| p.1)
}

/// A leaf that is about to be torn down.
pub struct OldLeaf {
    pub area: u64,
    pub active: String,
    pub content: u64,
    /// The content has not been despawned meanwhile.
    pub alive: bool,
}

/// Whether a leaf's content is kept: it belongs to the area being rebuilt, the
/// new tree shows its panel, it still exists, and no other leaf's content is
/// kept for that panel already.
pub open spec fn keeps(
    leaf: OldLeaf,
    area: u64,
    reusable: Seq<Seq<char>>,
    so_far: Seq<(Seq<char>, u64)>,
) -> bool {
    leaf.area == area && leaf.active@.len() > 0 && reusable.contains(leaf.active@) && leaf.alive
        && !kept_ids(so_far).contains(leaf.active@)
}

/// The contents that survive the rebuild of an area: those the new tree will
/// reuse, and only the first leaf's for each panel.
pub open spec fn surviving(
    leaves: Seq<OldLeaf>,
    area: u64,
    reusable: Seq<Seq<char>>,
) -> Seq<(Seq<char>, u64)>
    decreases leaves.len(),
{
    if leaves.len() == 0 {
        Seq::empty()
    } else {
        let before = surviving(leaves.drop_last(), area, reusable);
        if keeps(leaves.last(), area, reusable, before) {
            before.push((leaves.last().active@, leaves.last().content))
        } else {
            before
        }
    }
}

fn kept_index(list: &Vec<Preserved>, id: &str) -> (r: usize)
    ensures
        r == position(kept_ids(kept(list@)), id@),
        r <= list@.len(),
        (r < list@.len()) == kept_ids(kept(list@)).contains(id@),
{
    let ghost ids = kept_ids(kept(list@));
    let mut i: usize = 0;
    while i < list.len()
        invariant
            i <= list@.len(),
            ids == kept_ids(kept(list@)),
            forall|j: int| 0 <= j < i ==> ids[j] != id@,
        decreases list@.len() - i,
    {
        assert(ids[i as int] == list@[i as int].id@);
        if crate::text::same_text(&list[i].id, id) {
            proof {
                position_found(ids, id@, i as int);
                position_is_first(ids, id@);
            }
            return i;
        }
        i += 1;
    }
    proof {
        position_found(ids, id@, i as int);
        position_is_first(ids, id@);
    }
    i
}

/// Choose the contents to keep across the rebuild of `area` with `tree`. A
/// content node that is detached and then despawned in the same frame breaks
/// the layout engine, so only contents that the *new* tree will reuse are kept;
/// the rest stay attached and die with their old leaf.
pub fn preserve_contents(leaves: &Vec<OldLeaf>, area: u64, tree: &DockTree) -> (r: Vec<Preserved>)
    ensures
        kept(r@) == surviving(leaves@, area, tree@.shown()),
{
    let mut reusable: Vec<String> = Vec::new();
    tree.active_tab_ids(&mut reusable);
    assert(texts(reusable@) == tree@.shown());
    let ghost shown = tree@.shown();
    let mut out: Vec<Preserved> = Vec::new();
    let mut i: usize = 0;
    assert(leaves@.take(0).len() == 0);
    while i < leaves.len()
        invariant
            i <= leaves@.len(),
            texts(reusable@) == shown,
            kept(out@) == surviving(leaves@.take(i as int), area, shown),
        decreases leaves@.len() - i,
    {
        let leaf = &leaves[i];
        proof {
            assert(leaves@.take(i + 1).drop_last() == leaves@.take(i as int));
            assert(leaves@.take(i + 1).last() == *leaf);
        }
        let ghost before = out@;
        if leaf.area == area && !leaf.active.as_str().is_empty() && list_contains(
            &reusable,
            &leaf.active,
        ) && leaf.alive && kept_index(&out, &leaf.active) == out.len() {
            out.push(Preserved { id: leaf.active.clone(), content: leaf.content });
            assert(kept(out@) == kept(before).push((leaf.active@, leaf.content)));
        }
        i += 1;
    }
    assert(leaves@.take(i as int) == leaves@);
    out
}

// ── The plan ──

/// A tab to spawn.
pub struct TabPlan {
    pub id: String,
    pub title: String,
    pub active: bool,
}

/// A leaf's tab bar. Floating leaves have none: the window's own title bar plays
/// that role.
pub struct BarPlan {
    pub tabs: Vec<TabPlan>,
    /// The whole-leaf drag handle, where the leaf may be moved.
    pub grip: bool,
    /// In a pinned area the bar's empty space is a drag surface for the
    /// consumer.
    pub pinned: bool,
    /// The bar doubles as the handle of the split above it: its path, and the
    /// strip panel it collapses by.
    pub handle: Option<(Vec<bool>, Option<String>)>,
    /// A collapse chevron, and the panel that finds a nested strip again.
    pub chevron: Option<Option<String>>,
}

/// A leaf to spawn.
pub struct LeafPlan {
    pub tabs: Vec<String>,
    /// The visible panel; empty where the leaf has none.
    pub active_id: String,
    /// The kept content to reuse; a fresh one is needed otherwise.
    pub content: Option<u64>,
    pub bar: Option<BarPlan>,
}

/// The nodes to spawn for a tree.
pub enum Plan {
    Split {
        /// Side-by-side panes.
        row: bool,
        ratio: Scalar,
        path: Vec<bool>,
        /// A panel of the collapsible strip below the divider.
        strip: Option<String>,
        first: Box<Plan>,
        second: Box<Plan>,
    },
    Leaf(LeafPlan),
    /// Nothing but a button that adds the first panel.
    Empty,
}

/// What a bar plan holds.
pub struct BarModel {
    /// (panel, title, visible)
    pub tabs: Seq<(Seq<char>, Seq<char>, bool)>,
    pub grip: bool,
    pub pinned: bool,
    pub handle: Option<(Seq<bool>, Option<Seq<char>>)>,
    pub chevron: Option<Option<Seq<char>>>,
}

/// What a leaf plan holds.
pub struct LeafModel {
    pub tabs: Seq<Seq<char>>,
    pub active_id: Seq<char>,
    pub content: Option<u64>,
    pub bar: Option<BarModel>,
}

/// What a plan holds.
pub enum PlanModel {
    Split {
        row: bool,
        ratio: Scalar,
        path: Seq<bool>,
        strip: Option<Seq<char>>,
        first: Box<PlanModel>,
        second: Box<PlanModel>,
    },
    Leaf(LeafModel),
    Empty,
}

impl BarPlan {
    pub open spec fn model(self) -> BarModel {
        BarModel {
            tabs: self.tabs@.map_values(|t: TabPlan| (t.id@, t.title@, t.active)),
            grip: self.grip,
            pinned: self.pinned,
            handle: match self.handle {
                Some((path, strip)) => Some((path@, option_text(strip))),
                None => None,
            },
            chevron: match self.chevron {
                Some(target) => Some(option_text(target)),
                None => None,
            },
        }
    }
}

impl LeafPlan {
    pub open spec fn model(self) -> LeafModel {
        LeafModel {
            tabs: texts(self.tabs@),
            active_id: self.active_id@,
            content: self.content,
            bar: match self.bar {
                Some(bar) => Some(bar.model()),
                None => None,
            },
        }
    }
}

impl Plan {
    pub open spec fn model(self) -> PlanModel
        decreases self,
    {
        match self {
            Plan::Split { row, ratio, path, strip, first, second } => PlanModel::Split {
                row,
                ratio,
                path: path@,
                strip: option_text(strip),
                first: Box::new(first.model()),
                second: Box::new(second.model()),
            },
            Plan::Leaf(leaf) => PlanModel::Leaf(leaf.model()),
            Plan::Empty => PlanModel::Empty,
        }
    }
}

/// Where in its parent split a node sits: (side by side, second child, the
/// split's path).
pub open spec fn seat(parent: Option<ParentSplit>) -> Option<(bool, bool, Seq<bool>)> {
    match parent {
        Some(p) => Some((p.horizontal, p.is_second, p.path@)),
        None => None,
    }
}

/// The first tab that is one of `markers`.
pub open spec fn first_marked(tabs: Seq<Seq<char>>, markers: Seq<Seq<char>>) -> Option<Seq<char>> {
    let i = position(tabs.map_values(|t: Seq<char>| markers.contains(t)), true);
    if i < tabs.len() {
        Some(tabs[i])
    } else {
        None
    }
}

/// The visible panel of a leaf; empty where it has none.
pub open spec fn active_id_of(tabs: Seq<Seq<char>>, active: int) -> Seq<char> {
    if 0 <= active < tabs.len() {
        tabs[active]
    } else {
        Seq::empty()
    }
}

/// Whether a leaf is the bottom child of a stacked split.
pub open spec fn below(seat: Option<(bool, bool, Seq<bool>)>) -> bool {
    seat matches Some((horizontal, is_second, _)) && !horizontal && is_second
}

/// Whether a leaf is the docked area's whole bottom region.
pub open spec fn root_bottom(seat: Option<(bool, bool, Seq<bool>)>) -> bool {
    below(seat) && (seat->0).2.len() == 0
}

/// Each tab with its title and whether it is the visible one.
pub open spec fn titled_tabs(tabs: Seq<Seq<char>>, active: int) -> Seq<
    (Seq<char>, Seq<char>, bool),
> {
    Seq::new(tabs.len(), |i: int| (tabs[i], humanized(tabs[i]), i == active))
}

/// The tab bar of a docked leaf.
///
/// A leaf is a collapsible bottom region where it is the dock's whole bottom
/// region (whatever it holds), or a nested bottom strip: the bottom child of a
/// stacked split whose tabs include a marker panel. Both get a chevron.
pub open spec fn bar_of(
    tabs: Seq<Seq<char>>,
    active: int,
    markers: Seq<Seq<char>>,
    movable: bool,
    seat: Option<(bool, bool, Seq<bool>)>,
) -> BarModel {
    let strip = if below(seat) && !root_bottom(seat) {
        first_marked(tabs, markers)
    } else {
        None
    };
    BarModel {
        tabs: titled_tabs(tabs, active),
        grip: movable,
        pinned: !movable,
        handle: if below(seat) {
            Some(((seat->0).2, strip))
        } else {
            None
        },
        chevron: if root_bottom(seat) {
            Some(None)
        } else if strip is Some {
            Some(strip)
        } else {
            None
        },
    }
}

/// The nodes for a tree, and the kept contents left over. Each leaf, in tree
/// order, takes the content kept for its visible panel, if it is still there.
pub open spec fn plan_of(
    tree: Layout,
    markers: Seq<Seq<char>>,
    floating: bool,
    movable: bool,
    seat: Option<(bool, bool, Seq<bool>)>,
    path: Seq<bool>,
    contents: Seq<(Seq<char>, u64)>,
) -> (PlanModel, Seq<(Seq<char>, u64)>)
    decreases tree,
{
    match tree {
        Layout::Split { direction, ratio, first, second } => {
            let row = direction == SplitDirection::Horizontal;
            let (a, mid) = plan_of(
                *first,
                markers,
                floating,
                movable,
                Some((row, false, path)),
                path.push(false),
                contents,
            );
            let (b, rest) = plan_of(
                *second,
                markers,
                floating,
                movable,
                Some((row, true, path)),
                path.push(true),
                mid,
            );
            let strip = match *second {
                Layout::Leaf { tabs, .. } if !row && !floating => first_marked(tabs, markers),
                _ => None,
            };
            (
                PlanModel::Split {
                    row,
                    ratio: clamped_ratio(ratio),
                    path,
                    strip,
                    first: Box::new(a),
                    second: Box::new(b),
                },
                rest,
            )
        },
        Layout::Leaf { tabs, active } => {
            let id = active_id_of(tabs, active);
            let at = position(kept_ids(contents), id);
            let found = at < contents.len();
            (
                PlanModel::Leaf(
                    LeafModel {
                        tabs,
                        active_id: id,
                        content: if found {
                            Some(contents[at].1)
                        } else {
                            None
                        },
                        bar: if floating {
                            None
                        } else {
                            Some(bar_of(tabs, active, markers, movable, seat))
                        },
                    },
                ),
                if found {
                    contents.remove(at)
                } else {
                    contents
                },
            )
        },
        Layout::Empty => (PlanModel::Empty, contents),
    }
}

fn find_marked(tabs: &Vec<String>, markers: &Vec<String>) -> (r: Option<String>)
    ensures
        option_text(r) == first_marked(texts(tabs@), texts(markers@)),
{
    let test = |t: &String| -> (b: bool)
        ensures
            b == texts(markers@).contains(t@),
        {
            list_contains(markers, t)
        };
    let i: usize = find_first(
        tabs,
        test,
        Ghost(texts(tabs@).map_values(|t: Seq<char>| texts(markers@).contains(t))),
    );
    if i < tabs.len() {
        Some(tabs[i].clone())
    } else {
        None
    }
}

fn copy_path(path: &Vec<bool>) -> (r: Vec<bool>)
    ensures
        r@ == path@,
{
    let mut out: Vec<bool> = Vec::new();
    let mut i: usize = 0;
    while i < path.len()
        invariant
            i <= path@.len(),
            out@ == path@.take(i as int),
        decreases path@.len() - i,
    {
        out.push(path[i]);
        assert(path@.take(i + 1) == path@.take(i as int).push(path@[i as int]));
        i += 1;
    }
    assert(path@.take(i as int) == path@);
    out
}

fn copy_option(text: &Option<String>) -> (r: Option<String>)
    ensures
        option_text(r) == option_text(*text),
{
    match text {
        Some(s) => Some(s.clone()),
        None => None,
    }
}

fn plan_tabs(tabs: &Vec<String>, active: usize) -> (r: Vec<TabPlan>)
    ensures
        r@.map_values(|t: TabPlan| (t.id@, t.title@, t.active)) == titled_tabs(
            texts(tabs@),
            active as int,
        ),
{
    let mut out: Vec<TabPlan> = Vec::new();
    let mut i: usize = 0;
    while i < tabs.len()
        invariant
            i <= tabs@.len(),
            out@.len() == i,
            forall|k: int|
                0 <= k < i ==> (#[trigger] out@[k]).id@ == tabs@[k]@ && out@[k].title@ == humanized(
                    tabs@[k]@,
                ) && out@[k].active == (k == active),
        decreases tabs@.len() - i,
    {
        out.push(
            TabPlan { id: tabs[i].clone(), title: humanize(&tabs[i]), active: i == active },
        );
        i += 1;
    }
    assert(out@.map_values(|t: TabPlan| (t.id@, t.title@, t.active)) =~= titled_tabs(
        texts(tabs@),
        active as int,
    ));
    out
}

fn plan_bar(
    tabs: &Vec<String>,
    active: usize,
    markers: &Vec<String>,
    movable: bool,
    parent: &Option<ParentSplit>,
) -> (r: BarPlan)
    ensures
        r.model() == bar_of(texts(tabs@), active as int, texts(markers@), movable, seat(*parent)),
{
    let is_below: bool = match parent {
        Some(p) => p.aligned(),
        None => false,
    };
    let is_root_bottom: bool = is_below && match parent {
        Some(p) => p.path.len() == 0,
        None => false,
    };
    let strip: Option<String> = if is_below && !is_root_bottom {
        find_marked(tabs, markers)
    } else {
        None
    };
    let handle: Option<(Vec<bool>, Option<String>)> = match parent {
        Some(p) => if is_below {
            Some((copy_path(&p.path), copy_option(&strip)))
        } else {
            None
        },
        None => None,
    };
    let chevron: Option<Option<String>> = if is_root_bottom {
        Some(None)
    } else if strip.is_some() {
        Some(strip)
    } else {
        None
    };
    let tab_plans = plan_tabs(tabs, active);
    BarPlan { tabs: tab_plans, grip: movable, pinned: !movable, handle, chevron }
}

/// Plan the nodes of one leaf, taking its visible panel's content out of the
/// kept ones so that no other leaf can claim it.
pub fn plan_leaf(
    tabs: &Vec<String>,
    active: usize,
    markers: &Vec<String>,
    floating: bool,
    movable: bool,
    parent: &Option<ParentSplit>,
    contents: &mut Vec<Preserved>,
) -> (r: LeafPlan)
    ensures
        ({
            let (plan, rest) = plan_of(
                Layout::Leaf { tabs: texts(tabs@), active: active as int },
                texts(markers@),
                floating,
                movable,
                seat(*parent),
                Seq::empty(),
                kept(old(contents)@),
            );
            &&& plan == PlanModel::Leaf(r.model())
            &&& kept(final(contents)@) == rest
        }),
{
    let bar: Option<BarPlan> = if floating {
        None
    } else {
        Some(plan_bar(tabs, active, markers, movable, parent))
    };
    let active_id: String = if active < tabs.len() {
        tabs[active].clone()
    } else {
        String::new()
    };
    let at: usize = kept_index(contents, &active_id);
    let ghost before = contents@;
    let content: Option<u64> = if at < contents.len() {
        let taken = contents.remove(at);
        assert(kept(contents@) == kept(before).remove(at as int));
        Some(taken.content)
    } else {
        None
    };
    LeafPlan { tabs: crate::text::copy_texts(tabs), active_id, content, bar }
}

/// Plan the nodes of a tree. `parent` and `path` say where in the whole tree it
/// sits; `floating` leaves are chromeless; `movable` says whether whole leaves
/// may be dragged elsewhere.
pub fn build_tree(
    tree: &DockTree,
    markers: &Vec<String>,
    floating: bool,
    movable: bool,
    parent: Option<ParentSplit>,
    path: Vec<bool>,
    contents: &mut Vec<Preserved>,
) -> (r: Plan)
    ensures
        (r.model(), kept(final(contents)@)) == plan_of(
            tree@,
            texts(markers@),
            floating,
            movable,
            seat(parent),
            path@,
            kept(old(contents)@),
        ),
    decreases tree,
{
    match tree {
        DockTree::Split { direction, ratio, first, second } => {
            let row: bool = *direction == SplitDirection::Horizontal;
            let mut path_a = copy_path(&path);
            path_a.push(false);
            let a = build_tree(
                first,
                markers,
                floating,
                movable,
                Some(ParentSplit { horizontal: row, is_second: false, path: copy_path(&path) }),
                path_a,
                contents,
            );
            let strip: Option<String> = if !row && !floating {
                match &**second {
                    DockTree::Leaf { tabs, .. } => find_marked(tabs, markers),
                    _ => None,
                }
            } else {
                None
            };
            let mut path_b = copy_path(&path);
            path_b.push(true);
            let b = build_tree(
                second,
                markers,
                floating,
                movable,
                Some(ParentSplit { horizontal: row, is_second: true, path: copy_path(&path) }),
                path_b,
                contents,
            );
            Plan::Split {
                row,
                ratio: clamp_ratio(*ratio),
                path,
                strip,
                first: Box::new(a),
                second: Box::new(b),
            }
        },
        DockTree::Leaf { tabs, active_tab } => Plan::Leaf(
            plan_leaf(tabs, *active_tab, markers, floating, movable, &parent, contents),
        ),
        DockTree::Empty => Plan::Empty,
    }
}

// ── What a rebuild does to contents ──

/// The kept contents that a plan reuses, in the order of its leaves.
pub open spec fn reused(plan: PlanModel) -> Seq<u64>
    decreases plan,
{
    match plan {
        PlanModel::Split { first, second, .. } => reused(*first) + reused(*second),
        PlanModel::Leaf(leaf) => match leaf.content {
            Some(content) => seq![content],
            None => Seq::empty(),
        },
        PlanModel::Empty => Seq::empty(),
    }
}

/// A content that is kept is reused by exactly one leaf or left over for the
/// caller to despawn: none is forgotten and none is shared.
pub proof fn contents_are_accounted_for(
    tree: Layout,
    markers: Seq<Seq<char>>,
    floating: bool,
    movable: bool,
    seat: Option<(bool, bool, Seq<bool>)>,
    path: Seq<bool>,
    contents: Seq<(Seq<char>, u64)>,
)
    ensures
        ({
            let (plan, rest) = plan_of(tree, markers, floating, movable, seat, path, contents);
            kept_contents(contents).to_multiset() == reused(plan).to_multiset().add(
                kept_contents(rest).to_multiset(),
            )
        }),
    decreases tree,
{
    broadcast use vstd::multiset::group_multiset_axioms;

    let (plan, rest) = plan_of(tree, markers, floating, movable, seat, path, contents);
    match tree {
        Layout::Split { direction, first, second, .. } => {
            let row = direction == SplitDirection::Horizontal;
            let (a, mid) = plan_of(
                *first,
                markers,
                floating,
                movable,
                Some((row, false, path)),
                path.push(false),
                contents,
            );
            let (b, end) = plan_of(
                *second,
                markers,
                floating,
                movable,
                Some((row, true, path)),
                path.push(true),
                mid,
            );
            contents_are_accounted_for(
                *first,
                markers,
                floating,
                movable,
                Some((row, false, path)),
                path.push(false),
                contents,
            );
            contents_are_accounted_for(
                *second,
                markers,
                floating,
                movable,
                Some((row, true, path)),
                path.push(true),
                mid,
            );
            assert(end == rest);
            vstd::seq_lib::lemma_multiset_commutative(reused(a), reused(b));
            assert(reused(plan) == reused(a) + reused(b));
            assert(kept_contents(contents).to_multiset() =~= reused(plan).to_multiset().add(
                kept_contents(rest).to_multiset(),
            ));
        },
        Layout::Leaf { tabs, active } => {
            let id = active_id_of(tabs, active);
            let at = position(kept_ids(contents), id);
            position_is_first(kept_ids(contents), id);
            if at < contents.len() {
                let all = kept_contents(contents);
                assert(kept_contents(rest) =~= all.remove(at));
                vstd::seq_lib::to_multiset_remove(all, at);
                all.to_multiset_ensures();
                let one = seq![contents[at].1];
                assert(reused(plan) == one);
                assert(one =~= Seq::<u64>::empty().push(contents[at].1));
                Seq::<u64>::empty().to_multiset_ensures();
                assert(all.contains(all[at]));
                assert(all.to_multiset() =~= one.to_multiset().add(all.remove(at).to_multiset()));
            } else {
                Seq::<u64>::empty().to_multiset_ensures();
                assert(reused(plan) == Seq::<u64>::empty());
                assert(kept_contents(contents).to_multiset()
                    =~= Seq::<u64>::empty().to_multiset().add(
                    kept_contents(rest).to_multiset(),
                ));
            }
        },
        Layout::Empty => {
            Seq::<u64>::empty().to_multiset_ensures();
            assert(kept_contents(contents).to_multiset() =~= Seq::<u64>::empty().to_multiset().add(
                kept_contents(rest).to_multiset(),
            ));
        },
    }
}

/// Whether a kept content is that of a live leaf of the area.
pub open spec fn from_live_leaf(
    leaves: Seq<OldLeaf>,
    area: u64,
    entry: (Seq<char>, u64),
) -> bool {
    exists|k: int|
        0 <= k < leaves.len() && (#[trigger] leaves[k]).area == area && leaves[k].alive
            && leaves[k].content == entry.1 && leaves[k].active@ == entry.0
}

/// Only contents of the area's live leaves are kept, each for a panel that the
/// new tree shows, and at most one per panel.
pub proof fn survivors_are_distinct(leaves: Seq<OldLeaf>, area: u64, reusable: Seq<Seq<char>>)
    ensures
        kept_ids(surviving(leaves, area, reusable)).no_duplicates(),
        forall|id: Seq<char>| #[trigger]
            kept_ids(surviving(leaves, area, reusable)).contains(id) ==> reusable.contains(id)
                && id.len() > 0,
        forall|i: int|
            0 <= i < surviving(leaves, area, reusable).len() ==> from_live_leaf(
                leaves,
                area,
                #[trigger] surviving(leaves, area, reusable)[i],
            ),
    decreases leaves.len(),
{
    if leaves.len() > 0 {
        let before = surviving(leaves.drop_last(), area, reusable);
        let all = surviving(leaves, area, reusable);
        let last = leaves.last();
        survivors_are_distinct(leaves.drop_last(), area, reusable);
        if keeps(last, area, reusable, before) {
            assert(kept_ids(all) =~= kept_ids(before).push(last.active@));
            assert forall|id: Seq<char>| #[trigger] kept_ids(all).contains(
                id,
            ) implies reusable.contains(id) && id.len() > 0 by {
                let k = choose|k: int| 0 <= k < kept_ids(all).len() && kept_ids(all)[k] == id;
                if k < kept_ids(before).len() {
                    assert(kept_ids(before)[k] == id);
                    assert(kept_ids(before).contains(id));
                }
            }
            assert forall|i: int, j: int|
                0 <= i < kept_ids(all).len() && 0 <= j < kept_ids(all).len() && i
                    != j implies kept_ids(all)[i] != kept_ids(all)[j] by {
                let n = kept_ids(before).len();
                if i == n {
                    assert(kept_ids(before).contains(kept_ids(before)[j]));
                } else if j == n {
                    assert(kept_ids(before).contains(kept_ids(before)[i]));
                }
            }
        }
        assert forall|i: int| 0 <= i < all.len() implies from_live_leaf(
            leaves,
            area,
            #[trigger] all[i],
        ) by {
            if i < before.len() {
                let shorter = leaves.drop_last();
                assert(all[i] == before[i]);
                assert(from_live_leaf(shorter, area, before[i]));
                let k = choose|k: int|
                    0 <= k < shorter.len() && (#[trigger] shorter[k]).area == area
                        && shorter[k].alive && shorter[k].content == before[i].1
                        && shorter[k].active@ == before[i].0;
                assert(leaves[k] == shorter[k]);
            } else {
                assert(leaves[leaves.len() - 1] == last);
            }
        }
    }
}

/// A plan takes every content kept for a panel that its tree shows.
pub proof fn shown_contents_are_taken(
    tree: Layout,
    markers: Seq<Seq<char>>,
    floating: bool,
    movable: bool,
    seat: Option<(bool, bool, Seq<bool>)>,
    path: Seq<bool>,
    contents: Seq<(Seq<char>, u64)>,
)
    requires
        kept_ids(contents).no_duplicates(),
    ensures
        ({
            let rest = plan_of(tree, markers, floating, movable, seat, path, contents).1;
            &&& kept_ids(rest).no_duplicates()
            &&& forall|id: Seq<char>| #[trigger]
                kept_ids(rest).contains(id) ==> kept_ids(contents).contains(id)
                    && !tree.shown().contains(id)
        }),
    decreases tree,
{
    let rest = plan_of(tree, markers, floating, movable, seat, path, contents).1;
    match tree {
        Layout::Split { direction, first, second, .. } => {
            let row = direction == SplitDirection::Horizontal;
            let mid = plan_of(
                *first,
                markers,
                floating,
                movable,
                Some((row, false, path)),
                path.push(false),
                contents,
            ).1;
            shown_contents_are_taken(
                *first,
                markers,
                floating,
                movable,
                Some((row, false, path)),
                path.push(false),
                contents,
            );
            shown_contents_are_taken(
                *second,
                markers,
                floating,
                movable,
                Some((row, true, path)),
                path.push(true),
                mid,
            );
            assert forall|id: Seq<char>| #[trigger] kept_ids(rest).contains(id) implies kept_ids(
                contents,
            ).contains(id) && !tree.shown().contains(id) by {
                assert(kept_ids(mid).contains(id));
                let both = first.shown() + second.shown();
                if both.contains(id) {
                    let k = choose|k: int| 0 <= k < both.len() && both[k] == id;
                    if k < first.shown().len() {
                        assert(first.shown()[k] == id);
                    } else {
                        assert(second.shown()[k - first.shown().len()] == id);
                    }
                }
            }
        },
        Layout::Leaf { tabs, active } => {
            let id = active_id_of(tabs, active);
            let at = position(kept_ids(contents), id);
            let ids = kept_ids(contents);
            position_is_first(ids, id);
            if at < contents.len() {
                assert(kept_ids(rest) =~= ids.remove(at));
            }
            assert forall|other: Seq<char>| #[trigger] kept_ids(rest).contains(
                other,
            ) implies ids.contains(other) && !tree.shown().contains(other) by {
                let k = choose|k: int| 0 <= k < kept_ids(rest).len() && kept_ids(rest)[k] == other;
                if at < contents.len() {
                    if k < at {
                        assert(ids[k] == other);
                    } else {
                        assert(ids[k + 1] == other);
                    }
                    assert(ids[at] == id);
                } else {
                    assert(ids[k] == other);
                }
            }
            if at < contents.len() {
                assert forall|i: int, j: int|
                    0 <= i < kept_ids(rest).len() && 0 <= j < kept_ids(rest).len() && i
                        != j implies kept_ids(rest)[i] != kept_ids(rest)[j] by {
                    let a = if i < at {
                        i
                    } else {
                        i + 1
                    };
                    let b = if j < at {
                        j
                    } else {
                        j + 1
                    };
                    assert(ids[a] != ids[b]);
                }
            }
        },
        Layout::Empty => {
            assert(tree.shown().len() == 0);
        },
    }
}

/// A rebuild reuses every content it kept: nothing is detached only to be
/// despawned.
pub proof fn rebuild_reuses_all_it_keeps(
    leaves: Seq<OldLeaf>,
    area: u64,
    tree: Layout,
    markers: Seq<Seq<char>>,
    floating: bool,
    movable: bool,
)
    ensures
        ({
            let contents = surviving(leaves, area, tree.shown());
            let (plan, rest) = plan_of(
                tree,
                markers,
                floating,
                movable,
                None,
                Seq::empty(),
                contents,
            );
            &&& rest.len() == 0
            &&& reused(plan).to_multiset() == kept_contents(contents).to_multiset()
        }),
{
    broadcast use vstd::multiset::group_multiset_axioms;

    let contents = surviving(leaves, area, tree.shown());
    let (plan, rest) = plan_of(tree, markers, floating, movable, None, Seq::empty(), contents);
    survivors_are_distinct(leaves, area, tree.shown());
    shown_contents_are_taken(tree, markers, floating, movable, None, Seq::empty(), contents);
    contents_are_accounted_for(tree, markers, floating, movable, None, Seq::empty(), contents);
    if rest.len() > 0 {
        let id = kept_ids(rest)[0];
        assert(kept_ids(rest).contains(id));
        assert(kept_ids(contents).contains(id));
    }
    Seq::<u64>::empty().to_multiset_ensures();
    assert(kept_contents(rest) =~= Seq::<u64>::empty());
    assert(reused(plan).to_multiset() =~= kept_contents(contents).to_multiset());
}

// ── Which areas to rebuild ──

/// An area that exists right now.
#[derive(Clone, Copy, Debug, PartialEq, Eq, Structural)]
pub struct AreaNode {
    pub area: u64,
    pub floating: bool,
}

/// Whose tree goes into an area.
#[derive(Clone, Copy, Debug, PartialEq, Eq, Structural)]
pub enum TreeSource {
    Primary,
    Fixed,
    /// A floating window, by its place in the list.
    Window(usize),
}

/// An area to rebuild. Leaves of a fixed area cannot be moved; leaves of a
/// floating window have no tab bar.
#[derive(Clone, Copy, Debug, PartialEq, Eq, Structural)]
pub struct Rebuild {
    pub area: u64,
    pub source: TreeSource,
    pub floating: bool,
    pub movable: bool,
}

/// The primary dock's area: the first that is neither floating nor the fixed
/// one; or their number.
pub open spec fn primary_area(areas: Seq<AreaNode>, fixed: Option<u64>) -> int {
    position(areas.map_values(|a: AreaNode| !a.floating && Some(a.area) != fixed), true)
}

/// Whether an area exists right now.
pub open spec fn area_exists(areas: Seq<AreaNode>, area: u64) -> bool {
    position(areas.map_values(|a: AreaNode| a.area == area), true) < areas.len()
}

/// The floating windows among the first `n` that have to be rebuilt and can be.
pub open spec fn window_rebuilds(
    windows: Seq<WindowModel>,
    areas: Seq<AreaNode>,
    n: nat,
) -> Seq<Rebuild>
    decreases n,
{
    if n == 0 {
        Seq::empty()
    } else {
        let i = n - 1;
        let before = window_rebuilds(windows, areas, i as nat);
        if windows[i].dirty && area_exists(areas, windows[i].area) {
            before.push(
                Rebuild {
                    area: windows[i].area,
                    source: TreeSource::Window(i as usize),
                    floating: true,
                    movable: true,
                },
            )
        } else {
            before
        }
    }
}

impl DocksModel {
    pub open spec fn primary_rebuilds(self, areas: Seq<AreaNode>) -> Seq<Rebuild> {
        let i = primary_area(areas, self.fixed_area);
        if self.primary_dirty && i < areas.len() {
            seq![
                Rebuild {
                    area: areas[i].area,
                    source: TreeSource::Primary,
                    floating: false,
                    movable: true,
                },
            ]
        } else {
            Seq::empty()
        }
    }

    pub open spec fn fixed_rebuilds(self, areas: Seq<AreaNode>) -> Seq<Rebuild> {
        match self.fixed_area {
            Some(area) if self.fixed_dirty && area_exists(areas, area) => seq![
                Rebuild { area, source: TreeSource::Fixed, floating: false, movable: false },
            ],
            _ => Seq::empty(),
        }
    }

    /// Every area to rebuild: the primary dock's, the fixed one, then the
    /// floating windows'. One whose area does not exist yet stays flagged and is
    /// retried next frame.
    pub open spec fn rebuilds(self, areas: Seq<AreaNode>) -> Seq<Rebuild> {
        self.primary_rebuilds(areas) + self.fixed_rebuilds(areas) + window_rebuilds(
            self.windows,
            areas,
            self.windows.len(),
        )
    }

    /// The docks once those are rebuilt.
    pub open spec fn rebuilt(self, areas: Seq<AreaNode>) -> DocksModel {
        DocksModel {
            primary_dirty: self.primary_dirty && self.primary_rebuilds(areas).len() == 0,
            fixed_dirty: self.fixed_dirty && self.fixed_rebuilds(areas).len() == 0,
            windows: self.windows.map_values(
                |w: WindowModel|
                    WindowModel { dirty: w.dirty && !area_exists(areas, w.area), ..w },
            ),
            ..self
        }
    }
}

fn find_area_node(areas: &Vec<AreaNode>, area: u64) -> (r: bool)
    ensures
        r == area_exists(areas@, area),
{
    let test = |a: &AreaNode| -> (b: bool)
        ensures
            b == (a.area == area),
        {
            a.area == area
        };
    find_first(areas, test, Ghost(areas@.map_values(|a: AreaNode| a.area == area))) < areas.len()
}

impl Docks {
    /// Which dock areas to rebuild now: the primary area when the dock is dirty,
    /// the fixed one, and every floating dock window whose flag is set. Clears
    /// the flags of those it returns; the rest stay flagged. While fonts are
    /// missing nothing can be built.
    pub fn take_rebuilds(&mut self, fonts: bool, areas: &Vec<AreaNode>) -> (r: Vec<Rebuild>)
        ensures
            r@ == (if fonts {
                old(self)@.rebuilds(areas@)
            } else {
                Seq::empty()
            }),
            final(self)@ == (if fonts {
                old(self)@.rebuilt(areas@)
            } else {
                old(self)@
            }),
    {
        let mut out: Vec<Rebuild> = Vec::new();
        if !fonts {
            return out;
        }
        let ghost start = self@;
        let fixed_area: Option<u64> = self.fixed.area;
        if self.dirty.0 {
            let test = |a: &AreaNode| -> (b: bool)
                ensures
                    b == (!a.floating && Some(a.area) != fixed_area),
                {
                    !a.floating && match fixed_area {
                        Some(f) => f != a.area,
                        None => true,
                    }
                };
            let i: usize = find_first(
                areas,
                test,
                Ghost(areas@.map_values(|a: AreaNode| !a.floating && Some(a.area) != fixed_area)),
            );
            if i < areas.len() {
                out.push(
                    Rebuild {
                        area: areas[i].area,
                        source: TreeSource::Primary,
                        floating: false,
                        movable: true,
                    },
                );
                self.dirty.0 = false;
            }
        }
        assert(out@ == start.primary_rebuilds(areas@));
        if self.fixed.dirty {
            if let Some(area) = fixed_area {
                if find_area_node(areas, area) {
                    out.push(
                        Rebuild { area, source: TreeSource::Fixed, floating: false, movable: false },
                    );
                    self.fixed.dirty = false;
                }
            }
        }
        assert(out@ == start.primary_rebuilds(areas@) + start.fixed_rebuilds(areas@));
        let ghost head = out@;
        let ghost models = start.windows;
        let ghost half = self@;
        let mut i: usize = 0;
        while i < self.windows.0.len()
            invariant
                i <= self.windows.0@.len(),
                self.windows.0@.len() == models.len(),
                models == start.windows,
                out@ == head + window_rebuilds(models, areas@, i as nat),
                forall|k: int|
                    i <= k < models.len() ==> (#[trigger] self.windows.0@[k]).model() == models[k],
                forall|k: int|
                    0 <= k < i ==> (#[trigger] self.windows.0@[k]).model() == (WindowModel {
                        dirty: models[k].dirty && !area_exists(areas@, models[k].area),
                        ..models[k]
                    }),
                self.dock.tree@ == half.primary,
                self.dirty.0 == half.primary_dirty,
                self.fixed.tree@ == half.fixed,
                self.fixed.area == half.fixed_area,
                self.fixed.dirty == half.fixed_dirty,
                request_models(self.requests.0@) == half.requests,
                self.closes.0@ == half.closes,
            decreases self.windows.0@.len() - i,
        {
            assert(self.windows.0@[i as int].model() == models[i as int]);
            let ghost before = self.windows.0@;
            if self.windows.0[i].dirty && find_area_node(areas, self.windows.0[i].area) {
                out.push(
                    Rebuild {
                        area: self.windows.0[i].area,
                        source: TreeSource::Window(i),
                        floating: true,
                        movable: true,
                    },
                );
                self.windows.0[i].dirty = false;
                assert(forall|k: int|
                    0 <= k < models.len() && k != i ==> self.windows.0@[k] == before[k]);
            }
            i += 1;
        }
        assert(self@.windows =~= start.rebuilt(areas@).windows);
        out
    }
}

} // verus!
