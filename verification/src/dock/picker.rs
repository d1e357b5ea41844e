//! The add-panel picker: which panels a leaf can still take.

use vstd::prelude::*;

use crate::dock::title::{category_slug, underscored};
use crate::text::{list_contains, texts};
use crate::unicode::{lowercased, to_chars, trimmed};

verus! {

/// A registered panel.
pub struct PanelInfo {
    pub id: String,
    pub title: String,
    pub icon: String,
    pub category: String,
}

/// What a registered panel holds.
pub struct PanelModel {
    pub id: Seq<char>,
    pub title: Seq<char>,
    pub icon: Seq<char>,
    pub category: Seq<char>,
}

impl View for PanelInfo {
    type V = PanelModel;

    open spec fn view(&self) -> PanelModel {
        PanelModel {
            id: self.id@,
            title: self.title@,
            icon: self.icon@,
            category: self.category@,
        }
    }
}

pub open spec fn panel_models(panels: Seq<PanelInfo>) -> Seq<PanelModel> {
    panels.map_values(|p: PanelInfo| p@)
}

/// One entry of the picker, before translation.
pub struct PickerEntry {
    pub id: String,
    pub title: String,
    pub icon: String,
    pub category: String,
    /// Keys the translation of the category.
    pub slug: String,
}

/// What a picker entry holds.
pub struct EntryModel {
    pub id: Seq<char>,
    pub title: Seq<char>,
    pub icon: Seq<char>,
    pub category: Seq<char>,
    pub slug: Seq<char>,
}

impl View for PickerEntry {
    type V = EntryModel;

    open spec fn view(&self) -> EntryModel {
        EntryModel {
            id: self.id@,
            title: self.title@,
            icon: self.icon@,
            category: self.category@,
            slug: self.slug@,
        }
    }
}

/// `text`, or `other` where it is empty.
pub open spec fn or_else(text: Seq<char>, other: Seq<char>) -> Seq<char> {
    if text.len() == 0 {
        other
    } else {
        text
    }
}

/// The picker's entry for a panel.
pub open spec fn entry_of(panel: PanelModel) -> EntryModel {
    let category = or_else(panel.category, "General"@);
    EntryModel {
        id: panel.id,
        title: panel.title,
        icon: or_else(panel.icon, "circle"@),
        category,
        slug: underscored(lowercased(trimmed(category))),
    }
}

/// Dictionary order of two texts, by character: `a` comes strictly before `b`.
pub open spec fn before(a: Seq<char>, b: Seq<char>) -> bool
    decreases a.len(),
{
    if b.len() == 0 {
        false
    } else if a.len() == 0 {
        true
    } else if a[0] == b[0] {
        before(a.drop_first(), b.drop_first())
    } else {
        a[0] < b[0]
    }
}

/// How many entries of a sorted list go before one titled `title`: those not
/// after it.
pub open spec fn rank(list: Seq<PanelModel>, title: Seq<char>) -> int
    decreases list.len(),
{
    if list.len() == 0 {
        0
    } else if before(title, list.last().title) {
        rank(list.drop_last(), title)
    } else {
        list.len() as int
    }
}

/// Panels by title; those with one title stay in the order they came in.
pub open spec fn by_title(panels: Seq<PanelModel>) -> Seq<PanelModel>
    decreases panels.len(),
{
    if panels.len() == 0 {
        Seq::empty()
    } else {
        let sorted = by_title(panels.drop_last());
        sorted.insert(rank(sorted, panels.last().title), panels.last())
    }
}

/// Not being one of `existing`.
pub open spec fn absent(existing: Seq<Seq<char>>) -> spec_fn(PanelModel) -> bool {
    |p: PanelModel| !existing.contains(p.id)
}

/// The entries of a picker: the panels not already in the leaf, by title.
pub open spec fn entries_of(panels: Seq<PanelModel>, existing: Seq<Seq<char>>) -> Seq<EntryModel> {
    by_title(panels).filter(absent(existing)).map_values(|p: PanelModel| entry_of(p))
}

proof fn rank_bounds(list: Seq<PanelModel>, title: Seq<char>)
    ensures
        0 <= rank(list, title) <= list.len(),
    decreases list.len(),
{
    if list.len() > 0 {
        rank_bounds(list.drop_last(), title);
    }
}

fn text_before(a: &Vec<char>, b: &Vec<char>) -> (r: bool)
    ensures
        r == before(a@, b@),
{
    let mut i: usize = 0;
    assert(a@.skip(0) == a@);
    assert(b@.skip(0) == b@);
    while i < a.len() && i < b.len()
        invariant
            i <= a@.len(),
            i <= b@.len(),
            before(a@, b@) == before(a@.skip(i as int), b@.skip(i as int)),
        decreases a@.len() - i,
    {
        assert(a@.skip(i as int)[0] == a@[i as int]);
        assert(b@.skip(i as int)[0] == b@[i as int]);
        if a[i] != b[i] {
            return a[i] < b[i];
        }
        assert(a@.skip(i as int).drop_first() == a@.skip(i + 1));
        assert(b@.skip(i as int).drop_first() == b@.skip(i + 1));
        i += 1;
    }
    i < b.len()
}

/// The order in which panels are offered: their indices, by title.
fn title_order(panels: &Vec<PanelInfo>) -> (r: Vec<usize>)
    ensures
        r@.len() == panels@.len(),
        forall|k: int| 0 <= k < r@.len() ==> 0 <= #[trigger] r@[k] < panels@.len(),
        r@.map_values(|i: usize| panels@[i as int]@) == by_title(panel_models(panels@)),
{
    let ghost models = panel_models(panels@);
    let mut order: Vec<usize> = Vec::new();
    let mut n: usize = 0;
    assert(models.take(0).len() == 0);
    assert(order@.map_values(|i: usize| panels@[i as int]@) == Seq::<PanelModel>::empty());
    while n < panels.len()
        invariant
            n <= panels@.len(),
            models == panel_models(panels@),
            order@.len() == n,
            forall|k: int| 0 <= k < order@.len() ==> 0 <= #[trigger] order@[k] < panels@.len(),
            order@.map_values(|i: usize| panels@[i as int]@) == by_title(models.take(n as int)),
        decreases panels@.len() - n,
    {
        let ghost sorted = by_title(models.take(n as int));
        let title = to_chars(&panels[n].title);
        let mut at: usize = order.len();
        assert(sorted.take(at as int) == sorted);
        while at > 0
            invariant_except_break
                rank(sorted, title@) == rank(sorted.take(at as int), title@),
            invariant
                at <= order@.len(),
                order@.len() == sorted.len(),
                title@ == panels@[n as int].title@,
                n < panels@.len(),
                sorted == order@.map_values(|i: usize| panels@[i as int]@),
                forall|k: int| 0 <= k < order@.len() ==> 0 <= #[trigger] order@[k] < panels@.len(),
            ensures
                rank(sorted, title@) == at,
            decreases at,
        {
            let other = to_chars(&panels[order[at - 1]].title);
            assert(sorted.take(at as int).last() == panels@[order@[at - 1] as int]@);
            assert(sorted.take(at as int).drop_last() == sorted.take(at - 1));
            if !text_before(&title, &other) {
                break;
            }
            at -= 1;
        }
        proof {
            rank_bounds(sorted, title@);
            assert(models.take(n + 1).drop_last() == models.take(n as int));
            assert(models.take(n + 1).last() == panels@[n as int]@);
        }
        let ghost placed = order@;
        order.insert(at, n);
        assert(order@.map_values(|i: usize| panels@[i as int]@) =~= sorted.insert(
            at as int,
            panels@[n as int]@,
        ));
        n += 1;
    }
    assert(models.take(n as int) == models);
    order
}

fn make_entry(panel: &PanelInfo) -> (r: PickerEntry)
    ensures
        r@ == entry_of(panel@),
{
    let icon = if panel.icon.as_str().is_empty() {
        "circle".to_owned()
    } else {
        panel.icon.clone()
    };
    let category = if panel.category.as_str().is_empty() {
        "General".to_owned()
    } else {
        panel.category.clone()
    };
    let slug = category_slug(&category);
    PickerEntry { id: panel.id.clone(), title: panel.title.clone(), icon, category, slug }
}

/// The entries offered by a leaf's `+` button: every registered panel that is
/// not already in that leaf, by title, with a neutral icon and a general
/// category where it has none.
pub fn picker_entries(panels: &Vec<PanelInfo>, existing: &Vec<String>) -> (r: Vec<PickerEntry>)
    ensures
        r@.map_values(|e: PickerEntry| e@) == entries_of(panel_models(panels@), texts(existing@)),
{
    let order = title_order(panels);
    let ghost sorted = by_title(panel_models(panels@));
    let ghost pass = absent(texts(existing@));
    let mut out: Vec<PickerEntry> = Vec::new();
    let mut i: usize = 0;
    proof {
        reveal(Seq::filter);
        assert(sorted.take(0).filter(pass) =~= Seq::empty());
    }
    while i < order.len()
        invariant
            i <= order@.len(),
            order@.len() == sorted.len(),
            forall|k: int| 0 <= k < order@.len() ==> 0 <= #[trigger] order@[k] < panels@.len(),
            sorted == order@.map_values(|i: usize| panels@[i as int]@),
            pass == absent(texts(existing@)),
            out@.map_values(|e: PickerEntry| e@) == sorted.take(i as int).filter(pass).map_values(
                |p: PanelModel| entry_of(p),
            ),
        decreases order@.len() - i,
    {
        let panel = &panels[order[i]];
        let ghost so_far = sorted.take(i as int).filter(pass);
        let ghost made = out@.map_values(|e: PickerEntry| e@);
        proof {
            reveal(Seq::filter);
            assert(sorted.take(i + 1).drop_last() == sorted.take(i as int));
            assert(sorted.take(i + 1).last() == panel@);
        }
        if !list_contains(existing, &panel.id) {
            out.push(make_entry(panel));
            assert(out@.map_values(|e: PickerEntry| e@) =~= made.push(entry_of(panel@)));
            assert(so_far.push(panel@).map_values(|p: PanelModel| entry_of(p))
                =~= so_far.map_values(|p: PanelModel| entry_of(p)).push(entry_of(panel@)));
        }
        i += 1;
    }
    assert(sorted.take(i as int) == sorted);
    out
}

// ── Laws ──

proof fn not_both_before(a: Seq<char>, b: Seq<char>)
    ensures
        before(a, b) ==> !before(b, a),
    decreases a.len(),
{
    if a.len() > 0 && b.len() > 0 && a[0] == b[0] {
        not_both_before(a.drop_first(), b.drop_first());
    }
}

proof fn not_after_is_transitive(a: Seq<char>, b: Seq<char>, c: Seq<char>)
    requires
        !before(b, a),
        !before(c, b),
    ensures
        !before(c, a),
    decreases a.len(),
{
    if a.len() > 0 && b.len() > 0 && c.len() > 0 && a[0] == b[0] && b[0] == c[0] {
        not_after_is_transitive(a.drop_first(), b.drop_first(), c.drop_first());
    }
}

/// No title stands before one that comes after it.
pub open spec fn in_title_order(list: Seq<PanelModel>) -> bool {
    forall|i: int, j: int|
        0 <= i < j < list.len() ==> !before((#[trigger] list[j]).title, (#[trigger] list[i]).title)
}

proof fn rank_separates(list: Seq<PanelModel>, title: Seq<char>)
    requires
        in_title_order(list),
    ensures
        0 <= rank(list, title) <= list.len(),
        forall|k: int| 0 <= k < rank(list, title) ==> !before(title, (#[trigger] list[k]).title),
        forall|k: int| rank(list, title) <= k < list.len() ==> before(title, (#[trigger] list[k]).title),
    decreases list.len(),
{
    if list.len() > 0 {
        let rest = list.drop_last();
        assert forall|i: int, j: int| 0 <= i < j < rest.len() implies !before(
            (#[trigger] rest[j]).title,
            (#[trigger] rest[i]).title,
        ) by {
            assert(rest[i] == list[i] && rest[j] == list[j]);
        }
        if before(title, list.last().title) {
            rank_separates(rest, title);
            assert forall|k: int| 0 <= k < rank(list, title) implies !before(
                title,
                (#[trigger] list[k]).title,
            ) by {
                assert(rest[k] == list[k]);
            }
            assert forall|k: int| rank(list, title) <= k < list.len() implies before(
                title,
                (#[trigger] list[k]).title,
            ) by {
                if k < rest.len() {
                    assert(rest[k] == list[k]);
                }
            }
        } else {
            assert forall|k: int| 0 <= k < list.len() implies !before(
                title,
                (#[trigger] list[k]).title,
            ) by {
                let last = list[list.len() - 1];
                if k < list.len() - 1 {
                    assert(!before(last.title, list[k].title));
                    not_after_is_transitive(list[k].title, last.title, title);
                }
            }
        }
    }
}

/// Sorting by title orders the panels by title, and neither drops nor adds one.
pub proof fn sorting_orders(panels: Seq<PanelModel>)
    ensures
        in_title_order(by_title(panels)),
        by_title(panels).to_multiset() =~= panels.to_multiset(),
    decreases panels.len(),
{
    if panels.len() == 0 {
        assert(panels =~= Seq::<PanelModel>::empty());
    } else {
        let rest = panels.drop_last();
        let last = panels.last();
        let sorted = by_title(rest);
        sorting_orders(rest);
        rank_separates(sorted, last.title);
        let at = rank(sorted, last.title);
        let all = sorted.insert(at, last);
        assert forall|i: int, j: int| 0 <= i < j < all.len() implies !before(
            (#[trigger] all[j]).title,
            (#[trigger] all[i]).title,
        ) by {
            if i == at {
                assert(all[j] == sorted[j - 1]);
                not_both_before(last.title, all[j].title);
            } else if j == at {
                assert(all[i] == sorted[i]);
            } else {
                let a = if i < at {
                    i
                } else {
                    i - 1
                };
                let b = if j < at {
                    j
                } else {
                    j - 1
                };
                assert(all[i] == sorted[a] && all[j] == sorted[b]);
            }
        }
        vstd::seq_lib::to_multiset_insert(sorted, at, last);
        assert(panels =~= rest.push(last));
        broadcast use vstd::seq_lib::group_to_multiset_ensures;

    }
}

proof fn filter_keeps_title_order(list: Seq<PanelModel>, pass: spec_fn(PanelModel) -> bool)
    requires
        in_title_order(list),
    ensures
        in_title_order(list.filter(pass)),
    decreases list.len(),
{
    reveal(Seq::filter);
    if list.len() > 0 {
        let rest = list.drop_last();
        assert forall|i: int, j: int| 0 <= i < j < rest.len() implies !before(
            (#[trigger] rest[j]).title,
            (#[trigger] rest[i]).title,
        ) by {
            assert(rest[i] == list[i] && rest[j] == list[j]);
        }
        filter_keeps_title_order(rest, pass);
        let kept = rest.filter(pass);
        let all = list.filter(pass);
        assert forall|i: int, j: int| 0 <= i < j < all.len() implies !before(
            (#[trigger] all[j]).title,
            (#[trigger] all[i]).title,
        ) by {
            if j < kept.len() {
                assert(all[i] == kept[i] && all[j] == kept[j]);
            } else {
                assert(all[i] == kept[i] && all[j] == list.last());
                rest.lemma_filter_contains_rev(pass, kept[i]);
                let k = choose|k: int| 0 <= k < rest.len() && rest[k] == kept[i];
                assert(list[k] == kept[i]);
                assert(list[list.len() - 1] == list.last());
            }
        }
    }
}

/// A picker offers every panel that the leaf lacks and no other, by title.
pub proof fn offered_is_what_is_missing(panels: Seq<PanelModel>, existing: Seq<Seq<char>>)
    ensures
        forall|p: PanelModel|
            panels.contains(p) && !existing.contains(p.id) ==> #[trigger] entries_of(
                panels,
                existing,
            ).contains(entry_of(p)),
        forall|k: int|
            0 <= k < entries_of(panels, existing).len() ==> !existing.contains(
                (#[trigger] entries_of(panels, existing)[k]).id,
            ),
        forall|i: int, j: int|
            0 <= i < j < entries_of(panels, existing).len() ==> !before(
                (#[trigger] entries_of(panels, existing)[j]).title,
                (#[trigger] entries_of(panels, existing)[i]).title,
            ),
{
    let sorted = by_title(panels);
    let pass = absent(existing);
    let kept = sorted.filter(pass);
    let entries = entries_of(panels, existing);
    sorting_orders(panels);
    filter_keeps_title_order(sorted, pass);
    assert forall|p: PanelModel| panels.contains(p) && !existing.contains(p.id) implies
        #[trigger] entries.contains(entry_of(p)) by {
        broadcast use vstd::seq_lib::group_to_multiset_ensures;

        assert(panels.to_multiset().count(p) > 0);
        assert(sorted.to_multiset().count(p) > 0);
        assert(sorted.contains(p));
        let i = choose|i: int| 0 <= i < sorted.len() && sorted[i] == p;
        sorted.lemma_filter_contains(pass, i);
        let k = choose|k: int| 0 <= k < kept.len() && kept[k] == p;
        assert(entries[k] == entry_of(p));
    }
    assert forall|k: int| 0 <= k < entries.len() implies !existing.contains(
        (#[trigger] entries[k]).id,
    ) by {
        assert(entries[k] == entry_of(kept[k]));
        sorted.lemma_filter_contains_rev(pass, kept[k]);
        kept_passes(sorted, pass, k);
    }
    assert forall|i: int, j: int| 0 <= i < j < entries.len() implies !before(
        (#[trigger] entries[j]).title,
        (#[trigger] entries[i]).title,
    ) by {
        assert(entries[i].title == kept[i].title);
        assert(entries[j].title == kept[j].title);
    }
}

proof fn kept_passes(list: Seq<PanelModel>, pass: spec_fn(PanelModel) -> bool, k: int)
    requires
        0 <= k < list.filter(pass).len(),
    ensures
        pass(list.filter(pass)[k]),
    decreases list.len(),
{
    reveal(Seq::filter);
    if list.len() > 0 {
        let rest = list.drop_last();
        if k < rest.filter(pass).len() {
            kept_passes(rest, pass, k);
        }
    }
}

} // verus!
