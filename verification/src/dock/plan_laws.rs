//! What is built for a dock tree, and how panels are titled and offered.

use vstd::prelude::*;

use crate::dock::docks::{DocksModel, WindowModel};
use crate::dock::layout::{clamped_ratio, Layout, SplitDirection};
use crate::dock::picker::{before, entry_of, PanelModel};
use crate::dock::plan::{
    active_id_of, area_exists, bar_of, first_marked, kept_ids, plan_of, primary_area, surviving,
    window_rebuilds, AreaNode, OldLeaf, PlanModel, Rebuild, TreeSource,
};
use crate::dock::resize::{Extent, Octant, ResizeCursor};
use crate::dock::title::{
    ascii_alphanumeric, capitalized, decimal, digit, ghost_label, humanized, id_words, spaced,
    underscored, window_lead,
};
use crate::scalar::Scalar;
use crate::text::{position, position_found, position_is_first};
use crate::unicode::{lowercased, trimmed, uppercased};

verus! {

// ── Contents that are kept ──

/// Whether an old leaf's content is the first of its panel that can be kept: the
/// leaf belongs to the area, shows a panel that the new tree shows, its content
/// is alive, and no leaf before it kept that panel.
pub open spec fn can_keep(
    leaf: OldLeaf,
    area: u64,
    shown: Seq<Seq<char>>,
    so_far: Seq<(Seq<char>, u64)>,
) -> bool {
    &&& leaf.area == area
    &&& leaf.alive
    &&& leaf.active@.len() > 0
    &&& shown.contains(leaf.active@)
    &&& forall|i: int| 0 <= i < so_far.len() ==> (#[trigger] so_far[i]).0 != leaf.active@
}

/// Contents are kept leaf by leaf: one that can be is kept under its panel.
pub proof fn contents_are_kept_leaf_by_leaf(
    leaves: Seq<OldLeaf>,
    leaf: OldLeaf,
    area: u64,
    shown: Seq<Seq<char>>,
)
    ensures
        surviving(Seq::empty(), area, shown).len() == 0,
        ({
            let so_far = surviving(leaves, area, shown);
            &&& can_keep(leaf, area, shown, so_far) ==> surviving(leaves.push(leaf), area, shown)
                == so_far.push((leaf.active@, leaf.content))
            &&& !can_keep(leaf, area, shown, so_far) ==> surviving(leaves.push(leaf), area, shown)
                == so_far
        }),
{
    assert(leaves.push(leaf).drop_last() =~= leaves);
    let so_far = surviving(leaves, area, shown);
    let ids = kept_ids(so_far);
    if ids.contains(leaf.active@) {
        let i = choose|i: int| 0 <= i < ids.len() && ids[i] == leaf.active@;
        assert(so_far[i].0 == leaf.active@);
    } else {
        assert forall|i: int| 0 <= i < so_far.len() implies (#[trigger] so_far[i]).0
            != leaf.active@ by {
            assert(ids[i] == so_far[i].0);
        }
    }
}

// ── Plans ──

/// A split is built as one, a row where its panes stand side by side, with its
/// ratio in range, under its own path; its panes are built after each other, each
/// seated on its side, and the second takes what contents the first left.
pub proof fn splits_are_built_as_they_stand(
    direction: SplitDirection,
    ratio: Scalar,
    first: Layout,
    second: Layout,
    markers: Seq<Seq<char>>,
    floating: bool,
    movable: bool,
    seat: Option<(bool, bool, Seq<bool>)>,
    path: Seq<bool>,
    contents: Seq<(Seq<char>, u64)>,
)
    ensures
        ({
            let t = Layout::Split {
                direction,
                ratio,
                first: Box::new(first),
                second: Box::new(second),
            };
            let row = direction == SplitDirection::Horizontal;
            let (plan, rest) = plan_of(t, markers, floating, movable, seat, path, contents);
            let (a, left) = plan_of(
                first,
                markers,
                floating,
                movable,
                Some((row, false, path)),
                path.push(false),
                contents,
            );
            let (b, over) = plan_of(
                second,
                markers,
                floating,
                movable,
                Some((row, true, path)),
                path.push(true),
                left,
            );
            &&& rest == over
            &&& plan matches PlanModel::Split {
                row: r,
                ratio: q,
                path: p,
                strip,
                first: x,
                second: y,
            }
            &&& r == row
            &&& q == clamped_ratio(ratio)
            &&& p == path
            &&& *x == a
            &&& *y == b
            &&& strip == (match second {
                Layout::Leaf { tabs, .. } if !row && !floating => first_marked(tabs, markers),
                _ => None,
            })
        }),
{
}

/// Whether `k` is the first content kept for a panel.
pub open spec fn kept_at(contents: Seq<(Seq<char>, u64)>, id: Seq<char>, k: int) -> bool {
    0 <= k < contents.len() && contents[k].0 == id && forall|j: int|
        0 <= j < k ==> (#[trigger] contents[j]).0 != id
}

/// A leaf is built with its tabs and takes the content that was kept for the
/// panel it shows, or else a new one. In a floating window it has no bar.
pub proof fn leaves_are_built_with_their_content(
    tabs: Seq<Seq<char>>,
    active: int,
    markers: Seq<Seq<char>>,
    floating: bool,
    movable: bool,
    seat: Option<(bool, bool, Seq<bool>)>,
    path: Seq<bool>,
    contents: Seq<(Seq<char>, u64)>,
    k: int,
)
    requires
        0 <= active < tabs.len(),
    ensures
        ({
            let t = Layout::Leaf { tabs, active };
            let (plan, rest) = plan_of(t, markers, floating, movable, seat, path, contents);
            &&& plan matches PlanModel::Leaf(leaf)
            &&& leaf.tabs == tabs
            &&& leaf.active_id == tabs[active]
            &&& floating ==> leaf.bar is None
            &&& !floating ==> leaf.bar == Some(bar_of(tabs, active, markers, movable, seat))
            &&& kept_at(contents, tabs[active], k) ==> leaf.content == Some(contents[k].1) && rest
                == contents.remove(k)
            &&& (forall|j: int|
                0 <= j < contents.len() ==> (#[trigger] contents[j]).0 != tabs[active])
                ==> leaf.content is None && rest == contents
        }),
{
    let ids = kept_ids(contents);
    let id = tabs[active];
    position_is_first(ids, id);
    if kept_at(contents, id, k) {
        assert forall|j: int| 0 <= j < k implies ids[j] != id by {
            assert(contents[j].0 != id);
        }
        assert(ids[k] == id);
        position_found(ids, id, k);
    }
    let at = position(ids, id);
    if at < contents.len() {
        assert(ids[at] == id);
        assert(contents[at].0 == id);
    }
}

/// Nothing is built of nothing.
pub proof fn nothing_is_built_of_nothing(
    markers: Seq<Seq<char>>,
    floating: bool,
    movable: bool,
    seat: Option<(bool, bool, Seq<bool>)>,
    path: Seq<bool>,
    contents: Seq<(Seq<char>, u64)>,
)
    ensures
        plan_of(Layout::Empty, markers, floating, movable, seat, path, contents) == (
            PlanModel::Empty,
            contents,
        ),
        active_id_of(Seq::empty(), 0).len() == 0,
{
}

/// Whether `id` is the first of a leaf's tabs that marks a strip.
pub open spec fn marks_first(tabs: Seq<Seq<char>>, markers: Seq<Seq<char>>, id: Seq<char>) -> bool {
    exists|k: int|
        0 <= k < tabs.len() && #[trigger] tabs[k] == id && markers.contains(id) && forall|j: int|
            0 <= j < k ==> !markers.contains(#[trigger] tabs[j])
}

proof fn marked_is_first(tabs: Seq<Seq<char>>, markers: Seq<Seq<char>>)
    ensures
        match first_marked(tabs, markers) {
            Some(id) => marks_first(tabs, markers, id),
            None => forall|k: int| 0 <= k < tabs.len() ==> !markers.contains(#[trigger] tabs[k]),
        },
{
    let flags = tabs.map_values(|t: Seq<char>| markers.contains(t));
    position_is_first(flags, true);
    let i = position(flags, true);
    assert forall|j: int| 0 <= j < i implies !markers.contains(#[trigger] tabs[j]) by {
        assert(flags[j] != true);
    }
    if i < tabs.len() {
        assert(flags[i]);
        assert(markers.contains(tabs[i]));
    }
}

/// A bar has a tab for each panel, in order, titled, with the visible one told;
/// a grip where its leaf can be moved, and else it is pinned.
pub proof fn bars_have_their_tabs(
    tabs: Seq<Seq<char>>,
    active: int,
    markers: Seq<Seq<char>>,
    movable: bool,
    seat: Option<(bool, bool, Seq<bool>)>,
    k: int,
)
    requires
        0 <= k < tabs.len(),
    ensures
        ({
            let bar = bar_of(tabs, active, markers, movable, seat);
            &&& bar.tabs.len() == tabs.len()
            &&& bar.tabs[k] == (tabs[k], humanized(tabs[k]), k == active)
            &&& bar.grip == movable
            &&& bar.pinned == !movable
        }),
{
}

/// The bar of a leaf that is the lower pane of a stacked split drags that split.
/// Under the whole dock it has a chevron for the dock's bottom; under a part of it
/// only a marked leaf has one, for its own strip. No other bar has either.
pub proof fn lower_bars_drag_and_collapse(
    tabs: Seq<Seq<char>>,
    active: int,
    markers: Seq<Seq<char>>,
    movable: bool,
    horizontal: bool,
    is_second: bool,
    path: Seq<bool>,
)
    ensures
        ({
            let bar = bar_of(tabs, active, markers, movable, Some((horizontal, is_second, path)));
            let lower = !horizontal && is_second;
            let unmarked = forall|k: int|
                0 <= k < tabs.len() ==> !markers.contains(#[trigger] tabs[k]);
            &&& !lower ==> bar.handle is None && bar.chevron is None
            &&& lower && path.len() == 0 ==> bar.handle == Some((path, None::<Seq<char>>))
                && bar.chevron == Some(None::<Seq<char>>)
            &&& lower && path.len() > 0 && unmarked ==> bar.handle == Some(
                (path, None::<Seq<char>>),
            ) && bar.chevron is None
            &&& lower && path.len() > 0 && !unmarked ==> {
                &&& bar.handle matches Some((p, Some(id)))
                &&& p == path && marks_first(tabs, markers, id)
                &&& bar.chevron == Some(Some(id))
            }
        }),
        bar_of(tabs, active, markers, movable, None).handle is None,
        bar_of(tabs, active, markers, movable, None).chevron is None,
{
    marked_is_first(tabs, markers);
    if let Some(id) = first_marked(tabs, markers) {
        let k = choose|k: int|
            0 <= k < tabs.len() && #[trigger] tabs[k] == id && markers.contains(id) && forall|
                j: int,
            |
                0 <= j < k ==> !markers.contains(#[trigger] tabs[j]);
        assert(markers.contains(tabs[k]));
    }
}

/// A split's strip is told by the first marked tab of its lower pane, where that
/// is a leaf.
pub proof fn strips_go_by_the_first_mark(tabs: Seq<Seq<char>>, markers: Seq<Seq<char>>)
    ensures
        match first_marked(tabs, markers) {
            Some(id) => marks_first(tabs, markers, id),
            None => forall|k: int| 0 <= k < tabs.len() ==> !markers.contains(#[trigger] tabs[k]),
        },
{
    marked_is_first(tabs, markers);
}

// ── Rebuilds ──

/// Whether an area has its node.
pub open spec fn has_node(areas: Seq<AreaNode>, area: u64) -> bool {
    exists|k: int| 0 <= k < areas.len() && (#[trigger] areas[k]).area == area
}

proof fn node_is_found(areas: Seq<AreaNode>, area: u64)
    ensures
        area_exists(areas, area) == has_node(areas, area),
{
    let flags = areas.map_values(|a: AreaNode| a.area == area);
    position_is_first(flags, true);
    if has_node(areas, area) {
        let k = choose|k: int| 0 <= k < areas.len() && (#[trigger] areas[k]).area == area;
        assert(flags[k]);
    }
    let i = position(flags, true);
    if i < areas.len() {
        assert(flags[i]);
        assert(areas[i].area == area);
    }
}

/// Whether `k` is the first docked area other than the fixed one.
pub open spec fn main_area(areas: Seq<AreaNode>, fixed: Option<u64>, k: int) -> bool {
    &&& 0 <= k < areas.len()
    &&& !areas[k].floating && fixed != Some(areas[k].area)
    &&& forall|j: int|
        0 <= j < k ==> (#[trigger] areas[j]).floating || fixed == Some(areas[j].area)
}

/// The primary dock is rebuilt into the first docked area that is not the fixed
/// one, movable; the fixed dock into its own, pinned: each where it is flagged and
/// has its area, and then its flag is down.
pub proof fn flagged_docks_are_rebuilt(docks: DocksModel, areas: Seq<AreaNode>, k: int)
    ensures
        docks.primary_dirty && main_area(areas, docks.fixed_area, k) ==> {
            &&& docks.primary_rebuilds(areas) == seq![
                Rebuild {
                    area: areas[k].area,
                    source: TreeSource::Primary,
                    floating: false,
                    movable: true,
                },
            ]
            &&& !docks.rebuilt(areas).primary_dirty
        },
        !docks.primary_dirty ==> docks.primary_rebuilds(areas).len() == 0 && !docks.rebuilt(
            areas,
        ).primary_dirty,
        (forall|j: int|
            0 <= j < areas.len() ==> (#[trigger] areas[j]).floating || docks.fixed_area == Some(
                areas[j].area,
            )) ==> docks.primary_rebuilds(areas).len() == 0 && docks.rebuilt(areas).primary_dirty
            == docks.primary_dirty,
        docks.fixed_dirty && docks.fixed_area is Some && has_node(areas, docks.fixed_area->0) ==> {
            &&& docks.fixed_rebuilds(areas) == seq![
                Rebuild {
                    area: docks.fixed_area->0,
                    source: TreeSource::Fixed,
                    floating: false,
                    movable: false,
                },
            ]
            &&& !docks.rebuilt(areas).fixed_dirty
        },
        !(docks.fixed_dirty && docks.fixed_area is Some && has_node(areas, docks.fixed_area->0))
            ==> docks.fixed_rebuilds(areas).len() == 0 && docks.rebuilt(areas).fixed_dirty
            == docks.fixed_dirty,
{
    let fixed = docks.fixed_area;
    let flags = areas.map_values(|a: AreaNode| !a.floating && Some(a.area) != fixed);
    position_is_first(flags, true);
    if main_area(areas, fixed, k) {
        position_found(flags, true, k);
    }
    let i = primary_area(areas, fixed);
    if i < areas.len() {
        assert(flags[i]);
        assert(!areas[i].floating && fixed != Some(areas[i].area));
    }
    if let Some(area) = fixed {
        node_is_found(areas, area);
    }
}

/// Floating windows are rebuilt one by one, each into its own area: those that are
/// flagged and have it, whose flag is then down. The primary dock comes first and
/// the fixed one second.
pub proof fn flagged_windows_are_rebuilt(docks: DocksModel, areas: Seq<AreaNode>, n: nat)
    requires
        n < docks.windows.len(),
        docks.windows.len() <= usize::MAX,
    ensures
        ({
            let w = docks.windows[n as int];
            let before = window_rebuilds(docks.windows, areas, n);
            &&& window_rebuilds(docks.windows, areas, 0).len() == 0
            &&& w.dirty && has_node(areas, w.area) ==> window_rebuilds(
                docks.windows,
                areas,
                n + 1,
            ) == before.push(
                Rebuild {
                    area: w.area,
                    source: TreeSource::Window(n as usize),
                    floating: true,
                    movable: true,
                },
            )
            &&& !(w.dirty && has_node(areas, w.area)) ==> window_rebuilds(
                docks.windows,
                areas,
                n + 1,
            ) == before
            &&& docks.rebuilt(areas).windows[n as int] == (WindowModel {
                dirty: w.dirty && !has_node(areas, w.area),
                ..w
            })
            &&& docks.rebuilds(areas) == docks.primary_rebuilds(areas) + docks.fixed_rebuilds(areas)
                + window_rebuilds(docks.windows, areas, docks.windows.len())
        }),
        docks.rebuilt(areas).windows.len() == docks.windows.len(),
        docks.rebuilt(areas).primary == docks.primary,
        docks.rebuilt(areas).fixed == docks.fixed,
        docks.rebuilt(areas).fixed_area == docks.fixed_area,
        docks.rebuilt(areas).requests == docks.requests,
        docks.rebuilt(areas).closes == docks.closes,
{
    node_is_found(areas, docks.windows[n as int].area);
}

// ── Resize zones ──

/// Edges are 5 px thick and lie along their edge, between the corners; corners are
/// 12 px squares. Each lies against its own edges and shows their cursor.
pub proof fn zones_lie_against_their_edges(o: Octant)
    ensures
        ({
            let z = o.zone();
            let zero = Extent::Px(Scalar { bits: 0 });
            let edge = Extent::Px(Scalar { bits: 0x40A0_0000 });
            let corner = Extent::Px(Scalar { bits: 0x4140_0000 });
            &&& z.octant == o
            &&& o == Octant::North ==> z.top == zero && z.bottom == Extent::Auto && z.left == corner
                && z.right == Extent::Auto && z.width == Extent::Full && z.height == edge && z.cursor
                == ResizeCursor::NorthSouth
            &&& o == Octant::South ==> z.bottom == zero && z.top == Extent::Auto && z.left == corner
                && z.right == Extent::Auto && z.width == Extent::Full && z.height == edge && z.cursor
                == ResizeCursor::NorthSouth
            &&& o == Octant::West ==> z.left == zero && z.right == Extent::Auto && z.top == corner
                && z.bottom == Extent::Auto && z.width == edge && z.height == Extent::Full
                && z.cursor == ResizeCursor::EastWest
            &&& o == Octant::East ==> z.right == zero && z.left == Extent::Auto && z.top == corner
                && z.bottom == Extent::Auto && z.width == edge && z.height == Extent::Full
                && z.cursor == ResizeCursor::EastWest
            &&& o == Octant::NorthWest ==> z.top == zero && z.left == zero && z.bottom
                == Extent::Auto && z.right == Extent::Auto && z.width == corner && z.height
                == corner && z.cursor == ResizeCursor::NorthWest
            &&& o == Octant::NorthEast ==> z.top == zero && z.right == zero && z.bottom
                == Extent::Auto && z.left == Extent::Auto && z.width == corner && z.height == corner
                && z.cursor == ResizeCursor::NorthEast
            &&& o == Octant::SouthWest ==> z.bottom == zero && z.left == zero && z.top
                == Extent::Auto && z.right == Extent::Auto && z.width == corner && z.height
                == corner && z.cursor == ResizeCursor::SouthWest
            &&& o == Octant::SouthEast ==> z.bottom == zero && z.right == zero && z.top
                == Extent::Auto && z.left == Extent::Auto && z.width == corner && z.height == corner
                && z.cursor == ResizeCursor::SouthEast
        }),
{
}

// ── Titles ──

/// Words joined by underscores.
pub open spec fn underscored_words(words: Seq<Seq<char>>) -> Seq<char>
    decreases words.len(),
{
    if words.len() == 0 {
        Seq::empty()
    } else if words.len() == 1 {
        words[0]
    } else {
        underscored_words(words.drop_last()) + seq!['_'] + words.last()
    }
}

/// The words of an id are what stands between its underscores: joined by them
/// they are the id again, and none has one in it.
pub proof fn words_make_the_id_again(id: Seq<char>)
    ensures
        id_words(id).len() > 0,
        underscored_words(id_words(id)) == id,
        forall|k: int|
            0 <= k < id_words(id).len() ==> !(#[trigger] id_words(id)[k]).contains('_'),
    decreases id.len(),
{
    let words = id_words(id);
    if id.len() == 0 {
        assert(underscored_words(words) =~= id);
    } else {
        let rest = id.drop_last();
        let fewer = id_words(rest);
        words_make_the_id_again(rest);
        if id.last() == '_' {
            assert(words.drop_last() =~= fewer);
            assert(underscored_words(words) =~= id);
            assert forall|k: int| 0 <= k < words.len() implies !(#[trigger] words[k]).contains(
                '_',
            ) by {
                if k < fewer.len() {
                    assert(words[k] == fewer[k]);
                }
            }
        } else {
            assert(words.drop_last() =~= fewer.drop_last());
            assert(words.last() == fewer.last().push(id.last()));
            assert(id =~= rest.push(id.last()));
            if words.len() > 1 {
                let head = underscored_words(fewer.drop_last()) + seq!['_'];
                assert(underscored_words(fewer) == head + fewer.last());
                assert(underscored_words(words) == head + words.last());
                assert(head + fewer.last().push(id.last()) =~= (head + fewer.last()).push(
                    id.last(),
                ));
            } else {
                assert(words[0] == words.last());
                assert(fewer[0] == fewer.last());
                assert(underscored_words(fewer) == fewer[0]);
                assert(underscored_words(words) == words[0]);
            }
            assert forall|k: int| 0 <= k < words.len() implies !(#[trigger] words[k]).contains(
                '_',
            ) by {
                if k < words.len() - 1 {
                    assert(words[k] == fewer[k]);
                } else {
                    let old = fewer.last();
                    assert(old == fewer[fewer.len() - 1]);
                    if words[k].contains('_') {
                        let m = choose|m: int| 0 <= m < words[k].len() && words[k][m] == '_';
                        if m < old.len() {
                            assert(old[m] == '_');
                        }
                    }
                }
            }
        }
    }
}

/// A title is the id's words, each with a capital, with a space between them.
pub proof fn titles_are_capitalized_words(id: Seq<char>, words: Seq<Seq<char>>, word: Seq<char>)
    ensures
        humanized(id) == spaced(id_words(id).map_values(|w: Seq<char>| capitalized(w))),
        word.len() > 0 ==> capitalized(word) == uppercased(word[0]) + word.subrange(
            1,
            word.len() as int,
        ),
        capitalized(Seq::empty()).len() == 0,
        spaced(seq![word]) == word,
        words.len() > 0 ==> spaced(words.push(word)) == spaced(words) + seq![' '] + word,
{
    if word.len() > 0 {
        assert(word.drop_first() =~= word.subrange(1, word.len() as int));
    }
    if words.len() > 0 {
        assert(words.push(word).drop_last() =~= words);
        assert(spaced(words).push(' ') + word =~= spaced(words) + seq![' '] + word);
    }
}

/// The value of a numeral.
pub open spec fn value_of(text: Seq<char>) -> int
    decreases text.len(),
{
    if text.len() == 0 {
        0
    } else {
        10 * value_of(text.drop_last()) + (text.last() as u32 - 48)
    }
}

/// A number is written in decimal: read again, its digits give it, and it does
/// not start with a zero unless it is one.
pub proof fn numbers_are_written_in_decimal(n: nat)
    ensures
        decimal(n).len() > 0,
        value_of(decimal(n)) == n,
        forall|k: int| 0 <= k < decimal(n).len() ==> 48 <= #[trigger] decimal(n)[k] as u32 <= 57,
        n > 0 ==> decimal(n)[0] != '0',
    decreases n,
{
    if n < 10 {
        let one = seq![digit(n)];
        assert(one.drop_last() =~= Seq::<char>::empty());
        assert(value_of(one.drop_last()) == 0);
        assert(value_of(one) == digit(n) as u32 - 48);
    } else {
        let rest = decimal(n / 10);
        numbers_are_written_in_decimal(n / 10);
        let all = rest.push(digit(n % 10));
        assert(all.drop_last() =~= rest);
        assert(n == 10 * (n / 10) + n % 10);
        assert forall|k: int| 0 <= k < all.len() implies 48 <= #[trigger] all[k] as u32 <= 57 by {
            if k < rest.len() {
                assert(all[k] == rest[k]);
            }
        }
        assert(all[0] == rest[0]);
    }
}

/// The ghost of a group tells how many more tabs ride along; that of a single
/// panel only its title.
pub proof fn ghosts_tell_how_many_more(id: Seq<char>, extra: nat)
    ensures
        ghost_label(id, 0) == humanized(id),
        extra > 0 ==> ghost_label(id, extra) == humanized(id) + seq![' ', '+'] + decimal(extra),
{
}

/// A window is titled by its first panel.
pub proof fn windows_go_by_their_first_panel(panels: Seq<Seq<char>>)
    ensures
        panels.len() > 0 ==> window_lead(panels) == panels[0],
        panels.len() == 0 ==> window_lead(panels) == "panels"@,
{
}

/// What is neither a letter nor a digit of ASCII becomes an underscore, and all
/// else stays, in place.
pub proof fn slugs_keep_letters_and_digits(text: Seq<char>, k: int)
    requires
        0 <= k < text.len(),
    ensures
        underscored(text).len() == text.len(),
        ({
            let n = text[k] as u32;
            if (48 <= n && n <= 57) || (65 <= n && n <= 90) || (97 <= n && n <= 122) {
                underscored(text)[k] == text[k]
            } else {
                underscored(text)[k] == '_'
            }
        }),
{
    letters_by_number(text[k]);
}

proof fn letters_by_number(c: char)
    ensures
        ascii_alphanumeric(c) == ({
            let n = c as u32;
            (48 <= n && n <= 57) || (65 <= n && n <= 90) || (97 <= n && n <= 122)
        }),
{
}

// ── The picker ──

/// Titles are ordered as in a dictionary, by the numbers of their characters: the
/// first that differ decide, and of two that do not differ so far the shorter
/// comes first.
pub proof fn titles_go_in_dictionary_order(a: Seq<char>, b: Seq<char>, k: int)
    requires
        0 <= k <= a.len(),
        k <= b.len(),
        forall|j: int| 0 <= j < k ==> #[trigger] a[j] == b[j],
    ensures
        k < a.len() && k < b.len() && a[k] != b[k] ==> before(a, b) == (a[k] < b[k]),
        k == a.len() ==> before(a, b) == (a.len() < b.len()),
        k == b.len() ==> !before(a, b),
    decreases k,
{
    if k > 0 {
        let x = a.drop_first();
        let y = b.drop_first();
        assert(a[0] == b[0]);
        assert forall|j: int| 0 <= j < k - 1 implies #[trigger] x[j] == y[j] by {
            assert(a[j + 1] == b[j + 1]);
        }
        titles_go_in_dictionary_order(x, y, k - 1);
    }
}

/// An entry is the panel's own; without an icon it has a circle, and without a
/// category it is general. Its slug is that of the category.
pub proof fn entries_are_the_panels_own(panel: PanelModel)
    ensures
        ({
            let entry = entry_of(panel);
            &&& entry.id == panel.id && entry.title == panel.title
            &&& panel.icon.len() > 0 ==> entry.icon == panel.icon
            &&& panel.icon.len() == 0 ==> entry.icon == "circle"@
            &&& panel.category.len() > 0 ==> entry.category == panel.category
            &&& panel.category.len() == 0 ==> entry.category == "General"@
            &&& entry.slug == underscored(lowercased(trimmed(entry.category)))
        }),
{
}

} // verus!
