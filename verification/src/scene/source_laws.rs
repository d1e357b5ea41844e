//! No reference of a scene text is missed, and none is made up.

use vstd::prelude::*;

use crate::scene::circle::{refs_models, SceneRefs};
use crate::scene::cycle::{chain, leads_to, reaches, refers, RefsOf};
use crate::scene::paths::{same_file, PathModel};
use crate::scene::surgery::{
    after_blanks, blank, find_from, found_is_first, next_char, occurs_at, sources_from,
};

verus! {

/// Whether a word can be read in a text at a place.
pub open spec fn reads(text: Seq<char>, word: Seq<char>, at: int) -> bool {
    0 <= at && at + word.len() <= text.len() && forall|k: int|
        0 <= k < word.len() ==> #[trigger] text[at + k] == word[k]
}

/// Whether an instance of a scene is named at a place.
pub open spec fn names_instance(text: Seq<char>, at: int) -> bool {
    reads(text, "\"renzora::core::SceneInstance\""@, at)
}

/// Whether a source is named at a place.
pub open spec fn names_source(text: Seq<char>, at: int) -> bool {
    reads(text, "source:"@, at)
}

/// Whether a source named at `key` is given between the quotes at `open` and
/// `close`: nothing but spaces and tabs stand before the opening quote, and the
/// closing one is the next, or the end of the text.
pub open spec fn gives_source(text: Seq<char>, key: int, open: int, close: int) -> bool {
    &&& names_source(text, key)
    &&& key + 7 <= open < close <= text.len()
    &&& text[open] == '"'
    &&& forall|k: int| key + 7 <= k < open ==> #[trigger] text[k] == ' ' || text[k] == '\t'
    &&& forall|k: int| open < k < close ==> #[trigger] text[k] != '"'
    &&& close < text.len() ==> text[close] == '"'
}

/// Whether `key` is the first source named from `at` on.
pub open spec fn first_source_from(text: Seq<char>, at: int, key: int) -> bool {
    at <= key && names_source(text, key) && forall|k: int|
        at <= k < key ==> !(#[trigger] names_source(text, k))
}

/// Whether the name at `at` is itself the value of a source.
pub open spec fn is_a_value(text: Seq<char>, at: int) -> bool {
    exists|key: int| #[trigger]
        names_source(text, key) && key + 7 <= at && forall|k: int|
            key + 7 <= k < at ==> #[trigger] text[k] == ' ' || text[k] == '\t'
}

proof fn reads_is_occurs(text: Seq<char>, word: Seq<char>, at: int)
    ensures
        reads(text, word, at) == occurs_at(text, word, at),
{
    if reads(text, word, at) {
        let part = text.subrange(at, at + word.len());
        assert forall|k: int| 0 <= k < word.len() implies part[k] == word[k] by {
            assert(part[k] == text[at + k]);
        }
        assert(part =~= word);
    }
    if occurs_at(text, word, at) {
        assert forall|k: int| 0 <= k < word.len() implies #[trigger] text[at + k] == word[k] by {
            assert(text.subrange(at, at + word.len())[k] == word[k]);
        }
    }
}

proof fn blanks_end(text: Seq<char>, from: int)
    requires
        0 <= from <= text.len(),
    ensures
        from <= after_blanks(text, from) <= text.len(),
        forall|k: int| from <= k < after_blanks(text, from) ==> blank(#[trigger] text[k]),
        after_blanks(text, from) < text.len() ==> !blank(text[after_blanks(text, from)]),
    decreases text.len() - from,
{
    if from < text.len() && blank(text[from]) {
        blanks_end(text, from + 1);
    }
}

proof fn quote_ends(text: Seq<char>, from: int)
    requires
        0 <= from <= text.len(),
    ensures
        from <= next_char(text, '"', from) <= text.len(),
        forall|k: int| from <= k < next_char(text, '"', from) ==> #[trigger] text[k] != '"',
        next_char(text, '"', from) < text.len() ==> text[next_char(text, '"', from)] == '"',
    decreases text.len() - from,
{
    if from < text.len() && text[from] != '"' {
        quote_ends(text, from + 1);
    }
}

/// Where the sources that a scan from `from` tells are given.
spec fn places_from(text: Seq<char>, from: int) -> Seq<(int, int, int)>
    decreases text.len() - from,
{
    if from < 0 || from > text.len() {
        Seq::empty()
    } else {
        match find_from(text, "\"renzora::core::SceneInstance\""@, from) {
            None => Seq::empty(),
            Some(marker) => match find_from(text, "source:"@, marker) {
                None => Seq::empty(),
                Some(key) => {
                    let after = key + 7;
                    let quote = after_blanks(text, after);
                    if from < after <= quote < text.len() && text[quote] == '"' {
                        let end = next_char(text, '"', quote + 1);
                        if quote < end <= text.len() {
                            seq![(key, quote, end)] + places_from(text, end)
                        } else {
                            Seq::empty()
                        }
                    } else if from < after <= text.len() {
                        places_from(text, after)
                    } else {
                        Seq::empty()
                    }
                },
            },
        }
    }
}

/// Whether `places` are, in order, where the sources of a text are given that
/// belong to an instance named before them and not before `from`.
spec fn in_order(text: Seq<char>, from: int, places: Seq<(int, int, int)>) -> bool {
    &&& forall|i: int|
        0 <= i < places.len() ==> {
            &&& gives_source(text, (#[trigger] places[i]).0, places[i].1, places[i].2)
            &&& exists|m: int| from <= m <= places[i].0 && #[trigger] names_instance(text, m)
        }
    &&& forall|i: int, j: int|
        0 <= i < j < places.len() ==> (#[trigger] places[i]).2 <= (#[trigger] places[j]).0
}

/// What was read at each place.
spec fn values_at(text: Seq<char>, places: Seq<(int, int, int)>) -> Seq<Seq<char>> {
    places.map_values(|p: (int, int, int)| text.subrange(p.1 + 1, p.2))
}

proof fn scan_is_sound(text: Seq<char>, from: int)
    requires
        0 <= from,
    ensures
        in_order(text, from, places_from(text, from)),
        values_at(text, places_from(text, from)) == sources_from(text, from),
    decreases text.len() - from,
{
    reveal_strlit("source:");
    let marker_text = "\"renzora::core::SceneInstance\""@;
    let places = places_from(text, from);
    found_is_first(text, marker_text, from);
    match find_from(text, marker_text, from) {
        None => {
            assert(values_at(text, places) =~= sources_from(text, from));
        },
        Some(marker) => {
            reads_is_occurs(text, marker_text, marker);
            found_is_first(text, "source:"@, marker);
            match find_from(text, "source:"@, marker) {
                None => {
                    assert(values_at(text, places) =~= sources_from(text, from));
                },
                Some(key) => {
                    reads_is_occurs(text, "source:"@, key);
                    let after = key + 7;
                    blanks_end(text, after);
                    let quote = after_blanks(text, after);
                    if quote < text.len() && text[quote] == '"' {
                        quote_ends(text, quote + 1);
                        let end = next_char(text, '"', quote + 1);
                        scan_is_sound(text, end);
                        let rest = places_from(text, end);
                        assert(places == seq![(key, quote, end)] + rest);
                        assert(gives_source(text, key, quote, end));
                        assert(names_instance(text, marker));
                        assert forall|i: int| 0 <= i < places.len() implies {
                            &&& gives_source(
                                text,
                                (#[trigger] places[i]).0,
                                places[i].1,
                                places[i].2,
                            )
                            &&& exists|m: int|
                                from <= m <= places[i].0 && #[trigger] names_instance(text, m)
                        } by {
                            if i > 0 {
                                assert(places[i] == rest[i - 1]);
                                let m = choose|m: int|
                                    end <= m <= rest[i - 1].0 && #[trigger] names_instance(text, m);
                                assert(from <= m <= places[i].0 && names_instance(text, m));
                            }
                        }
                        assert forall|i: int, j: int| 0 <= i < j < places.len() implies (
                        #[trigger] places[i]).2 <= (#[trigger] places[j]).0 by {
                            assert(places[j] == rest[j - 1]);
                            if i > 0 {
                                assert(places[i] == rest[i - 1]);
                            }
                        }
                        assert(values_at(text, places) =~= seq![text.subrange(quote + 1, end)]
                            + values_at(text, rest));
                    } else {
                        scan_is_sound(text, after);
                        assert forall|i: int| 0 <= i < places.len() implies {
                            &&& gives_source(
                                text,
                                (#[trigger] places[i]).0,
                                places[i].1,
                                places[i].2,
                            )
                            &&& exists|m: int|
                                from <= m <= places[i].0 && #[trigger] names_instance(text, m)
                        } by {
                            let m = choose|m: int|
                                after <= m <= places[i].0 && #[trigger] names_instance(text, m);
                            assert(from <= m <= places[i].0 && names_instance(text, m));
                        }
                    }
                },
            }
        },
    }
}

/// A quote opens the name of an instance, and none is in that of a source.
proof fn names_do_not_overlap(text: Seq<char>, at: int, key: int)
    requires
        names_instance(text, at),
        names_source(text, key),
    ensures
        text[at] == '"',
        !(key <= at < key + 7),
{
    reveal_strlit("source:");
    reveal_strlit("\"renzora::core::SceneInstance\"");
    assert(text[at + 0] == '"');
    if key <= at < key + 7 {
        assert(text[key + (at - key)] == "source:"@[at - key]);
    }
}

proof fn scan_misses_none(text: Seq<char>, from: int, at: int, key: int, open: int, close: int)
    requires
        0 <= from <= at,
        names_instance(text, at),
        !is_a_value(text, at),
        first_source_from(text, at, key),
        gives_source(text, key, open, close),
    ensures
        places_from(text, from).contains((key, open, close)),
    decreases text.len() - from,
{
    reveal_strlit("source:");
    let marker_text = "\"renzora::core::SceneInstance\""@;
    let places = places_from(text, from);
    found_is_first(text, marker_text, from);
    reads_is_occurs(text, marker_text, at);
    let marker = find_from(text, marker_text, from)->0;
    assert(from <= marker <= at);
    reads_is_occurs(text, marker_text, marker);
    found_is_first(text, "source:"@, marker);
    reads_is_occurs(text, "source:"@, key);
    let found = find_from(text, "source:"@, marker)->0;
    assert(marker <= found <= key);
    reads_is_occurs(text, "source:"@, found);
    let after = found + 7;
    blanks_end(text, after);
    let quote = after_blanks(text, after);
    names_do_not_overlap(text, at, found);
    if found >= at {
        assert(names_source(text, found));
        assert(found == key);
        if quote < open {
            assert(text[quote] == ' ' || text[quote] == '\t');
        } else if open < quote {
            assert(blank(text[open]));
        }
        quote_ends(text, quote + 1);
        let end = next_char(text, '"', quote + 1);
        if end < close {
            assert(text[end] != '"');
        } else if close < end {
            assert(text[close] != '"');
        }
        assert(places[0] == (key, open, close));
    } else {
        assert(after <= at);
        if quote < text.len() && text[quote] == '"' {
            quote_ends(text, quote + 1);
            let end = next_char(text, '"', quote + 1);
            if at < quote {
                assert(blank(text[at]));
            }
            if quote == at {
                assert forall|k: int| found + 7 <= k < at implies #[trigger] text[k] == ' '
                    || text[k] == '\t' by {
                    assert(blank(text[k]));
                }
                assert(names_source(text, found));
                assert(is_a_value(text, at));
            }
            if quote < at < end {
                assert(text[at] != '"');
            }
            assert(end <= at);
            scan_misses_none(text, end, at, key, open, close);
            let rest = places_from(text, end);
            let i = choose|i: int| 0 <= i < rest.len() && rest[i] == (key, open, close);
            assert(places[i + 1] == (key, open, close));
        } else {
            scan_misses_none(text, after, at, key, open, close);
        }
    }
}

/// Whether `places` are where the sources `told` of a text are given.
pub open spec fn given_at(
    text: Seq<char>,
    told: Seq<Seq<char>>,
    places: Seq<(int, int, int)>,
) -> bool {
    &&& places.len() == told.len()
    &&& forall|i: int|
        0 <= i < places.len() ==> {
            &&& gives_source(text, (#[trigger] places[i]).0, places[i].1, places[i].2)
            &&& told[i] == text.subrange(places[i].1 + 1, places[i].2)
            &&& exists|m: int| 0 <= m <= places[i].0 && #[trigger] names_instance(text, m)
        }
    &&& forall|i: int, j: int|
        0 <= i < j < places.len() ==> (#[trigger] places[i]).2 <= (#[trigger] places[j]).0
}

/// Whether every instance's source is among `places`: where an instance is named,
/// and the next `source:` gives a value, that is one of them. An instance's name
/// that is itself given as a source does not count.
pub open spec fn misses_none(text: Seq<char>, places: Seq<(int, int, int)>) -> bool {
    forall|at: int, k: int, open: int, close: int|
        #![trigger names_instance(text, at), gives_source(text, k, open, close)]
        0 <= at && names_instance(text, at) && !is_a_value(text, at) && first_source_from(
            text,
            at,
            k,
        ) && gives_source(text, k, open, close) ==> places.contains((k, open, close))
}

/// The sources that are read from a scene's text are the ones that it gives: they
/// stand in it in the order told, each between its quotes behind `source:`, and
/// each belongs to an instance named before it; and none is missed.
pub proof fn every_source_is_told(text: Seq<char>)
    ensures
        exists|places: Seq<(int, int, int)>| #[trigger]
            given_at(text, sources_from(text, 0), places) && misses_none(text, places),
{
    let places = places_from(text, 0);
    scan_is_sound(text, 0);
    let told = values_at(text, places);
    assert forall|i: int| 0 <= i < places.len() implies {
        &&& gives_source(text, (#[trigger] places[i]).0, places[i].1, places[i].2)
        &&& sources_from(text, 0)[i] == text.subrange(places[i].1 + 1, places[i].2)
        &&& exists|m: int| 0 <= m <= places[i].0 && #[trigger] names_instance(text, m)
    } by {
        assert(told[i] == text.subrange(places[i].1 + 1, places[i].2));
    }
    assert forall|at: int, k: int, open: int, close: int|
        #![trigger names_instance(text, at), gives_source(text, k, open, close)]
        0 <= at && names_instance(text, at) && !is_a_value(text, at) && first_source_from(
            text,
            at,
            k,
        ) && gives_source(text, k, open, close) implies places.contains((k, open, close)) by {
        scan_misses_none(text, 0, at, k, open, close);
    }
    assert(given_at(text, sources_from(text, 0), places));
}

/// No source is missed: the value that an instance gives is among those told.
pub proof fn no_source_is_missed(text: Seq<char>, at: int, key: int, open: int, close: int)
    requires
        0 <= at,
        names_instance(text, at),
        !is_a_value(text, at),
        first_source_from(text, at, key),
        gives_source(text, key, open, close),
    ensures
        sources_from(text, 0).contains(text.subrange(open + 1, close)),
{
    scan_is_sound(text, 0);
    scan_misses_none(text, 0, at, key, open, close);
    let places = places_from(text, 0);
    let i = choose|i: int| 0 <= i < places.len() && places[i] == (key, open, close);
    assert(values_at(text, places)[i] == text.subrange(open + 1, close));
}

/// A text without instances has no sources.
pub proof fn no_instance_gives_none(text: Seq<char>)
    requires
        forall|at: int| 0 <= at ==> !(#[trigger] names_instance(text, at)),
    ensures
        sources_from(text, 0).len() == 0,
{
    scan_is_sound(text, 0);
    let places = places_from(text, 0);
    if places.len() > 0 {
        assert(gives_source(text, places[0].0, places[0].1, places[0].2));
        let m = choose|m: int| 0 <= m <= places[0].0 && #[trigger] names_instance(text, m);
        assert(!names_instance(text, m));
    }
    assert(values_at(text, places).len() == places.len());
}

// ── Files and circles ──

/// Two paths name one file by where they resolve to, where both do; else by how
/// they are spelled.
pub proof fn files_go_by_where_they_resolve_to(a: PathModel, b: PathModel)
    ensures
        a.canonical is Some && b.canonical is Some ==> same_file(a, b) == (a.canonical->0
            == b.canonical->0),
        a.canonical is None || b.canonical is None ==> same_file(a, b) == (a.parts == b.parts),
        a.canonical is Some ==> a.key() == a.canonical->0,
        a.canonical is None ==> a.key() == a.parts,
{
}

/// A scene leads to the host exactly where it is the host, or one of the scenes
/// that it refers to leads there.
pub proof fn circles_close_step_by_step(list: Seq<RefsOf>, source: PathModel, host: PathModel)
    ensures
        leads_to(list, source, host) <==> same_file(host, source) || exists|next: PathModel|
            refers(list, source, next) && #[trigger] leads_to(list, next, host),
{
    if same_file(host, source) {
        assert(chain(list, source, seq![source]));
        assert(seq![source].last() == source);
        assert(reaches(list, source, source));
    }
    if exists|next: PathModel| refers(list, source, next) && #[trigger] leads_to(list, next, host) {
        let next = choose|next: PathModel|
            refers(list, source, next) && #[trigger] leads_to(list, next, host);
        crate::scene::circle::a_way_can_be_entered_earlier(list, source, next, host);
    }
    if leads_to(list, source, host) && !same_file(host, source) {
        let end = choose|end: PathModel| #[trigger]
            reaches(list, source, end) && same_file(host, end);
        let path = choose|path: Seq<PathModel>| #[trigger]
            chain(list, source, path) && path.last() == end;
        let next = path[1];
        let rest = path.drop_first();
        assert(refers(list, path[0], path[1]));
        assert forall|k: int| 0 < k < rest.len() implies refers(
            list,
            rest[k - 1],
            #[trigger] rest[k],
        ) by {
            assert(refers(list, path[k], path[k + 1]));
        }
        assert(chain(list, next, rest));
        assert(rest.last() == end);
        assert(reaches(list, next, end));
        assert(leads_to(list, next, host));
    }
}

/// A scene refers to another exactly where some entry for its file lists it.
pub proof fn references_are_what_is_listed(
    list: Seq<SceneRefs>,
    a: PathModel,
    b: PathModel,
)
    ensures
        refers(refs_models(list), a, b) <==> exists|i: int, k: int|
            0 <= i < list.len() && 0 <= k < (#[trigger] list[i]).to@.len() && list[i].from@.key()
                == a.key() && (#[trigger] list[i].to@[k])@ == b,
{
    let models = refs_models(list);
    if refers(models, a, b) {
        let i = choose|i: int|
            0 <= i < models.len() && (#[trigger] models[i]).from.key() == a.key()
                && models[i].to.contains(b);
        let k = choose|k: int| 0 <= k < models[i].to.len() && models[i].to[k] == b;
        assert(list[i].to@[k]@ == b);
    }
    if exists|i: int, k: int|
        0 <= i < list.len() && 0 <= k < (#[trigger] list[i]).to@.len() && list[i].from@.key()
            == a.key() && (#[trigger] list[i].to@[k])@ == b {
        let (i, k) = choose|i: int, k: int|
            0 <= i < list.len() && 0 <= k < (#[trigger] list[i]).to@.len() && list[i].from@.key()
                == a.key() && (#[trigger] list[i].to@[k])@ == b;
        assert(models[i].to[k] == b);
        assert(models[i].to.contains(b));
    }
}

} // verus!
