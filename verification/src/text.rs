//! Text and list helpers shared by the modules.

use vstd::prelude::*;
use vstd::std_specs::iter::IteratorSpec;

verus! {

/// What each string of a list holds.
pub open spec fn texts(list: Seq<String>) -> Seq<Seq<char>> {
    list.map_values(|s: String| s@)
}

/// What each string slice of a list holds.
pub open spec fn str_texts(list: Seq<&str>) -> Seq<Seq<char>> {
    list.map_values(|s: &str| s@)
}

/// Pushing a string pushes what it holds.
pub broadcast proof fn texts_push(list: Seq<String>, item: String)
    ensures
        #[trigger] texts(list.push(item)) == texts(list).push(item@),
{
    assert(texts(list.push(item)) =~= texts(list).push(item@));
}

/// The index of the first `item` in `list`, or the length of `list`.
pub open spec fn position<T>(list: Seq<T>, item: T) -> int
    decreases list.len(),
{
    if list.len() == 0 {
        0
    } else if list[0] == item {
        0
    } else {
        1 + position(list.drop_first(), item)
    }
}

/// What is known of the first index of an item.
pub proof fn position_is_first<T>(list: Seq<T>, item: T)
    ensures
        0 <= position(list, item) <= list.len(),
        position(list, item) < list.len() <==> list.contains(item),
        position(list, item) < list.len() ==> list[position(list, item)] == item,
        forall|j: int| 0 <= j < position(list, item) ==> list[j] != item,
    decreases list.len(),
{
    if list.len() > 0 && list[0] != item {
        let rest = list.drop_first();
        position_is_first(rest, item);
        assert forall|j: int| 0 <= j < position(list, item) implies list[j] != item by {
            if j > 0 {
                assert(rest[j - 1] == list[j]);
            }
        }
        if list.contains(item) {
            let k = choose|k: int| 0 <= k < list.len() && list[k] == item;
            assert(rest[k - 1] == item);
        }
    }
}

/// An index before which the item does not occur is its first index.
pub proof fn position_found<T>(list: Seq<T>, item: T, at: int)
    requires
        0 <= at <= list.len(),
        forall|j: int| 0 <= j < at ==> list[j] != item,
        at < list.len() ==> list[at] == item,
    ensures
        position(list, item) == at,
{
    position_is_first(list, item);
    if position(list, item) < at {
        assert(list[position(list, item)] != item);
    } else if at < position(list, item) {
        assert(list[at] != item);
    }
}

/// The index of the first entry that passes a test, or the list's length.
/// `flags` says of each entry whether it passes.
pub(crate) fn find_first<T, F: Fn(&T) -> bool>(
    list: &Vec<T>,
    test: F,
    Ghost(flags): Ghost<Seq<bool>>,
) -> (r: usize)
    requires
        flags.len() == list@.len(),
        forall|i: int| 0 <= i < list@.len() ==> call_requires(test, (&#[trigger] list@[i],)),
        forall|i: int, b: bool|
            0 <= i < list@.len() && #[trigger] call_ensures(test, (&list@[i],), b) ==> b
                == flags[i],
    ensures
        r == position(flags, true),
        r <= list@.len(),
        r < list@.len() ==> flags[r as int],
        forall|j: int| 0 <= j < r ==> !flags[j],
{
    let mut i: usize = 0;
    while i < list.len()
        invariant
            i <= list@.len(),
            flags.len() == list@.len(),
            forall|j: int| 0 <= j < list@.len() ==> call_requires(test, (&#[trigger] list@[j],)),
            forall|j: int, b: bool|
                0 <= j < list@.len() && #[trigger] call_ensures(test, (&list@[j],), b) ==> b
                    == flags[j],
            forall|j: int| 0 <= j < i ==> !flags[j],
        decreases list@.len() - i,
    {
        let pass: bool = test(&list[i]);
        assert(pass == flags[i as int]);
        if pass {
            proof {
                position_found(flags, true, i as int);
            }
            return i;
        }
        i += 1;
    }
    proof {
        position_found(flags, true, i as int);
    }
    i
}

/// Whether two texts hold the same characters.
pub fn same_text(a: &str, b: &str) -> (r: bool)
    ensures
        r == (a@ == b@),
{
    let mut left = a.chars();
    let mut right = b.chars();
    let ghost mut done: int = 0;
    loop
        invariant
            0 <= done <= a@.len(),
            done <= b@.len(),
            left.remaining() == a@.skip(done),
            right.remaining() == b@.skip(done),
            a@.take(done) == b@.take(done),
            left.obeys_prophetic_iter_laws(),
            right.obeys_prophetic_iter_laws(),
        decreases a@.len() - done,
    {
        let next_left = left.next();
        let next_right = right.next();
        match (next_left, next_right) {
            (None, None) => {
                assert(a@ == a@.take(done));
                assert(b@ == b@.take(done));
                return true;
            }
            (Some(x), Some(y)) => {
                if x != y {
                    assert(a@[done] != b@[done]);
                    return false;
                }
                proof {
                    assert(a@.take(done + 1) == a@.take(done).push(x));
                    assert(b@.take(done + 1) == b@.take(done).push(y));
                    assert(a@.skip(done).drop_first() == a@.skip(done + 1));
                    assert(b@.skip(done).drop_first() == b@.skip(done + 1));
                    done = done + 1;
                }
            }
            _ => {
                assert(a@.len() != b@.len());
                return false;
            }
        }
    }
}

/// Whether a list of strings holds `item`.
pub fn list_contains(list: &Vec<String>, item: &str) -> (r: bool)
    ensures
        r == texts(list@).contains(item@),
{
    list_position(list, item) < list.len()
}

/// The index of the first `item` in a list of strings, or the list's length.
pub fn list_position(list: &Vec<String>, item: &str) -> (r: usize)
    ensures
        r == position(texts(list@), item@),
        r <= list@.len(),
        (r < list@.len()) == texts(list@).contains(item@),
        r < list@.len() ==> list@[r as int]@ == item@,
{
    let mut i: usize = 0;
    while i < list.len()
        invariant
            i <= list@.len(),
            forall|j: int| 0 <= j < i ==> texts(list@)[j] != item@,
        decreases list@.len() - i,
    {
        if same_text(&list[i], item) {
            proof {
                position_found(texts(list@), item@, i as int);
                position_is_first(texts(list@), item@);
            }
            return i;
        }
        i += 1;
    }
    proof {
        position_found(texts(list@), item@, i as int);
        position_is_first(texts(list@), item@);
    }
    i
}

/// Whether a list of string slices holds `item`.
pub fn names_contain(list: &[&str], item: &str) -> (r: bool)
    ensures
        r == str_texts(list@).contains(item@),
{
    let mut i: usize = 0;
    while i < list.len()
        invariant
            i <= list@.len(),
            forall|j: int| 0 <= j < i ==> str_texts(list@)[j] != item@,
        decreases list@.len() - i,
    {
        assert(str_texts(list@)[i as int] == list@[i as int]@);
        if same_text(list[i], item) {
            return true;
        }
        i += 1;
    }
    false
}

/// A copy of a list of strings.
pub fn copy_texts(list: &Vec<String>) -> (r: Vec<String>)
    ensures
        texts(r@) == texts(list@),
        r@.len() == list@.len(),
{
    let mut copy: Vec<String> = Vec::new();
    let mut i: usize = 0;
    while i < list.len()
        invariant
            i <= list@.len(),
            copy@.len() == i,
            texts(copy@) == texts(list@).take(i as int),
        decreases list@.len() - i,
    {
        copy.push(list[i].clone());
        proof {
            texts_push(copy@.drop_last(), copy@.last());
            assert(copy@.drop_last().push(copy@.last()) == copy@);
            assert(texts(list@).take(i + 1) == texts(list@).take(i as int).push(list@[i as int]@));
        }
        i += 1;
    }
    assert(texts(list@).take(i as int) == texts(list@));
    copy
}

} // verus!
