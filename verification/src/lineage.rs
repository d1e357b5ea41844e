//! Entity hierarchies: who is whose parent, and walks up the chain.

use vstd::prelude::*;


verus! {

/// One entity's parent.
#[derive(Clone, Copy, Debug, PartialEq, Eq, Structural)]
pub struct Link {
    pub child: u64,
    pub parent: u64,
}

/// The parent that the links give an entity. The last link of an entity counts.
pub open spec fn parent_of(links: Seq<Link>, id: u64) -> Option<u64>
    decreases links.len(),
{
    if links.len() == 0 {
        None
    } else if links.last().child == id {
        Some(links.last().parent)
    } else {
        parent_of(links.drop_last(), id)
    }
}

/// The entity `n` steps up from `id`, where there is one.
pub open spec fn ancestor(links: Seq<Link>, id: u64, n: nat) -> Option<u64>
    decreases n,
{
    if n == 0 {
        Some(id)
    } else {
        match ancestor(links, id, (n - 1) as nat) {
            Some(a) => parent_of(links, a),
            None => None,
        }
    }
}

/// Whether some strict ancestor of `id` is marked.
pub open spec fn under_marked(links: Seq<Link>, id: u64, marks: Seq<u64>) -> bool {
    exists|n: nat|
        n > 0 && (#[trigger] ancestor(links, id, n) matches Some(a) && marks.contains(a))
}

/// Whether `id` or some ancestor of it is marked.
pub open spec fn at_or_under_marked(links: Seq<Link>, id: u64, marks: Seq<u64>) -> bool {
    marks.contains(id) || under_marked(links, id, marks)
}

/// The parent of an entity.
pub fn find_parent(links: &Vec<Link>, id: u64) -> (r: Option<u64>)
    ensures
        r == parent_of(links@, id),
{
    let mut i: usize = links.len();
    assert(links@.take(i as int) == links@);
    while i > 0
        invariant
            i <= links@.len(),
            parent_of(links@, id) == parent_of(links@.take(i as int), id),
        decreases i,
    {
        assert(links@.take(i as int).drop_last() == links@.take(i - 1));
        i -= 1;
        if links[i].child == id {
            return Some(links[i].parent);
        }
    }
    None
}

/// Whether a list holds an id.
pub fn holds_id(list: &Vec<u64>, id: u64) -> (r: bool)
    ensures
        r == list@.contains(id),
{
    let mut i: usize = 0;
    while i < list.len()
        invariant
            i <= list@.len(),
            forall|j: int| 0 <= j < i ==> list@[j] != id,
        decreases list@.len() - i,
    {
        if list[i] == id {
            return true;
        }
        i += 1;
    }
    false
}

/// An entity with a parent is the child of some link.
pub proof fn parent_has_link(links: Seq<Link>, id: u64)
    ensures
        parent_of(links, id) is Some ==> exists|i: int|
            0 <= i < links.len() && (#[trigger] links[i]).child == id,
    decreases links.len(),
{
    if links.len() > 0 && links.last().child != id {
        parent_has_link(links.drop_last(), id);
        if parent_of(links, id) is Some {
            let i = choose|i: int|
                0 <= i < links.drop_last().len() && (#[trigger] links.drop_last()[i]).child == id;
            assert(links[i].child == id);
        }
    }
}

/// Steps up add up.
pub proof fn ancestors_add(links: Seq<Link>, id: u64, m: nat, n: nat)
    ensures
        ancestor(links, id, m + n) == (match ancestor(links, id, m) {
            Some(a) => ancestor(links, a, n),
            None => None,
        }),
    decreases n,
{
    if n > 0 {
        ancestors_add(links, id, m, (n - 1) as nat);
        assert((m + n - 1) as nat == m + (n - 1) as nat);
    }
}

/// A walk that came back to where it was goes round for ever: whatever is above
/// is already on the round.
pub proof fn round_trip(links: Seq<Link>, id: u64, len: nat, n: nat)
    requires
        len > 0,
        ancestor(links, id, len) == Some(id),
    ensures
        exists|k: nat|
            0 < k <= len && #[trigger] ancestor(links, id, k) == ancestor(links, id, n) || n == 0,
    decreases n,
{
    if n > len {
        let m = (n - len) as nat;
        ancestors_add(links, id, len, m);
        assert(len + m == n);
        round_trip(links, id, len, m);
        assert(ancestor(links, id, n) == ancestor(links, id, m));
    } else if n > 0 {
        assert(0 < n <= len && ancestor(links, id, n) == ancestor(links, id, n));
    }
}

/// Distinct entities that all have parents are no more than the links.
pub proof fn distinct_children_fit(links: Seq<Link>, ids: Seq<u64>)
    requires
        ids.no_duplicates(),
        forall|i: int| 0 <= i < ids.len() ==> parent_of(links, #[trigger] ids[i]) is Some,
    ensures
        ids.len() <= links.len(),
{
    let children = links.map_values(|l: Link| l.child);
    ids.unique_seq_to_set();
    children.lemma_cardinality_of_set();
    assert forall|x: u64| ids.to_set().contains(x) implies children.to_set().contains(x) by {
        let i = choose|i: int| 0 <= i < ids.len() && ids[i] == x;
        parent_has_link(links, ids[i]);
        let k = choose|k: int| 0 <= k < links.len() && (#[trigger] links[k]).child == x;
        assert(children[k] == x);
    }
    vstd::set_lib::lemma_len_subset(ids.to_set(), children.to_set());
}

/// Whether some strict ancestor of `id` is marked. A chain that runs in a circle
/// is walked once.
pub fn has_marked_ancestor(links: &Vec<Link>, id: u64, marks: &Vec<u64>) -> (r: bool)
    ensures
        r == under_marked(links@, id, marks@),
{
    let mut seen: Vec<u64> = Vec::new();
    let mut cur: u64 = id;
    loop
        invariant
            ancestor(links@, id, seen@.len()) == Some(cur),
            forall|k: int| 0 <= k < seen@.len() ==> ancestor(links@, id, k as nat) == Some(
                #[trigger] seen@[k],
            ),
            forall|k: nat|
                0 < k <= seen@.len() ==> (#[trigger] ancestor(links@, id, k) matches Some(a)
                    && !marks@.contains(a)),
            forall|k: int| 0 <= k < seen@.len() ==> parent_of(links@, #[trigger] seen@[k]) is Some,
            seen@.no_duplicates(),
            seen@.len() <= links@.len(),
        decreases links@.len() - seen@.len(),
    {
        if holds_id(&seen, cur) {
            proof {
                let j = choose|j: int| 0 <= j < seen@.len() && seen@[j] == cur;
                let len = (seen@.len() - j) as nat;
                ancestors_add(links@, id, j as nat, len);
                assert(j as nat + len == seen@.len());
                assert(ancestor(links@, cur, len) == Some(cur));
                if under_marked(links@, id, marks@) {
                    let n = choose|n: nat|
                        n > 0 && (#[trigger] ancestor(links@, id, n) matches Some(a)
                            && marks@.contains(a));
                    assert(n > seen@.len());
                    let m = (n - j) as nat;
                    ancestors_add(links@, id, j as nat, m);
                    assert(j as nat + m == n);
                    round_trip(links@, cur, len, m);
                    let k = choose|k: nat|
                        0 < k <= len && #[trigger] ancestor(links@, cur, k) == ancestor(
                            links@,
                            cur,
                            m,
                        );
                    ancestors_add(links@, id, j as nat, k);
                    assert(ancestor(links@, id, j as nat + k) == ancestor(links@, id, n));
                    assert(j as nat + k <= seen@.len());
                }
            }
            return false;
        }
        match find_parent(links, cur) {
            None => {
                proof {
                    if under_marked(links@, id, marks@) {
                        let n = choose|n: nat|
                            n > 0 && (#[trigger] ancestor(links@, id, n) matches Some(a)
                                && marks@.contains(a));
                        let m = (n - seen@.len()) as nat;
                        ancestors_add(links@, id, seen@.len(), m);
                        assert(seen@.len() + m == n);
                        nothing_above(links@, cur, m);
                    }
                }
                return false;
            },
            Some(parent) => {
                let ghost before = seen@;
                seen.push(cur);
                proof {
                    let n = seen@.len();
                    assert(n - 1 == before.len());
                    assert(ancestor(links@, id, n) == Some(parent));
                    distinct_children_fit(links@, seen@);
                }
                if holds_id(marks, parent) {
                    assert(ancestor(links@, id, seen@.len()) == Some(parent));
                    return true;
                }
                cur = parent;
            },
        }
    }
}

/// Above an entity without a parent there is nothing.
pub proof fn nothing_above(links: Seq<Link>, id: u64, n: nat)
    requires
        parent_of(links, id) is None,
        n > 0,
    ensures
        ancestor(links, id, n) is None,
    decreases n,
{
    if n > 1 {
        nothing_above(links, id, (n - 1) as nat);
    } else {
        assert(ancestor(links, id, 0) == Some(id));
    }
}

/// Whether `id` or some ancestor of it is marked.
pub fn is_at_or_under_marked(links: &Vec<Link>, id: u64, marks: &Vec<u64>) -> (r: bool)
    ensures
        r == at_or_under_marked(links@, id, marks@),
{
    holds_id(marks, id) || has_marked_ancestor(links, id, marks)
}

/// The last link of an entity says its parent; other entities' links do not.
pub proof fn last_link_counts(links: Seq<Link>, link: Link, id: u64)
    ensures
        parent_of(Seq::empty(), id) is None,
        link.child == id ==> parent_of(links.push(link), id) == Some(link.parent),
        link.child != id ==> parent_of(links.push(link), id) == parent_of(links, id),
{
    assert(links.push(link).drop_last() =~= links);
}

/// A step up goes to the parent, and one is under a mark where its parent is
/// marked or is under one itself.
pub proof fn marks_reach_all_below(links: Seq<Link>, id: u64, marks: Seq<u64>)
    ensures
        ancestor(links, id, 0) == Some(id),
        ancestor(links, id, 1) == parent_of(links, id),
        parent_of(links, id) is None ==> !under_marked(links, id, marks),
        parent_of(links, id) matches Some(p) ==> (under_marked(links, id, marks)
            <==> marks.contains(p) || under_marked(links, p, marks)),
        at_or_under_marked(links, id, marks) <==> marks.contains(id) || under_marked(
            links,
            id,
            marks,
        ),
{
    assert(ancestor(links, id, 0) == Some(id));
    assert(ancestor(links, id, 1) == parent_of(links, id));
    match parent_of(links, id) {
        None => {
            assert forall|n: nat| n > 0 implies #[trigger] ancestor(links, id, n) is None by {
                ancestors_add(links, id, 1, (n - 1) as nat);
                assert(1 + (n - 1) as nat == n);
            }
        },
        Some(p) => {
            if under_marked(links, id, marks) {
                let n = choose|n: nat|
                    n > 0 && (#[trigger] ancestor(links, id, n) matches Some(a) && marks.contains(
                        a,
                    ));
                ancestors_add(links, id, 1, (n - 1) as nat);
                assert(1 + (n - 1) as nat == n);
                if n > 1 {
                    assert(ancestor(links, p, (n - 1) as nat) matches Some(a) && marks.contains(a));
                }
            }
            if marks.contains(p) {
                assert(ancestor(links, id, 1) matches Some(a) && marks.contains(a));
            }
            if under_marked(links, p, marks) {
                let n = choose|n: nat|
                    n > 0 && (#[trigger] ancestor(links, p, n) matches Some(a) && marks.contains(
                        a,
                    ));
                ancestors_add(links, id, 1, n);
                assert(ancestor(links, id, 1 + n) matches Some(a) && marks.contains(a));
            }
        },
    }
}

} // verus!
