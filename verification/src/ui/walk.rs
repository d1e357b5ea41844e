//! The breadth-first walk over an interface tree.

use vstd::prelude::*;

use crate::lineage::Link;

verus! {

/// The children of an entity, in the order of their links.
pub open spec fn children_of(links: Seq<Link>, id: u64) -> Seq<u64>
    decreases links.len(),
{
    if links.len() == 0 {
        Seq::empty()
    } else if links.last().parent == id {
        children_of(links.drop_last(), id).push(links.last().child)
    } else {
        children_of(links.drop_last(), id)
    }
}

/// The first `steps` entities of the walk that goes on from `queue`: the front
/// one, whose children join at the back, then the rest.
pub open spec fn walked(links: Seq<Link>, queue: Seq<u64>, steps: nat) -> Seq<u64>
    decreases steps,
{
    if steps == 0 || queue.len() == 0 {
        Seq::empty()
    } else {
        seq![queue[0]] + walked(
            links,
            queue.skip(1) + children_of(links, queue[0]),
            (steps - 1) as nat,
        )
    }
}

/// The walk from `root`: parents before their children, level by level. A tree
/// has at most one entity more than links, so the walk ends there even if the
/// links are no tree.
pub open spec fn level_order(links: Seq<Link>, root: u64) -> Seq<u64> {
    walked(links, seq![root], links.len() + 1)
}

fn push_children(links: &Vec<Link>, id: u64, out: &mut Vec<u64>)
    ensures
        final(out)@ == old(out)@ + children_of(links@, id),
{
    let mut i: usize = 0;
    assert(out@ + children_of(links@.take(0), id) =~= out@);
    while i < links.len()
        invariant
            i <= links@.len(),
            out@ == old(out)@ + children_of(links@.take(i as int), id),
        decreases links@.len() - i,
    {
        assert(links@.take(i + 1).drop_last() == links@.take(i as int));
        assert(links@.take(i + 1).last() == links@[i as int]);
        if links[i].parent == id {
            out.push(links[i].child);
            assert(out@ =~= old(out)@ + children_of(links@.take(i + 1), id));
        }
        i += 1;
    }
    assert(links@.take(i as int) == links@);
}

/// The walk from `root`.
pub fn visit_order(links: &Vec<Link>, root: u64) -> (r: Vec<u64>)
    ensures
        r@ == level_order(links@, root),
{
    let total: usize = links.len();
    let mut queue: Vec<u64> = Vec::new();
    queue.push(root);
    let mut next: usize = 0;
    let mut done: bool = false;
    assert(queue@.skip(0) =~= seq![root]);
    assert(queue@.take(0) =~= Seq::<u64>::empty());
    assert(level_order(links@, root) =~= queue@.take(0) + walked(
        links@,
        queue@.skip(0),
        (total + 1) as nat,
    ));
    while next < queue.len() && !done
        invariant
            total == links@.len(),
            next <= queue@.len(),
            next <= total || done,
            done ==> next == total + 1,
            level_order(links@, root) == queue@.take(next as int) + walked(
                links@,
                queue@.skip(next as int),
                (total + 1 - next) as nat,
            ),
        decreases total + 1 - next, if done { 0int } else { 1 },
    {
        let ghost before = queue@;
        let front: u64 = queue[next];
        push_children(links, front, &mut queue);
        proof {
            let rest = before.skip(next as int);
            assert(rest[0] == front);
            assert(rest.skip(1) + children_of(links@, front) =~= queue@.skip(next + 1));
            assert(queue@.take(next + 1) =~= before.take(next as int) + seq![front]);
            assert(level_order(links@, root) =~= queue@.take(next + 1) + walked(
                links@,
                queue@.skip(next + 1),
                (total + 1 - (next + 1)) as nat,
            ));
        }
        if next == total {
            done = true;
        }
        next += 1;
    }
    proof {
        assert(walked(links@, queue@.skip(next as int), (total + 1 - next) as nat)
            =~= Seq::<u64>::empty());
        assert(level_order(links@, root) =~= queue@.take(next as int));
    }
    queue.truncate(next);
    queue
}

// ── What the walk reaches ──

/// Whether `id` is `root` or a descendant of it, `depth` levels below.
pub open spec fn descends(links: Seq<Link>, root: u64, id: u64, depth: nat) -> bool
    decreases depth,
{
    if depth == 0 {
        id == root
    } else {
        exists|i: int|
            0 <= i < links.len() && (#[trigger] links[i]).child == id && descends(
                links,
                root,
                links[i].parent,
                (depth - 1) as nat,
            )
    }
}

/// Every entity has one parent, and the root has none.
pub open spec fn is_tree(links: Seq<Link>, root: u64) -> bool {
    &&& forall|i: int, j: int|
        0 <= i < j < links.len() ==> (#[trigger] links[i]).child != (#[trigger] links[j]).child
    &&& forall|i: int| 0 <= i < links.len() ==> (#[trigger] links[i]).child != root
}

/// The children of an entity are the children of its links.
pub proof fn children_have_links(links: Seq<Link>, id: u64, child: u64)
    ensures
        children_of(links, id).contains(child) <==> exists|i: int|
            0 <= i < links.len() && (#[trigger] links[i]) == (Link { child, parent: id }),
    decreases links.len(),
{
    if links.len() > 0 {
        let rest = links.drop_last();
        children_have_links(rest, id, child);
        let kids = children_of(rest, id);
        let link = Link { child, parent: id };
        if children_of(links, id).contains(child) {
            if links.last() == link {
                assert(links[links.len() - 1] == link);
            } else {
                let k = choose|k: int|
                    0 <= k < children_of(links, id).len() && children_of(links, id)[k] == child;
                assert(kids[k] == child);
                let i = choose|i: int| 0 <= i < rest.len() && (#[trigger] rest[i]) == link;
                assert(links[i] == link);
            }
        }
        if exists|i: int| 0 <= i < links.len() && (#[trigger] links[i]) == link {
            let i = choose|i: int| 0 <= i < links.len() && (#[trigger] links[i]) == link;
            if i == links.len() - 1 {
                assert(children_of(links, id)[kids.len() as int] == child);
            } else {
                assert(rest[i] == link);
                let k = choose|k: int| 0 <= k < kids.len() && kids[k] == child;
                assert(children_of(links, id)[k] == child);
            }
        }
    }
}

proof fn children_are_distinct(links: Seq<Link>, id: u64)
    requires
        forall|i: int, j: int|
            0 <= i < j < links.len() ==> (#[trigger] links[i]).child != (#[trigger] links[j]).child,
    ensures
        children_of(links, id).no_duplicates(),
    decreases links.len(),
{
    if links.len() > 0 {
        let rest = links.drop_last();
        assert forall|i: int, j: int| 0 <= i < j < rest.len() implies (#[trigger] rest[i]).child
            != (#[trigger] rest[j]).child by {
            assert(rest[i] == links[i] && rest[j] == links[j]);
        }
        children_are_distinct(rest, id);
        if links.last().parent == id {
            let child = links.last().child;
            children_have_links(rest, id, child);
            if children_of(rest, id).contains(child) {
                let i = choose|i: int|
                    0 <= i < rest.len() && (#[trigger] rest[i]) == (Link { child, parent: id });
                assert(links[i].child == links[links.len() - 1].child);
            }
        }
    }
}

/// What holds of a walk under way: what it has seen and what it has queued.
spec fn under_way(links: Seq<Link>, root: u64, seen: Seq<u64>, queue: Seq<u64>) -> bool {
    let all = seen + queue;
    &&& all.no_duplicates()
    &&& all.contains(root)
    &&& forall|e: u64| #[trigger] all.contains(e) ==> exists|d: nat| descends(links, root, e, d)
    &&& forall|e: u64| #[trigger]
        all.contains(e) && e != root ==> exists|i: int|
            0 <= i < links.len() && (#[trigger] links[i]).child == e && seen.contains(
                links[i].parent,
            )
    &&& forall|i: int|
        0 <= i < links.len() && seen.contains((#[trigger] links[i]).parent) ==> all.contains(
            links[i].child,
        )
}

proof fn step_goes_on(links: Seq<Link>, root: u64, seen: Seq<u64>, queue: Seq<u64>)
    requires
        is_tree(links, root),
        under_way(links, root, seen, queue),
        queue.len() > 0,
    ensures
        under_way(
            links,
            root,
            seen.push(queue[0]),
            queue.skip(1) + children_of(links, queue[0]),
        ),
{
    let front = queue[0];
    let kids = children_of(links, front);
    let all = seen + queue;
    let seen2 = seen.push(front);
    let all2 = seen2 + (queue.skip(1) + kids);
    assert(all2 =~= all + kids);
    children_are_distinct(links, front);
    assert(all[seen.len() as int] == front);
    assert(all.contains(front));
    assert(!seen.contains(front)) by {
        if seen.contains(front) {
            let k = choose|k: int| 0 <= k < seen.len() && seen[k] == front;
            assert(all[k] == front);
        }
    }
    assert forall|k: int| 0 <= k < kids.len() implies !all.contains(#[trigger] kids[k]) by {
        let c = kids[k];
        assert(kids.contains(c));
        children_have_links(links, front, c);
        let i = choose|i: int|
            0 <= i < links.len() && (#[trigger] links[i]) == (Link { child: c, parent: front });
        assert(links[i].child == c);
        if all.contains(c) {
            let j = choose|j: int|
                0 <= j < links.len() && (#[trigger] links[j]).child == c && seen.contains(
                    links[j].parent,
                );
            assert(links[i].child == links[j].child);
            assert(i == j);
        }
    }
    assert(all2.no_duplicates()) by {
        assert forall|a: int, b: int| 0 <= a < b < all2.len() implies all2[a] != all2[b] by {
            if b < all.len() {
                assert(all2[a] == all[a] && all2[b] == all[b]);
            } else if a < all.len() {
                assert(all2[a] == all[a]);
                assert(all.contains(all[a]));
                assert(all2[b] == kids[b - all.len()]);
            } else {
                assert(all2[a] == kids[a - all.len()]);
                assert(all2[b] == kids[b - all.len()]);
            }
        }
    }
    assert forall|e: u64| all2.contains(e) <==> all.contains(e) || kids.contains(e) by {
        if all2.contains(e) {
            let k = choose|k: int| 0 <= k < all2.len() && all2[k] == e;
            if k < all.len() {
                assert(all[k] == e);
            } else {
                assert(kids[k - all.len()] == e);
            }
        }
        if all.contains(e) {
            let k = choose|k: int| 0 <= k < all.len() && all[k] == e;
            assert(all2[k] == e);
        }
        if kids.contains(e) {
            let k = choose|k: int| 0 <= k < kids.len() && kids[k] == e;
            assert(all2[all.len() + k] == e);
        }
    }
    assert forall|e: u64| seen2.contains(e) <==> seen.contains(e) || e == front by {
        if seen.contains(e) {
            let k = choose|k: int| 0 <= k < seen.len() && seen[k] == e;
            assert(seen2[k] == e);
        }
        assert(seen2[seen.len() as int] == front);
    }
    assert forall|e: u64| #[trigger] all2.contains(e) implies exists|d: nat|
        descends(links, root, e, d) by {
        if !all.contains(e) {
            children_have_links(links, front, e);
            let i = choose|i: int|
                0 <= i < links.len() && (#[trigger] links[i]) == (Link { child: e, parent: front });
            let d = choose|d: nat| descends(links, root, front, d);
            assert(links[i].child == e && descends(links, root, links[i].parent, d));
            assert(descends(links, root, e, d + 1));
        }
    }
    assert forall|e: u64| #[trigger] all2.contains(e) && e != root implies exists|i: int|
        0 <= i < links.len() && (#[trigger] links[i]).child == e && seen2.contains(
            links[i].parent,
        ) by {
        if all.contains(e) {
            let i = choose|i: int|
                0 <= i < links.len() && (#[trigger] links[i]).child == e && seen.contains(
                    links[i].parent,
                );
            assert(seen2.contains(links[i].parent));
        } else {
            children_have_links(links, front, e);
            let i = choose|i: int|
                0 <= i < links.len() && (#[trigger] links[i]) == (Link { child: e, parent: front });
            assert(links[i].child == e && seen2.contains(links[i].parent));
        }
    }
    assert forall|i: int|
        0 <= i < links.len() && seen2.contains((#[trigger] links[i]).parent) implies all2.contains(
        links[i].child,
    ) by {
        if !seen.contains(links[i].parent) {
            assert(links[i] == (Link { child: links[i].child, parent: front }));
            children_have_links(links, front, links[i].child);
        }
    }
}

/// No more entities are under way than a tree has.
proof fn tree_bounds_the_walk(links: Seq<Link>, root: u64, seen: Seq<u64>, queue: Seq<u64>)
    requires
        under_way(links, root, seen, queue),
    ensures
        seen.len() + queue.len() <= links.len() + 1,
{
    let all = seen + queue;
    let ends = links.map_values(|l: Link| l.child).push(root);
    all.unique_seq_to_set();
    ends.lemma_cardinality_of_set();
    assert forall|e: u64| all.to_set().contains(e) implies ends.to_set().contains(e) by {
        assert(all.contains(e));
        if e == root {
            assert(ends[links.len() as int] == root);
        } else {
            let i = choose|i: int|
                0 <= i < links.len() && (#[trigger] links[i]).child == e && seen.contains(
                    links[i].parent,
                );
            assert(ends[i] == e);
        }
    }
    vstd::set_lib::lemma_len_subset(all.to_set(), ends.to_set());
}

proof fn closed_below(links: Seq<Link>, root: u64, seen: Seq<u64>, id: u64, depth: nat)
    requires
        under_way(links, root, seen, Seq::empty()),
        descends(links, root, id, depth),
    ensures
        seen.contains(id),
    decreases depth,
{
    assert(seen + Seq::<u64>::empty() =~= seen);
    if depth > 0 {
        let i = choose|i: int|
            0 <= i < links.len() && (#[trigger] links[i]).child == id && descends(
                links,
                root,
                links[i].parent,
                (depth - 1) as nat,
            );
        closed_below(links, root, seen, links[i].parent, (depth - 1) as nat);
    }
}

proof fn walk_completes(
    links: Seq<Link>,
    root: u64,
    seen: Seq<u64>,
    queue: Seq<u64>,
    steps: nat,
)
    requires
        is_tree(links, root),
        under_way(links, root, seen, queue),
        seen.len() + steps == links.len() + 1,
    ensures
        under_way(links, root, seen + walked(links, queue, steps), Seq::empty()),
    decreases steps,
{
    tree_bounds_the_walk(links, root, seen, queue);
    if queue.len() == 0 {
        assert(seen + walked(links, queue, steps) =~= seen);
        assert(queue =~= Seq::<u64>::empty());
    } else {
        step_goes_on(links, root, seen, queue);
        let next = queue.skip(1) + children_of(links, queue[0]);
        walk_completes(links, root, seen.push(queue[0]), next, (steps - 1) as nat);
        assert(seen + walked(links, queue, steps) =~= seen.push(queue[0]) + walked(
            links,
            next,
            (steps - 1) as nat,
        ));
    }
}

/// The walk over a tree visits the root and each descendant of it, every one
/// once, and nothing else.
pub proof fn walk_visits_the_tree(links: Seq<Link>, root: u64)
    requires
        is_tree(links, root),
    ensures
        level_order(links, root).no_duplicates(),
        forall|id: u64| #[trigger]
            level_order(links, root).contains(id) <==> exists|d: nat|
                descends(links, root, id, d),
{
    let seen = Seq::<u64>::empty();
    let queue = seq![root];
    assert(seen + queue =~= queue);
    assert(queue[0] == root);
    assert(descends(links, root, root, 0));
    assert(under_way(links, root, seen, queue));
    walk_completes(links, root, seen, queue, links.len() + 1);
    let all = level_order(links, root);
    assert(seen + all =~= all);
    assert(all + Seq::<u64>::empty() =~= all);
    assert forall|id: u64| #[trigger] all.contains(id) <==> exists|d: nat|
        descends(links, root, id, d) by {
        if exists|d: nat| descends(links, root, id, d) {
            let d = choose|d: nat| descends(links, root, id, d);
            closed_below(links, root, all, id, d);
        }
    }
}

proof fn queued_or_child(links: Seq<Link>, queue: Seq<u64>, steps: nat, k: int)
    requires
        0 <= k < walked(links, queue, steps).len(),
    ensures
        ({
            let order = walked(links, queue, steps);
            ||| k < queue.len() && order[k] == queue[k]
            ||| exists|j: int|
                0 <= j < k && children_of(links, #[trigger] order[j]).contains(order[k])
        }),
    decreases steps,
{
    let order = walked(links, queue, steps);
    let kids = children_of(links, queue[0]);
    let next = queue.skip(1) + kids;
    let rest = walked(links, next, (steps - 1) as nat);
    if k > 0 {
        assert(order[k] == rest[k - 1]);
        queued_or_child(links, next, (steps - 1) as nat, k - 1);
        if k - 1 < next.len() && rest[k - 1] == next[k - 1] {
            if k >= queue.len() {
                assert(kids[k - queue.len()] == order[k]);
                assert(children_of(links, order[0]).contains(order[k]));
            }
        } else {
            let j = choose|j: int|
                0 <= j < k - 1 && children_of(links, #[trigger] rest[j]).contains(rest[k - 1]);
            assert(order[j + 1] == rest[j]);
            assert(children_of(links, order[j + 1]).contains(order[k]));
        }
    }
}

/// Whatever the walk visits after the root, it has visited a parent of it
/// before.
pub proof fn parents_come_first(links: Seq<Link>, root: u64, k: int)
    requires
        0 < k < level_order(links, root).len(),
    ensures
        exists|j: int|
            0 <= j < k && links.contains(
                Link {
                    child: level_order(links, root)[k],
                    parent: #[trigger] level_order(links, root)[j],
                },
            ),
{
    let order = level_order(links, root);
    queued_or_child(links, seq![root], links.len() + 1, k);
    let j = choose|j: int|
        0 <= j < k && children_of(links, #[trigger] order[j]).contains(order[k]);
    children_have_links(links, order[j], order[k]);
    let link = Link { child: order[k], parent: order[j] };
    let i = choose|i: int| 0 <= i < links.len() && (#[trigger] links[i]) == link;
    assert(links.contains(link));
}

} // verus!
