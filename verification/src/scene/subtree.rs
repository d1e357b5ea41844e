//! Entity subtrees: what a snapshot or a prefab takes along.

use vstd::prelude::*;

use crate::lineage::holds_id;
use crate::text::{find_first, position};

verus! {

/// An entity that exists, as a subtree walk sees it.
pub struct TreeNode {
    pub id: u64,
    pub children: Vec<u64>,
    pub named: bool,
    /// Holds a model whose own nodes are regenerated: nothing below it is taken.
    pub mesh_instance: bool,
}

/// What a tree node holds.
pub struct NodeModel {
    pub id: u64,
    pub children: Seq<u64>,
    pub named: bool,
    pub mesh_instance: bool,
}

impl View for TreeNode {
    type V = NodeModel;

    open spec fn view(&self) -> NodeModel {
        NodeModel {
            id: self.id,
            children: self.children@,
            named: self.named,
            mesh_instance: self.mesh_instance,
        }
    }
}

pub open spec fn node_models(world: Seq<TreeNode>) -> Seq<NodeModel> {
    world.map_values(|n: TreeNode| n@)
}

/// The node of an entity, or the number of nodes.
pub open spec fn node_index(world: Seq<NodeModel>, id: u64) -> int {
    position(world.map_values(|n: NodeModel| n.id == id), true)
}

/// Whether a walk takes an entity: it exists and, where names are asked for,
/// has one.
pub open spec fn taken(world: Seq<NodeModel>, named_only: bool, id: u64) -> bool {
    let i = node_index(world, id);
    i < world.len() && (named_only ==> world[i].named)
}

/// The children a walk goes on to from an entity.
pub open spec fn onward(world: Seq<NodeModel>, id: u64) -> Seq<u64> {
    let i = node_index(world, id);
    if i < world.len() && !world[i].mesh_instance {
        world[i].children
    } else {
        Seq::empty()
    }
}

/// Whether `path` is a walk from one of `roots`: every entity on it is taken,
/// and each is a child of the one before.
pub open spec fn walk(
    world: Seq<NodeModel>,
    named_only: bool,
    roots: Seq<u64>,
    path: Seq<u64>,
) -> bool {
    &&& path.len() > 0
    &&& roots.contains(path[0])
    &&& forall|k: int| 0 <= k < path.len() ==> taken(world, named_only, #[trigger] path[k])
    &&& forall|k: int|
        0 < k < path.len() ==> onward(world, path[k - 1]).contains(#[trigger] path[k])
}

/// Whether an entity belongs to the subtrees of `roots`.
pub open spec fn in_subtrees(
    world: Seq<NodeModel>,
    named_only: bool,
    roots: Seq<u64>,
    id: u64,
) -> bool {
    exists|path: Seq<u64>| #[trigger]
        walk(world, named_only, roots, path) && path.last() == id
}

/// Every entity that the roots and the children name.
pub open spec fn named_ids(world: Seq<NodeModel>, roots: Seq<u64>) -> Set<u64>
    decreases world.len(),
{
    if world.len() == 0 {
        roots.to_set()
    } else {
        named_ids(world.drop_last(), roots).union(world.last().children.to_set())
    }
}

proof fn named_ids_cover(world: Seq<NodeModel>, roots: Seq<u64>)
    ensures
        named_ids(world, roots).finite(),
        forall|x: u64| roots.contains(x) ==> #[trigger] named_ids(world, roots).contains(x),
        forall|i: int, x: u64|
            0 <= i < world.len() && world[i].children.contains(x) ==> #[trigger] named_ids(
                world,
                roots,
            ).contains(x) && #[trigger] world[i] == world[i],
    decreases world.len(),
{
    vstd::seq_lib::seq_to_set_is_finite(roots);
    if world.len() > 0 {
        let rest = world.drop_last();
        named_ids_cover(rest, roots);
        vstd::seq_lib::seq_to_set_is_finite(world.last().children);
        assert forall|i: int, x: u64|
            0 <= i < world.len() && world[i].children.contains(x) implies #[trigger] named_ids(
            world,
            roots,
        ).contains(x) && #[trigger] world[i] == world[i] by {
            if i < rest.len() {
                assert(rest[i] == world[i]);
                assert(named_ids(rest, roots).contains(x));
            }
        }
    }
}

fn find_node(world: &Vec<TreeNode>, id: u64) -> (r: usize)
    ensures
        r == node_index(node_models(world@), id),
        r <= world@.len(),
        r < world@.len() ==> world@[r as int].id == id,
{
    let test = |n: &TreeNode| -> (b: bool)
        ensures
            b == (n@.id == id),
        {
            n.id == id
        };
    find_first(world, test, Ghost(node_models(world@).map_values(|n: NodeModel| n.id == id)))
}

/// The end of a walk can be extended by a child that is taken.
pub proof fn walk_extends(
    world: Seq<NodeModel>,
    named_only: bool,
    roots: Seq<u64>,
    a: u64,
    b: u64,
)
    requires
        in_subtrees(world, named_only, roots, a),
        onward(world, a).contains(b),
        taken(world, named_only, b),
    ensures
        in_subtrees(world, named_only, roots, b),
{
    let path = choose|path: Seq<u64>| #[trigger]
        walk(world, named_only, roots, path) && path.last() == a;
    let longer = path.push(b);
    assert forall|k: int| 0 <= k < longer.len() implies taken(
        world,
        named_only,
        #[trigger] longer[k],
    ) by {
        if k < path.len() {
            assert(longer[k] == path[k]);
        }
    }
    assert forall|k: int| 0 < k < longer.len() implies onward(world, longer[k - 1]).contains(
        #[trigger] longer[k],
    ) by {
        if k < path.len() {
            assert(longer[k] == path[k]);
            assert(longer[k - 1] == path[k - 1]);
        } else {
            assert(longer[k - 1] == path.last());
        }
    }
    assert(walk(world, named_only, roots, longer));
    assert(longer.last() == b);
}

pub proof fn walk_starts(world: Seq<NodeModel>, named_only: bool, roots: Seq<u64>, a: u64)
    requires
        roots.contains(a),
        taken(world, named_only, a),
    ensures
        in_subtrees(world, named_only, roots, a),
{
    let path = seq![a];
    assert(walk(world, named_only, roots, path));
    assert(path.last() == a);
}

/// What is closed under children and holds the roots holds every walk's end.
proof fn closed_holds_walks(
    world: Seq<NodeModel>,
    named_only: bool,
    roots: Seq<u64>,
    all: Seq<u64>,
    path: Seq<u64>,
)
    requires
        walk(world, named_only, roots, path),
        forall|x: u64| roots.contains(x) && taken(world, named_only, x) ==> all.contains(x),
        forall|x: u64, y: u64|
            all.contains(x) && #[trigger] onward(world, x).contains(y) && taken(
                world,
                named_only,
                y,
            ) ==> all.contains(y),
    ensures
        all.contains(path.last()),
    decreases path.len(),
{
    if path.len() == 1 {
        assert(taken(world, named_only, path[0]));
    } else {
        let shorter = path.drop_last();
        assert forall|k: int| 0 <= k < shorter.len() implies taken(
            world,
            named_only,
            #[trigger] shorter[k],
        ) by {
            assert(shorter[k] == path[k]);
        }
        assert forall|k: int| 0 < k < shorter.len() implies onward(world, shorter[k - 1]).contains(
            #[trigger] shorter[k],
        ) by {
            assert(shorter[k] == path[k]);
            assert(shorter[k - 1] == path[k - 1]);
        }
        closed_holds_walks(world, named_only, roots, all, shorter);
        let last = path.len() - 1;
        assert(path[last] == path.last());
        assert(shorter.last() == path[last - 1]);
        assert(onward(world, path[last - 1]).contains(path[last]));
    }
}

/// The entities of the subtrees of `roots`, each once. Nothing below a mesh
/// instance is taken: its nodes are regenerated on load. With `named_only`, an
/// entity without a name is left out with everything below it.
pub fn collect_subtrees(world: &Vec<TreeNode>, roots: &Vec<u64>, named_only: bool) -> (r: Vec<u64>)
    ensures
        r@.no_duplicates(),
        forall|id: u64| #[trigger]
            r@.contains(id) <==> in_subtrees(node_models(world@), named_only, roots@, id),
{
    let ghost models = node_models(world@);
    let ghost universe = named_ids(models, roots@);
    proof {
        named_ids_cover(models, roots@);
    }
    let mut all: Vec<u64> = Vec::new();
    let mut seen: Vec<u64> = Vec::new();
    let mut queue: Vec<u64> = Vec::new();
    let mut i: usize = 0;
    while i < roots.len()
        invariant
            i <= roots@.len(),
            queue@ == roots@.take(i as int),
        decreases roots@.len() - i,
    {
        queue.push(roots[i]);
        assert(roots@.take(i + 1) == roots@.take(i as int).push(roots@[i as int]));
        i += 1;
    }
    assert(queue@ == roots@);
    while queue.len() > 0
        invariant
            models == node_models(world@),
            universe == named_ids(models, roots@),
            universe.finite(),
            forall|x: u64| roots@.contains(x) ==> #[trigger] universe.contains(x),
            forall|k: int, x: u64|
                0 <= k < models.len() && models[k].children.contains(x)
                    ==> #[trigger] universe.contains(x) && #[trigger] models[k] == models[k],
            all@.no_duplicates(),
            seen@.no_duplicates(),
            forall|x: u64| #[trigger] seen@.contains(x) ==> universe.contains(x),
            seen@.len() <= universe.len(),
            forall|x: u64| #[trigger]
                all@.contains(x) <==> seen@.contains(x) && taken(models, named_only, x),
            forall|x: u64| #[trigger]
                all@.contains(x) ==> in_subtrees(models, named_only, roots@, x),
            forall|x: u64| #[trigger] roots@.contains(x) ==> seen@.contains(x) || queue@.contains(x),
            forall|x: u64, y: u64|
                all@.contains(x) && #[trigger] onward(models, x).contains(y) ==> seen@.contains(y)
                    || queue@.contains(y),
            forall|k: int|
                0 <= k < queue@.len() ==> roots@.contains(#[trigger] queue@[k]) || exists|x: u64|
                    all@.contains(x) && #[trigger] onward(models, x).contains(queue@[k]),
        decreases universe.len() - seen@.len(), queue@.len(),
    {
        let ghost queue_before = queue@;
        let e: u64 = queue.pop().unwrap();
        let ghost popped = queue@;
        assert(queue_before == popped.push(e));
        assert(queue_before[queue_before.len() - 1] == e);
        assert forall|x: u64| queue_before.contains(x) && x != e implies popped.contains(x) by {
            let k = choose|k: int| 0 <= k < queue_before.len() && queue_before[k] == x;
            assert(popped[k] == x);
        }
        assert forall|k: int| 0 <= k < popped.len() implies roots@.contains(#[trigger] popped[k])
            || exists|x: u64| all@.contains(x) && #[trigger] onward(models, x).contains(popped[k]) by {
            assert(queue_before[k] == popped[k]);
        }
        if holds_id(&seen, e) {
            continue;
        }
        proof {
            // Whatever is queued is a root or a child of something taken.
            if !roots@.contains(e) {
                let x = choose|x: u64| all@.contains(x) && #[trigger] onward(models, x).contains(e);
                let k = node_index(models, x);
                crate::text::position_is_first(models.map_values(|n: NodeModel| n.id == x), true);
                assert(models[k].children.contains(e));
            }
            assert(universe.contains(e));
        }
        let ghost seen_before = seen@;
        let ghost all_before = all@;
        seen.push(e);
        proof {
            assert forall|x: u64| #[trigger] seen@.contains(x) <==> seen_before.contains(x) || x
                == e by {
                if seen_before.contains(x) {
                    let k = choose|k: int| 0 <= k < seen_before.len() && seen_before[k] == x;
                    assert(seen@[k] == x);
                }
                if x == e {
                    assert(seen@[seen@.len() - 1] == x);
                }
            }
            seen@.unique_seq_to_set();
            assert forall|x: u64| seen@.to_set().contains(x) implies universe.contains(x) by {
                assert(seen@.contains(x));
            }
            vstd::set_lib::lemma_len_subset(seen@.to_set(), universe);
        }
        let at: usize = find_node(world, e);
        if at >= world.len() || (named_only && !world[at].named) {
            assert(!taken(models, named_only, e));
            continue;
        }
        all.push(e);
        proof {
            assert(taken(models, named_only, e));
            assert(!all_before.contains(e));
            assert forall|x: u64| #[trigger] all@.contains(x) <==> all_before.contains(x) || x
                == e by {
                if all_before.contains(x) {
                    let k = choose|k: int| 0 <= k < all_before.len() && all_before[k] == x;
                    assert(all@[k] == x);
                }
                if x == e {
                    assert(all@[all@.len() - 1] == x);
                }
            }
            if roots@.contains(e) {
                walk_starts(models, named_only, roots@, e);
            } else {
                let x = choose|x: u64|
                    all_before.contains(x) && #[trigger] onward(models, x).contains(e);
                walk_extends(models, named_only, roots@, x, e);
            }
        }
        assert forall|k: int| 0 <= k < popped.len() implies roots@.contains(#[trigger] popped[k])
            || exists|x: u64| all@.contains(x) && #[trigger] onward(models, x).contains(popped[k]) by {
            if !roots@.contains(popped[k]) {
                let x = choose|x: u64|
                    all_before.contains(x) && #[trigger] onward(models, x).contains(popped[k]);
                assert(all@.contains(x));
            }
        }
        if world[at].mesh_instance {
            assert(onward(models, e) == Seq::<u64>::empty());
            continue;
        }
        let kids: &Vec<u64> = &world[at].children;
        assert(onward(models, e) == kids@);
        let mut k: usize = 0;
        while k < kids.len()
            invariant
                k <= kids@.len(),
                queue@ == popped + kids@.take(k as int),
            decreases kids@.len() - k,
        {
            queue.push(kids[k]);
            assert(kids@.take(k + 1) == kids@.take(k as int).push(kids@[k as int]));
            k += 1;
        }
        assert(queue@ == popped + kids@);
        assert forall|x: u64| #[trigger] popped.contains(x) implies queue@.contains(x) by {
            let j = choose|j: int| 0 <= j < popped.len() && popped[j] == x;
            assert(queue@[j] == x);
        }
        assert forall|x: u64| #[trigger] kids@.contains(x) implies queue@.contains(x) by {
            let j = choose|j: int| 0 <= j < kids@.len() && kids@[j] == x;
            assert(queue@[popped.len() + j] == x);
        }
        assert forall|x: u64| #[trigger] roots@.contains(x) implies seen@.contains(x)
            || queue@.contains(x) by {
            if !seen@.contains(x) {
                assert(!seen_before.contains(x) && x != e);
                assert(queue_before.contains(x));
                assert(popped.contains(x));
            }
        }
        assert forall|x: u64, y: u64|
            all@.contains(x) && #[trigger] onward(models, x).contains(y) implies seen@.contains(y)
            || queue@.contains(y) by {
            if x == e {
                assert(kids@.contains(y));
            } else if !seen@.contains(y) {
                assert(all_before.contains(x));
                assert(!seen_before.contains(y) && y != e);
                assert(queue_before.contains(y));
                assert(popped.contains(y));
            }
        }
        assert forall|j: int| 0 <= j < queue@.len() implies roots@.contains(#[trigger] queue@[j])
            || exists|x: u64| all@.contains(x) && #[trigger] onward(models, x).contains(queue@[j]) by {
            if j < popped.len() {
                assert(queue@[j] == popped[j]);
            } else {
                assert(queue@[j] == kids@[j - popped.len()]);
                assert(all@.contains(e) && onward(models, e).contains(queue@[j]));
            }
        }
    }
    proof {
        assert forall|id: u64| in_subtrees(models, named_only, roots@, id) implies #[trigger] all@.contains(
        id) by {
            let path = choose|path: Seq<u64>| #[trigger]
                walk(models, named_only, roots@, path) && path.last() == id;
            assert forall|x: u64| roots@.contains(x) && taken(
                models,
                named_only,
                x,
            ) implies all@.contains(x) by {
                assert(!queue@.contains(x));
                assert(seen@.contains(x));
            }
            assert forall|x: u64, y: u64|
                all@.contains(x) && #[trigger] onward(models, x).contains(y) && taken(
                    models,
                    named_only,
                    y,
                ) implies all@.contains(y) by {
                assert(!queue@.contains(y));
                assert(seen@.contains(y));
            }
            closed_holds_walks(models, named_only, roots@, all@, path);
        }
    }
    all
}

} // verus!
