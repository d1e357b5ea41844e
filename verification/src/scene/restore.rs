//! Restoring a snapshot of deleted entities.

use vstd::prelude::*;

use crate::lineage::{holds_id, Link};
use crate::scene::prune::{scene_ids, scene_models, EntityModel, SceneEntity};
use crate::scene::subtree::{in_subtrees, node_index, NodeModel};
use crate::text::position;

verus! {

/// An old entity and what it became.
#[derive(Clone, Copy, Debug, PartialEq, Eq, Structural)]
pub struct Mapping {
    pub old: u64,
    pub new: u64,
}

/// What an entity became, where it is mapped.
pub open spec fn mapped(map: Seq<Mapping>, id: u64) -> Option<u64> {
    let i = position(map.map_values(|m: Mapping| m.old == id), true);
    if i < map.len() {
        Some(map[i].new)
    } else {
        None
    }
}

/// Whether `id` is the parent that some entity of the snapshot names, outside
/// the snapshot and still alive.
pub open spec fn outer_parent(
    snapshot: Seq<EntityModel>,
    alive: Seq<u64>,
    id: u64,
) -> bool {
    &&& !scene_ids(snapshot).contains(id)
    &&& alive.contains(id)
    &&& exists|i: int| 0 <= i < snapshot.len() && (#[trigger] snapshot[i]).parent() == Some(id)
}

fn snapshot_ids(snapshot: &Vec<SceneEntity>) -> (r: Vec<u64>)
    ensures
        r@ == scene_ids(scene_models(snapshot@)),
{
    let mut out: Vec<u64> = Vec::new();
    let mut i: usize = 0;
    let ghost ids = scene_ids(scene_models(snapshot@));
    while i < snapshot.len()
        invariant
            i <= snapshot@.len(),
            ids == scene_ids(scene_models(snapshot@)),
            out@ == ids.take(i as int),
        decreases snapshot@.len() - i,
    {
        out.push(snapshot[i].entity);
        assert(ids.take(i + 1) == ids.take(i as int).push(snapshot@[i as int].entity));
        i += 1;
    }
    assert(ids.take(i as int) == ids);
    out
}

/// The parents outside a snapshot that its entities go back under: those still
/// alive, each once. A restore maps them to themselves, so that the link to them
/// survives the remapping; entities of the snapshot itself are left unmapped and
/// get fresh ids.
pub fn outer_parents(snapshot: &Vec<SceneEntity>, alive: &Vec<u64>) -> (r: Vec<u64>)
    ensures
        r@.no_duplicates(),
        forall|id: u64| #[trigger]
            r@.contains(id) <==> outer_parent(scene_models(snapshot@), alive@, id),
{
    let ghost models = scene_models(snapshot@);
    let ids = snapshot_ids(snapshot);
    let mut out: Vec<u64> = Vec::new();
    let mut i: usize = 0;
    while i < snapshot.len()
        invariant
            i <= snapshot@.len(),
            models == scene_models(snapshot@),
            ids@ == scene_ids(models),
            out@.no_duplicates(),
            forall|id: u64| #[trigger]
                out@.contains(id) <==> !ids@.contains(id) && alive@.contains(id) && exists|k: int|
                    0 <= k < i && (#[trigger] models[k]).parent() == Some(id),
        decreases snapshot@.len() - i,
    {
        let ghost before = out@;
        assert(models[i as int] == snapshot@[i as int]@);
        let parent: Option<u64> = snapshot[i].scene_entity_parent();
        if let Some(p) = parent {
            if !holds_id(&ids, p) && holds_id(alive, p) && !holds_id(&out, p) {
                out.push(p);
            }
        }
        proof {
            assert forall|id: u64| #[trigger] out@.contains(id) <==> !ids@.contains(id)
                && alive@.contains(id) && exists|k: int|
                0 <= k < i + 1 && (#[trigger] models[k]).parent() == Some(id) by {
                if before.contains(id) {
                    let k = choose|k: int| 0 <= k < before.len() && before[k] == id;
                    assert(out@[k] == id);
                }
                if out@.contains(id) && !before.contains(id) {
                    let k = choose|k: int| 0 <= k < out@.len() && out@[k] == id;
                    assert(k == before.len());
                    assert(models[i as int].parent() == Some(id));
                }
                if models[i as int].parent() == Some(id) && !ids@.contains(id) && alive@.contains(id) {
                    if !before.contains(id) {
                        assert(out@[before.len() as int] == id);
                    }
                }
                if !ids@.contains(id) && alive@.contains(id) && exists|k: int|
                    0 <= k < i + 1 && (#[trigger] models[k]).parent() == Some(id) {
                    let k = choose|k: int|
                        0 <= k < i + 1 && (#[trigger] models[k]).parent() == Some(id);
                    if k < i {
                        assert(before.contains(id));
                    }
                }
            }
        }
        i += 1;
    }
    out
}

fn find_mapped(map: &Vec<Mapping>, id: u64) -> (r: Option<u64>)
    ensures
        r == mapped(map@, id),
{
    let test = |m: &Mapping| -> (b: bool)
        ensures
            b == (m.old == id),
        {
            m.old == id
        };
    let i: usize = crate::text::find_first(
        map,
        test,
        Ghost(map@.map_values(|m: Mapping| m.old == id)),
    );
    if i < map.len() {
        Some(map[i].new)
    } else {
        None
    }
}

/// The mappings of a snapshot's own entities, in its order.
pub open spec fn own_mappings(snapshot: Seq<EntityModel>, map: Seq<Mapping>) -> Seq<Mapping>
    decreases snapshot.len(),
{
    if snapshot.len() == 0 {
        Seq::empty()
    } else {
        let before = own_mappings(snapshot.drop_last(), map);
        match mapped(map, snapshot.last().entity) {
            Some(new) => before.push(Mapping { old: snapshot.last().entity, new }),
            None => before,
        }
    }
}

/// Where a link to `parent` leads after a restore: to what the parent became,
/// for one inside the snapshot; to the parent itself, for one outside that is
/// still alive; nowhere otherwise.
pub open spec fn new_parent(
    snapshot: Seq<EntityModel>,
    alive: Seq<u64>,
    map: Seq<Mapping>,
    parent: u64,
) -> Option<u64> {
    if scene_ids(snapshot).contains(parent) {
        mapped(map, parent)
    } else if alive.contains(parent) {
        Some(parent)
    } else {
        None
    }
}

/// The link that an entity of a snapshot gets on restore, if any.
pub open spec fn new_link(
    snapshot: Seq<EntityModel>,
    alive: Seq<u64>,
    map: Seq<Mapping>,
    entity: EntityModel,
) -> Option<Link> {
    match (mapped(map, entity.entity), entity.parent()) {
        (Some(child), Some(parent)) => match new_parent(snapshot, alive, map, parent) {
            Some(parent) => Some(Link { child, parent }),
            None => None,
        },
        _ => None,
    }
}

/// The links that the first `n` entities of a snapshot get on restore.
pub open spec fn new_links(
    snapshot: Seq<EntityModel>,
    alive: Seq<u64>,
    map: Seq<Mapping>,
    n: int,
) -> Seq<Link>
    decreases n,
{
    if n <= 0 {
        Seq::empty()
    } else {
        let before = new_links(snapshot, alive, map, n - 1);
        match new_link(snapshot, alive, map, snapshot[n - 1]) {
            Some(link) => before.push(link),
            None => before,
        }
    }
}

/// Whether a map tells what every entity of the snapshot became.
pub open spec fn maps_all(snapshot: Seq<EntityModel>, map: Seq<Mapping>) -> bool {
    forall|k: int| 0 <= k < snapshot.len() ==> mapped(map, (#[trigger] snapshot[k]).entity) is Some
}

/// What came of a restore: what each entity of the snapshot became, and the
/// links to put between them and to the parents they go back under.
pub struct Restored {
    pub entities: Vec<Mapping>,
    pub links: Vec<Link>,
}

/// Finish a restore, given what the world made of the snapshot's entities.
/// `alive` is what was alive before. The map is narrowed to the snapshot's own
/// old-to-new pairs: the identity entries of outer parents are scaffolding, not
/// results. The links follow the remapping.
pub fn spawn_entities_from_snapshot(
    snapshot: &Vec<SceneEntity>,
    alive: &Vec<u64>,
    map: &Vec<Mapping>,
) -> (r: Restored)
    ensures
        r.entities@ == own_mappings(scene_models(snapshot@), map@),
        r.links@ == new_links(scene_models(snapshot@), alive@, map@, snapshot@.len() as int),
        maps_all(scene_models(snapshot@), map@) ==> r.entities@.map_values(|m: Mapping| m.old)
            == scene_ids(scene_models(snapshot@)),
        forall|i: int|
            0 <= i < snapshot@.len() ==> (new_link(
                scene_models(snapshot@),
                alive@,
                map@,
                (#[trigger] snapshot@[i])@,
            ) matches Some(link) ==> r.links@.contains(link)),
{
    let ghost models = scene_models(snapshot@);
    let ids = snapshot_ids(snapshot);
    let mut entities: Vec<Mapping> = Vec::new();
    let mut links: Vec<Link> = Vec::new();
    let mut i: usize = 0;
    assert(models.take(0).len() == 0);
    while i < snapshot.len()
        invariant
            i <= snapshot@.len(),
            models == scene_models(snapshot@),
            ids@ == scene_ids(models),
            entities@ == own_mappings(models.take(i as int), map@),
            links@ == new_links(models, alive@, map@, i as int),
        decreases snapshot@.len() - i,
    {
        proof {
            assert(models.take(i + 1).drop_last() == models.take(i as int));
            assert(models.take(i + 1).last() == snapshot@[i as int]@);
            assert(models[i as int] == snapshot@[i as int]@);
        }
        if let Some(child) = find_mapped(map, snapshot[i].entity) {
            entities.push(Mapping { old: snapshot[i].entity, new: child });
            if let Some(old_parent) = snapshot[i].scene_entity_parent() {
                let parent: Option<u64> = if holds_id(&ids, old_parent) {
                    find_mapped(map, old_parent)
                } else if holds_id(alive, old_parent) {
                    Some(old_parent)
                } else {
                    None
                };
                if let Some(parent) = parent {
                    links.push(Link { child, parent });
                }
            }
        }
        i += 1;
    }
    proof {
        assert(models.take(i as int) == models);
        if maps_all(models, map@) {
            keys_are_own(models, map@);
        }
        assert forall|k: int| 0 <= k < snapshot@.len() implies (new_link(
            models,
            alive@,
            map@,
            (#[trigger] snapshot@[k])@,
        ) matches Some(link) ==> links@.contains(link)) by {
            assert(models[k] == snapshot@[k]@);
            links_are_all(models, alive@, map@, models.len() as int, k);
        }
    }
    Restored { entities, links }
}

proof fn keys_are_own(snapshot: Seq<EntityModel>, map: Seq<Mapping>)
    requires
        maps_all(snapshot, map),
    ensures
        own_mappings(snapshot, map).map_values(|m: Mapping| m.old) == scene_ids(snapshot),
        own_mappings(snapshot, map).len() == snapshot.len(),
        forall|k: int|
            0 <= k < snapshot.len() ==> mapped(map, snapshot[k].entity) == Some(
                (#[trigger] own_mappings(snapshot, map)[k]).new,
            ),
    decreases snapshot.len(),
{
    let own = own_mappings(snapshot, map);
    if snapshot.len() > 0 {
        let rest = snapshot.drop_last();
        assert forall|k: int| 0 <= k < rest.len() implies mapped(
            map,
            (#[trigger] rest[k]).entity,
        ) is Some by {
            assert(snapshot[k] == rest[k]);
        }
        keys_are_own(rest, map);
        let before = own_mappings(rest, map);
        assert(mapped(map, snapshot[snapshot.len() - 1].entity) is Some);
        assert(own.map_values(|m: Mapping| m.old) =~= before.map_values(|m: Mapping| m.old).push(
            snapshot.last().entity,
        ));
        assert(scene_ids(snapshot) =~= scene_ids(rest).push(snapshot.last().entity));
        assert forall|k: int| 0 <= k < snapshot.len() implies mapped(map, snapshot[k].entity)
            == Some((#[trigger] own[k]).new) by {
            if k < rest.len() {
                assert(own[k] == before[k]);
                assert(rest[k] == snapshot[k]);
            }
        }
    } else {
        assert(own.map_values(|m: Mapping| m.old) =~= scene_ids(snapshot));
    }
}

proof fn links_are_all(
    snapshot: Seq<EntityModel>,
    alive: Seq<u64>,
    map: Seq<Mapping>,
    n: int,
    i: int,
)
    requires
        0 <= i < n <= snapshot.len(),
    ensures
        new_link(snapshot, alive, map, snapshot[i]) matches Some(link) ==> new_links(
            snapshot,
            alive,
            map,
            n,
        ).contains(link),
    decreases n,
{
    if let Some(link) = new_link(snapshot, alive, map, snapshot[i]) {
        let all = new_links(snapshot, alive, map, n);
        if i == n - 1 {
            assert(all.last() == link);
        } else {
            links_are_all(snapshot, alive, map, n - 1, i);
            let before = new_links(snapshot, alive, map, n - 1);
            let k = choose|k: int| 0 <= k < before.len() && before[k] == link;
            assert(all[k] == link);
        }
    }
}

proof fn links_are_own(
    snapshot: Seq<EntityModel>,
    alive: Seq<u64>,
    map: Seq<Mapping>,
    n: int,
    link: Link,
)
    requires
        0 <= n <= snapshot.len(),
        new_links(snapshot, alive, map, n).contains(link),
    ensures
        exists|i: int|
            0 <= i < n && new_link(snapshot, alive, map, #[trigger] snapshot[i]) == Some(link),
    decreases n,
{
    let all = new_links(snapshot, alive, map, n);
    let k = choose|k: int| 0 <= k < all.len() && all[k] == link;
    let before = new_links(snapshot, alive, map, n - 1);
    if k < before.len() {
        assert(before[k] == link);
        links_are_own(snapshot, alive, map, n - 1, link);
    } else {
        assert(new_link(snapshot, alive, map, snapshot[n - 1]) == Some(link));
    }
}

/// A map with the living outer parents seeded leads every link of a restored
/// entity where it is put: a root goes back under the parent it had, where that
/// is still alive, and a link inside the snapshot follows the remapping.
pub proof fn links_follow_the_remapping(
    snapshot: Seq<EntityModel>,
    alive: Seq<u64>,
    map: Seq<Mapping>,
    i: int,
)
    requires
        0 <= i < snapshot.len(),
        forall|p: u64| #[trigger] outer_parent(snapshot, alive, p) ==> mapped(map, p) == Some(p),
        maps_all(snapshot, map),
    ensures
        snapshot[i].parent() matches Some(p) ==> {
            &&& !scene_ids(snapshot).contains(p) && alive.contains(p) ==> mapped(map, p) == Some(p)
            &&& scene_ids(snapshot).contains(p) ==> mapped(map, p) is Some
            &&& scene_ids(snapshot).contains(p) || alive.contains(p) ==> new_parent(
                snapshot,
                alive,
                map,
                p,
            ) == mapped(map, p)
        },
{
    if let Some(p) = snapshot[i].parent() {
        if !scene_ids(snapshot).contains(p) && alive.contains(p) {
            assert(outer_parent(snapshot, alive, p));
        }
        if scene_ids(snapshot).contains(p) {
            let k = choose|k: int| 0 <= k < scene_ids(snapshot).len() && scene_ids(snapshot)[k] == p;
            assert(snapshot[k].entity == p);
        }
    }
}

/// Whether a map gives every entity of the snapshot one that is new: neither
/// alive before nor an id of the snapshot, and no two the same.
pub open spec fn maps_afresh(
    snapshot: Seq<EntityModel>,
    alive: Seq<u64>,
    map: Seq<Mapping>,
) -> bool {
    &&& forall|k: int|
        0 <= k < snapshot.len() ==> (mapped(map, (#[trigger] snapshot[k]).entity) matches Some(new)
            && !alive.contains(new) && !scene_ids(snapshot).contains(new))
    &&& forall|j: int, k: int|
        0 <= j < snapshot.len() && 0 <= k < snapshot.len() && mapped(
            map,
            (#[trigger] snapshot[j]).entity,
        ) == mapped(map, (#[trigger] snapshot[k]).entity) ==> snapshot[j].entity
            == snapshot[k].entity
}

/// Whether an entity is listed as a child of another.
pub open spec fn is_child(world: Seq<NodeModel>, id: u64, parent: u64) -> bool {
    node_index(world, parent) < world.len() && world[node_index(
        world,
        parent,
    )].children.contains(id)
}

/// A snapshot of `roots`, each entity with the parent it has in the world.
pub open spec fn is_snapshot(
    world: Seq<NodeModel>,
    roots: Seq<u64>,
    snapshot: Seq<EntityModel>,
) -> bool {
    &&& scene_ids(snapshot).no_duplicates()
    &&& forall|id: u64| #[trigger]
        scene_ids(snapshot).contains(id) <==> in_subtrees(world, false, roots, id)
    &&& forall|i: int, p: u64|
        0 <= i < snapshot.len() ==> ((#[trigger] snapshot[i]).parent() == Some(p)
            <==> #[trigger] is_child(world, snapshot[i].entity, p))
}

/// Whether an entity became another.
pub open spec fn became(entities: Seq<Mapping>, old: u64, new: u64) -> bool {
    entities.contains(Mapping { old, new })
}

/// A snapshot that is taken, deleted and restored comes back whole: what is
/// restored is exactly the roots and what was below them, each as a new entity.
/// One whose parent was taken along goes under what that became, not under the
/// stale id; one whose parent stayed alive goes back under it; and none gets two
/// parents.
pub proof fn snapshot_comes_back(
    world: Seq<NodeModel>,
    roots: Seq<u64>,
    snapshot: Seq<EntityModel>,
    alive: Seq<u64>,
    map: Seq<Mapping>,
)
    requires
        is_snapshot(world, roots, snapshot),
        maps_afresh(snapshot, alive, map),
    ensures
        ({
            let entities = own_mappings(snapshot, map);
            let keys = entities.map_values(|m: Mapping| m.old);
            let links = new_links(snapshot, alive, map, snapshot.len() as int);
            &&& keys.no_duplicates()
            &&& forall|id: u64| #[trigger]
                keys.contains(id) <==> in_subtrees(world, false, roots, id)
            &&& forall|k: int|
                0 <= k < entities.len() ==> !alive.contains((#[trigger] entities[k]).new)
                    && !keys.contains(entities[k].new) && mapped(map, entities[k].old) == Some(
                    entities[k].new,
                )
            &&& forall|id: u64, p: u64, new: u64, q: u64|
                in_subtrees(world, false, roots, id) && #[trigger] is_child(world, id, p)
                    && in_subtrees(world, false, roots, p) && #[trigger] became(entities, id, new)
                    && #[trigger] became(entities, p, q) ==> q != p
                    && links.contains(Link { child: new, parent: q })
            &&& forall|id: u64, p: u64, new: u64|
                in_subtrees(world, false, roots, id) && #[trigger] is_child(world, id, p)
                    && !in_subtrees(world, false, roots, p) && alive.contains(p)
                    && #[trigger] became(entities, id, new) ==> links.contains(
                    Link { child: new, parent: p },
                )
            &&& forall|a: Link, b: Link| #[trigger]
                links.contains(a) && #[trigger] links.contains(b) && a.child == b.child ==> a == b
        }),
{
    let entities = own_mappings(snapshot, map);
    let ids = scene_ids(snapshot);
    let keys = entities.map_values(|m: Mapping| m.old);
    let n = snapshot.len() as int;
    let links = new_links(snapshot, alive, map, n);
    assert(maps_all(snapshot, map));
    keys_are_own(snapshot, map);
    assert(keys == ids);
    assert forall|k: int| 0 <= k < entities.len() implies !alive.contains(
        (#[trigger] entities[k]).new,
    ) && !keys.contains(entities[k].new) && mapped(map, entities[k].old) == Some(
        entities[k].new,
    ) && entities[k].old == snapshot[k].entity by {
        assert(keys[k] == ids[k]);
        assert(mapped(map, snapshot[k].entity) is Some);
    }
    assert forall|id: u64, new: u64| #[trigger]
        became(entities, id, new) implies mapped(map, id) == Some(new)
        && ids.contains(id) by {
        let m = Mapping { old: id, new };
        let k = choose|k: int| 0 <= k < entities.len() && entities[k] == m;
        assert(entities[k].old == snapshot[k].entity);
        assert(ids[k] == id);
    }
    assert forall|id: u64, p: u64, new: u64|
        in_subtrees(world, false, roots, id) && #[trigger] is_child(world, id, p)
            && #[trigger] became(entities, id, new) implies (new_parent(
        snapshot,
        alive,
        map,
        p,
    ) matches Some(q) ==> links.contains(Link { child: new, parent: q })) by {
        assert(ids.contains(id));
        let i = choose|i: int| 0 <= i < ids.len() && ids[i] == id;
        assert(snapshot[i].entity == id);
        assert(snapshot[i].parent() == Some(p));
        links_are_all(snapshot, alive, map, n, i);
    }
    assert forall|id: u64, p: u64, new: u64, q: u64|
        in_subtrees(world, false, roots, id) && #[trigger] is_child(world, id, p) && in_subtrees(
            world,
            false,
            roots,
            p,
        ) && #[trigger] became(entities, id, new) && #[trigger] became(entities, p, q) implies q != p
        && links.contains(Link { child: new, parent: q }) by {
        assert(ids.contains(p));
        let m = Mapping { old: p, new: q };
        let k = choose|k: int| 0 <= k < entities.len() && entities[k] == m;
        assert(!keys.contains(entities[k].new));
        assert(new_parent(snapshot, alive, map, p) == Some(q));
    }
    assert forall|id: u64, p: u64, new: u64|
        in_subtrees(world, false, roots, id) && #[trigger] is_child(world, id, p) && !in_subtrees(
            world,
            false,
            roots,
            p,
        ) && alive.contains(p) && #[trigger] became(entities, id, new) implies links.contains(
        Link { child: new, parent: p },
    ) by {
        assert(!ids.contains(p));
        assert(new_parent(snapshot, alive, map, p) == Some(p));
    }
    assert forall|a: Link, b: Link| #[trigger]
        links.contains(a) && #[trigger] links.contains(b) && a.child == b.child implies a == b by {
        links_are_own(snapshot, alive, map, n, a);
        links_are_own(snapshot, alive, map, n, b);
        let i = choose|i: int|
            0 <= i < n && new_link(snapshot, alive, map, #[trigger] snapshot[i]) == Some(a);
        let j = choose|j: int|
            0 <= j < n && new_link(snapshot, alive, map, #[trigger] snapshot[j]) == Some(b);
        assert(snapshot[i].entity == snapshot[j].entity);
        assert(ids[i] == ids[j]);
        assert(i == j);
    }
}

} // verus!
