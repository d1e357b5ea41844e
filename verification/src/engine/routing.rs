//! Scene changes, and which camera the effects of a running game go to.

use vstd::prelude::*;

use crate::dock::drop::option_text;
use crate::lineage::{has_marked_ancestor, under_marked};
use crate::scene::load::{SceneLoadFailed, SceneLoaded};
use crate::scene::save::{
    collect_world_links, hidden_ids, ids_of, ids_where, is_hidden, saved, world_links, EntityFacts,
};
use crate::text::{find_first, position};

verus! {

// ── Effect routing ──

/// A camera that effects can be routed to.
#[derive(Clone, Copy, Debug, PartialEq, Eq, Structural)]
pub struct RouteCam {
    pub entity: u64,
    pub default: bool,
    pub active: bool,
}

/// The camera that effects go to: the default one where it is active, else the
/// first active one.
pub open spec fn route_target(cams: Seq<RouteCam>) -> Option<u64> {
    let i = position(cams.map_values(|c: RouteCam| c.default && c.active), true);
    let j = position(cams.map_values(|c: RouteCam| c.active), true);
    if i < cams.len() {
        Some(cams[i].entity)
    } else if j < cams.len() {
        Some(cams[j].entity)
    } else {
        None
    }
}

/// The camera that effects go to.
pub fn find_route_target(cams: &Vec<RouteCam>) -> (r: Option<u64>)
    ensures
        r == route_target(cams@),
{
    let both = |c: &RouteCam| -> (b: bool)
        ensures
            b == (c.default && c.active),
        {
            c.default && c.active
        };
    let i: usize = find_first(
        cams,
        both,
        Ghost(cams@.map_values(|c: RouteCam| c.default && c.active)),
    );
    if i < cams.len() {
        return Some(cams[i].entity);
    }
    let live = |c: &RouteCam| -> (b: bool)
        ensures
            b == c.active,
        {
            c.active
        };
    let j: usize = find_first(cams, live, Ghost(cams@.map_values(|c: RouteCam| c.active)));
    if j < cams.len() {
        Some(cams[j].entity)
    } else {
        None
    }
}

/// How many of a sorted list go before `id`: those not above it.
pub open spec fn id_rank(list: Seq<u64>, id: u64) -> int
    decreases list.len(),
{
    if list.len() == 0 {
        0
    } else if id < list.last() {
        id_rank(list.drop_last(), id)
    } else {
        list.len() as int
    }
}

/// Ids in ascending order.
pub open spec fn sorted_ids(list: Seq<u64>) -> Seq<u64>
    decreases list.len(),
{
    if list.len() == 0 {
        Seq::empty()
    } else {
        let before = sorted_ids(list.drop_last());
        before.insert(id_rank(before, list.last()), list.last())
    }
}

proof fn id_rank_bounds(list: Seq<u64>, id: u64)
    ensures
        0 <= id_rank(list, id) <= list.len(),
        forall|k: int| id_rank(list, id) <= k < list.len() ==> id < #[trigger] list[k],
        id_rank(list, id) > 0 ==> list[id_rank(list, id) - 1] <= id,
    decreases list.len(),
{
    if list.len() > 0 && id < list.last() {
        let rest = list.drop_last();
        id_rank_bounds(rest, id);
        assert forall|k: int| id_rank(list, id) <= k < list.len() implies id < #[trigger] list[k] by {
            if k < rest.len() {
                assert(rest[k] == list[k]);
            }
        }
    }
}

/// Sorting orders the ids and neither adds nor loses one.
pub proof fn sorting_keeps_ids(list: Seq<u64>)
    ensures
        sorted_ids(list).to_multiset() == list.to_multiset(),
        forall|i: int, j: int|
            0 <= i < j < sorted_ids(list).len() ==> sorted_ids(list)[i] <= sorted_ids(list)[j],
    decreases list.len(),
{
    if list.len() > 0 {
        let rest = list.drop_last();
        let last = list.last();
        let before = sorted_ids(rest);
        let at = id_rank(before, last);
        sorting_keeps_ids(rest);
        id_rank_bounds(before, last);
        let after = before.insert(at, last);
        vstd::seq_lib::to_multiset_insert(before, at, last);
        assert(list =~= rest.push(last));
        vstd::seq_lib::to_multiset_build(rest, last);
        assert(after.to_multiset() =~= list.to_multiset());
        assert forall|i: int, j: int| 0 <= i < j < after.len() implies after[i] <= after[j] by {
            let a = if i < at {
                i
            } else {
                i - 1
            };
            let b = if j < at {
                j
            } else {
                j - 1
            };
            if i != at && j != at {
                assert(before[a] <= before[b]);
            } else if j == at {
                assert(before[a] <= before[at - 1] || a == at - 1);
            }
        }
    } else {
        assert(list =~= Seq::<u64>::empty());
    }
}

fn sort_ids(list: &Vec<u64>) -> (r: Vec<u64>)
    ensures
        r@ == sorted_ids(list@),
{
    let mut out: Vec<u64> = Vec::new();
    let mut n: usize = 0;
    assert(list@.take(0).len() == 0);
    while n < list.len()
        invariant
            n <= list@.len(),
            out@ == sorted_ids(list@.take(n as int)),
        decreases list@.len() - n,
    {
        let ghost before = out@;
        let id: u64 = list[n];
        let mut at: usize = out.len();
        assert(before.take(at as int) == before);
        while at > 0 && id < out[at - 1]
            invariant
                at <= out@.len(),
                out@ == before,
                id_rank(before, id) == id_rank(before.take(at as int), id),
            decreases at,
        {
            assert(before.take(at as int).last() == before[at - 1]);
            assert(before.take(at as int).drop_last() == before.take(at - 1));
            at -= 1;
        }
        proof {
            if at > 0 {
                assert(before.take(at as int).last() == before[at - 1]);
            }
            assert(id_rank(before, id) == at);
            assert(list@.take(n + 1).drop_last() == list@.take(n as int));
            assert(list@.take(n + 1).last() == id);
        }
        out.insert(at, id);
        n += 1;
    }
    assert(list@.take(n as int) == list@);
    out
}

/// Where effects go: a camera, and the entities whose effects it shows.
pub struct Route {
    pub target: u64,
    pub sources: Vec<u64>,
}

/// Where the effects of a running game go.
pub struct EffectRouting {
    pub routes: Vec<Route>,
}

/// What a routing holds.
pub open spec fn route_models(routes: Seq<Route>) -> Seq<(u64, Seq<u64>)> {
    routes.map_values(|r: Route| (r.target, r.sources@))
}

/// The routes of a running game: the active camera shows its own effects and
/// those of everything that is no camera.
pub open spec fn game_routes(cams: Seq<RouteCam>, others: Seq<u64>) -> Seq<(u64, Seq<u64>)> {
    match route_target(cams) {
        Some(target) => seq![(target, seq![target] + sorted_ids(others))],
        None => Seq::empty(),
    }
}

fn same_ids(a: &Vec<u64>, b: &Vec<u64>) -> (r: bool)
    ensures
        r == (a@ == b@),
{
    if a.len() != b.len() {
        return false;
    }
    let mut i: usize = 0;
    while i < a.len()
        invariant
            i <= a@.len(),
            a@.len() == b@.len(),
            forall|k: int| 0 <= k < i ==> a@[k] == b@[k],
        decreases a@.len() - i,
    {
        if a[i] != b[i] {
            return false;
        }
        i += 1;
    }
    assert(a@ =~= b@);
    true
}

impl EffectRouting {
    /// Route effects from the default scene camera, and from all entities that
    /// are no camera, to the active rendering camera. Writes only a difference;
    /// returns whether it wrote.
    pub fn update(&mut self, cams: &Vec<RouteCam>, others: &Vec<u64>) -> (r: bool)
        ensures
            route_models(final(self).routes@) == game_routes(cams@, others@),
            r == (route_models(old(self).routes@) != game_routes(cams@, others@)),
            !r ==> *final(self) == *old(self),
    {
        let ghost before = route_models(self.routes@);
        let target = match find_route_target(cams) {
            Some(target) => target,
            None => {
                if self.routes.len() == 0 {
                    assert(before =~= game_routes(cams@, others@));
                    return false;
                }
                self.routes = Vec::new();
                assert(route_models(self.routes@) =~= game_routes(cams@, others@));
                return true;
            },
        };
        let mut sources = sort_ids(others);
        sources.insert(0, target);
        assert(sources@ =~= seq![target] + sorted_ids(others@));
        let ghost wanted = game_routes(cams@, others@);
        if self.routes.len() == 1 && self.routes[0].target == target && same_ids(
            &self.routes[0].sources,
            &sources,
        ) {
            assert(before =~= wanted);
            return false;
        }
        proof {
            if before == wanted {
                assert(before[0] == wanted[0]);
                assert(before[0] == (self.routes@[0].target, self.routes@[0].sources@));
            }
        }
        let mut routes: Vec<Route> = Vec::new();
        routes.push(Route { target, sources });
        assert(route_models(routes@) =~= wanted);
        self.routes = routes;
        true
    }
}

// ── Scene changes ──

/// What becomes of the scene loads that were asked for.
pub enum SceneChange {
    /// None was asked for.
    Stay,
    /// There is no project to load from.
    NoProject,
    /// The scene is a global one and is already loaded.
    Resident(String),
    Load(String),
}

/// Take the scene loads that were asked for: only the last one counts.
pub fn take_scene_request(requests: &mut Vec<String>) -> (r: Option<String>)
    ensures
        final(requests)@.len() == 0,
        option_text(r) == (if old(requests)@.len() > 0 {
            Some(old(requests)@.last()@)
        } else {
            None
        }),
{
    let last: Option<String> = requests.pop();
    requests.clear();
    last
}

/// What becomes of a scene load that was asked for. `resident` is whether the
/// scene is loaded as a global one already.
pub fn scene_change(request: Option<String>, has_project: bool, resident: bool) -> (r: SceneChange)
    ensures
        match r {
            SceneChange::Stay => request is None,
            SceneChange::NoProject => request is Some && !has_project,
            SceneChange::Resident(name) => request == Some(name) && has_project && resident,
            SceneChange::Load(name) => request == Some(name) && has_project && !resident,
        },
{
    match request {
        None => SceneChange::Stay,
        Some(name) => if !has_project {
            SceneChange::NoProject
        } else if resident {
            SceneChange::Resident(name)
        } else {
            SceneChange::Load(name)
        },
    }
}

/// Being cleared away when the scene changes: named, no editor camera, not
/// hidden from the hierarchy and not under anything that is, and not
/// persistent.
pub open spec fn cleared(world: Seq<EntityFacts>) -> spec_fn(EntityFacts) -> bool {
    |e: EntityFacts|
        e.named && !e.editor_camera && !e.hidden && !e.persistent && !under_marked(
            world_links(world),
            e.id,
            ids_of(world.filter(is_hidden())),
        )
}

/// The entities of the current scene that go when another is loaded.
pub fn entities_to_clear(world: &Vec<EntityFacts>) -> (r: Vec<u64>)
    ensures
        r@ == ids_of(world@.filter(cleared(world@))),
{
    let links = collect_world_links(world);
    let hidden = hidden_ids(world);
    let test = |e: &EntityFacts| -> (b: bool)
        ensures
            b == (e.named && !e.editor_camera && !e.hidden && !e.persistent && !under_marked(
                links@,
                e.id,
                hidden@,
            )),
        {
            e.named && !e.editor_camera && !e.hidden && !e.persistent && !has_marked_ancestor(
                &links,
                e.id,
                &hidden,
            )
        };
    ids_where(world, test, Ghost(cleared(world@)))
}

/// A persistent entity survives every scene change.
pub proof fn persistent_survives(world: Seq<EntityFacts>, e: EntityFacts)
    ensures
        e.persistent ==> !cleared(world)(e),
        e.hidden ==> !cleared(world)(e),
{
}

/// Whatever a save writes of the current scene goes when another is loaded:
/// nothing of it is there twice after the scene is loaded again.
pub proof fn saved_is_cleared(world: Seq<EntityFacts>, e: EntityFacts)
    ensures
        saved(world)(e) ==> cleared(world)(e),
{
}

/// What scripts hear of a scene load.
pub struct SceneEvent {
    pub path: String,
    pub error: Option<String>,
}

/// A loaded scene, as scripts hear of it.
pub fn loaded_event(event: &SceneLoaded) -> (r: SceneEvent)
    ensures
        r.path@ == event.path@,
        r.error is None,
{
    SceneEvent { path: event.path.clone(), error: None }
}

/// A failed load, as scripts hear of it.
pub fn failed_event(event: &SceneLoadFailed) -> (r: SceneEvent)
    ensures
        r.path@ == event.path@,
        option_text(r.error) == Some(event.error@),
{
    SceneEvent { path: event.path.clone(), error: Some(event.error.clone()) }
}

// ── Render passes ──

/// What the render passes of a camera depend on.
#[derive(Clone, Copy, Debug, PartialEq, Eq, Structural)]
pub struct PassFacts {
    /// A 3D camera.
    pub three_d: bool,
    pub deferred_prepass: bool,
    pub contact_shadows: bool,
    /// Rendered apart from the scene's own cameras.
    pub isolated: bool,
}

/// What to do with a camera's contact shadows.
#[derive(Clone, Copy, Debug, PartialEq, Eq, Structural)]
pub enum ShadowChange {
    Leave,
    Strip,
    Grant,
}

/// Whether a camera needs the deferred prepass added.
pub fn needs_deferred_prepass(deferred: bool, cam: PassFacts) -> (r: bool)
    ensures
        r == (deferred && cam.three_d && !cam.deferred_prepass),
{
    deferred && cam.three_d && !cam.deferred_prepass
}

/// What to do with a camera's contact shadows: they go where they conflict with
/// the deferred prepass or on an isolated camera, and come to forward 3D
/// cameras.
pub open spec fn shadow_change(deferred: bool, cam: PassFacts) -> ShadowChange {
    if cam.contact_shadows && (cam.deferred_prepass || cam.isolated) {
        ShadowChange::Strip
    } else if !deferred && cam.three_d && !cam.contact_shadows && !cam.isolated
        && !cam.deferred_prepass {
        ShadowChange::Grant
    } else {
        ShadowChange::Leave
    }
}

/// What to do with a camera's contact shadows.
pub fn contact_shadows(deferred: bool, cam: PassFacts) -> (r: ShadowChange)
    ensures
        r == shadow_change(deferred, cam),
{
    if cam.contact_shadows && (cam.deferred_prepass || cam.isolated) {
        ShadowChange::Strip
    } else if !deferred && cam.three_d && !cam.contact_shadows && !cam.isolated
        && !cam.deferred_prepass {
        ShadowChange::Grant
    } else {
        ShadowChange::Leave
    }
}

/// A camera's contact shadows after a change.
pub open spec fn shadows_after(cam: PassFacts, change: ShadowChange) -> bool {
    match change {
        ShadowChange::Leave => cam.contact_shadows,
        ShadowChange::Strip => false,
        ShadowChange::Grant => true,
    }
}

/// No camera ends up with contact shadows and the deferred prepass, or with
/// contact shadows while isolated.
pub proof fn shadows_never_conflict(deferred: bool, cam: PassFacts)
    ensures
        shadows_after(cam, shadow_change(deferred, cam)) ==> !cam.deferred_prepass
            && !cam.isolated,
{
}

} // verus!
