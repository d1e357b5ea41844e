//! Global scenes: loaded beside the open one and kept across scene changes.

use vstd::prelude::*;

use crate::lineage::{holds_id, Link};
use crate::scene::cycle::path_models;
use crate::scene::load::{LoadModel, SceneLoadState};
use crate::scene::paths::{paths_equal, same_file, PathModel, ScenePath};

verus! {

/// What the autoload pass spawned, so that a stop can despawn exactly what a
/// play added.
pub struct AutoloadedEntities {
    pub entities: Vec<u64>,
    /// Which autoload scenes are currently resident, so a second pass doesn't
    /// spawn a duplicate set.
    pub paths: Vec<ScenePath>,
}

impl Default for AutoloadedEntities {
    fn default() -> (r: Self)
        ensures
            r.entities@.len() == 0,
            r.paths@.len() == 0,
    {
        AutoloadedEntities { entities: Vec::new(), paths: Vec::new() }
    }
}

/// Whether some path of a list names the file of `path`.
pub open spec fn listed(paths: Seq<PathModel>, path: PathModel) -> bool {
    exists|i: int| 0 <= i < paths.len() && same_file(#[trigger] paths[i], path)
}

/// Whether a global scene is loaded: it is not the open scene, and not resident.
pub open spec fn wanted(
    resident: Seq<PathModel>,
    open_scene: Option<PathModel>,
    path: PathModel,
) -> bool {
    !(open_scene matches Some(open) && same_file(open, path)) && !listed(resident, path)
}

/// The resident scenes after a pass over `scenes`: each one that is wanted when
/// its turn comes is loaded.
pub open spec fn resident_after(
    resident: Seq<PathModel>,
    open_scene: Option<PathModel>,
    scenes: Seq<PathModel>,
) -> Seq<PathModel>
    decreases scenes.len(),
{
    if scenes.len() == 0 {
        resident
    } else {
        let before = resident_after(resident, open_scene, scenes.drop_last());
        if wanted(before, open_scene, scenes.last()) {
            before.push(scenes.last())
        } else {
            before
        }
    }
}

/// Which of `scenes` a pass loads, in order.
pub open spec fn load_plan(
    resident: Seq<PathModel>,
    open_scene: Option<PathModel>,
    scenes: Seq<PathModel>,
) -> Seq<int>
    decreases scenes.len(),
{
    if scenes.len() == 0 {
        Seq::empty()
    } else {
        let rest = scenes.drop_last();
        let before = load_plan(resident, open_scene, rest);
        if wanted(resident_after(resident, open_scene, rest), open_scene, scenes.last()) {
            before.push(scenes.len() - 1)
        } else {
            before
        }
    }
}

/// What an optional path holds.
pub open spec fn option_path(path: Option<ScenePath>) -> Option<PathModel> {
    match path {
        Some(p) => Some(p@),
        None => None,
    }
}

/// What an optional load state holds.
pub open spec fn option_load(state: Option<SceneLoadState>) -> Option<LoadModel> {
    match state {
        Some(s) => Some(s@),
        None => None,
    }
}

/// A pass over the global scenes: which of them to load, in order, and the
/// record of the open document, to be put back afterwards.
pub struct AutoloadPass {
    pub plan: Vec<usize>,
    pub saved: Option<SceneLoadState>,
}

impl AutoloadPass {
    /// End the pass: a global scene is not a document, it is loaded beside one,
    /// so the record of which document is open is what it was before.
    pub fn finish(self, state: &mut SceneLoadState)
        ensures
            final(state)@ == (match option_load(self.saved) {
                Some(saved) => saved,
                None => old(state)@,
            }),
    {
        if let Some(saved) = self.saved {
            *state = saved;
        }
    }
}

/// Being an entity that was not there before.
pub open spec fn spawned_since(before: Seq<u64>) -> spec_fn(u64) -> bool {
    |e: u64| !before.contains(e)
}

impl AutoloadedEntities {
    /// Whether a scene is resident.
    pub fn is_resident(&self, path: &ScenePath) -> (r: bool)
        ensures
            r == listed(path_models(self.paths@), path@),
    {
        let ghost models = path_models(self.paths@);
        let mut i: usize = 0;
        while i < self.paths.len()
            invariant
                i <= self.paths@.len(),
                models == path_models(self.paths@),
                forall|k: int| 0 <= k < i ==> !same_file(#[trigger] models[k], path@),
            decreases self.paths@.len() - i,
        {
            assert(models[i as int] == self.paths@[i as int]@);
            if paths_equal(&self.paths[i], path) {
                return true;
            }
            i += 1;
        }
        false
    }

    /// Whether to load a global scene: not where it is the scene already open
    /// (loading it again would spawn a second copy of everything), and not where
    /// it is resident already.
    pub fn should_load(&self, open_scene: Option<&ScenePath>, path: &ScenePath) -> (r: bool)
        ensures
            r == wanted(
                path_models(self.paths@),
                match open_scene {
                    Some(open) => Some(open@),
                    None => None,
                },
                path@,
            ),
    {
        let is_open: bool = match open_scene {
            Some(open) => paths_equal(open, path),
            None => false,
        };
        !is_open && !self.is_resident(path)
    }

    /// Start a pass over the project's global scenes: which of them to load, each
    /// to be recorded when it is. One that is open, resident already or named
    /// before in the list is passed over.
    pub fn load_autoloads(
        &self,
        open_scene: Option<ScenePath>,
        scenes: &Vec<ScenePath>,
        state: Option<&SceneLoadState>,
    ) -> (r: AutoloadPass)
        ensures
            r.plan@.map_values(|i: usize| i as int) == load_plan(
                path_models(self.paths@),
                option_path(open_scene),
                path_models(scenes@),
            ),
            option_load(r.saved) == (match state {
                Some(s) => Some(s@),
                None => None,
            }),
    {
        let ghost resident = path_models(self.paths@);
        let ghost open = option_path(open_scene);
        let ghost all = path_models(scenes@);
        let mut plan: Vec<usize> = Vec::new();
        let mut i: usize = 0;
        proof {
            assert(all.take(0).len() == 0);
            assert(plan@.map_values(|i: usize| i as int) =~= Seq::<int>::empty());
        }
        while i < scenes.len()
            invariant
                i <= scenes@.len(),
                resident == path_models(self.paths@),
                open == option_path(open_scene),
                all == path_models(scenes@),
                forall|k: int| 0 <= k < plan@.len() ==> #[trigger] plan@[k] < i,
                plan@.map_values(|i: usize| i as int) == load_plan(
                    resident,
                    open,
                    all.take(i as int),
                ),
            decreases scenes@.len() - i,
        {
            let ghost now = resident_after(resident, open, all.take(i as int));
            proof {
                assert(all.take(i + 1).drop_last() == all.take(i as int));
                assert(all.take(i + 1).last() == scenes@[i as int]@);
                plan_is_recorded(resident, open, all.take(i as int));
            }
            let should = self.should_load(
                match &open_scene {
                    Some(open) => Some(open),
                    None => None,
                },
                &scenes[i],
            );
            let mut repeated = false;
            let mut k: usize = 0;
            while k < plan.len()
                invariant
                    k <= plan@.len(),
                    i < scenes@.len(),
                    all == path_models(scenes@),
                    forall|j: int| 0 <= j < plan@.len() ==> #[trigger] plan@[j] < i,
                    repeated == exists|j: int|
                        0 <= j < k && same_file(
                            all[#[trigger] plan@[j] as int],
                            all[i as int],
                        ),
                decreases plan@.len() - k,
            {
                if paths_equal(&scenes[plan[k]], &scenes[i]) {
                    repeated = true;
                }
                k += 1;
            }
            proof {
                let added = load_plan(resident, open, all.take(i as int)).map_values(
                    |n: int| all.take(i as int)[n],
                );
                assert(now == resident + added);
                assert forall|j: int| 0 <= j < plan@.len() implies #[trigger] added[j]
                    == all[plan@[j] as int] by {
                    assert(plan@.map_values(|i: usize| i as int)[j] == plan@[j]);
                }
                let path = all[i as int];
                if repeated {
                    let j = choose|j: int|
                        0 <= j < plan@.len() && same_file(
                            all[#[trigger] plan@[j] as int],
                            all[i as int],
                        );
                    assert(now[resident.len() + j] == added[j]);
                }
                if listed(resident, path) {
                    let j = choose|j: int|
                        0 <= j < resident.len() && same_file(#[trigger] resident[j], path);
                    assert(now[j] == resident[j]);
                }
                if listed(now, path) && !listed(resident, path) {
                    let j = choose|j: int|
                        0 <= j < now.len() && same_file(#[trigger] now[j], path);
                    if j < resident.len() {
                        assert(resident[j] == now[j]);
                    }
                    assert(now[j] == added[j - resident.len()]);
                    assert(plan@[j - resident.len()] < i);
                }
                assert(wanted(now, open, path) == (should && !repeated));
            }
            if should && !repeated {
                let ghost before = plan@.map_values(|i: usize| i as int);
                plan.push(i);
                assert(plan@.map_values(|i: usize| i as int) =~= before.push(i as int));
            }
            i += 1;
        }
        assert(all.take(i as int) == all);
        let saved: Option<SceneLoadState> = match state {
            Some(state) => Some(save_load_state(state)),
            None => None,
        };
        AutoloadPass { plan, saved }
    }

    /// Record a loaded global scene: what it spawned is the difference between
    /// the entities before and after. Returns the new entities, to be marked as
    /// persistent.
    pub fn record(&mut self, path: ScenePath, before: &Vec<u64>, after: &Vec<u64>) -> (r: Vec<u64>)
        ensures
            r@ == after@.filter(spawned_since(before@)),
            final(self).entities@ == old(self).entities@ + r@,
            path_models(final(self).paths@) == path_models(old(self).paths@).push(path@),
    {
        let mut new: Vec<u64> = Vec::new();
        let mut i: usize = 0;
        let ghost first = self.entities@;
        proof {
            reveal(Seq::filter);
            assert(after@.take(0).filter(spawned_since(before@)) =~= Seq::<u64>::empty());
        }
        while i < after.len()
            invariant
                i <= after@.len(),
                first == old(self).entities@,
                self.paths == old(self).paths,
                new@ == after@.take(i as int).filter(spawned_since(before@)),
                self.entities@ == first + new@,
            decreases after@.len() - i,
        {
            proof {
                reveal(Seq::filter);
                assert(after@.take(i + 1).drop_last() == after@.take(i as int));
            }
            if !holds_id(before, after[i]) {
                new.push(after[i]);
                self.entities.push(after[i]);
            }
            i += 1;
        }
        assert(after@.take(i as int) == after@);
        let ghost paths_before = path_models(self.paths@);
        self.paths.push(path);
        assert(path_models(self.paths@) =~= paths_before.push(path@));
        new
    }

    /// Stop: forget what was loaded and hand back its entities to be despawned.
    /// The residency record goes with them, or the next play would believe the
    /// scenes were still loaded and skip them.
    pub fn unload(&mut self) -> (r: Vec<u64>)
        ensures
            r@ == old(self).entities@,
            final(self).entities@.len() == 0,
            final(self).paths@.len() == 0,
    {
        let mut out: Vec<u64> = Vec::new();
        core::mem::swap(&mut self.entities, &mut out);
        self.paths = Vec::new();
        out
    }
}

/// Loading a global scene records it: a second pass does not load it again.
pub proof fn loading_is_idempotent(resident: Seq<PathModel>, open_scene: Option<PathModel>, path: PathModel)
    ensures
        !wanted(resident.push(path), open_scene, path),
{
    let all = resident.push(path);
    assert(all[resident.len() as int] == path);
    assert(same_file(all[resident.len() as int], path));
}

/// A pass leaves resident what was, followed by what it planned to load.
pub proof fn plan_is_recorded(
    resident: Seq<PathModel>,
    open_scene: Option<PathModel>,
    scenes: Seq<PathModel>,
)
    ensures
        forall|k: int|
            0 <= k < load_plan(resident, open_scene, scenes).len() ==> 0 <= #[trigger] load_plan(
                resident,
                open_scene,
                scenes,
            )[k] < scenes.len(),
        resident_after(resident, open_scene, scenes) == resident + load_plan(
            resident,
            open_scene,
            scenes,
        ).map_values(|i: int| scenes[i]),
    decreases scenes.len(),
{
    let plan = load_plan(resident, open_scene, scenes);
    let added = plan.map_values(|i: int| scenes[i]);
    if scenes.len() == 0 {
        assert(resident + added =~= resident);
    } else {
        let rest = scenes.drop_last();
        let plan_before = load_plan(resident, open_scene, rest);
        let before = plan_before.map_values(|i: int| rest[i]);
        plan_is_recorded(resident, open_scene, rest);
        if wanted(resident_after(resident, open_scene, rest), open_scene, scenes.last()) {
            assert(added =~= before.push(scenes.last()));
            assert(resident + added =~= (resident + before).push(scenes.last()));
        } else {
            assert(added =~= before);
        }
    }
}

proof fn none_wanted_after(
    resident: Seq<PathModel>,
    open_scene: Option<PathModel>,
    scenes: Seq<PathModel>,
)
    ensures
        forall|k: int|
            0 <= k < scenes.len() ==> !wanted(
                resident_after(resident, open_scene, scenes),
                open_scene,
                #[trigger] scenes[k],
            ),
    decreases scenes.len(),
{
    if scenes.len() > 0 {
        let rest = scenes.drop_last();
        let before = resident_after(resident, open_scene, rest);
        let after = resident_after(resident, open_scene, scenes);
        none_wanted_after(resident, open_scene, rest);
        assert forall|k: int| 0 <= k < scenes.len() implies !wanted(
            after,
            open_scene,
            #[trigger] scenes[k],
        ) by {
            if k < rest.len() {
                assert(!wanted(before, open_scene, rest[k]));
                if listed(before, rest[k]) {
                    let j = choose|j: int|
                        0 <= j < before.len() && same_file(#[trigger] before[j], rest[k]);
                    assert(after[j] == before[j]);
                }
            } else if wanted(before, open_scene, scenes.last()) {
                loading_is_idempotent(before, open_scene, scenes.last());
            }
        }
    }
}

proof fn unwanted_are_not_planned(
    resident: Seq<PathModel>,
    open_scene: Option<PathModel>,
    scenes: Seq<PathModel>,
)
    requires
        forall|k: int|
            0 <= k < scenes.len() ==> !wanted(resident, open_scene, #[trigger] scenes[k]),
    ensures
        load_plan(resident, open_scene, scenes).len() == 0,
        resident_after(resident, open_scene, scenes) == resident,
    decreases scenes.len(),
{
    if scenes.len() > 0 {
        let rest = scenes.drop_last();
        assert forall|k: int| 0 <= k < rest.len() implies !wanted(
            resident,
            open_scene,
            #[trigger] rest[k],
        ) by {
            assert(scenes[k] == rest[k]);
        }
        unwanted_are_not_planned(resident, open_scene, rest);
        assert(!wanted(resident, open_scene, scenes[scenes.len() - 1]));
    }
}

/// After a pass over the whole list, no scene of it is wanted, and a second pass
/// loads nothing and adds nothing to what is resident.
pub proof fn second_pass_loads_nothing(
    resident: Seq<PathModel>,
    open_scene: Option<PathModel>,
    scenes: Seq<PathModel>,
)
    ensures
        ({
            let after = resident_after(resident, open_scene, scenes);
            &&& forall|k: int|
                0 <= k < scenes.len() ==> !wanted(after, open_scene, #[trigger] scenes[k])
            &&& load_plan(after, open_scene, scenes).len() == 0
            &&& resident_after(after, open_scene, scenes) == after
        }),
{
    none_wanted_after(resident, open_scene, scenes);
    unwanted_are_not_planned(resident_after(resident, open_scene, scenes), open_scene, scenes);
}

/// The scene that is open is never loaded beside itself.
pub proof fn open_scene_is_passed_over(
    resident: Seq<PathModel>,
    open_scene: PathModel,
    scenes: Seq<PathModel>,
    k: int,
)
    requires
        0 <= k < scenes.len(),
        same_file(open_scene, scenes[k]),
    ensures
        !load_plan(resident, Some(open_scene), scenes).contains(k),
    decreases scenes.len(),
{
    let rest = scenes.drop_last();
    let plan = load_plan(resident, Some(open_scene), scenes);
    let before = load_plan(resident, Some(open_scene), rest);
    plan_is_recorded(resident, Some(open_scene), rest);
    if k < rest.len() {
        open_scene_is_passed_over(resident, open_scene, rest, k);
    }
    if plan.contains(k) {
        let j = choose|j: int| 0 <= j < plan.len() && plan[j] == k;
        if j < before.len() {
            assert(before[j] == k);
        }
    }
}

/// After an unload, a scene that is not the open one is loaded again.
pub proof fn unloaded_comes_back(open_scene: Option<PathModel>, path: PathModel)
    ensures
        wanted(Seq::empty(), open_scene, path) == !(open_scene matches Some(open) && same_file(
            open,
            path,
        )),
{
}

/// A copy of a load state, to be put back later.
fn save_load_state(state: &SceneLoadState) -> (r: SceneLoadState)
    ensures
        r@ == state@,
{
    let current_path: Option<String> = match &state.current_path {
        Some(path) => Some(path.clone()),
        None => None,
    };
    SceneLoadState { phase: state.phase, current_path, progress: state.progress }
}

/// Being parented to something persistent without being so itself.
pub open spec fn inherits(persistent: Seq<u64>) -> spec_fn(Link) -> bool {
    |l: Link| !persistent.contains(l.child) && persistent.contains(l.parent)
}

/// The entities that become persistent because they were just put under
/// something that is: a subtree attached frames later missed the pass.
pub fn propagate_persistent_to_children(added: &Vec<Link>, persistent: &Vec<u64>) -> (r: Vec<u64>)
    ensures
        r@ == added@.filter(inherits(persistent@)).map_values(|l: Link| l.child),
{
    let mut out: Vec<u64> = Vec::new();
    let mut i: usize = 0;
    proof {
        reveal(Seq::filter);
        assert(added@.take(0).filter(inherits(persistent@)) =~= Seq::<Link>::empty());
    }
    while i < added.len()
        invariant
            i <= added@.len(),
            out@ == added@.take(i as int).filter(inherits(persistent@)).map_values(
                |l: Link| l.child,
            ),
        decreases added@.len() - i,
    {
        let ghost before = added@.take(i as int).filter(inherits(persistent@));
        proof {
            reveal(Seq::filter);
            assert(added@.take(i + 1).drop_last() == added@.take(i as int));
            assert(added@.take(i + 1).last() == added@[i as int]);
        }
        if !holds_id(persistent, added[i].child) && holds_id(persistent, added[i].parent) {
            out.push(added[i].child);
            assert(before.push(added@[i as int]).map_values(|l: Link| l.child)
                =~= before.map_values(|l: Link| l.child).push(added@[i as int].child));
        }
        i += 1;
    }
    assert(added@.take(i as int) == added@);
    out
}

} // verus!
