//! Instances of other scenes: which to expand, and which to save back.

use vstd::prelude::*;

use crate::lineage::holds_id;
use crate::scene::paths::same_texts;
use crate::text::{same_text, texts};

verus! {

/// An instance of another scene.
pub struct InstanceFacts {
    pub entity: u64,
    /// The source file's absolute path, by its components.
    pub source: Vec<String>,
    /// Loaded and unloaded by distance while world streaming is in effect.
    pub streamed: bool,
    pub has_children: bool,
}

/// What an instance holds.
pub struct InstanceModel {
    pub entity: u64,
    pub source: Seq<Seq<char>>,
    pub streamed: bool,
    pub has_children: bool,
}

impl View for InstanceFacts {
    type V = InstanceModel;

    open spec fn view(&self) -> InstanceModel {
        InstanceModel {
            entity: self.entity,
            source: texts(self.source@),
            streamed: self.streamed,
            has_children: self.has_children,
        }
    }
}

pub open spec fn instance_models(list: Seq<InstanceFacts>) -> Seq<InstanceModel> {
    list.map_values(|i: InstanceFacts| i@)
}

/// What lists of path components hold.
pub open spec fn part_lists(list: Seq<Vec<String>>) -> Seq<Seq<Seq<char>>> {
    list.map_values(|p: Vec<String>| texts(p@))
}

/// Being an instance to expand now: not left to the streaming driver, without
/// children yet, and not of a scene that is being expanded further up.
pub open spec fn to_expand(streaming: bool, stack: Seq<Seq<Seq<char>>>) -> spec_fn(
    InstanceModel,
) -> bool {
    |i: InstanceModel|
        !(streaming && i.streamed) && !i.has_children && !stack.contains(i.source)
}

fn path_listed(list: &Vec<Vec<String>>, path: &Vec<String>) -> (r: bool)
    ensures
        r == part_lists(list@).contains(texts(path@)),
{
    let mut i: usize = 0;
    while i < list.len()
        invariant
            i <= list@.len(),
            forall|k: int| 0 <= k < i ==> part_lists(list@)[k] != texts(path@),
        decreases list@.len() - i,
    {
        assert(part_lists(list@)[i as int] == texts(list@[i as int]@));
        if same_texts(&list[i], path) {
            return true;
        }
        i += 1;
    }
    false
}

/// The instances to expand, by their place in the list. Already-expanded ones
/// (any with children) are skipped, and so is a scene that is already being
/// expanded up the `stack`, which would recurse for ever.
pub fn expand_scene_instances(
    instances: &Vec<InstanceFacts>,
    streaming: bool,
    stack: &Vec<Vec<String>>,
) -> (r: Vec<usize>)
    ensures
        forall|k: int| 0 <= k < r@.len() ==> #[trigger] r@[k] < instances@.len(),
        r@.map_values(|i: usize| instances@[i as int]@) == instance_models(instances@).filter(
            to_expand(streaming, part_lists(stack@)),
        ),
{
    let ghost models = instance_models(instances@);
    let ghost pass = to_expand(streaming, part_lists(stack@));
    let mut out: Vec<usize> = Vec::new();
    let mut i: usize = 0;
    proof {
        reveal(Seq::filter);
        assert(models.take(0).filter(pass) =~= Seq::<InstanceModel>::empty());
        assert(out@.map_values(|i: usize| instances@[i as int]@) =~= Seq::<InstanceModel>::empty());
    }
    while i < instances.len()
        invariant
            i <= instances@.len(),
            models == instance_models(instances@),
            pass == to_expand(streaming, part_lists(stack@)),
            forall|k: int| 0 <= k < out@.len() ==> #[trigger] out@[k] < instances@.len(),
            out@.map_values(|i: usize| instances@[i as int]@) == models.take(i as int).filter(pass),
        decreases instances@.len() - i,
    {
        let ghost before = out@.map_values(|i: usize| instances@[i as int]@);
        proof {
            reveal(Seq::filter);
            assert(models.take(i + 1).drop_last() == models.take(i as int));
            assert(models.take(i + 1).last() == instances@[i as int]@);
        }
        let item = &instances[i];
        if !(streaming && item.streamed) && !item.has_children && !path_listed(stack, &item.source) {
            out.push(i);
            assert(out@.map_values(|i: usize| instances@[i as int]@) =~= before.push(
                instances@[i as int]@,
            ));
        }
        i += 1;
    }
    assert(models.take(i as int) == models);
    out
}

/// Being a root that was not there before, other than the instance itself.
pub open spec fn arrived(before: Seq<u64>, instance: u64) -> spec_fn(u64) -> bool {
    |e: u64| !before.contains(e) && e != instance
}

/// The roots that a load added to the world: they go under the instance.
pub fn new_roots(before: &Vec<u64>, after: &Vec<u64>, instance: u64) -> (r: Vec<u64>)
    ensures
        r@ == after@.filter(arrived(before@, instance)),
{
    let mut out: Vec<u64> = Vec::new();
    let mut i: usize = 0;
    proof {
        reveal(Seq::filter);
        assert(after@.take(0).filter(arrived(before@, instance)) =~= Seq::<u64>::empty());
    }
    while i < after.len()
        invariant
            i <= after@.len(),
            out@ == after@.take(i as int).filter(arrived(before@, instance)),
        decreases after@.len() - i,
    {
        proof {
            reveal(Seq::filter);
            assert(after@.take(i + 1).drop_last() == after@.take(i as int));
        }
        if !holds_id(before, after[i]) && after[i] != instance {
            out.push(after[i]);
        }
        i += 1;
    }
    assert(after@.take(i as int) == after@);
    out
}

// ── Saving instances back to their sources ──

/// An instance and the source it would be saved to.
pub struct InstanceSource {
    pub entity: u64,
    /// The source as the instance refers to it.
    pub source: String,
    /// The file it resolves to, where there is one.
    pub canonical: Option<Vec<String>>,
}

/// What an instance source holds.
pub struct SourceModel {
    pub entity: u64,
    pub source: Seq<char>,
    pub canonical: Option<Seq<Seq<char>>>,
}

/// What an optional list of components holds.
pub open spec fn option_parts(parts: Option<Vec<String>>) -> Option<Seq<Seq<char>>> {
    match parts {
        Some(p) => Some(texts(p@)),
        None => None,
    }
}

impl View for InstanceSource {
    type V = SourceModel;

    open spec fn view(&self) -> SourceModel {
        SourceModel {
            entity: self.entity,
            source: self.source@,
            canonical: option_parts(self.canonical),
        }
    }
}

pub open spec fn source_models(list: Seq<InstanceSource>) -> Seq<SourceModel> {
    list.map_values(|i: InstanceSource| i@)
}

/// How many instances refer to a source.
pub open spec fn references_to(list: Seq<SourceModel>, source: Seq<char>) -> nat
    decreases list.len(),
{
    if list.len() == 0 {
        0
    } else {
        references_to(list.drop_last(), source) + if list.last().source == source {
            1nat
        } else {
            0nat
        }
    }
}

/// Being an instance to save back. An instance of the host scene itself would
/// clobber it; instances that share a source are ambiguous.
pub open spec fn saved_back(
    list: Seq<SourceModel>,
    host: Option<Seq<Seq<char>>>,
) -> spec_fn(SourceModel) -> bool {
    |i: SourceModel|
        !(host is Some && i.canonical == host) && references_to(list, i.source) <= 1
}

fn count_references(list: &Vec<InstanceSource>, source: &str) -> (r: usize)
    ensures
        r == references_to(source_models(list@), source@),
        r <= list@.len(),
{
    let ghost models = source_models(list@);
    let mut n: usize = 0;
    let mut i: usize = 0;
    assert(models.take(0).len() == 0);
    while i < list.len()
        invariant
            i <= list@.len(),
            n <= i,
            models == source_models(list@),
            n == references_to(models.take(i as int), source@),
        decreases list@.len() - i,
    {
        assert(models.take(i + 1).drop_last() == models.take(i as int));
        assert(models.take(i + 1).last() == list@[i as int]@);
        if same_text(&list[i].source, source) {
            n += 1;
        }
        i += 1;
    }
    assert(models.take(i as int) == models);
    n
}

/// The instances whose subtree is written back to its source, by their place in
/// the list. Skipped are instances of the host scene itself, and all instances
/// that share a source: picking which copy's interior to push back is ambiguous,
/// and a silent last-write-wins would clobber edits made to the other copies.
pub fn save_all_scene_instances(list: &Vec<InstanceSource>, host: &Option<Vec<String>>) -> (r: Vec<usize>)
    ensures
        forall|k: int| 0 <= k < r@.len() ==> #[trigger] r@[k] < list@.len(),
        r@.map_values(|i: usize| list@[i as int]@) == source_models(list@).filter(
            saved_back(source_models(list@), option_parts(*host)),
        ),
{
    let ghost models = source_models(list@);
    let ghost pass = saved_back(models, option_parts(*host));
    let mut out: Vec<usize> = Vec::new();
    let mut i: usize = 0;
    proof {
        reveal(Seq::filter);
        assert(models.take(0).filter(pass) =~= Seq::<SourceModel>::empty());
        assert(out@.map_values(|i: usize| list@[i as int]@) =~= Seq::<SourceModel>::empty());
    }
    while i < list.len()
        invariant
            i <= list@.len(),
            models == source_models(list@),
            pass == saved_back(models, option_parts(*host)),
            forall|k: int| 0 <= k < out@.len() ==> #[trigger] out@[k] < list@.len(),
            out@.map_values(|i: usize| list@[i as int]@) == models.take(i as int).filter(pass),
        decreases list@.len() - i,
    {
        let ghost before = out@.map_values(|i: usize| list@[i as int]@);
        proof {
            reveal(Seq::filter);
            assert(models.take(i + 1).drop_last() == models.take(i as int));
            assert(models.take(i + 1).last() == list@[i as int]@);
        }
        let of_host: bool = match (host, &list[i].canonical) {
            (Some(h), Some(c)) => same_texts(h, c),
            _ => false,
        };
        if !of_host && count_references(list, &list[i].source) <= 1 {
            out.push(i);
            assert(out@.map_values(|i: usize| list@[i as int]@) =~= before.push(list@[i as int]@));
        }
        i += 1;
    }
    assert(models.take(i as int) == models);
    out
}

/// The name of a new instance: its file's stem, or `Scene`.
pub fn instance_name(stem: Option<&str>) -> (r: String)
    ensures
        r@ == (match stem {
            Some(s) => s@,
            None => "Scene"@,
        }),
{
    match stem {
        Some(s) => s.to_owned(),
        None => "Scene".to_owned(),
    }
}

} // verus!
