//! Circles of references, where the references of every scene are at hand.

use vstd::prelude::*;

use crate::scene::cycle::{
    chain, leads_to, path_models, reaches, refers, RefsOf, ReferenceSearch,
};
use crate::scene::paths::{same_file, same_texts, PathModel, ScenePath};

verus! {

/// A scene and the scenes it refers to.
pub struct SceneRefs {
    pub from: ScenePath,
    pub to: Vec<ScenePath>,
}

/// What a scene and its references hold.
pub open spec fn refs_models(list: Seq<SceneRefs>) -> Seq<RefsOf> {
    list.map_values(|r: SceneRefs| RefsOf { from: r.from@, to: path_models(r.to@) })
}

/// Everything that the scene with this key refers to.
pub open spec fn gathered(list: Seq<RefsOf>, key: Seq<Seq<char>>) -> Seq<PathModel>
    decreases list.len(),
{
    if list.len() == 0 {
        Seq::empty()
    } else if list.last().from.key() == key {
        gathered(list.drop_last(), key) + list.last().to
    } else {
        gathered(list.drop_last(), key)
    }
}

proof fn gathered_is_referred(list: Seq<RefsOf>, a: PathModel, b: PathModel)
    ensures
        gathered(list, a.key()).contains(b) <==> refers(list, a, b),
    decreases list.len(),
{
    let key = a.key();
    if list.len() > 0 {
        let rest = list.drop_last();
        let before = gathered(rest, key);
        gathered_is_referred(rest, a, b);
        if refers(rest, a, b) {
            let i = choose|i: int|
                0 <= i < rest.len() && (#[trigger] rest[i]).from.key() == key
                    && rest[i].to.contains(b);
            assert(list[i] == rest[i]);
            assert(refers(list, a, b));
        }
        if list.last().from.key() == key && list.last().to.contains(b) {
            assert(list[list.len() - 1].to.contains(b));
            assert(refers(list, a, b));
        }
        if refers(list, a, b) {
            let i = choose|i: int|
                0 <= i < list.len() && (#[trigger] list[i]).from.key() == key
                    && list[i].to.contains(b);
            if i < rest.len() {
                assert(rest[i] == list[i]);
                assert(refers(rest, a, b));
            }
        }
        if list.last().from.key() == key {
            let all = before + list.last().to;
            if before.contains(b) {
                let k = choose|k: int| 0 <= k < before.len() && before[k] == b;
                assert(all[k] == b);
            }
            if list.last().to.contains(b) {
                let k = choose|k: int| 0 <= k < list.last().to.len() && list.last().to[k] == b;
                assert(all[before.len() + k] == b);
            }
            if all.contains(b) {
                let k = choose|k: int| 0 <= k < all.len() && all[k] == b;
                if k < before.len() {
                    assert(before[k] == b);
                } else {
                    assert(list.last().to[k - before.len()] == b);
                }
            }
        }
    }
}

fn gather(list: &Vec<SceneRefs>, path: &ScenePath) -> (r: Vec<ScenePath>)
    ensures
        path_models(r@) == gathered(refs_models(list@), path@.key()),
{
    let key = path.key();
    let ghost models = refs_models(list@);
    let mut out: Vec<ScenePath> = Vec::new();
    let mut i: usize = 0;
    assert(models.take(0).len() == 0);
    assert(path_models(out@) =~= Seq::<PathModel>::empty());
    while i < list.len()
        invariant
            i <= list@.len(),
            models == refs_models(list@),
            crate::text::texts(key@) == path@.key(),
            path_models(out@) == gathered(models.take(i as int), path@.key()),
        decreases list@.len() - i,
    {
        let ghost before = path_models(out@);
        proof {
            assert(models.take(i + 1).drop_last() == models.take(i as int));
            assert(models.take(i + 1).last() == models[i as int]);
            assert(before + path_models(list@[i as int].to@).take(0) =~= before);
        }
        if same_texts(&list[i].from.key(), &key) {
            let refs: &Vec<ScenePath> = &list[i].to;
            let mut k: usize = 0;
            while k < refs.len()
                invariant
                    k <= refs@.len(),
                    path_models(out@) == before + path_models(refs@).take(k as int),
                decreases refs@.len() - k,
            {
                let next: ScenePath = refs[k].clone();
                let ghost so_far = path_models(out@);
                out.push(next);
                proof {
                    assert(path_models(out@) =~= so_far.push(next@));
                    assert(path_models(refs@).take(k + 1) =~= path_models(refs@).take(
                        k as int,
                    ).push(next@));
                    assert(path_models(out@) =~= before + path_models(refs@).take(k + 1));
                }
                k += 1;
            }
            assert(path_models(refs@).take(k as int) =~= path_models(refs@));
        }
        i += 1;
    }
    assert(models.take(i as int) =~= models);
    out
}

/// The keys that a search can come across: the source's, and those of every
/// reference.
spec fn keys_of(list: Seq<RefsOf>, source: PathModel) -> Seq<Seq<Seq<char>>>
    decreases list.len(),
{
    if list.len() == 0 {
        seq![source.key()]
    } else {
        keys_of(list.drop_last(), source) + list.last().to.map_values(|p: PathModel| p.key())
    }
}

proof fn keys_cover(list: Seq<RefsOf>, source: PathModel, i: int, b: PathModel)
    ensures
        keys_of(list, source).contains(source.key()),
        0 <= i < list.len() && list[i].to.contains(b) ==> keys_of(list, source).contains(b.key()),
    decreases list.len(),
{
    if list.len() == 0 {
        assert(keys_of(list, source)[0] == source.key());
    } else {
        let rest = list.drop_last();
        let before = keys_of(rest, source);
        let more = list.last().to.map_values(|p: PathModel| p.key());
        let all = keys_of(list, source);
        keys_cover(rest, source, i, b);
        let s = choose|s: int| 0 <= s < before.len() && before[s] == source.key();
        assert(all[s] == source.key());
        if 0 <= i < list.len() && list[i].to.contains(b) {
            if i < rest.len() {
                assert(rest[i] == list[i]);
                let k = choose|k: int| 0 <= k < before.len() && before[k] == b.key();
                assert(all[k] == b.key());
            } else {
                let k = choose|k: int| 0 <= k < list.last().to.len() && list.last().to[k] == b;
                assert(more[k] == b.key());
                assert(all[before.len() + k] == b.key());
            }
        }
    }
}

/// Whether every answer tells all that its scene refers to.
spec fn faithful(answers: Seq<RefsOf>, list: Seq<RefsOf>) -> bool {
    forall|i: int|
        0 <= i < answers.len() ==> (#[trigger] answers[i]).to == gathered(
            list,
            answers[i].from.key(),
        )
}

/// What faithful answers say, the list says.
proof fn answers_hold(answers: Seq<RefsOf>, list: Seq<RefsOf>, a: PathModel, b: PathModel)
    requires
        faithful(answers, list),
        refers(answers, a, b),
    ensures
        refers(list, a, b),
{
    let i = choose|i: int|
        0 <= i < answers.len() && (#[trigger] answers[i]).from.key() == a.key()
            && answers[i].to.contains(b);
    assert(answers[i].to == gathered(list, a.key()));
    gathered_is_referred(list, a, b);
}

/// A chain of faithful answers is a chain of the list.
proof fn chain_holds(
    answers: Seq<RefsOf>,
    list: Seq<RefsOf>,
    source: PathModel,
    path: Seq<PathModel>,
)
    requires
        faithful(answers, list),
        chain(answers, source, path),
    ensures
        chain(list, source, path),
{
    assert forall|k: int| 0 < k < path.len() implies refers(list, path[k - 1], #[trigger] path[k]) by {
        assert(refers(answers, path[k - 1], path[k]));
        answers_hold(answers, list, path[k - 1], path[k]);
    }
}

/// A chain of the list from the source is a chain of the answers, where the
/// search has been everywhere.
proof fn chain_was_walked(
    search: ReferenceSearch,
    list: Seq<RefsOf>,
    path: Seq<PathModel>,
    n: int,
)
    requires
        faithful(search.answers(), list),
        search.complete(),
        chain(list, search.source(), path),
        0 <= n < path.len(),
    ensures
        search.asked_keys().contains(path[n].key()),
        n > 0 ==> refers(search.answers(), path[n - 1], path[n]),
    decreases n,
{
    if n > 0 {
        let answers = search.answers();
        chain_was_walked(search, list, path, n - 1);
        let key = path[n - 1].key();
        assert(search.asked_keys().contains(key));
        let i = choose|i: int| 0 <= i < answers.len() && (#[trigger] answers[i]).from.key() == key;
        assert(refers(list, path[n - 1], path[n]));
        gathered_is_referred(list, path[n - 1], path[n]);
        assert(answers[i].to == gathered(list, key));
        assert(answers[i].to.contains(path[n]));
    }
}

/// Where a search over faithful answers is over, it has found a way to the host
/// exactly if the list has one.
proof fn search_decides(search: ReferenceSearch, list: Seq<RefsOf>)
    requires
        faithful(search.answers(), list),
        search.has_found() == leads_to(search.answers(), search.source(), search.host()),
        search.has_found() || search.complete(),
    ensures
        search.has_found() == leads_to(list, search.source(), search.host()),
{
    let answers = search.answers();
    let source = search.source();
    let host = search.host();
    if search.has_found() {
        let end = choose|end: PathModel| #[trigger]
            reaches(answers, source, end) && same_file(host, end);
        let path = choose|path: Seq<PathModel>| #[trigger]
            chain(answers, source, path) && path.last() == end;
        chain_holds(answers, list, source, path);
        assert(reaches(list, source, end));
    } else if leads_to(list, source, host) {
        let end = choose|end: PathModel| #[trigger]
            reaches(list, source, end) && same_file(host, end);
        let path = choose|path: Seq<PathModel>| #[trigger]
            chain(list, source, path) && path.last() == end;
        assert forall|k: int| 0 < k < path.len() implies refers(
            answers,
            path[k - 1],
            #[trigger] path[k],
        ) by {
            chain_was_walked(search, list, path, k);
        }
        assert(chain(answers, source, path));
        assert(reaches(answers, source, end));
    }
}

/// What a search asks for is the source or one of the references of the list.
proof fn asked_is_known(
    answers: Seq<RefsOf>,
    list: Seq<RefsOf>,
    source: PathModel,
    path: PathModel,
)
    requires
        faithful(answers, list),
        reaches(answers, source, path),
    ensures
        keys_of(list, source).contains(path.key()),
{
    let way = choose|way: Seq<PathModel>| #[trigger]
        chain(answers, source, way) && way.last() == path;
    keys_cover(list, source, -1, source);
    if way.len() > 1 {
        let last = way.len() - 1;
        assert(refers(answers, way[last - 1], way[last]));
        answers_hold(answers, list, way[last - 1], way[last]);
        let i = choose|i: int|
            0 <= i < list.len() && (#[trigger] list[i]).from.key() == way[last - 1].key()
                && list[i].to.contains(way[last]);
        keys_cover(list, source, i, path);
    }
}

proof fn asked_are_few(
    keys: Seq<Seq<Seq<char>>>,
    list: Seq<RefsOf>,
    source: PathModel,
)
    requires
        keys.no_duplicates(),
        forall|k: Seq<Seq<char>>| #[trigger]
            keys.contains(k) ==> keys_of(list, source).contains(k),
    ensures
        keys.len() <= keys_of(list, source).len(),
{
    let all = keys_of(list, source);
    keys.unique_seq_to_set();
    all.lemma_cardinality_of_set();
    assert forall|k: Seq<Seq<char>>| keys.to_set().contains(k) implies all.to_set().contains(k) by {
        assert(keys.contains(k));
    }
    vstd::set_lib::lemma_len_subset(keys.to_set(), all.to_set());
}

/// Returns `true` if putting `source` into `host` would create a cycle: either
/// directly (they are one file) or transitively (source, or any scene that
/// source refers to, refers to host). `list` tells what every scene refers to.
pub fn would_create_reference_cycle(
    list: &Vec<SceneRefs>,
    host: ScenePath,
    source: ScenePath,
) -> (r: bool)
    ensures
        r == leads_to(refs_models(list@), source@, host@),
{
    let ghost all = refs_models(list@);
    let ghost from = source@;
    let ghost to = host@;
    let mut search = ReferenceSearch::start(host, source);
    proof {
        asked_are_few(search.asked_keys(), all, from);
    }
    loop
        invariant
            all == refs_models(list@),
            search.sound(),
            search.asked() is None,
            search.source() == from,
            search.host() == to,
            faithful(search.answers(), all),
            search.asked_keys().no_duplicates(),
            forall|k: Seq<Seq<char>>| #[trigger]
                search.asked_keys().contains(k) ==> keys_of(all, from).contains(k),
            search.asked_keys().len() <= keys_of(all, from).len(),
        ensures
            search.sound(),
            search.has_found() == leads_to(all, from, to),
        decreases keys_of(all, from).len() - search.asked_keys().len(),
    {
        let ghost keys = search.asked_keys();
        let ghost answers = search.answers();
        match search.next() {
            None => {
                proof {
                    search_decides(search, all);
                }
                break;
            },
            Some(path) => {
                let refs = gather(list, &path);
                proof {
                    asked_is_known(answers, all, from, path@);
                    let now = search.asked_keys();
                    assert(now =~= keys.push(path@.key()));
                    assert forall|k: Seq<Seq<char>>| #[trigger] now.contains(k) implies keys_of(
                        all,
                        from,
                    ).contains(k) by {
                        let i = choose|i: int| 0 <= i < now.len() && now[i] == k;
                        if i < keys.len() {
                            assert(keys[i] == k);
                            assert(keys.contains(k));
                        }
                    }
                    assert(now.no_duplicates());
                    asked_are_few(now, all, from);
                }
                search.answer(refs);
                proof {
                    let more = search.answers();
                    assert forall|i: int| 0 <= i < more.len() implies (#[trigger] more[i]).to
                        == gathered(all, more[i].from.key()) by {
                        if i < answers.len() {
                            assert(more[i] == answers[i]);
                        }
                    }
                }
            },
        }
    }
    search.found()
}

/// A scene that refers to one that leads to the host leads to the host itself:
/// where a scene cannot be put into the host, nothing that refers to it can.
pub proof fn a_way_can_be_entered_earlier(
    list: Seq<RefsOf>,
    before: PathModel,
    source: PathModel,
    host: PathModel,
)
    requires
        refers(list, before, source),
        leads_to(list, source, host),
    ensures
        leads_to(list, before, host),
{
    let end = choose|end: PathModel| #[trigger] reaches(list, source, end) && same_file(host, end);
    let path = choose|path: Seq<PathModel>| #[trigger]
        chain(list, source, path) && path.last() == end;
    let longer = seq![before] + path;
    assert forall|k: int| 0 < k < longer.len() implies refers(
        list,
        longer[k - 1],
        #[trigger] longer[k],
    ) by {
        if k > 1 {
            assert(longer[k] == path[k - 1]);
            assert(longer[k - 1] == path[k - 2]);
            assert(refers(list, path[k - 2], path[k - 1]));
        } else {
            assert(longer[1] == path[0]);
        }
    }
    assert(chain(list, before, longer));
    assert(longer.last() == end);
    assert(reaches(list, before, end));
}

} // verus!
