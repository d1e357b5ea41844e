//! Whether putting one scene into another would close a circle of references.

use vstd::prelude::*;

use crate::scene::paths::{paths_equal, same_file, same_texts, PathModel, ScenePath};
use crate::text::texts;

verus! {

/// The scenes that one scene refers to.
pub struct RefsOf {
    pub from: PathModel,
    pub to: Seq<PathModel>,
}

/// Whether some answer says that the file of `a` refers to `b`.
pub open spec fn refers(answers: Seq<RefsOf>, a: PathModel, b: PathModel) -> bool {
    exists|i: int|
        0 <= i < answers.len() && (#[trigger] answers[i]).from.key() == a.key()
            && answers[i].to.contains(b)
}

/// Whether `path` is a chain of references from `source`.
pub open spec fn chain(answers: Seq<RefsOf>, source: PathModel, path: Seq<PathModel>) -> bool {
    &&& path.len() > 0
    &&& path[0] == source
    &&& forall|k: int| 0 < k < path.len() ==> refers(answers, path[k - 1], #[trigger] path[k])
}

/// Whether a chain of references from `source` ends at `end`.
pub open spec fn reaches(answers: Seq<RefsOf>, source: PathModel, end: PathModel) -> bool {
    exists|path: Seq<PathModel>| #[trigger] chain(answers, source, path) && path.last() == end
}

/// Whether `source` is `host`, or leads to it through references.
pub open spec fn leads_to(answers: Seq<RefsOf>, source: PathModel, host: PathModel) -> bool {
    exists|end: PathModel| #[trigger] reaches(answers, source, end) && same_file(host, end)
}

/// The paths of a list.
pub open spec fn path_models(list: Seq<ScenePath>) -> Seq<PathModel> {
    list.map_values(|p: ScenePath| p@)
}

/// A search for a circle of references, one scene at a time. The searcher asks
/// for the references of a scene; the caller looks them up and answers.
pub struct ReferenceSearch {
    host: ScenePath,
    stack: Vec<ScenePath>,
    visited: Vec<Vec<String>>,
    found: bool,
    source: Ghost<PathModel>,
    answers: Ghost<Seq<RefsOf>>,
    asked: Ghost<Option<PathModel>>,
}

spec fn key_list(visited: Seq<Vec<String>>) -> Seq<Seq<Seq<char>>> {
    visited.map_values(|k: Vec<String>| texts(k@))
}

impl ReferenceSearch {
    /// The scene that must not be reached.
    pub closed spec fn host(self) -> PathModel {
        self.host@
    }

    /// The scene the search started from.
    pub closed spec fn source(self) -> PathModel {
        self.source@
    }

    /// Every answer given so far.
    pub closed spec fn answers(self) -> Seq<RefsOf> {
        self.answers@
    }

    /// The scene whose references were asked for and not answered yet.
    pub closed spec fn asked(self) -> Option<PathModel> {
        self.asked@
    }

    /// The keys of the scenes the search has asked for.
    pub closed spec fn asked_keys(self) -> Seq<Seq<Seq<char>>> {
        key_list(self.visited@)
    }

    /// Whether the search has been everywhere: the source was asked for, every
    /// reference that was answered was asked for too, and everything asked for
    /// was answered.
    pub open spec fn complete(self) -> bool {
        &&& self.asked_keys().contains(self.source().key())
        &&& forall|i: int, b: PathModel|
            0 <= i < self.answers().len() && (#[trigger] self.answers()[i]).to.contains(b)
                ==> #[trigger] self.asked_keys().contains(b.key())
        &&& forall|k: Seq<Seq<char>>| #[trigger]
            self.asked_keys().contains(k) ==> exists|i: int|
                0 <= i < self.answers().len() && (#[trigger] self.answers()[i]).from.key() == k
    }

    /// A search in good order: everything on the stack is reached by a chain of
    /// references, every answered reference is on the stack or was asked for,
    /// and the host has been met exactly where the search says so.
    pub closed spec fn sound(self) -> bool {
        let stack = path_models(self.stack@);
        let keys = key_list(self.visited@);
        let host = self.host@;
        let source = self.source@;
        let answers = self.answers@;
        &&& keys.no_duplicates()
        &&& self.found ==> leads_to(answers, source, host)
        &&& !self.found ==> !same_file(host, source)
        &&& !self.found ==> forall|i: int, b: PathModel|
            0 <= i < answers.len() && (#[trigger] answers[i]).to.contains(b) ==> !(
            #[trigger] same_file(host, b))
        &&& forall|s: PathModel| #[trigger] stack.contains(s) ==> reaches(answers, source, s)
        &&& self.asked@ matches Some(p) ==> reaches(answers, source, p) && keys.contains(p.key())
        &&& !self.found ==> forall|i: int, b: PathModel|
            0 <= i < answers.len() && (#[trigger] answers[i]).to.contains(b) ==> keys.contains(
                b.key(),
            ) || #[trigger] stack.contains(b)
        &&& keys.contains(source.key()) || stack.contains(source)
        &&& forall|k: Seq<Seq<char>>| #[trigger]
            keys.contains(k) ==> (self.asked@ matches Some(p) && p.key() == k) || exists|i: int|
                0 <= i < answers.len() && (#[trigger] answers[i]).from.key() == k
    }
}

proof fn reaches_start(answers: Seq<RefsOf>, source: PathModel)
    ensures
        reaches(answers, source, source),
{
    let path = seq![source];
    assert(chain(answers, source, path));
    assert(path.last() == source);
}

proof fn reaches_grows(answers: Seq<RefsOf>, more: RefsOf, source: PathModel, end: PathModel)
    requires
        reaches(answers, source, end),
    ensures
        reaches(answers.push(more), source, end),
{
    let path = choose|path: Seq<PathModel>| #[trigger]
        chain(answers, source, path) && path.last() == end;
    let all = answers.push(more);
    assert forall|k: int| 0 < k < path.len() implies refers(all, path[k - 1], #[trigger] path[k]) by {
        assert(refers(answers, path[k - 1], path[k]));
        let i = choose|i: int|
            0 <= i < answers.len() && (#[trigger] answers[i]).from.key() == path[k - 1].key()
                && answers[i].to.contains(path[k]);
        assert(all[i] == answers[i]);
    }
    assert(chain(all, source, path));
}

proof fn reaches_step(answers: Seq<RefsOf>, source: PathModel, a: PathModel, b: PathModel)
    requires
        reaches(answers, source, a),
        refers(answers, a, b),
    ensures
        reaches(answers, source, b),
{
    let path = choose|path: Seq<PathModel>| #[trigger]
        chain(answers, source, path) && path.last() == a;
    let longer = path.push(b);
    assert forall|k: int| 0 < k < longer.len() implies refers(
        answers,
        longer[k - 1],
        #[trigger] longer[k],
    ) by {
        if k < path.len() {
            assert(longer[k] == path[k]);
            assert(longer[k - 1] == path[k - 1]);
        } else {
            assert(longer[k - 1] == path.last());
        }
    }
    assert(chain(answers, source, longer));
    assert(longer.last() == b);
}

/// Where every reference of an asked scene was asked for too, every chain stays
/// among the asked scenes.
proof fn chain_stays(
    answers: Seq<RefsOf>,
    keys: Seq<Seq<Seq<char>>>,
    source: PathModel,
    path: Seq<PathModel>,
)
    requires
        chain(answers, source, path),
        keys.contains(source.key()),
        forall|i: int, b: PathModel|
            0 <= i < answers.len() && (#[trigger] answers[i]).to.contains(b)
                ==> #[trigger] keys.contains(b.key()),
    ensures
        keys.contains(path.last().key()),
        path.len() > 1 ==> exists|i: int|
            0 <= i < answers.len() && (#[trigger] answers[i]).to.contains(path.last()),
{
    if path.len() > 1 {
        let last = path.len() - 1;
        assert(refers(answers, path[last - 1], path[last]));
        let i = choose|i: int|
            0 <= i < answers.len() && (#[trigger] answers[i]).from.key() == path[last - 1].key()
                && answers[i].to.contains(path[last]);
        assert(answers[i].to.contains(path.last()));
    }
}

fn has_key(visited: &Vec<Vec<String>>, key: &Vec<String>) -> (r: bool)
    ensures
        r == key_list(visited@).contains(texts(key@)),
{
    let mut i: usize = 0;
    while i < visited.len()
        invariant
            i <= visited@.len(),
            forall|k: int| 0 <= k < i ==> key_list(visited@)[k] != texts(key@),
        decreases visited@.len() - i,
    {
        assert(key_list(visited@)[i as int] == texts(visited@[i as int]@));
        if same_texts(&visited[i], key) {
            return true;
        }
        i += 1;
    }
    false
}

impl ReferenceSearch {
    /// Start searching from `source` for a way to `host`.
    pub fn start(host: ScenePath, source: ScenePath) -> (r: Self)
        ensures
            r.sound(),
            r.host() == host@,
            r.source() == source@,
            r.answers().len() == 0,
            r.asked() is None,
            r.asked_keys().len() == 0,
    {
        let found: bool = paths_equal(&host, &source);
        let ghost from = source@;
        let mut stack: Vec<ScenePath> = Vec::new();
        stack.push(source);
        proof {
            reaches_start(Seq::<RefsOf>::empty(), from);
            assert(path_models(stack@) =~= seq![from]);
            assert(path_models(stack@)[0] == from);
        }
        ReferenceSearch {
            host,
            stack,
            visited: Vec::new(),
            found,
            source: Ghost(from),
            answers: Ghost(Seq::empty()),
            asked: Ghost(None),
        }
    }

    /// Whether a way to the host has been found.
    pub fn found(&self) -> (r: bool)
        requires
            self.sound(),
        ensures
            r ==> leads_to(self.answers(), self.source(), self.host()),
            r == self.has_found(),
    {
        self.found
    }

    /// Whether a way to the host has been found.
    pub closed spec fn has_found(self) -> bool {
        self.found
    }

    /// The next scene whose references are needed, or `None` when the search is
    /// over: then it has found a way to the host exactly if there is one.
    pub fn next(&mut self) -> (r: Option<ScenePath>)
        requires
            old(self).sound(),
            old(self).asked() is None,
        ensures
            final(self).sound(),
            final(self).host() == old(self).host(),
            final(self).source() == old(self).source(),
            final(self).answers() == old(self).answers(),
            final(self).has_found() == old(self).has_found(),
            match r {
                Some(path) => {
                    &&& final(self).asked() == Some(path@)
                    &&& !final(self).has_found()
                    &&& !old(self).asked_keys().contains(path@.key())
                    &&& final(self).asked_keys() == old(self).asked_keys().push(path@.key())
                    &&& reaches(final(self).answers(), final(self).source(), path@)
                },
                None => {
                    &&& final(self).asked() is None
                    &&& final(self).asked_keys() == old(self).asked_keys()
                    &&& final(self).has_found() == leads_to(
                        final(self).answers(),
                        final(self).source(),
                        final(self).host(),
                    )
                    &&& final(self).has_found() || final(self).complete()
                },
            },
    {
        if self.found {
            return None;
        }
        loop
            invariant
                self.sound(),
                !self.found,
                !old(self).found,
                self.asked@ is None,
                self.host() == old(self).host(),
                self.source() == old(self).source(),
                self.answers() == old(self).answers(),
                self.visited == old(self).visited,
            decreases self.stack@.len(),
        {
            let ghost stack_before = path_models(self.stack@);
            let ghost keys = key_list(self.visited@);
            match self.stack.pop() {
                None => {
                    proof {
                        let answers = self.answers@;
                        let source = self.source@;
                        let host = self.host@;
                        assert(stack_before =~= Seq::<PathModel>::empty());
                        assert(keys.contains(source.key()));
                        assert forall|i: int, b: PathModel|
                            0 <= i < answers.len() && (#[trigger] answers[i]).to.contains(
                                b,
                            ) implies #[trigger] keys.contains(b.key()) by {
                            assert(!stack_before.contains(b));
                        }
                        if leads_to(answers, source, host) {
                            let end = choose|end: PathModel| #[trigger]
                                reaches(answers, source, end) && same_file(host, end);
                            let path = choose|path: Seq<PathModel>| #[trigger]
                                chain(answers, source, path) && path.last() == end;
                            chain_stays(answers, keys, source, path);
                            if path.len() > 1 {
                                let i = choose|i: int|
                                    0 <= i < answers.len() && (#[trigger] answers[i]).to.contains(
                                        path.last(),
                                    );
                                assert(!same_file(host, path.last()));
                            }
                        }
                        assert(path_models(self.stack@) =~= stack_before);
                    }
                    return None;
                },
                Some(path) => {
                    let key = path.key();
                    proof {
                        let stack = path_models(self.stack@);
                        assert(stack_before =~= stack.push(path@));
                        assert(stack_before[stack_before.len() - 1] == path@);
                        assert(stack_before.contains(path@));
                        assert forall|s: PathModel| #[trigger] stack.contains(
                            s,
                        ) implies stack_before.contains(s) by {
                            let k = choose|k: int| 0 <= k < stack.len() && stack[k] == s;
                            assert(stack_before[k] == s);
                        }
                        assert forall|s: PathModel| #[trigger] stack_before.contains(s) && s
                            != path@ implies stack.contains(s) by {
                            let k = choose|k: int|
                                0 <= k < stack_before.len() && stack_before[k] == s;
                            assert(stack[k] == s);
                        }
                    }
                    if has_key(&self.visited, &key) {
                        proof {
                            let stack = path_models(self.stack@);
                            let answers = self.answers@;
                            assert forall|i: int, b: PathModel|
                                0 <= i < answers.len() && (#[trigger] answers[i]).to.contains(
                                    b,
                                ) implies keys.contains(b.key()) || #[trigger] stack.contains(b) by {
                                if !keys.contains(b.key()) {
                                    assert(stack_before.contains(b));
                                }
                            }
                            if !keys.contains(self.source@.key()) {
                                assert(stack_before.contains(self.source@));
                            }
                            assert(self.sound());
                        }
                        continue;
                    }
                    self.visited.push(key);
                    proof {
                        let now = key_list(self.visited@);
                        assert(now =~= keys.push(path@.key()));
                        assert forall|k: Seq<Seq<char>>| #[trigger] now.contains(k) <==> keys.contains(
                            k,
                        ) || k == path@.key() by {
                            if keys.contains(k) {
                                let j = choose|j: int| 0 <= j < keys.len() && keys[j] == k;
                                assert(now[j] == k);
                            }
                            if k == path@.key() {
                                assert(now[keys.len() as int] == k);
                            }
                        }
                        self.asked@ = Some(path@);
                        let stack = path_models(self.stack@);
                        let answers = self.answers@;
                        assert(keys.contains(path@.key()) == false);
                        assert(now.no_duplicates());
                        assert forall|i: int, b: PathModel|
                            0 <= i < answers.len() && (#[trigger] answers[i]).to.contains(
                                b,
                            ) implies now.contains(b.key()) || #[trigger] stack.contains(b) by {
                            if !keys.contains(b.key()) {
                                assert(stack_before.contains(b));
                            }
                        }
                        assert(now.contains(self.source@.key()) || stack.contains(self.source@)) by {
                            if !keys.contains(self.source@.key()) {
                                assert(stack_before.contains(self.source@));
                            }
                        }
                        assert(reaches(answers, self.source@, path@));
                        assert(self.sound());
                    }
                    return Some(path);
                },
            }
        }
    }

    /// Answer with the scenes that the asked one refers to: none where it could
    /// not be read.
    pub fn answer(&mut self, refs: Vec<ScenePath>)
        requires
            old(self).sound(),
            old(self).asked() is Some,
            !old(self).has_found(),
        ensures
            final(self).sound(),
            final(self).host() == old(self).host(),
            final(self).source() == old(self).source(),
            final(self).asked() is None,
            final(self).asked_keys() == old(self).asked_keys(),
            final(self).answers() == old(self).answers().push(
                RefsOf { from: old(self).asked()->0, to: path_models(refs@) },
            ),
    {
        let ghost from = self.asked@->0;
        let ghost answers_before = self.answers@;
        let ghost entry = RefsOf { from, to: path_models(refs@) };
        let ghost answers = answers_before.push(entry);
        let ghost keys = key_list(self.visited@);
        let ghost stack_before = path_models(self.stack@);
        let ghost source = self.source@;
        let ghost host = self.host@;
        proof {
            self.answers@ = answers;
            self.asked@ = None;
            assert(answers[answers_before.len() as int] == entry);
            reaches_grows(answers_before, entry, source, from);
            assert forall|s: PathModel| #[trigger] stack_before.contains(s) implies reaches(
                answers,
                source,
                s,
            ) by {
                reaches_grows(answers_before, entry, source, s);
            }
            assert forall|b: PathModel| #[trigger] entry.to.contains(b) implies reaches(
                answers,
                source,
                b,
            ) by {
                assert(answers[answers_before.len() as int].from.key() == from.key());
                assert(refers(answers, from, b));
                reaches_step(answers, source, from, b);
            }
            assert forall|k: Seq<Seq<char>>| #[trigger] keys.contains(k) implies exists|i: int|
                0 <= i < answers.len() && (#[trigger] answers[i]).from.key() == k by {
                if k == from.key() {
                    assert(answers[answers_before.len() as int].from.key() == k);
                } else {
                    let i = choose|i: int|
                        0 <= i < answers_before.len() && (#[trigger] answers_before[i]).from.key()
                            == k;
                    assert(answers[i] == answers_before[i]);
                }
            }
            assert forall|i: int, b: PathModel|
                0 <= i < answers_before.len() && (#[trigger] answers[i]).to.contains(b) implies !(
            #[trigger] same_file(host, b)) by {
                assert(answers[i] == answers_before[i]);
            }
            assert forall|i: int, b: PathModel|
                0 <= i < answers_before.len() && (#[trigger] answers[i]).to.contains(
                    b,
                ) implies keys.contains(b.key()) || #[trigger] stack_before.contains(b) by {
                assert(answers[i] == answers_before[i]);
            }
        }
        let ghost to = path_models(refs@);
        let mut i: usize = 0;
        while i < refs.len()
            invariant
                i <= refs@.len(),
                to == path_models(refs@),
                entry == (RefsOf { from, to }),
                answers == answers_before.push(entry),
                answers_before == old(self).answers(),
                from == old(self).asked()->0,
                self.host@ == host,
                self.source@ == source,
                self.answers@ == answers,
                self.asked@ is None,
                self.host() == old(self).host(),
                self.source() == old(self).source(),
                !self.found,
                self.visited == old(self).visited,
                keys == key_list(self.visited@),
                keys.no_duplicates(),
                !same_file(host, source),
                keys.contains(source.key()) || stack_before.contains(source),
                forall|k: Seq<Seq<char>>| #[trigger]
                    keys.contains(k) ==> exists|j: int|
                        0 <= j < answers.len() && (#[trigger] answers[j]).from.key() == k,
                forall|j: int, b: PathModel|
                    0 <= j < answers_before.len() && (#[trigger] answers[j]).to.contains(b) ==> !(
                    #[trigger] same_file(host, b)),
                forall|j: int, b: PathModel|
                    0 <= j < answers_before.len() && (#[trigger] answers[j]).to.contains(b)
                        ==> keys.contains(b.key()) || #[trigger] stack_before.contains(b),
                forall|s: PathModel| #[trigger]
                    stack_before.contains(s) ==> reaches(answers, source, s),
                forall|b: PathModel| #[trigger]
                    entry.to.contains(b) ==> reaches(answers, source, b),
                path_models(self.stack@) == stack_before + to.take(i as int),
                forall|j: int| 0 <= j < i ==> !same_file(host, #[trigger] to[j]),
            decreases refs@.len() - i,
        {
            assert(to[i as int] == refs@[i as int]@);
            if paths_equal(&self.host, &refs[i]) {
                self.found = true;
                proof {
                    assert(entry.to.contains(to[i as int]));
                    assert(reaches(answers, source, to[i as int]));
                    assert(leads_to(answers, source, host));
                    let stack = path_models(self.stack@);
                    assert forall|s: PathModel| #[trigger] stack.contains(s) implies reaches(
                        answers,
                        source,
                        s,
                    ) by {
                        let k = choose|k: int| 0 <= k < stack.len() && stack[k] == s;
                        if k < stack_before.len() {
                            assert(stack_before[k] == s);
                            assert(stack_before.contains(s));
                        } else {
                            assert(to[k - stack_before.len()] == s);
                            assert(entry.to.contains(s));
                        }
                    }
                    if stack_before.contains(source) {
                        let k = choose|k: int|
                            0 <= k < stack_before.len() && stack_before[k] == source;
                        assert(stack[k] == source);
                    }
                }
                return;
            }
            let next: ScenePath = refs[i].clone();
            let ghost stack_now = path_models(self.stack@);
            self.stack.push(next);
            proof {
                assert(path_models(self.stack@) =~= stack_now.push(to[i as int]));
                assert(to.take(i + 1) =~= to.take(i as int).push(to[i as int]));
                assert(stack_before + to.take(i + 1) =~= stack_now.push(to[i as int]));
            }
            i += 1;
        }
        proof {
            let stack = path_models(self.stack@);
            assert(to.take(i as int) =~= to);
            assert(stack =~= stack_before + to);
            assert forall|s: PathModel| #[trigger] stack.contains(s) implies reaches(
                answers,
                source,
                s,
            ) by {
                let k = choose|k: int| 0 <= k < stack.len() && stack[k] == s;
                if k < stack_before.len() {
                    assert(stack_before[k] == s);
                    assert(stack_before.contains(s));
                } else {
                    assert(to[k - stack_before.len()] == s);
                    assert(entry.to.contains(s));
                }
            }
            assert forall|j: int, b: PathModel|
                0 <= j < answers.len() && (#[trigger] answers[j]).to.contains(b) implies !(
            #[trigger] same_file(host, b)) by {
                if j == answers_before.len() {
                    let k = choose|k: int| 0 <= k < to.len() && to[k] == b;
                    assert(!same_file(host, to[k]));
                }
            }
            assert forall|j: int, b: PathModel|
                0 <= j < answers.len() && (#[trigger] answers[j]).to.contains(
                    b,
                ) implies keys.contains(b.key()) || #[trigger] stack.contains(b) by {
                if j == answers_before.len() {
                    let k = choose|k: int| 0 <= k < to.len() && to[k] == b;
                    assert(stack[stack_before.len() + k] == b);
                } else if !keys.contains(b.key()) {
                    assert(stack_before.contains(b));
                    let k = choose|k: int| 0 <= k < stack_before.len() && stack_before[k] == b;
                    assert(stack[k] == b);
                }
            }
            if stack_before.contains(source) {
                let k = choose|k: int| 0 <= k < stack_before.len() && stack_before[k] == source;
                assert(stack[k] == source);
            }
        }
    }
}

} // verus!
