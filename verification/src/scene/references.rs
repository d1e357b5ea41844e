//! References from scene to scene: which scenes a file refers to, and whether a
//! new reference would close a circle.

use vstd::prelude::*;

use crate::scene::paths::{same_texts, ScenePath};
use crate::scene::surgery::{extract_scene_instance_sources, sources_from};
use crate::text::{copy_texts, texts};

verus! {

// ── The cache ──

/// When a file was last modified.
#[derive(Clone, Copy, Debug, PartialEq, Eq, Structural)]
pub struct Stamp {
    pub secs: i64,
    pub nanos: u32,
}

struct CachedRefs {
    key: Vec<String>,
    mtime: Option<Stamp>,
    sources: Vec<String>,
}

/// What the cache knows of one file.
pub struct RefsModel {
    pub mtime: Option<Stamp>,
    pub sources: Seq<Seq<char>>,
}

/// Cache of scene to outgoing scene references, keyed by canonical path with
/// mtime validation. Populated lazily and invalidated transparently when the
/// file on disk has been modified.
pub struct SceneReferenceCache {
    entries: Vec<CachedRefs>,
}

impl SceneReferenceCache {
    /// What is cached for a key.
    pub closed spec fn cached(self, key: Seq<Seq<char>>) -> Option<RefsModel> {
        entry_of(self.entries@, key)
    }

    /// No file is cached twice.
    #[verifier::type_invariant]
    spec fn distinct(self) -> bool {
        distinct_keys(self.entries@)
    }
}

spec fn entry_of(entries: Seq<CachedRefs>, key: Seq<Seq<char>>) -> Option<RefsModel>
    decreases entries.len(),
{
    if entries.len() == 0 {
        None
    } else if texts(entries.last().key@) == key {
        Some(RefsModel { mtime: entries.last().mtime, sources: texts(entries.last().sources@) })
    } else {
        entry_of(entries.drop_last(), key)
    }
}

spec fn distinct_keys(entries: Seq<CachedRefs>) -> bool {
    forall|i: int, j: int|
        0 <= i < entries.len() && 0 <= j < entries.len() && i != j ==> texts(
            (#[trigger] entries[i]).key@,
        ) != texts((#[trigger] entries[j]).key@)
}

proof fn entry_at(entries: Seq<CachedRefs>, i: int)
    requires
        0 <= i < entries.len(),
        distinct_keys(entries),
    ensures
        entry_of(entries, texts(entries[i].key@)) == Some(
            RefsModel { mtime: entries[i].mtime, sources: texts(entries[i].sources@) },
        ),
    decreases entries.len(),
{
    let rest = entries.drop_last();
    if i < rest.len() {
        assert(rest[i] == entries[i]);
        assert(distinct_keys(rest)) by {
            assert forall|a: int, b: int|
                0 <= a < rest.len() && 0 <= b < rest.len() && a != b implies texts(
                (#[trigger] rest[a]).key@,
            ) != texts((#[trigger] rest[b]).key@) by {
                assert(rest[a] == entries[a]);
                assert(rest[b] == entries[b]);
            }
        }
        entry_at(rest, i);
        assert(entries[entries.len() - 1] == entries.last());
    }
}

proof fn no_entry(entries: Seq<CachedRefs>, key: Seq<Seq<char>>)
    requires
        forall|i: int| 0 <= i < entries.len() ==> texts((#[trigger] entries[i]).key@) != key,
    ensures
        entry_of(entries, key) is None,
    decreases entries.len(),
{
    if entries.len() > 0 {
        assert(entries[entries.len() - 1] == entries.last());
        assert forall|i: int| 0 <= i < entries.drop_last().len() implies texts(
            (#[trigger] entries.drop_last()[i]).key@,
        ) != key by {
            assert(entries.drop_last()[i] == entries[i]);
        }
        no_entry(entries.drop_last(), key);
    }
}

proof fn entry_after_remove(entries: Seq<CachedRefs>, i: int, key: Seq<Seq<char>>)
    requires
        0 <= i < entries.len(),
        distinct_keys(entries),
    ensures
        distinct_keys(entries.remove(i)),
        entry_of(entries.remove(i), key) == (if key == texts(entries[i].key@) {
            None
        } else {
            entry_of(entries, key)
        }),
{
    let rest = entries.remove(i);
    assert forall|a: int, b: int|
        0 <= a < rest.len() && 0 <= b < rest.len() && a != b implies texts(
        (#[trigger] rest[a]).key@,
    ) != texts((#[trigger] rest[b]).key@) by {
        let x = if a < i {
            a
        } else {
            a + 1
        };
        let y = if b < i {
            b
        } else {
            b + 1
        };
        assert(rest[a] == entries[x]);
        assert(rest[b] == entries[y]);
    }
    if exists|k: int| 0 <= k < rest.len() && texts((#[trigger] rest[k]).key@) == key {
        let k = choose|k: int| 0 <= k < rest.len() && texts((#[trigger] rest[k]).key@) == key;
        let x = if k < i {
            k
        } else {
            k + 1
        };
        assert(rest[k] == entries[x]);
        entry_at(rest, k);
        entry_at(entries, x);
        assert(texts(entries[x].key@) != texts(entries[i].key@));
    } else {
        no_entry(rest, key);
        if key != texts(entries[i].key@) {
            assert forall|k: int| 0 <= k < entries.len() implies texts((#[trigger] entries[k]).key@)
                != key by {
                if k < i {
                    assert(rest[k] == entries[k]);
                } else if k > i {
                    assert(rest[k - 1] == entries[k]);
                }
            }
            no_entry(entries, key);
        }
    }
}

impl Default for SceneReferenceCache {
    fn default() -> (r: Self)
        ensures
            forall|key: Seq<Seq<char>>| #[trigger] r.cached(key) is None,
    {
        SceneReferenceCache { entries: Vec::new() }
    }
}

impl SceneReferenceCache {
    fn index_of(&self, key: &Vec<String>) -> (r: usize)
        ensures
            r <= self.entries@.len(),
            r < self.entries@.len() ==> texts(self.entries@[r as int].key@) == texts(key@),
            r == self.entries@.len() ==> forall|i: int|
                0 <= i < self.entries@.len() ==> texts((#[trigger] self.entries@[i]).key@)
                    != texts(key@),
    {
        let mut i: usize = 0;
        while i < self.entries.len()
            invariant
                i <= self.entries@.len(),
                forall|k: int|
                    0 <= k < i ==> texts((#[trigger] self.entries@[k]).key@) != texts(key@),
            decreases self.entries@.len() - i,
        {
            if same_texts(&self.entries[i].key, key) {
                return i;
            }
            i += 1;
        }
        i
    }

    /// Forget what is cached for a scene.
    pub fn invalidate(&mut self, path: &ScenePath)
        ensures
            forall|key: Seq<Seq<char>>| #[trigger]
                final(self).cached(key) == (if key == path@.key() {
                    None
                } else {
                    old(self).cached(key)
                }),
    {
        let key = path.key();
        self.forget(&key);
    }

    fn forget(&mut self, key: &Vec<String>)
        ensures
            forall|k: Seq<Seq<char>>| #[trigger]
                final(self).cached(k) == (if k == texts(key@) {
                    None
                } else {
                    old(self).cached(k)
                }),
            forall|i: int|
                0 <= i < final(self).entries@.len() ==> texts(
                    (#[trigger] final(self).entries@[i]).key@,
                ) != texts(key@),
    {
        proof {
            use_type_invariant(&*self);
        }
        let i: usize = self.index_of(key);
        let mut entries: Vec<CachedRefs> = Vec::new();
        core::mem::swap(&mut self.entries, &mut entries);
        let ghost before = entries@;
        if i < entries.len() {
            entries.remove(i);
            proof {
                assert forall|k: Seq<Seq<char>>| #[trigger] entry_of(entries@, k) == (if k == texts(
                    key@,
                ) {
                    None
                } else {
                    entry_of(before, k)
                }) by {
                    entry_after_remove(before, i as int, k);
                }
                entry_after_remove(before, i as int, texts(key@));
                assert forall|k: int| 0 <= k < entries@.len() implies texts(
                    (#[trigger] entries@[k]).key@,
                ) != texts(key@) by {
                    let x = if k < i {
                        k
                    } else {
                        k + 1
                    };
                    assert(entries@[k] == before[x]);
                    assert(before[i as int].key@ == before[i as int].key@);
                }
            }
        } else {
            proof {
                no_entry(before, texts(key@));
            }
        }
        core::mem::swap(&mut self.entries, &mut entries);
    }

    /// Forget everything.
    pub fn clear(&mut self)
        ensures
            forall|key: Seq<Seq<char>>| #[trigger] final(self).cached(key) is None,
    {
        *self = SceneReferenceCache::default();
    }

    /// Whether a scene has to be read again: nothing is cached for it, or what
    /// is was read from an older file.
    pub fn needs_reload(&self, path: &ScenePath, mtime: Option<Stamp>) -> (r: bool)
        ensures
            r == (match self.cached(path@.key()) {
                Some(entry) => entry.mtime != mtime,
                None => true,
            }),
    {
        proof {
            use_type_invariant(self);
        }
        let key = path.key();
        let i: usize = self.index_of(&key);
        if i < self.entries.len() {
            proof {
                entry_at(self.entries@, i as int);
            }
            self.entries[i].mtime != mtime
        } else {
            proof {
                no_entry(self.entries@, texts(key@));
            }
            true
        }
    }

    /// The scenes that a scene refers to, from the cache where it is fresh, else
    /// scanned from `text`, the file's content where it could be read. `None`
    /// where it could not.
    pub fn references_for(
        &mut self,
        path: &ScenePath,
        mtime: Option<Stamp>,
        text: Option<&str>,
    ) -> (r: Option<Vec<String>>)
        ensures
            ({
                let key = path@.key();
                let fresh = old(self).cached(key) matches Some(entry) && entry.mtime == mtime;
                let known = if fresh {
                    old(self).cached(key)
                } else {
                    match text {
                        Some(t) => Some(RefsModel { mtime, sources: sources_from(t@, 0) }),
                        None => None,
                    }
                };
                &&& match known {
                    Some(entry) => r matches Some(list) && texts(list@) == entry.sources,
                    None => r is None,
                }
                &&& forall|k: Seq<Seq<char>>| #[trigger]
                    final(self).cached(k) == (if k == key && known is Some {
                        known
                    } else {
                        old(self).cached(k)
                    })
            }),
    {
        let reload: bool = self.needs_reload(path, mtime);
        let key = path.key();
        if !reload {
            proof {
                use_type_invariant(&*self);
            }
            let i: usize = self.index_of(&key);
            if i < self.entries.len() {
                proof {
                    entry_at(self.entries@, i as int);
                }
                return Some(copy_texts(&self.entries[i].sources));
            }
            proof {
                no_entry(self.entries@, texts(key@));
            }
            return None;
        }
        match text {
            None => None,
            Some(t) => {
                let sources = extract_scene_instance_sources(t);
                let out = copy_texts(&sources);
                self.forget(&key);
                self.add_entry(key, mtime, sources);
                Some(out)
            },
        }
    }

    fn add_entry(&mut self, key: Vec<String>, mtime: Option<Stamp>, sources: Vec<String>)
        requires
            forall|i: int|
                0 <= i < old(self).entries@.len() ==> texts(
                    (#[trigger] old(self).entries@[i]).key@,
                ) != texts(key@),
        ensures
            forall|k: Seq<Seq<char>>| #[trigger]
                final(self).cached(k) == (if k == texts(key@) {
                    Some(RefsModel { mtime, sources: texts(sources@) })
                } else {
                    old(self).cached(k)
                }),
    {
        proof {
            use_type_invariant(&*self);
        }
        let mut entries: Vec<CachedRefs> = Vec::new();
        core::mem::swap(&mut self.entries, &mut entries);
        let ghost before = entries@;
        entries.push(CachedRefs { key, mtime, sources });
        proof {
            assert forall|k: Seq<Seq<char>>| #[trigger] entry_of(entries@, k) == (if k == texts(
                key@,
            ) {
                Some(RefsModel { mtime, sources: texts(sources@) })
            } else {
                entry_of(before, k)
            }) by {
                assert(entries@.drop_last() == before);
            }
            assert(distinct_keys(entries@)) by {
                assert forall|a: int, b: int|
                    0 <= a < entries@.len() && 0 <= b < entries@.len() && a != b implies texts(
                    (#[trigger] entries@[a]).key@,
                ) != texts((#[trigger] entries@[b]).key@) by {
                    if a < before.len() {
                        assert(entries@[a] == before[a]);
                    }
                    if b < before.len() {
                        assert(entries@[b] == before[b]);
                    }
                }
            }
        }
        core::mem::swap(&mut self.entries, &mut entries);
    }
}

} // verus!
