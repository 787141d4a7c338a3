//! Worker-side logic: the content-addressed compile cache behind the
//! poll-compile-execute-respond loop.
//!
//! A worker keeps a mapping from raw program bytes to the compiled
//! artifact built from them, so that identical program bytes invoke the
//! external compiler exactly once.  Artifacts are identified here by a
//! number the cache issues; turning that number into a file path, running
//! the compiler and the compiled subprocess, and deleting artifact files
//! on eviction or shutdown are the unverified plumbing around the cache.
//! An entry is evicted when executing its artifact fails, and the whole
//! cache is emptied on shutdown.

use vstd::prelude::*;

verus! {

/// One cached compilation: the program bytes and the artifact built from
/// them.
pub struct CacheEntry {
    pub program: Vec<u8>,
    pub artifact: u64,
}

/// The worker's state between polls: the compile cache and the counter
/// that names the next artifact.
pub struct ClientReceiver {
    cache: Vec<CacheEntry>,
    next_artifact: u64,
}

impl ClientReceiver {
    /// The cache's contents: program bytes paired with the artifact built
    /// from them, in insertion order.
    pub closed spec fn entries(&self) -> Seq<(Seq<u8>, u64)> {
        self.cache@.map_values(|e: CacheEntry| (e.program@, e.artifact))
    }

    /// The number the next artifact will get.
    pub closed spec fn next_artifact(&self) -> u64 {
        self.next_artifact
    }

    /// Whether an artifact is cached for these program bytes.
    pub open spec fn contains_program(&self, p: Seq<u8>) -> bool {
        exists|i: int| 0 <= i < self.entries().len() && self.entries()[i].0 == p
    }

    /// The artifact cached for these program bytes.
    pub open spec fn artifact_for(&self, p: Seq<u8>) -> u64
        recommends
            self.contains_program(p),
    {
        self.entries()[choose|i: int|
            0 <= i < self.entries().len() && self.entries()[i].0 == p].1
    }

    /// The cache's invariant: each program is cached at most once, every
    /// cached artifact was issued by the counter, and no two entries share
    /// an artifact.
    pub open spec fn wf(&self) -> bool {
        &&& forall|i: int, j: int|
            0 <= i < j < self.entries().len() ==> self.entries()[i].0 != self.entries()[j].0
        &&& forall|i: int, j: int|
            0 <= i < j < self.entries().len() ==> self.entries()[i].1 != self.entries()[j].1
        &&& forall|i: int|
            0 <= i < self.entries().len() ==> self.entries()[i].1 < self.next_artifact()
    }

    /// At the index of a cached entry, `artifact_for` reads that entry.
    proof fn lemma_artifact_for_at(&self, i: int)
        requires
            self.wf(),
            0 <= i < self.entries().len(),
        ensures
            self.contains_program(self.entries()[i].0),
            self.artifact_for(self.entries()[i].0) == self.entries()[i].1,
    {
        let p = self.entries()[i].0;
        assert(self.contains_program(p));
        let k = choose|k: int| 0 <= k < self.entries().len() && self.entries()[k].0 == p;
        if k != i {
            if k < i {
                assert(self.entries()[k].0 != self.entries()[i].0);
            } else {
                assert(self.entries()[i].0 != self.entries()[k].0);
            }
        }
    }

    /// A fresh worker: empty cache, artifact numbering starts at 0.
    pub fn new() -> (r: Self)
        ensures
            r.entries() == Seq::<(Seq<u8>, u64)>::empty(),
            r.next_artifact() == 0,
            r.wf(),
    {
        let r = ClientReceiver { cache: Vec::new(), next_artifact: 0 };
        proof {
            assert(r.entries() =~= Seq::<(Seq<u8>, u64)>::empty());
        }
        r
    }

    /// Look the program bytes up in the cache: the artifact compiled from
    /// them earlier, or nothing — in which case, and only then, the
    /// external compiler must be invoked.
    pub fn lookup(&self, program: &Vec<u8>) -> (r: Option<u64>)
        requires
            self.wf(),
        ensures
            r is Some <==> self.contains_program(program@),
            r matches Some(a) ==> a == self.artifact_for(program@),
    {
        let mut i: usize = 0;
        while i < self.cache.len()
            invariant
                self.wf(),
                i <= self.cache@.len(),
                forall|j: int| 0 <= j < i ==> self.entries()[j].0 != program@,
            decreases self.cache@.len() - i,
        {
            if self.cache[i].program == *program {
                proof {
                    assert(self.cache[i as int].program@ =~= program@);
                    self.lemma_artifact_for_at(i as int);
                }
                return Some(self.cache[i].artifact);
            }
            proof {
                if self.entries()[i as int].0 == program@ {
                    assert(self.cache[i as int].program@ == program@);
                    assert(self.cache[i as int].program == *program);
                }
            }
            i = i + 1;
        }
        proof {
            if self.contains_program(program@) {
                let k = choose|k: int|
                    0 <= k < self.entries().len() && self.entries()[k].0 == program@;
                assert(self.entries()[k].0 != program@);
            }
        }
        None
    }

    /// Record a successful compilation of program bytes that were not in
    /// the cache, and issue the number for its artifact.  Returns nothing
    /// only when the artifact counter is exhausted, in which case the
    /// cache is unchanged (the caller then simply does not cache the
    /// compilation).
    pub fn note_compiled(&mut self, program: Vec<u8>) -> (r: Option<u64>)
        requires
            old(self).wf(),
            !old(self).contains_program(program@),
        ensures
            final(self).wf(),
            old(self).next_artifact() < u64::MAX ==> r == Some(old(self).next_artifact())
                && final(self).entries() == old(self).entries().push(
                (program@, old(self).next_artifact()),
            ) && final(self).next_artifact() == old(self).next_artifact() + 1 && final(self).contains_program(program@) && final(self).artifact_for(program@) == old(self).next_artifact(),
            old(self).next_artifact() == u64::MAX ==> r is None && final(self).entries() == old(self).entries() && final(self).next_artifact() == old(self).next_artifact(),
            forall|q: Seq<u8>|
                q != program@ ==> (final(self).contains_program(q) <==> old(self).contains_program(q)),
            forall|q: Seq<u8>|
                q != program@ && old(self).contains_program(q) ==> final(self).artifact_for(q)
                    == old(self).artifact_for(q),
    {
        if self.next_artifact == u64::MAX {
            proof {
                lemma_same_entries_same_view(*old(self), *self);
            }
            return None;
        }
        let a = self.next_artifact;
        self.next_artifact = a + 1;
        self.cache.push(CacheEntry { program, artifact: a });
        proof {
            assert(self.entries() =~= old(self).entries().push((program@, a)));
            let n = self.entries().len() - 1;
            self.lemma_artifact_for_at(n);
            assert forall|q: Seq<u8>| q != program@ implies (self.contains_program(q) <==> old(self).contains_program(q)) by {
                if old(self).contains_program(q) {
                    let k = choose|k: int|
                        0 <= k < old(self).entries().len() && old(self).entries()[k].0 == q;
                    assert(self.entries()[k].0 == q);
                }
                if self.contains_program(q) {
                    let k = choose|k: int|
                        0 <= k < self.entries().len() && self.entries()[k].0 == q;
                    assert(k < n);
                    assert(old(self).entries()[k].0 == q);
                }
            }
            assert forall|q: Seq<u8>|
                q != program@ && old(self).contains_program(q) implies self.artifact_for(q) == old(self).artifact_for(q) by {
                lemma_artifact_for_stable(*old(self), *self, q);
            }
        }
        Some(a)
    }

    /// Drop the cache entry for these program bytes after their artifact
    /// failed to execute, handing back the artifact number so the caller
    /// can delete the artifact itself; the cached compilations of every
    /// other program are untouched.
    pub fn evict(&mut self, program: &Vec<u8>) -> (r: Option<u64>)
        requires
            old(self).wf(),
        ensures
            final(self).wf(),
            r is Some <==> old(self).contains_program(program@),
            r matches Some(a) ==> a == old(self).artifact_for(program@),
            !final(self).contains_program(program@),
            final(self).next_artifact() == old(self).next_artifact(),
            forall|q: Seq<u8>|
                q != program@ ==> (final(self).contains_program(q) <==> old(self).contains_program(q)),
            forall|q: Seq<u8>|
                q != program@ && old(self).contains_program(q) ==> final(self).artifact_for(q)
                    == old(self).artifact_for(q),
    {
        let mut i: usize = 0;
        while i < self.cache.len()
            invariant
                self.wf(),
                *self == *old(self),
                i <= self.cache@.len(),
                forall|j: int| 0 <= j < i ==> self.entries()[j].0 != program@,
            decreases self.cache@.len() - i,
        {
            if self.cache[i].program == *program {
                proof {
                    assert(self.cache[i as int].program@ =~= program@);
                    self.lemma_artifact_for_at(i as int);
                }
                let e = self.cache.remove(i);
                proof {
                    assert(self.entries() =~= old(self).entries().remove(i as int));
                    lemma_entries_remove(*old(self), *self, i as int, program@);
                }
                return Some(e.artifact);
            }
            proof {
                if self.entries()[i as int].0 == program@ {
                    assert(self.cache[i as int].program@ == program@);
                    assert(self.cache[i as int].program == *program);
                }
            }
            i = i + 1;
        }
        proof {
            if self.contains_program(program@) {
                let k = choose|k: int|
                    0 <= k < self.entries().len() && self.entries()[k].0 == program@;
                assert(self.entries()[k].0 != program@);
            }
            lemma_same_entries_same_view(*old(self), *self);
        }
        None
    }

    /// Every cached artifact number, for the shutdown path that deletes
    /// each artifact file before the worker exits.
    pub fn artifacts(&self) -> (r: Vec<u64>)
        ensures
            r@.len() == self.entries().len(),
            forall|i: int| 0 <= i < r@.len() ==> r@[i] == self.entries()[i].1,
    {
        let mut r: Vec<u64> = Vec::new();
        let mut i: usize = 0;
        while i < self.cache.len()
            invariant
                i <= self.cache@.len(),
                r@.len() == i,
                forall|j: int| 0 <= j < i ==> r@[j] == self.entries()[j].1,
            decreases self.cache@.len() - i,
        {
            r.push(self.cache[i].artifact);
            i = i + 1;
        }
        r
    }

    /// Empty the cache at shutdown; the caller deletes the artifact files
    /// listed by `artifacts` first.
    pub fn clear(&mut self)
        ensures
            final(self).entries() == Seq::<(Seq<u8>, u64)>::empty(),
            final(self).next_artifact() == old(self).next_artifact(),
            final(self).wf(),
    {
        self.cache.clear();
        proof {
            assert(self.entries() =~= Seq::<(Seq<u8>, u64)>::empty());
        }
    }
}

/// Two receivers with the same entries agree on every lookup.
proof fn lemma_same_entries_same_view(a: ClientReceiver, b: ClientReceiver)
    requires
        a.entries() == b.entries(),
    ensures
        forall|q: Seq<u8>| a.contains_program(q) <==> b.contains_program(q),
        forall|q: Seq<u8>| a.artifact_for(q) == b.artifact_for(q),
{
}

/// A lookup of `q` is unchanged by appending an entry for a different
/// program.
proof fn lemma_artifact_for_stable(a: ClientReceiver, b: ClientReceiver, q: Seq<u8>)
    requires
        a.wf(),
        b.wf(),
        b.entries().len() == a.entries().len() + 1,
        forall|i: int| 0 <= i < a.entries().len() ==> b.entries()[i] == a.entries()[i],
        b.entries().last().0 != q,
        a.contains_program(q),
    ensures
        b.contains_program(q),
        b.artifact_for(q) == a.artifact_for(q),
{
    let ka = choose|k: int| 0 <= k < a.entries().len() && a.entries()[k].0 == q;
    assert(b.entries()[ka].0 == q);
    assert(b.contains_program(q));
    let kb = choose|k: int| 0 <= k < b.entries().len() && b.entries()[k].0 == q;
    assert(kb < b.entries().len() - 1);
    if ka != kb {
        if ka < kb {
            assert(a.entries()[ka].0 != a.entries()[kb].0);
        } else {
            assert(a.entries()[kb].0 != a.entries()[ka].0);
        }
    }
}

/// After removing the entry at `i` (the one caching `p`), the lookups of
/// every other program are unchanged and `p` is gone.
proof fn lemma_entries_remove(a: ClientReceiver, b: ClientReceiver, i: int, p: Seq<u8>)
    requires
        a.wf(),
        0 <= i < a.entries().len(),
        a.entries()[i].0 == p,
        b.entries() == a.entries().remove(i),
        b.next_artifact() == a.next_artifact(),
    ensures
        b.wf(),
        !b.contains_program(p),
        forall|q: Seq<u8>| q != p ==> (b.contains_program(q) <==> a.contains_program(q)),
        forall|q: Seq<u8>| q != p && a.contains_program(q) ==> b.artifact_for(q) == a.artifact_for(q),
{
    assert forall|k: int| 0 <= k < b.entries().len() implies b.entries()[k] == (if k < i {
        a.entries()[k]
    } else {
        a.entries()[k + 1]
    }) by {}
    assert(b.wf());
    assert forall|k: int| 0 <= k < b.entries().len() implies b.entries()[k].0 != p by {
        if k < i {
            assert(a.entries()[k].0 != a.entries()[i].0);
        } else {
            assert(a.entries()[i].0 != a.entries()[k + 1].0);
        }
    }
    assert forall|q: Seq<u8>| q != p && a.contains_program(q) implies b.contains_program(q)
        && b.artifact_for(q) == a.artifact_for(q) by {
        let ka = choose|k: int| 0 <= k < a.entries().len() && a.entries()[k].0 == q;
        if ka < i {
            assert(b.entries()[ka].0 == q);
        } else {
            assert(ka != i);
            assert(b.entries()[ka - 1].0 == q);
        }
        assert(b.contains_program(q));
        let kb = choose|k: int| 0 <= k < b.entries().len() && b.entries()[k].0 == q;
        let kb_in_a = if kb < i {
            kb
        } else {
            kb + 1
        };
        assert(a.entries()[kb_in_a].0 == q);
        if ka != kb_in_a {
            if ka < kb_in_a {
                assert(a.entries()[ka].0 != a.entries()[kb_in_a].0);
            } else {
                assert(a.entries()[kb_in_a].0 != a.entries()[ka].0);
            }
        }
    }
    assert forall|q: Seq<u8>| q != p && b.contains_program(q) implies a.contains_program(q) by {
        let kb = choose|k: int| 0 <= k < b.entries().len() && b.entries()[k].0 == q;
        if kb < i {
            assert(a.entries()[kb].0 == q);
        } else {
            assert(a.entries()[kb + 1].0 == q);
        }
    }
}

/// Distinct programs are cached as distinct artifacts: the cache never
/// aliases two different program sources to one compiled binary.
pub proof fn lemma_distinct_programs_distinct_artifacts(
    c: ClientReceiver,
    p: Seq<u8>,
    q: Seq<u8>,
)
    requires
        c.wf(),
        c.contains_program(p),
        c.contains_program(q),
        p != q,
    ensures
        c.artifact_for(p) != c.artifact_for(q),
{
    let kp = choose|k: int| 0 <= k < c.entries().len() && c.entries()[k].0 == p;
    let kq = choose|k: int| 0 <= k < c.entries().len() && c.entries()[k].0 == q;
    c.lemma_artifact_for_at(kp);
    c.lemma_artifact_for_at(kq);
    if kp < kq {
        assert(c.entries()[kp].1 != c.entries()[kq].1);
    } else {
        assert(c.entries()[kq].1 != c.entries()[kp].1);
    }
}

} // verus!
