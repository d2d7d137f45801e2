//! The mutual-exclusion discipline of the job scheduler.
//!
//! Each job name is mapped to a stable numeric key by a deterministic hash
//! (collisions are acceptable: job names are a small fixed set). The hash
//! is defined here rather than taken from the standard library, whose
//! default hasher is not documented stable across releases: the key must
//! agree between any two processes that share the store. A named,
//! non-blocking advisory lock keyed by that number ensures only one holder
//! per key at a time; acquisition failure is a normal "skip this tick"
//! outcome. `LockTable` is the model of the store's lock state that the
//! discipline is proved against; the shared store enforces the same rule
//! across processes.
use vstd::prelude::*;
use vstd::string::StringSliceAdditionalSpecFns;
use vstd::string::StrSliceExecFns;

verus! {

/// The 64-bit FNV-1a hash of a byte string.
pub open spec fn fnv1a_spec(bytes: Seq<u8>) -> u64
    decreases bytes.len(),
{
    if bytes.len() == 0 {
        14695981039346656037u64
    } else {
        vstd::wrapping::u64_specs::wrapping_mul(
            fnv1a_spec(bytes.drop_last()) ^ (bytes.last() as u64),
            1099511628211u64,
        )
    }
}

/// The stable numeric key a job name locks under.
pub fn job_lock_key(name: &str) -> (key: u64)
    ensures
        key == fnv1a_spec(name.spec_bytes()),
{
    let bytes: Vec<u8> = name.as_bytes_vec();
    let mut h: u64 = 14695981039346656037u64;
    let mut i: usize = 0;
    while i < bytes.len()
        invariant
            i <= bytes@.len(),
            bytes@ == name.spec_bytes(),
            h == fnv1a_spec(bytes@.subrange(0, i as int)),
        decreases bytes@.len() - i,
    {
        let b: u8 = bytes[i];
        h = (h ^ (b as u64)).wrapping_mul(1099511628211u64);
        proof {
            let sub = bytes@.subrange(0, i + 1);
            assert(sub.last() == bytes@[i as int]);
            assert(sub.drop_last() =~= bytes@.subrange(0, i as int));
        }
        i = i + 1;
    }
    proof {
        assert(bytes@.subrange(0, bytes@.len() as int) =~= bytes@);
    }
    h
}

/// The state of the store's named locks: which keys are currently held.
/// At most one holder exists per key, so held keys are simply a set,
/// kept here as a duplicate-free vector.
pub struct LockTable {
    held: Vec<u64>,
}

impl LockTable {
    /// The set of keys currently held.
    pub closed spec fn held_keys(&self) -> Set<u64> {
        self.held@.to_set()
    }

    /// Keys are recorded at most once.
    pub closed spec fn well_formed(&self) -> bool {
        forall|a: int, b: int|
            0 <= a < b < self.held@.len() ==> self.held@[a] != self.held@[b]
    }

    /// A table with nothing held.
    pub fn new() -> (r: LockTable)
        ensures
            r.well_formed(),
            r.held_keys() == Set::<u64>::empty(),
    {
        let r = LockTable { held: Vec::new() };
        proof {
            assert(r.held@.to_set() =~= Set::<u64>::empty());
        }
        r
    }

    fn position_of(&self, key: u64) -> (r: Option<usize>)
        ensures
            match r {
                Some(j) => j < self.held@.len() && self.held@[j as int] == key,
                None => !self.held_keys().contains(key),
            },
    {
        let mut j: usize = 0;
        while j < self.held.len()
            invariant
                j <= self.held@.len(),
                forall|k: int| 0 <= k < j ==> self.held@[k] != key,
            decreases self.held@.len() - j,
        {
            if self.held[j] == key {
                return Some(j);
            }
            j = j + 1;
        }
        proof {
            if self.held@.to_set().contains(key) {
                let w = choose|w: int| 0 <= w < self.held@.len() && self.held@[w] == key;
                assert(self.held@[w] != key);
            }
        }
        None
    }

    /// Non-blocking acquisition: succeeds exactly when the key is free,
    /// and then holds it; a held key leaves the table unchanged.
    pub fn try_acquire(&mut self, key: u64) -> (acquired: bool)
        requires
            old(self).well_formed(),
        ensures
            final(self).well_formed(),
            acquired == !old(self).held_keys().contains(key),
            acquired ==> final(self).held_keys() == old(self).held_keys().insert(key),
            !acquired ==> final(self).held_keys() == old(self).held_keys(),
    {
        match self.position_of(key) {
            Some(_) => {
                proof {
                    assert(old(self).held@.to_set().contains(key));
                }
                false
            },
            None => {
                self.held.push(key);
                proof {
                    assert(self.held@.drop_last() =~= old(self).held@);
                    assert(self.held@.to_set() =~= old(self).held@.to_set().insert(key)) by {
                        assert(forall|x: u64|
                            self.held@.to_set().contains(x) <==> old(self).held@.to_set().insert(
                                key,
                            ).contains(x)) by {
                            assert(forall|x: u64|
                                #[trigger] self.held@.contains(x) <==> old(self).held@.contains(x)
                                    || x == key) by {
                                assert(self.held@.last() == key);
                                assert(forall|k: int|
                                    0 <= k < old(self).held@.len() ==> self.held@[k] == old(
                                        self,
                                    ).held@[k]);
                            }
                        }
                    }
                }
                true
            },
        }
    }

    /// Releases a key; releasing a free key is harmless.
    pub fn release(&mut self, key: u64)
        requires
            old(self).well_formed(),
        ensures
            final(self).well_formed(),
            final(self).held_keys() == old(self).held_keys().remove(key),
    {
        match self.position_of(key) {
            Some(j) => {
                self.held.remove(j);
                proof {
                    let pre = old(self).held@;
                    let post = self.held@;
                    assert(forall|k: int| 0 <= k < j ==> post[k] == pre[k]);
                    assert(forall|k: int| j <= k < post.len() ==> post[k] == pre[k + 1]);
                    assert(post.to_set() =~= pre.to_set().remove(key)) by {
                        assert(forall|x: u64| #[trigger]
                            post.contains(x) ==> pre.contains(x) && x != key) by {
                            assert(forall|k: int|
                                0 <= k < post.len() ==> post[k] == (if k < j {
                                    pre[k]
                                } else {
                                    pre[k + 1]
                                }) && post[k] != key);
                        }
                        assert(forall|x: u64| #[trigger]
                            pre.contains(x) && x != key ==> post.contains(x)) by {
                            assert(forall|k: int|
                                0 <= k < pre.len() && pre[k] != key ==> exists|m: int|
                                    0 <= m < post.len() && post[m] == pre[k]) by {
                                assert(forall|k: int|
                                    0 <= k < (j as int) && pre[k] != key ==> post[k] == pre[k]);
                                assert(forall|k: int|
                                    j < k < pre.len() ==> post[k - 1] == pre[k]);
                            }
                        }
                    }
                }
            },
            None => {
                proof {
                    assert(self.held@.to_set() =~= old(self).held@.to_set().remove(key));
                }
            },
        }
    }
}

/// The mutual-exclusion rule: of two acquisitions of the same key in either
/// order without a release between them, exactly one succeeds, while an
/// acquisition of a different free key is unaffected by the first.
pub proof fn lemma_mutual_exclusion(t0: LockTable, t1: LockTable, t2: LockTable, key: u64, a1: bool, a2: bool, other: u64, t3: LockTable, a3: bool)
    requires
        t0.well_formed(),
        !t0.held_keys().contains(key),
        a1 == !t0.held_keys().contains(key),
        a1 ==> t1.held_keys() == t0.held_keys().insert(key),
        !a1 ==> t1.held_keys() == t0.held_keys(),
        a2 == !t1.held_keys().contains(key),
        a2 ==> t2.held_keys() == t1.held_keys().insert(key),
        !a2 ==> t2.held_keys() == t1.held_keys(),
        other != key,
        !t0.held_keys().contains(other),
        a3 == !t2.held_keys().contains(other),
    ensures
        a1 && !a2,
        a3,
{
}

} // verus!
