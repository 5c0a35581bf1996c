//! In-memory, TTL-bounded store of resolved target bundles, keyed by the
//! public short key.
//!
//! Entries are served only strictly before their expiry instant; an expired
//! entry is treated as absent but is not removed by a read.  A write
//! unconditionally overwrites whatever entry the key had, with a fresh
//! expiry.  Instants are monotonic-clock milliseconds supplied by the
//! caller.

use vstd::prelude::*;
use crate::schemas::TargetBundle;
use crate::text::str_eq;

verus! {

/// One cached resolution: the bundle and the absolute instant at which it
/// stops being served.
pub struct CacheEntry {
    pub data: TargetBundle,
    pub expiry: u64,
}

/// Map from short keys to previously resolved bundles, bounded by a TTL.
pub struct ResolutionCache {
    entries: Vec<(String, CacheEntry)>,
}

impl ResolutionCache {
    /// Stored keys are pairwise distinct.
    pub closed spec fn wf(self) -> bool {
        forall|i: int, j: int|
            0 <= i < j < self.entries@.len() ==> self.entries@[i].0@ != self.entries@[j].0@
    }

    /// The cached entries, as a map from key to entry.
    pub closed spec fn contents(self) -> Map<Seq<char>, CacheEntry> {
        Map::new(
            |k: Seq<char>|
                exists|i: int| 0 <= i < self.entries@.len() && self.entries@[i].0@ == k,
            |k: Seq<char>|
                self.entries@[choose|i: int|
                    0 <= i < self.entries@.len() && self.entries@[i].0@ == k].1,
        )
    }

    /// An entry for `key` exists and is still fresh at `now`.
    pub open spec fn live(self, key: Seq<char>, now: u64) -> bool {
        self.contents().contains_key(key) && now < self.contents()[key].expiry
    }

    /// The entry at position `i` is what the contents map holds for its key.
    proof fn lemma_at(self, i: int)
        requires
            self.wf(),
            0 <= i < self.entries@.len(),
        ensures
            self.contents().contains_key(self.entries@[i].0@),
            self.contents()[self.entries@[i].0@] == self.entries@[i].1,
    {
        let k = self.entries@[i].0@;
        assert(exists|j: int| 0 <= j < self.entries@.len() && self.entries@[j].0@ == k);
        let j = choose|j: int| 0 <= j < self.entries@.len() && self.entries@[j].0@ == k;
        assert(j == i);
    }

    /// An empty cache.
    pub fn new() -> (c: ResolutionCache)
        ensures
            c.wf(),
            c.contents() == Map::<Seq<char>, CacheEntry>::empty(),
    {
        let c = ResolutionCache { entries: Vec::new() };
        proof {
            assert(c.contents() =~= Map::<Seq<char>, CacheEntry>::empty());
        }
        c
    }

    /// Returns the entry stored under `key` while it is fresh at `now`; an
    /// expired or missing entry reads as absent.  Nothing is evicted.
    #[verifier::loop_isolation(false)]
    pub fn get(&self, key: &str, now: u64) -> (r: Option<&CacheEntry>)
        requires
            self.wf(),
        ensures
            match r {
                Some(e) => self.live(key@, now) && *e == self.contents()[key@],
                None => !self.live(key@, now),
            },
    {
        let n = self.entries.len();
        let mut i: usize = 0;
        while i < n
            invariant
                i <= n,
                forall|j: int| 0 <= j < i ==> self.entries@[j].0@ != key@,
            decreases n - i,
        {
            if str_eq(self.entries[i].0.as_str(), key) {
                proof {
                    self.lemma_at(i as int);
                }
                if now < self.entries[i].1.expiry {
                    return Some(&self.entries[i].1);
                } else {
                    return None;
                }
            }
            i = i + 1;
        }
        proof {
            if self.contents().contains_key(key@) {
                let j = choose|j: int|
                    0 <= j < self.entries@.len() && self.entries@[j].0@ == key@;
                assert(self.entries@[j].0@ != key@);
            }
        }
        None
    }

    /// Stores `data` under `key` with expiry `now + ttl_ms`, overwriting any
    /// entry the key had.
    #[verifier::loop_isolation(false)]
    pub fn put(&mut self, key: String, data: TargetBundle, now: u64, ttl_ms: u64)
        requires
            old(self).wf(),
            now + ttl_ms <= u64::MAX,
        ensures
            final(self).wf(),
            final(self).contents() == old(self).contents().insert(
                key@,
                (CacheEntry { data, expiry: (now + ttl_ms) as u64 }),
            ),
    {
        let expiry = now + ttl_ms;
        let entry = CacheEntry { data, expiry };
        let ghost target = old(self).contents().insert(
            key@,
            CacheEntry { data, expiry: (now + ttl_ms) as u64 },
        );
        let n = self.entries.len();
        let mut i: usize = 0;
        while i < n
            invariant
                i <= n,
                *self == *old(self),
                forall|j: int| 0 <= j < i ==> self.entries@[j].0@ != key@,
            decreases n - i,
        {
            if str_eq(self.entries[i].0.as_str(), key.as_str()) {
                proof {
                    old(self).lemma_at(i as int);
                }
                self.entries[i] = (key, entry);
                proof {
                    let gi = i as int;
                    assert forall|a: int, b: int|
                        0 <= a < b < self.entries@.len() implies self.entries@[a].0@
                        != self.entries@[b].0@ by {
                        assert(old(self).entries@[a].0@ != old(self).entries@[b].0@);
                    }
                    assert forall|k2: Seq<char>| #[trigger] self.contents().contains_key(k2)
                        implies target.contains_key(k2) && self.contents()[k2] == target[k2] by {
                        let j = choose|j: int|
                            0 <= j < self.entries@.len() && self.entries@[j].0@ == k2;
                        self.lemma_at(j);
                        if j == gi {
                            assert(k2 == key@);
                        } else {
                            old(self).lemma_at(j);
                            assert(k2 != key@);
                        }
                    }
                    assert forall|k2: Seq<char>| #[trigger] target.contains_key(k2)
                        implies self.contents().contains_key(k2) by {
                        if k2 == key@ {
                            self.lemma_at(gi);
                        } else {
                            let j = choose|j: int|
                                0 <= j < old(self).entries@.len() && old(self).entries@[j].0@
                                    == k2;
                            assert(j != gi);
                            assert(self.entries@[j].0@ == k2);
                            self.lemma_at(j);
                        }
                    }
                    assert(self.contents() =~= target);
                }
                return;
            }
            i = i + 1;
        }
        self.entries.push((key, entry));
        proof {
            let gn = n as int;
            assert forall|a: int, b: int|
                0 <= a < b < self.entries@.len() implies self.entries@[a].0@
                != self.entries@[b].0@ by {
                if b < gn {
                    assert(old(self).entries@[a].0@ != old(self).entries@[b].0@);
                } else {
                    assert(self.entries@[a].0@ != key@);
                }
            }
            assert forall|k2: Seq<char>| #[trigger] self.contents().contains_key(k2)
                implies target.contains_key(k2) && self.contents()[k2] == target[k2] by {
                let j = choose|j: int|
                    0 <= j < self.entries@.len() && self.entries@[j].0@ == k2;
                self.lemma_at(j);
                if j == gn {
                    assert(k2 == key@);
                } else {
                    old(self).lemma_at(j);
                    assert(k2 != key@);
                }
            }
            assert forall|k2: Seq<char>| #[trigger] target.contains_key(k2)
                implies self.contents().contains_key(k2) by {
                if k2 == key@ {
                    self.lemma_at(gn);
                } else {
                    let j = choose|j: int|
                        0 <= j < old(self).entries@.len() && old(self).entries@[j].0@ == k2;
                    assert(self.entries@[j].0@ == k2);
                    self.lemma_at(j);
                }
            }
            assert(self.contents() =~= target);
        }
    }
}

} // verus!
