//! Durable record of link targets and their verification state.
//!
//! Records get monotonically increasing ids starting at 1, are created
//! unverified, become verified through consumption of a verification code,
//! and can carry a soft-delete tombstone.  A record is resolvable only
//! while it is verified and not deleted.

use vstd::prelude::*;
use crate::text::str_eq;

verus! {

/// One stored link: target URLs, dedup hash, guard and state flags.
pub struct LinkRecord {
    pub id: i64,
    pub guard: String,
    pub email: String,
    pub ios_deep_link: String,
    pub ios_fallback_url: String,
    pub android_deep_link: String,
    pub android_fallback_url: String,
    pub default_fallback_url: String,
    pub content_hash: String,
    pub webhook_url: String,
    pub head_html: String,
    pub verified: bool,
    pub deleted: bool,
}

/// `rec` is a live (not soft-deleted) record carrying content hash `h`.
pub open spec fn matches_hash(rec: LinkRecord, h: Seq<char>) -> bool {
    rec.content_hash@ == h && !rec.deleted
}

/// Index of the first live record with content hash `h`, if any.
pub open spec fn find_live_by_hash(records: Seq<LinkRecord>, h: Seq<char>) -> Option<int>
    decreases records.len(),
{
    if records.len() == 0 {
        None
    } else if matches_hash(records[0], h) {
        Some(0)
    } else {
        match find_live_by_hash(records.drop_first(), h) {
            Some(i) => Some(i + 1),
            None => None,
        }
    }
}

/// What the first-match search yields: a minimal matching index, or the
/// fact that nothing matches.
pub proof fn lemma_find_live_by_hash(records: Seq<LinkRecord>, h: Seq<char>)
    ensures
        match find_live_by_hash(records, h) {
            Some(i) => 0 <= i < records.len() && matches_hash(records[i], h) && (forall|j: int|
                0 <= j < i ==> !matches_hash(records[j], h)),
            None => forall|j: int| 0 <= j < records.len() ==> !matches_hash(records[j], h),
        },
    decreases records.len(),
{
    if records.len() > 0 && !matches_hash(records[0], h) {
        let rest = records.drop_first();
        lemma_find_live_by_hash(rest, h);
        match find_live_by_hash(rest, h) {
            Some(i) => {
                assert(records[i + 1] == rest[i]);
                assert forall|j: int| 0 <= j < i + 1 implies !matches_hash(records[j], h) by {
                    if j > 0 {
                        assert(rest[j - 1] == records[j]);
                    }
                }
            },
            None => {
                assert forall|j: int| 0 <= j < records.len() implies !matches_hash(
                    records[j],
                    h,
                ) by {
                    if j > 0 {
                        assert(rest[j - 1] == records[j]);
                    }
                }
            },
        }
    }
}

/// The record a given id resolves to: the id must be in range and the
/// record verified and not deleted.
pub open spec fn find_resolvable_spec(records: Seq<LinkRecord>, id: int) -> Option<LinkRecord> {
    if 1 <= id <= records.len() && records[id - 1].verified && !records[id - 1].deleted {
        Some(records[id - 1])
    } else {
        None
    }
}

/// The records after marking the one with the given id verified, provided
/// its stored guard is exactly `guard`; otherwise the records unchanged.
pub open spec fn set_verified_spec(records: Seq<LinkRecord>, id: int, guard: Seq<char>) -> Seq<
    LinkRecord,
> {
    if 1 <= id <= records.len() && records[id - 1].guard@ == guard {
        records.update(id - 1, (LinkRecord { verified: true, ..records[id - 1] }))
    } else {
        records
    }
}

/// In-memory realization of the persistence collaborator.
pub struct LinkStore {
    rows: Vec<LinkRecord>,
}

impl LinkStore {
    /// The stored records, in id order.
    pub closed spec fn records(self) -> Seq<LinkRecord> {
        self.rows@
    }

    /// Ids are assigned in insertion order, starting at 1.
    pub open spec fn wf(self) -> bool {
        forall|i: int| 0 <= i < self.records().len() ==> #[trigger] self.records()[i].id == i + 1
    }

    /// An empty store.
    pub fn new() -> (s: LinkStore)
        ensures
            s.wf(),
            s.records() == Seq::<LinkRecord>::empty(),
    {
        LinkStore { rows: Vec::new() }
    }

    /// How many records are stored.
    pub fn record_count(&self) -> (n: usize)
        ensures
            n == self.records().len(),
    {
        self.rows.len()
    }

    /// First live record carrying content hash `hash`, if any.
    #[verifier::loop_isolation(false)]
    pub fn find_by_hash(&self, hash: &str) -> (r: Option<&LinkRecord>)
        ensures
            match r {
                Some(rec) => find_live_by_hash(self.records(), hash@) matches Some(i) && *rec
                    == self.records()[i],
                None => find_live_by_hash(self.records(), hash@) is None,
            },
    {
        let n = self.rows.len();
        let mut i: usize = 0;
        while i < n
            invariant
                i <= n,
                forall|j: int| 0 <= j < i ==> !matches_hash(self.records()[j], hash@),
            decreases n - i,
        {
            if !self.rows[i].deleted && str_eq(self.rows[i].content_hash.as_str(), hash) {
                proof {
                    lemma_find_live_by_hash(self.records(), hash@);
                }
                return Some(&self.rows[i]);
            }
            i = i + 1;
        }
        proof {
            lemma_find_live_by_hash(self.records(), hash@);
        }
        None
    }

    /// Appends `rec` as a fresh unverified, undeleted record and assigns it
    /// the next id, which it returns.
    pub fn insert(&mut self, rec: LinkRecord) -> (id: i64)
        requires
            old(self).wf(),
            old(self).records().len() < i64::MAX,
        ensures
            final(self).wf(),
            id == old(self).records().len() + 1,
            final(self).records() == old(self).records().push(
                (LinkRecord { id, verified: false, deleted: false, ..rec }),
            ),
    {
        let id = (self.rows.len() as i64) + 1;
        let mut fresh = rec;
        fresh.id = id;
        fresh.verified = false;
        fresh.deleted = false;
        self.rows.push(fresh);
        id
    }

    /// The record under `id`, provided it is verified and not deleted.
    pub fn find_resolvable(&self, id: i64) -> (r: Option<&LinkRecord>)
        ensures
            match r {
                Some(rec) => find_resolvable_spec(self.records(), id as int) == Some(*rec),
                None => find_resolvable_spec(self.records(), id as int) is None,
            },
    {
        if id < 1 {
            return None;
        }
        let pos = (id as u64) - 1;
        if pos >= self.rows.len() as u64 {
            return None;
        }
        let idx = pos as usize;
        if self.rows[idx].verified && !self.rows[idx].deleted {
            Some(&self.rows[idx])
        } else {
            None
        }
    }

    /// Replaces the head markup stored for the record under `id`; reports
    /// whether such a record exists.
    pub fn set_head_html(&mut self, id: i64, head_html: String) -> (updated: bool)
        requires
            old(self).wf(),
        ensures
            final(self).wf(),
            updated == (1 <= id as int <= old(self).records().len()),
            final(self).records() == (if 1 <= id as int <= old(self).records().len() {
                old(self).records().update(
                    id as int - 1,
                    (LinkRecord { head_html, ..old(self).records()[id as int - 1] }),
                )
            } else {
                old(self).records()
            }),
    {
        if id < 1 {
            return false;
        }
        let pos = (id as u64) - 1;
        if pos >= self.rows.len() as u64 {
            return false;
        }
        let idx = pos as usize;
        self.rows[idx].head_html = head_html;
        true
    }

    /// Marks the record under `id` verified if its stored guard is exactly
    /// `guard`; reports whether a record was updated.
    pub fn set_verified(&mut self, id: i64, guard: &str) -> (updated: bool)
        requires
            old(self).wf(),
        ensures
            final(self).wf(),
            final(self).records() == set_verified_spec(old(self).records(), id as int, guard@),
            updated == (1 <= id as int <= old(self).records().len() && old(self).records()[id as int
                - 1].guard@ == guard@),
    {
        if id < 1 {
            return false;
        }
        let pos = (id as u64) - 1;
        if pos >= self.rows.len() as u64 {
            return false;
        }
        let idx = pos as usize;
        if !str_eq(self.rows[idx].guard.as_str(), guard) {
            return false;
        }
        self.rows[idx].verified = true;
        proof {
            assert(self.records() =~= set_verified_spec(
                old(self).records(),
                id as int,
                guard@,
            ));
        }
        true
    }
}

} // verus!
