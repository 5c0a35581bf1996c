//! Properties of the resolution and creation protocol, stated and proved
//! over the contracts of `Resolver`'s methods.

use vstd::prelude::*;
use crate::cache::CacheEntry;
use crate::codec::lemma_split_compose;
use crate::codec::split_spec;
use crate::ledger::lemma_find_ticket;
use crate::ledger::find_ticket_spec;
use crate::resolver::cache_live;
use crate::resolver::content_hash_spec;
use crate::resolver::create_post;
use crate::resolver::resolve_post;
use crate::resolver::ticket_matches;
use crate::resolver::verify_post;
use crate::resolver::CoreError;
use crate::resolver::CreateOutcome;
use crate::resolver::Resolver;
use crate::resolver::ResolveOutcome;
use crate::resolver::CACHE_TTL_MS;
use crate::store::find_live_by_hash;
use crate::store::find_resolvable_spec;
use crate::store::lemma_find_live_by_hash;
use crate::store::matches_hash;

verus! {

/// A short key whose guard does not match the stored record's guard, and a
/// short key whose id has no resolvable record at all, resolve exactly
/// alike: `NotFound`, with nothing changed — so probing a key cannot tell
/// a wrong guard from a nonexistent record.
pub proof fn lemma_guard_mismatch_like_absent(
    pre: Resolver,
    post: Resolver,
    key: Seq<char>,
    now: u64,
    id: int,
    g: Seq<char>,
    r: Result<ResolveOutcome, CoreError>,
)
    requires
        resolve_post(pre, post, key, now, r),
        !cache_live(pre.cache_contents(), key, now),
        split_spec(key) == Some((id, g)),
        match find_resolvable_spec(pre.store_records(), id) {
            None => true,
            Some(rec) => rec.guard@ != g,
        },
    ensures
        r matches Err(CoreError::NotFound),
        post == pre,
{
}

/// A resolution read strictly before the boundary of the entry written by
/// an earlier resolution returns that very bundle out of the cache and
/// changes nothing.
pub proof fn lemma_cache_fresh_hit(
    pre: Resolver,
    mid: Resolver,
    post: Resolver,
    key: Seq<char>,
    now0: u64,
    now1: u64,
    first: ResolveOutcome,
    r: Result<ResolveOutcome, CoreError>,
)
    requires
        !cache_live(pre.cache_contents(), key, now0),
        now0 + CACHE_TTL_MS <= u64::MAX,
        resolve_post(pre, mid, key, now0, Ok(first)),
        now1 < now0 + CACHE_TTL_MS,
        resolve_post(mid, post, key, now1, r),
    ensures
        r matches Ok(o) && o.bundle == first.bundle && o.from_cache == true,
        post == mid,
{
    assert(mid.cache_contents().contains_key(key));
    assert(mid.cache_contents()[key].data == first.bundle);
}

/// A resolution read at or past the boundary of the entry written by an
/// earlier resolution goes back to the store, answers with the same
/// record's bundle, and repopulates the cache with a fresh expiry.
pub proof fn lemma_cache_expired_repopulates(
    pre: Resolver,
    mid: Resolver,
    post: Resolver,
    key: Seq<char>,
    now0: u64,
    now1: u64,
    first: ResolveOutcome,
    r: Result<ResolveOutcome, CoreError>,
)
    requires
        !cache_live(pre.cache_contents(), key, now0),
        now0 + CACHE_TTL_MS <= u64::MAX,
        resolve_post(pre, mid, key, now0, Ok(first)),
        now1 >= now0 + CACHE_TTL_MS,
        now1 + CACHE_TTL_MS <= u64::MAX,
        resolve_post(mid, post, key, now1, r),
    ensures
        r matches Ok(o) && o.bundle == first.bundle && o.from_cache == false,
        post.cache_contents() == mid.cache_contents().insert(
            key,
            (CacheEntry { data: first.bundle, expiry: (now1 + CACHE_TTL_MS) as u64 }),
        ),
{
    assert(!cache_live(mid.cache_contents(), key, now1));
}

/// Creating targets whose content hash already belongs to a live, verified
/// record is refused as a conflict and changes nothing.
pub proof fn lemma_create_duplicate_conflict(
    pre: Resolver,
    post: Resolver,
    req: crate::schemas::CreateUrlRequest,
    guard: Seq<char>,
    code: Seq<char>,
    now: u64,
    i: int,
    r: Result<CreateOutcome, CoreError>,
)
    requires
        create_post(pre, post, req, guard, code, now, r),
        crate::validate::validate_request_spec(req) is None,
        find_live_by_hash(pre.store_records(), content_hash_spec(req)) == Some(i),
        0 <= i < pre.store_records().len(),
        pre.store_records()[i].verified,
    ensures
        r matches Err(CoreError::Conflict),
        post == pre,
{
}

/// Two creates with identical target fields, the first fresh and still
/// unverified: the second inserts nothing, reuses the first call's short
/// key, and issues a new ticket under the second call's code.
pub proof fn lemma_create_twice_reuses_key(
    s0: Resolver,
    s1: Resolver,
    s2: Resolver,
    req: crate::schemas::CreateUrlRequest,
    g1: Seq<char>,
    c1: Seq<char>,
    n1: u64,
    o1: CreateOutcome,
    g2: Seq<char>,
    c2: Seq<char>,
    n2: u64,
    r2: Result<CreateOutcome, CoreError>,
)
    requires
        find_live_by_hash(s0.store_records(), content_hash_spec(req)) is None,
        create_post(s0, s1, req, g1, c1, n1, Ok(o1)),
        create_post(s1, s2, req, g2, c2, n2, r2),
    ensures
        o1.is_created == true,
        r2 matches Ok(o2) && o2.is_created == false && o2.short_key@ == o1.short_key@
            && ticket_matches(s2.tickets().last(), o1.short_key@, c2, n2),
        s2.store_records() == s1.store_records(),
{
    let h = content_hash_spec(req);
    let n0 = s0.store_records().len() as int;
    let fresh = s1.store_records()[n0];
    assert(matches_hash(fresh, h));
    lemma_find_live_by_hash(s0.store_records(), h);
    lemma_find_live_by_hash(s1.store_records(), h);
    match find_live_by_hash(s1.store_records(), h) {
        None => {
            assert(false);
        },
        Some(k) => {
            assert(matches_hash(s1.store_records()[k], h));
            if k < n0 {
                assert(s1.store_records().drop_last()[k] == s1.store_records()[k]);
                assert(false);
            }
            assert(k == n0);
        },
    }
}

/// End to end: a fresh create, its code consumed strictly within the
/// ticket lifetime, and the short key resolved, hand back exactly the
/// target fields the request carried.
pub proof fn lemma_create_verify_resolve(
    s0: Resolver,
    s1: Resolver,
    s2: Resolver,
    s3: Resolver,
    req: crate::schemas::CreateUrlRequest,
    g: Seq<char>,
    c: Seq<char>,
    n1: u64,
    n2: u64,
    n3: u64,
    o1: CreateOutcome,
    r2: Result<String, CoreError>,
    r3: Result<ResolveOutcome, CoreError>,
)
    requires
        g.len() == 4,
        find_live_by_hash(s0.store_records(), content_hash_spec(req)) is None,
        create_post(s0, s1, req, g, c, n1, Ok(o1)),
        forall|j: int|
            0 <= j < s0.tickets().len() ==> (#[trigger] s0.tickets()[j]).code@ != c,
        n2 < n1 + crate::ledger::TICKET_TTL_MS,
        verify_post(s1, s2, c, n2, r2),
        !cache_live(s2.cache_contents(), o1.short_key@, n3),
        resolve_post(s2, s3, o1.short_key@, n3, r3),
    ensures
        r2 matches Ok(k) && k@ == o1.short_key@,
        r3 matches Ok(o3) && {
            &&& o3.bundle.ios_deep_link@ == req.ios_deep_link@
            &&& o3.bundle.ios_fallback_url@ == req.ios_fallback_url@
            &&& o3.bundle.android_deep_link@ == req.android_deep_link@
            &&& o3.bundle.android_fallback_url@ == req.android_fallback_url@
            &&& o3.bundle.default_fallback_url@ == req.default_fallback_url@
            &&& o3.bundle.webhook_url@ == req.webhook_url@
        },
{
    let n0 = s0.store_records().len() as int;
    let tlen = s0.tickets().len() as int;
    let t = s1.tickets().last();
    assert(ticket_matches(t, o1.short_key@, c, n1));

    // The fresh ticket is the one the code finds: older tickets carry
    // other codes.
    lemma_find_ticket(s1.tickets(), c, n2);
    match find_ticket_spec(s1.tickets(), c, n2) {
        None => {
            assert(crate::ledger::ticket_live(t, c, n2));
            assert(false);
        },
        Some(k) => {
            if k < tlen {
                assert(s1.tickets().drop_last()[k] == s1.tickets()[k]);
                assert(s0.tickets()[k].code@ != c);
                assert(false);
            }
            assert(k == tlen);
        },
    }

    // Its short key splits back into the new record's id and guard.
    lemma_split_compose(n0 + 1, g);
    assert(split_spec(t.short_key@) == Some((n0 + 1, g)));

    // Consumption marks exactly that record verified.
    assert(s2.store_records() == crate::store::set_verified_spec(
        s1.store_records(),
        n0 + 1,
        g,
    ));
    let rec = s2.store_records()[n0];
    assert(rec.verified);
    assert(find_resolvable_spec(s2.store_records(), n0 + 1) == Some(rec));
    assert(rec.guard@ == g);
}

/// A code presented once every ticket carrying it has expired is refused,
/// and nothing changes: the record stays unverified and the dead code
/// cannot be revived.
pub proof fn lemma_expired_code_dead(
    pre: Resolver,
    post: Resolver,
    code: Seq<char>,
    now: u64,
    r: Result<String, CoreError>,
)
    requires
        verify_post(pre, post, code, now, r),
        forall|j: int|
            0 <= j < pre.tickets().len() && (#[trigger] pre.tickets()[j]).code@ == code
                ==> pre.tickets()[j].expires_at <= now,
    ensures
        r matches Err(CoreError::NotFound),
        post == pre,
{
    lemma_find_ticket(pre.tickets(), code, now);
    if let Some(i) = find_ticket_spec(pre.tickets(), code, now) {
        assert(pre.tickets()[i].expires_at <= now);
        assert(false);
    }
}

} // verus!
