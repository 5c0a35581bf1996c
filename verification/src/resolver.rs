//! The protocol around the codec, cache, store and ledger: admitting new
//! links, answering what a short key redirects to, and consuming
//! verification codes.

use vstd::prelude::*;
use crate::cache::CacheEntry;
use crate::cache::ResolutionCache;
use crate::codec::compose_short_key;
use crate::codec::compose_spec;
use crate::codec::split_short_key;
use crate::codec::split_spec;
use crate::codec::lemma_split_compose;
use crate::digest::sha256_hex;
use crate::digest::sha256_hex_of;
use crate::ledger::find_ticket_spec;
use crate::ledger::VerificationLedger;
use crate::ledger::VerificationTicket;
use crate::ledger::TICKET_TTL_MS;
use crate::schemas::CreateUrlRequest;
use crate::schemas::TargetBundle;
use crate::store::find_live_by_hash;
use crate::store::find_resolvable_spec;
use crate::store::set_verified_spec;
use crate::store::LinkRecord;
use crate::store::LinkStore;
use crate::text::str_eq;
use crate::validate::validate_request;
use crate::validate::validate_request_spec;

verus! {

/// How long a cached resolution stays served: one hour.
pub const CACHE_TTL_MS: u64 = 3600000;

/// A failure a caller sees.  An unknown short key, a guard mismatch and an
/// unknown or expired verification code all collapse into `NotFound`, so
/// probing cannot tell them apart.
#[derive(Debug)]
pub enum CoreError {
    /// A malformed request field, with the message of the first check that
    /// refused it.
    Validation(String),
    /// The same targets are already registered and verified.
    Conflict,
    /// Nothing to serve: unknown key, wrong guard, or dead code.
    NotFound,
}

/// What a create request decided, and what remains for the caller to do:
/// email `code` to `email`, and, when `fetch_metadata` holds, fetch page
/// metadata for the default fallback URL in the background.
pub struct CreateOutcome {
    pub is_created: bool,
    pub id: i64,
    pub short_key: String,
    pub email: String,
    pub code: String,
    pub fetch_metadata: bool,
}

/// A successful resolution: the bundle to present, whether a webhook
/// notification is owed, and whether the cache answered.
pub struct ResolveOutcome {
    pub bundle: TargetBundle,
    pub notify: bool,
    pub from_cache: bool,
}

/// The five target fields, concatenated in order: the digest input that
/// deduplicates create requests.  The email and webhook fields are
/// deliberately left out.
pub open spec fn hash_input(req: CreateUrlRequest) -> Seq<char> {
    req.ios_deep_link@ + req.ios_fallback_url@ + req.android_deep_link@
        + req.android_fallback_url@ + req.default_fallback_url@
}

/// The content hash a create request dedups by.
pub open spec fn content_hash_spec(req: CreateUrlRequest) -> Seq<char> {
    sha256_hex_of(hash_input(req))
}

/// The redirect-relevant projection of a record.
pub open spec fn bundle_of(rec: LinkRecord) -> TargetBundle {
    TargetBundle {
        ios_deep_link: rec.ios_deep_link,
        ios_fallback_url: rec.ios_fallback_url,
        android_deep_link: rec.android_deep_link,
        android_fallback_url: rec.android_fallback_url,
        default_fallback_url: rec.default_fallback_url,
        webhook_url: rec.webhook_url,
        head_html: rec.head_html,
    }
}

/// The record a fresh create inserts: the request's fields under the given
/// guard and id, hashed, unverified and undeleted.
pub open spec fn record_matches(
    rec: LinkRecord,
    req: CreateUrlRequest,
    guard: Seq<char>,
    id: int,
) -> bool {
    &&& rec.id == id
    &&& rec.guard@ == guard
    &&& rec.email@ == req.email@
    &&& rec.ios_deep_link@ == req.ios_deep_link@
    &&& rec.ios_fallback_url@ == req.ios_fallback_url@
    &&& rec.android_deep_link@ == req.android_deep_link@
    &&& rec.android_fallback_url@ == req.android_fallback_url@
    &&& rec.default_fallback_url@ == req.default_fallback_url@
    &&& rec.content_hash@ == content_hash_spec(req)
    &&& rec.webhook_url@ == req.webhook_url@
    &&& rec.head_html@ == req.head_html@
    &&& !rec.verified
    &&& !rec.deleted
}

/// The ticket a create issues: the short key under the code, expiring a
/// ticket lifetime after `now`.
pub open spec fn ticket_matches(
    t: VerificationTicket,
    key: Seq<char>,
    code: Seq<char>,
    now: u64,
) -> bool {
    &&& t.short_key@ == key
    &&& t.code@ == code
    &&& t.expires_at == now + TICKET_TTL_MS
}

/// A cache entry for `key` exists and is still fresh at `now`.
pub open spec fn cache_live(cache: Map<Seq<char>, CacheEntry>, key: Seq<char>, now: u64) -> bool {
    cache.contains_key(key) && now < cache[key].expiry
}

/// The codec, cache, store and ledger, acting as one.
pub struct Resolver {
    store: LinkStore,
    cache: ResolutionCache,
    ledger: VerificationLedger,
}

impl Resolver {
    /// The stored link records, in id order.
    pub closed spec fn store_records(self) -> Seq<LinkRecord> {
        self.store.records()
    }

    /// The cached resolutions, keyed by short key.
    pub closed spec fn cache_contents(self) -> Map<Seq<char>, CacheEntry> {
        self.cache.contents()
    }

    /// The outstanding verification tickets, oldest first.
    pub closed spec fn tickets(self) -> Seq<VerificationTicket> {
        self.ledger.tickets()
    }

    /// Ids are dense from 1, cache keys are distinct, every stored guard
    /// has four characters, and every outstanding ticket names a short key
    /// that splits.
    pub closed spec fn wf(self) -> bool {
        &&& self.store.wf()
        &&& self.cache.wf()
        &&& forall|i: int|
            0 <= i < self.store.records().len() ==> (#[trigger] self.store.records()[i]).guard@.len()
                == 4
        &&& forall|i: int|
            0 <= i < self.ledger.tickets().len() ==> split_spec(
                (#[trigger] self.ledger.tickets()[i]).short_key@,
            ) is Some
    }

    /// An empty resolver: no records, no cache entries, no tickets.
    pub fn new() -> (r: Resolver)
        ensures
            r.wf(),
            r.store_records() == Seq::<LinkRecord>::empty(),
            r.cache_contents() == Map::<Seq<char>, CacheEntry>::empty(),
            r.tickets() == Seq::<VerificationTicket>::empty(),
    {
        Resolver { store: LinkStore::new(), cache: ResolutionCache::new(), ledger: VerificationLedger::new() }
    }
}

/// Everything `create` decides, for every allowed input.
///
/// A request that fails validation is refused with that message and changes
/// nothing.  Otherwise the store is searched for a live record with the
/// same content hash: a verified match is a conflict and changes nothing;
/// an unverified match gets a new ticket for its existing short key and is
/// reported as not newly created, with the stored record's email as the
/// recipient; no match inserts a fresh unverified record under the given
/// guard, issues a ticket for its composed short key, and asks for a
/// metadata fetch exactly when the request carried no head markup.
pub open spec fn create_post(
    pre: Resolver,
    post: Resolver,
    req: CreateUrlRequest,
    guard: Seq<char>,
    code: Seq<char>,
    now: u64,
    r: Result<CreateOutcome, CoreError>,
) -> bool {
    match r {
        Err(CoreError::Validation(m)) => {
            &&& validate_request_spec(req) == Some(m@)
            &&& post == pre
        },
        Err(CoreError::Conflict) => {
            &&& validate_request_spec(req) is None
            &&& find_live_by_hash(pre.store_records(), content_hash_spec(req)) matches Some(i)
                && pre.store_records()[i].verified
            &&& post == pre
        },
        Err(CoreError::NotFound) => false,
        Ok(o) => {
            &&& validate_request_spec(req) is None
            &&& o.code@ == code
            &&& post.cache_contents() == pre.cache_contents()
            &&& post.tickets().len() == pre.tickets().len() + 1
            &&& post.tickets().drop_last() == pre.tickets()
            &&& ticket_matches(post.tickets().last(), o.short_key@, code, now)
            &&& match find_live_by_hash(pre.store_records(), content_hash_spec(req)) {
                Some(i) => {
                    let rec = pre.store_records()[i];
                    &&& !rec.verified
                    &&& o.is_created == false
                    &&& o.id == rec.id
                    &&& o.short_key@ == compose_spec(rec.id as int, rec.guard@)
                    &&& o.email@ == rec.email@
                    &&& o.fetch_metadata == false
                    &&& post.store_records() == pre.store_records()
                },
                None => {
                    let n = pre.store_records().len();
                    &&& o.is_created == true
                    &&& o.id == n + 1
                    &&& o.short_key@ == compose_spec(n + 1 as int, guard)
                    &&& o.email@ == req.email@
                    &&& o.fetch_metadata == (req.head_html@.len() == 0)
                    &&& post.store_records().len() == n + 1
                    &&& post.store_records().drop_last() == pre.store_records()
                    &&& record_matches(post.store_records()[n as int], req, guard, n + 1 as int)
                },
            }
        },
    }
}

/// Everything `resolve` decides, for every input.
///
/// A fresh cache entry answers directly and changes nothing.  Otherwise the
/// key is split; an unsplittable key, an id without a resolvable record and
/// a guard that differs from the stored one all fail alike with `NotFound`
/// and change nothing.  A full match builds the record's bundle, caches it
/// under the key with a fresh expiry, and asks for a webhook notification
/// exactly when the bundle carries a webhook URL.
pub open spec fn resolve_post(
    pre: Resolver,
    post: Resolver,
    key: Seq<char>,
    now: u64,
    r: Result<ResolveOutcome, CoreError>,
) -> bool {
    if cache_live(pre.cache_contents(), key, now) {
        match r {
            Ok(o) => {
                &&& o.bundle == pre.cache_contents()[key].data
                &&& o.from_cache == true
                &&& o.notify == (o.bundle.webhook_url@.len() > 0)
                &&& post == pre
            },
            Err(_) => false,
        }
    } else {
        match split_spec(key) {
            None => r matches Err(CoreError::NotFound) && post == pre,
            Some((id, g)) => match find_resolvable_spec(pre.store_records(), id) {
                None => r matches Err(CoreError::NotFound) && post == pre,
                Some(rec) => {
                    if rec.guard@ != g {
                        r matches Err(CoreError::NotFound) && post == pre
                    } else {
                        match r {
                            Ok(o) => {
                                &&& o.bundle == bundle_of(rec)
                                &&& o.from_cache == false
                                &&& o.notify == (rec.webhook_url@.len() > 0)
                                &&& post.store_records() == pre.store_records()
                                &&& post.tickets() == pre.tickets()
                                &&& post.cache_contents() == pre.cache_contents().insert(
                                    key,
                                    (CacheEntry {
                                        data: o.bundle,
                                        expiry: (now + CACHE_TTL_MS) as u64,
                                    }),
                                )
                            },
                            Err(_) => false,
                        }
                    }
                },
            },
        }
    }
}

/// Everything `verify` decides, for every input.
///
/// Without a consumable ticket for the code, `NotFound`, and nothing
/// changes.  With one, exactly that ticket leaves the ledger, the record
/// the ticket's short key names is marked verified provided its stored
/// guard is the key's guard, and the short key is returned.
pub open spec fn verify_post(
    pre: Resolver,
    post: Resolver,
    code: Seq<char>,
    now: u64,
    r: Result<String, CoreError>,
) -> bool {
    match find_ticket_spec(pre.tickets(), code, now) {
        None => r matches Err(CoreError::NotFound) && post == pre,
        Some(i) => {
            let t = pre.tickets()[i];
            match split_spec(t.short_key@) {
                None => false,
                Some((id, g)) => match r {
                    Ok(k) => {
                        &&& k@ == t.short_key@
                        &&& post.tickets() == pre.tickets().remove(i)
                        &&& post.store_records() == set_verified_spec(pre.store_records(), id, g)
                        &&& post.cache_contents() == pre.cache_contents()
                    },
                    Err(_) => false,
                },
            }
        },
    }
}

/// Concatenates the five target fields and digests them: the hash create
/// requests dedup by.
pub fn content_hash(req: &CreateUrlRequest) -> (r: String)
    ensures
        r@ == content_hash_spec(*req),
        r@.len() == 64,
{
    let mut s = req.ios_deep_link.clone();
    s.append(req.ios_fallback_url.as_str());
    s.append(req.android_deep_link.as_str());
    s.append(req.android_fallback_url.as_str());
    s.append(req.default_fallback_url.as_str());
    proof {
        assert(s@ =~= hash_input(*req));
    }
    sha256_hex(s.as_str())
}

/// The record's bundle, field by field.
fn bundle_from_record(rec: &LinkRecord) -> (b: TargetBundle)
    ensures
        b == bundle_of(*rec),
{
    TargetBundle {
        ios_deep_link: rec.ios_deep_link.clone(),
        ios_fallback_url: rec.ios_fallback_url.clone(),
        android_deep_link: rec.android_deep_link.clone(),
        android_fallback_url: rec.android_fallback_url.clone(),
        default_fallback_url: rec.default_fallback_url.clone(),
        webhook_url: rec.webhook_url.clone(),
        head_html: rec.head_html.clone(),
    }
}

impl Resolver {
    /// Admits a link under a freshly drawn `guard` and verification `code`
    /// (see `generate_random_string`), deduplicating by content hash.
    pub fn create(
        &mut self,
        req: &CreateUrlRequest,
        guard: String,
        code: String,
        now: u64,
    ) -> (r: Result<CreateOutcome, CoreError>)
        requires
            old(self).wf(),
            guard@.len() == 4,
            now + TICKET_TTL_MS <= u64::MAX,
            old(self).store_records().len() < i64::MAX,
        ensures
            final(self).wf(),
            create_post(*old(self), *final(self), *req, guard@, code@, now, r),
    {
        if let Err(m) = validate_request(req) {
            return Err(CoreError::Validation(m));
        }
        let h = content_hash(req);
        let mut existing: Option<(i64, String, String)> = None;
        match self.store.find_by_hash(h.as_str()) {
            Some(rec) => {
                if rec.verified {
                    return Err(CoreError::Conflict);
                }
                proof {
                    crate::store::lemma_find_live_by_hash(
                        self.store.records(),
                        h@,
                    );
                }
                let short_key = compose_short_key(rec.id, rec.guard.as_str());
                existing = Some((rec.id, short_key, rec.email.clone()));
            },
            None => {},
        }
        if let Some((id, short_key, email)) = existing {
            self.ledger.issue(short_key.clone(), code.clone(), now);
            proof {
                assert(self.ledger.tickets().drop_last() =~= old(self).ledger.tickets());
                if let Some(i) = find_live_by_hash(
                    old(self).store.records(),
                    content_hash_spec(*req),
                ) {
                    let rec = old(self).store.records()[i];
                    lemma_split_compose(rec.id as int, rec.guard@);
                }
                self.lemma_ticket_wf_after_issue(*old(self));
            }
            return Ok(CreateOutcome {
                is_created: false,
                id,
                short_key,
                email,
                code,
                fetch_metadata: false,
            });
        }
        let fetch_metadata = req.head_html.as_str().is_empty();
        let record = LinkRecord {
            id: 0,
            guard: guard.clone(),
            email: req.email.clone(),
            ios_deep_link: req.ios_deep_link.clone(),
            ios_fallback_url: req.ios_fallback_url.clone(),
            android_deep_link: req.android_deep_link.clone(),
            android_fallback_url: req.android_fallback_url.clone(),
            default_fallback_url: req.default_fallback_url.clone(),
            content_hash: h,
            webhook_url: req.webhook_url.clone(),
            head_html: req.head_html.clone(),
            verified: false,
            deleted: false,
        };
        let id = self.store.insert(record);
        proof {
            assert(self.store.records().drop_last() =~= old(self).store.records());
            lemma_split_compose(id as int, guard@);
        }
        let short_key = compose_short_key(id, guard.as_str());
        self.ledger.issue(short_key.clone(), code.clone(), now);
        proof {
            assert(self.ledger.tickets().drop_last() =~= old(self).ledger.tickets());
            self.lemma_ticket_wf_after_issue(*old(self));
            assert forall|i: int|
                0 <= i < self.store.records().len() implies (#[trigger] self.store.records()[i]).guard@.len()
                == 4 by {
                if i < old(self).store.records().len() {
                    assert(self.store.records()[i] == old(self).store.records()[i]);
                }
            }
        }
        Ok(CreateOutcome {
            is_created: true,
            id,
            short_key,
            email: req.email.clone(),
            code,
            fetch_metadata,
        })
    }

    /// How many records the store holds.
    pub fn record_count(&self) -> (n: usize)
        ensures
            n == self.store_records().len(),
    {
        self.store.record_count()
    }

    /// Stores head markup fetched for the record under `id`, leaving every
    /// other field, the cache and the ledger alone; reports whether such a
    /// record exists.
    pub fn set_head_markup(&mut self, id: i64, head_html: String) -> (updated: bool)
        requires
            old(self).wf(),
        ensures
            final(self).wf(),
            updated == (1 <= id as int <= old(self).store_records().len()),
            final(self).store_records() == (if 1 <= id as int
                <= old(self).store_records().len() {
                old(self).store_records().update(
                    id as int - 1,
                    (LinkRecord { head_html, ..old(self).store_records()[id as int - 1] }),
                )
            } else {
                old(self).store_records()
            }),
            final(self).cache_contents() == old(self).cache_contents(),
            final(self).tickets() == old(self).tickets(),
    {
        let updated = self.store.set_head_html(id, head_html);
        proof {
            assert forall|i: int|
                0 <= i < self.store.records().len() implies (#[trigger] self.store.records()[i]).guard@.len()
                == 4 by {
                assert(self.store.records()[i].guard@ == old(self).store.records()[i].guard@);
            }
        }
        updated
    }

    /// After one ticket was pushed, every outstanding ticket still names a
    /// short key that splits, provided the new one does.
    proof fn lemma_ticket_wf_after_issue(self, pre: Resolver)
        requires
            self.ledger.tickets().len() == pre.ledger.tickets().len() + 1,
            self.ledger.tickets().drop_last() == pre.ledger.tickets(),
            forall|i: int|
                0 <= i < pre.ledger.tickets().len() ==> split_spec(
                    (#[trigger] pre.ledger.tickets()[i]).short_key@,
                ) is Some,
            split_spec(self.ledger.tickets().last().short_key@) is Some,
        ensures
            forall|i: int|
                0 <= i < self.ledger.tickets().len() ==> split_spec(
                    (#[trigger] self.ledger.tickets()[i]).short_key@,
                ) is Some,
    {
        assert forall|i: int| 0 <= i < self.ledger.tickets().len() implies split_spec(
            (#[trigger] self.ledger.tickets()[i]).short_key@,
        ) is Some by {
            if i < self.ledger.tickets().len() - 1 {
                assert(self.ledger.tickets()[i] == self.ledger.tickets().drop_last()[i]);
            } else {
                assert(self.ledger.tickets()[i] == self.ledger.tickets().last());
            }
        }
    }

    /// Answers what `short_key` redirects to: from the cache while fresh,
    /// else from the store, populating the cache.  An unknown key, a guard
    /// mismatch and an invalid key fail alike.
    pub fn resolve(&mut self, short_key: &str, now: u64) -> (r: Result<ResolveOutcome, CoreError>)
        requires
            old(self).wf(),
            now + CACHE_TTL_MS <= u64::MAX,
        ensures
            final(self).wf(),
            resolve_post(*old(self), *final(self), short_key@, now, r),
    {
        let mut hit: Option<TargetBundle> = None;
        match self.cache.get(short_key, now) {
            Some(entry) => {
                hit = Some(entry.data.clone());
            },
            None => {},
        }
        if let Some(bundle) = hit {
            let notify = !bundle.webhook_url.as_str().is_empty();
            return Ok(ResolveOutcome { bundle, notify, from_cache: true });
        }
        let (id, req_guard) = match split_short_key(short_key) {
            Ok(p) => p,
            Err(_) => {
                return Err(CoreError::NotFound);
            },
        };
        let mut found: Option<TargetBundle> = None;
        match self.store.find_resolvable(id) {
            Some(rec) => {
                if !str_eq(rec.guard.as_str(), req_guard.as_str()) {
                    return Err(CoreError::NotFound);
                }
                found = Some(bundle_from_record(rec));
            },
            None => {
                return Err(CoreError::NotFound);
            },
        }
        let bundle = found.unwrap();
        let notify = !bundle.webhook_url.as_str().is_empty();
        self.cache.put(short_key.to_owned(), bundle.clone(), now, CACHE_TTL_MS);
        Ok(ResolveOutcome { bundle, notify, from_cache: false })
    }

    /// Consumes a verification code: strictly before its ticket's expiry,
    /// the ticket leaves the ledger, the record its short key names becomes
    /// verified when the guards agree, and the short key is returned; any
    /// other code is refused and changes nothing.
    pub fn verify(&mut self, code: &str, now: u64) -> (r: Result<String, CoreError>)
        requires
            old(self).wf(),
        ensures
            final(self).wf(),
            verify_post(*old(self), *final(self), code@, now, r),
    {
        let short_key = match self.ledger.consume(code, now) {
            Some(k) => k,
            None => {
                return Err(CoreError::NotFound);
            },
        };
        proof {
            crate::ledger::lemma_find_ticket(old(self).ledger.tickets(), code@, now);
            if let Some(i) = find_ticket_spec(old(self).ledger.tickets(), code@, now) {
                assert(split_spec(old(self).ledger.tickets()[i].short_key@) is Some);
                old(self).ledger.tickets().remove_ensures(i);
            }
        }
        let (id, guard) = match split_short_key(short_key.as_str()) {
            Ok(p) => p,
            Err(_) => {
                proof {
                    assert(false);
                }
                return Err(CoreError::NotFound);
            },
        };
        self.store.set_verified(id, guard.as_str());
        Ok(short_key)
    }
}

} // verus!
