//! Time-limited one-time codes binding a short key to email confirmation.
//!
//! A ticket is issued unconditionally — several live tickets may exist for
//! the same short key — and is consumed by presenting its code strictly
//! before expiry.  Consumption removes exactly the matching ticket; an
//! unknown or expired code is refused and changes nothing.  Instants are
//! milliseconds supplied by the caller.

use vstd::prelude::*;
use crate::text::str_eq;

verus! {

/// How long an issued ticket stays consumable: five minutes.
pub const TICKET_TTL_MS: u64 = 300000;

/// One issued verification code for a short key.
pub struct VerificationTicket {
    pub short_key: String,
    pub code: String,
    pub expires_at: u64,
}

/// `t` can be consumed by `code` at instant `now`.
pub open spec fn ticket_live(t: VerificationTicket, code: Seq<char>, now: u64) -> bool {
    t.code@ == code && t.expires_at > now
}

/// Index of the first ticket consumable by `code` at `now`, if any.
pub open spec fn find_ticket_spec(tickets: Seq<VerificationTicket>, code: Seq<char>, now: u64) -> Option<
    int,
>
    decreases tickets.len(),
{
    if tickets.len() == 0 {
        None
    } else if ticket_live(tickets[0], code, now) {
        Some(0)
    } else {
        match find_ticket_spec(tickets.drop_first(), code, now) {
            Some(i) => Some(i + 1),
            None => None,
        }
    }
}

/// What the first-match search yields: a minimal consumable index, or the
/// fact that no ticket is consumable.
pub proof fn lemma_find_ticket(tickets: Seq<VerificationTicket>, code: Seq<char>, now: u64)
    ensures
        match find_ticket_spec(tickets, code, now) {
            Some(i) => 0 <= i < tickets.len() && ticket_live(tickets[i], code, now) && (forall|
                j: int,
            |
                0 <= j < i ==> !ticket_live(tickets[j], code, now)),
            None => forall|j: int| 0 <= j < tickets.len() ==> !ticket_live(tickets[j], code, now),
        },
    decreases tickets.len(),
{
    if tickets.len() > 0 && !ticket_live(tickets[0], code, now) {
        let rest = tickets.drop_first();
        lemma_find_ticket(rest, code, now);
        match find_ticket_spec(rest, code, now) {
            Some(i) => {
                assert(tickets[i + 1] == rest[i]);
                assert forall|j: int| 0 <= j < i + 1 implies !ticket_live(
                    tickets[j],
                    code,
                    now,
                ) by {
                    if j > 0 {
                        assert(rest[j - 1] == tickets[j]);
                    }
                }
            },
            None => {
                assert forall|j: int| 0 <= j < tickets.len() implies !ticket_live(
                    tickets[j],
                    code,
                    now,
                ) by {
                    if j > 0 {
                        assert(rest[j - 1] == tickets[j]);
                    }
                }
            },
        }
    }
}

/// The outstanding verification tickets, in issue order.
pub struct VerificationLedger {
    items: Vec<VerificationTicket>,
}

impl VerificationLedger {
    /// The outstanding tickets, oldest first.
    pub closed spec fn tickets(self) -> Seq<VerificationTicket> {
        self.items@
    }

    /// An empty ledger.
    pub fn new() -> (l: VerificationLedger)
        ensures
            l.tickets() == Seq::<VerificationTicket>::empty(),
    {
        VerificationLedger { items: Vec::new() }
    }

    /// Unconditionally records a new ticket for `short_key` under `code`,
    /// expiring five minutes after `now`.
    pub fn issue(&mut self, short_key: String, code: String, now: u64)
        requires
            now + TICKET_TTL_MS <= u64::MAX,
        ensures
            final(self).tickets() == old(self).tickets().push(
                (VerificationTicket { short_key, code, expires_at: (now + TICKET_TTL_MS) as u64 }),
            ),
    {
        let expires_at = now + TICKET_TTL_MS;
        self.items.push(VerificationTicket { short_key, code, expires_at });
    }

    /// Consumes the first ticket whose code is `code` and whose expiry lies
    /// strictly after `now`, yielding its short key; an unknown or expired
    /// code yields nothing and leaves every ticket in place.
    #[verifier::loop_isolation(false)]
    pub fn consume(&mut self, code: &str, now: u64) -> (r: Option<String>)
        ensures
            match r {
                Some(k) => find_ticket_spec(old(self).tickets(), code@, now) matches Some(i) && k
                    == old(self).tickets()[i].short_key && final(self).tickets() == old(
                    self,
                ).tickets().remove(i),
                None => find_ticket_spec(old(self).tickets(), code@, now) is None && *final(self)
                    == *old(self),
            },
    {
        let n = self.items.len();
        let mut i: usize = 0;
        while i < n
            invariant
                i <= n,
                *self == *old(self),
                forall|j: int| 0 <= j < i ==> !ticket_live(self.tickets()[j], code@, now),
            decreases n - i,
        {
            if self.items[i].expires_at > now && str_eq(self.items[i].code.as_str(), code) {
                proof {
                    lemma_find_ticket(self.tickets(), code@, now);
                }
                let t = self.items.remove(i);
                return Some(t.short_key);
            }
            i = i + 1;
        }
        proof {
            lemma_find_ticket(self.tickets(), code@, now);
        }
        None
    }
}

} // verus!
