use shortlink::ledger::VerificationLedger;
use shortlink::ledger::TICKET_TTL_MS;

#[test]
fn a_code_consumes_strictly_before_its_expiry() {
    let mut ledger = VerificationLedger::new();
    ledger.issue("abbcd".to_string(), "code0001".to_string(), 1000);
    let key = ledger.consume("code0001", 1000 + TICKET_TTL_MS - 1);
    assert_eq!(key, Some("abbcd".to_string()));
}

#[test]
fn consuming_removes_exactly_the_matching_ticket() {
    let mut ledger = VerificationLedger::new();
    ledger.issue("abbcd".to_string(), "code0001".to_string(), 0);
    ledger.issue("abbcd".to_string(), "code0002".to_string(), 0);
    assert_eq!(ledger.consume("code0001", 10), Some("abbcd".to_string()));
    assert_eq!(ledger.consume("code0001", 10), None);
    assert_eq!(ledger.consume("code0002", 10), Some("abbcd".to_string()));
}

#[test]
fn an_expired_code_is_dead() {
    let mut ledger = VerificationLedger::new();
    ledger.issue("abbcd".to_string(), "code0001".to_string(), 1000);
    assert_eq!(ledger.consume("code0001", 1000 + TICKET_TTL_MS), None);
    assert_eq!(ledger.consume("code0001", 1000 + TICKET_TTL_MS + 5), None);
    // A refused consumption removes nothing: the ticket is still there.
    assert_eq!(ledger.consume("code0001", 500), Some("abbcd".to_string()));
}

#[test]
fn an_unknown_code_is_refused() {
    let mut ledger = VerificationLedger::new();
    ledger.issue("abbcd".to_string(), "code0001".to_string(), 0);
    assert_eq!(ledger.consume("nothere1", 10), None);
}

#[test]
fn duplicate_codes_consume_oldest_first() {
    let mut ledger = VerificationLedger::new();
    ledger.issue("first".to_string(), "samecode".to_string(), 0);
    ledger.issue("later".to_string(), "samecode".to_string(), 0);
    assert_eq!(ledger.consume("samecode", 10), Some("first".to_string()));
    assert_eq!(ledger.consume("samecode", 10), Some("later".to_string()));
    assert_eq!(ledger.consume("samecode", 10), None);
}
