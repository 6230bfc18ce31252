use radical_ticket::store::{ReserveError, TicketStore};

fn accept_all(_f: Vec<u8>) -> bool {
    true
}

fn five_tickets() -> TicketStore {
    let mut s = TicketStore::new();
    s.populate(5);
    s
}

#[test]
fn populate_creates_fresh_records() {
    let s = five_tickets();
    assert_eq!(s.count(), 5);
    for id in 0..5u32 {
        let it = s.get(id).unwrap();
        assert_eq!(it.key, format!("ticket-{id}"));
        assert_eq!(it.id, format!("{id}"));
        assert_eq!(it.version, 0);
        assert_eq!(it.value.id, id);
        assert!(!it.value.taken);
        assert!(it.value.res_email.is_none());
        assert!(it.value.res_name.is_none());
        assert!(it.value.res_card.is_none());
    }
    assert!(s.get(5).is_none());
}

#[test]
fn reserve_then_reserve_again() {
    let mut s = five_tickets();
    assert_eq!(s.try_reserve(2, "a@b.co", "N", "1234", accept_all), Ok(()));
    let t = s.fetch(2).unwrap();
    assert!(t.taken);
    assert_eq!(t.id, 2);
    assert_eq!(t.res_email.as_deref(), Some("a@b.co"));
    assert_eq!(t.res_name.as_deref(), Some("N"));
    assert_eq!(t.res_card.as_deref(), Some("1234"));
    assert_eq!(s.get(2).unwrap().version, 1);
    assert_eq!(s.get(2).unwrap().key, "ticket-2");

    assert!(!s.reserve(2, "z@y.xx", "Other", "9999", accept_all));
    assert_eq!(s.try_reserve(2, "a@b.co", "N", "1234", accept_all), Err(ReserveError::AlreadyTaken));
    let t = s.fetch(2).unwrap();
    assert_eq!(s.get(2).unwrap().version, 1);
    assert_eq!(t.res_email.as_deref(), Some("a@b.co"));
    assert_eq!(t.res_name.as_deref(), Some("N"));
    assert_eq!(t.res_card.as_deref(), Some("1234"));
    for id in [0u32, 1, 3, 4] {
        assert!(!s.fetch(id).unwrap().taken);
        assert_eq!(s.get(id).unwrap().version, 0);
    }
}

#[test]
fn reserve_missing_ticket() {
    let mut s = five_tickets();
    assert_eq!(s.try_reserve(99, "a@b.co", "N", "1234", accept_all), Err(ReserveError::NotFound));
    assert!(!s.reserve(99, "a@b.co", "N", "1234", accept_all));
    assert_eq!(s.count(), 5);
    assert!(s.get(99).is_none());
    assert!(s.fetch(99).is_none());
}

#[test]
fn concurrent_claims_single_winner() {
    let mut s = five_tickets();
    let emails = ["a@b.co", "c@d.ee", "f@g.hh", "i@j.kk"];
    let mut claims = Vec::new();
    for e in emails {
        claims.push(s.prepare(1, e, "N", "1234", accept_all).unwrap());
    }
    let results: Vec<Result<(), ReserveError>> = claims.into_iter().map(|c| s.commit(c)).collect();
    assert_eq!(results[0], Ok(()));
    for r in &results[1..] {
        assert_eq!(*r, Err(ReserveError::VersionConflict));
    }
    assert_eq!(s.get(1).unwrap().version, 1);
    assert_eq!(s.fetch(1).unwrap().res_email.as_deref(), Some("a@b.co"));
}

#[test]
fn stale_claim_cannot_overwrite_taken_ticket() {
    let mut s = five_tickets();
    let late = s.prepare(3, "late@x.yy", "L", "1", accept_all).unwrap();
    assert!(s.reserve(3, "a@b.co", "N", "1234", accept_all));
    assert_eq!(s.commit(late), Err(ReserveError::VersionConflict));
    assert_eq!(s.get(3).unwrap().version, 1);
    assert_eq!(s.fetch(3).unwrap().res_email.as_deref(), Some("a@b.co"));
}

#[test]
fn invalid_email_changes_nothing() {
    let mut s = five_tickets();
    assert_eq!(s.try_reserve(0, "not-an-email", "N", "1234", accept_all), Err(ReserveError::InvalidEmail));
    assert!(!s.fetch(0).unwrap().taken);
    assert_eq!(s.get(0).unwrap().version, 0);
}

#[test]
fn fraud_rejection_changes_nothing() {
    let mut s = five_tickets();
    assert_eq!(s.try_reserve(0, "a@b.co", "N", "1234", |_f: Vec<u8>| false), Err(ReserveError::FraudRejected));
    assert!(!s.fetch(0).unwrap().taken);
    assert_eq!(s.get(0).unwrap().version, 0);
}

#[test]
fn claim_after_clear_is_not_found() {
    let mut s = five_tickets();
    let c = s.prepare(4, "a@b.co", "N", "1234", accept_all).unwrap();
    s.clear();
    assert_eq!(s.count(), 0);
    assert!(s.fetch(0).is_none());
    assert_eq!(s.commit(c), Err(ReserveError::NotFound));
    assert_eq!(s.count(), 0);
}

#[test]
fn populate_replaces_contents() {
    let mut s = five_tickets();
    assert!(s.reserve(0, "a@b.co", "N", "1234", accept_all));
    s.populate(2);
    assert_eq!(s.count(), 2);
    assert!(!s.fetch(0).unwrap().taken);
    assert_eq!(s.get(0).unwrap().version, 0);
}
