use radical_ticket::email::email_is_valid;
use radical_ticket::fraud::{anti_fraud, concat_features};
use radical_ticket::key::{decimal_string, get_rw_set, ticket_key_string};

fn accept_all(_f: Vec<u8>) -> bool {
    true
}

fn never_called(_f: Vec<u8>) -> bool {
    panic!("the model must not be consulted for a malformed email")
}

#[test]
fn rw_set_is_the_ticket_key() {
    assert_eq!(get_rw_set(7, "a@b.co", "N", "1234"), vec!["ticket-7".to_string()]);
}

#[test]
fn rw_set_ignores_identity_fields() {
    let a = get_rw_set(42, "a@b.co", "N", "1234");
    let b = get_rw_set(42, "", "other", "9999");
    assert_eq!(a, b);
    assert_eq!(a, vec!["ticket-42".to_string()]);
}

#[test]
fn key_digits() {
    assert_eq!(ticket_key_string(0), "ticket-0");
    assert_eq!(ticket_key_string(10), "ticket-10");
    assert_eq!(ticket_key_string(4294967295), "ticket-4294967295");
    assert_eq!(decimal_string(905), "905");
}

#[test]
fn email_syntax() {
    assert!(email_is_valid("a@b.co"));
    assert!(email_is_valid("first.last+tag_x-y@host-1.example.org"));
    assert!(!email_is_valid("ab.co"));
    assert!(!email_is_valid("a@bco"));
    assert!(!email_is_valid("@b.co"));
    assert!(!email_is_valid("a@b."));
    assert!(!email_is_valid("a@.co"));
    assert!(!email_is_valid("a@b.c@d"));
    assert!(!email_is_valid("a b@c.d"));
    assert!(!email_is_valid(""));
}

#[test]
fn malformed_email_rejected_without_scoring() {
    assert!(!anti_fraud(1, "ab.co", "N", "1234", never_called));
    assert!(!anti_fraud(1, "a@bco", "N", "1234", never_called));
    assert!(!anti_fraud(1, "@b.co", "Name", "", never_called));
}

#[test]
fn well_formed_email_follows_model() {
    assert!(anti_fraud(1, "a@b.co", "N", "1234", accept_all));
    assert!(!anti_fraud(1, "a@b.co", "N", "1234", |_f: Vec<u8>| false));
}

#[test]
fn model_sees_name_email_card_bytes() {
    let seen = anti_fraud(3, "a@b.co", "N", "1234", |f: Vec<u8>| f == b"Na@b.co1234".to_vec());
    assert!(seen);
    assert_eq!(concat_features("N", "a@b.co", "1234"), b"Na@b.co1234".to_vec());
    assert_eq!(concat_features("", "", ""), Vec::<u8>::new());
}

#[test]
fn same_claim_same_verdict() {
    let model = |f: Vec<u8>| f.iter().map(|b| *b as u32).sum::<u32>() % 2 == 0;
    let a = anti_fraud(1, "x@y.zz", "Name", "4444", model);
    let b = anti_fraud(1, "x@y.zz", "Name", "4444", model);
    assert_eq!(a, b);
}
