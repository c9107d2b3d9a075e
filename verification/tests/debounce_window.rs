use card_poll::debounce::DebounceTimer;
use card_poll::token::{AuthorizationType, ProvidedToken};

#[test]
fn fresh_timer_never_blocks() {
    let t = DebounceTimer::new();
    assert_eq!(t.deadline, None);
    assert!(t.expired(0));
    assert!(t.expired(u64::MAX));
    assert_eq!(t.remaining(123), 0);
}

#[test]
fn rearming_sets_the_exact_deadline() {
    let mut t = DebounceTimer::new();
    t.rearm(10, 5);
    assert_eq!(t.deadline, Some(15));
    assert!(!t.expired(14));
    assert!(t.expired(15));
    assert_eq!(t.remaining(12), 3);
    assert_eq!(t.remaining(15), 0);
    assert_eq!(t.remaining(20), 0);
}

#[test]
fn rearming_discards_the_previous_deadline() {
    let mut t = DebounceTimer::new();
    t.rearm(10, 5);
    t.rearm(11, 5);
    assert_eq!(t.deadline, Some(16));
    assert!(!t.expired(15));
    assert!(t.expired(16));
}

#[test]
fn token_is_built_with_fixed_fields() {
    let t = ProvidedToken::from_tag(String::from("A1"));
    assert_eq!(t.id_token, "A1");
    assert_eq!(t.authorization_type, AuthorizationType::Rfid);
    assert!(t.certificate.is_none());
    assert!(t.connectors.is_none());
    assert!(t.prevalidated.is_none());
    assert!(t.request_id.is_none());
}
