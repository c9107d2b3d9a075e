use card_poll::outcome::{CardInfo, CardReadOutcome, CardType, LoopError};
use card_poll::run::{run_reads, PollInput};

fn membership(tag: &str) -> CardReadOutcome {
    CardReadOutcome::Success(CardInfo {
        card_type: CardType::Membership,
        tag_id: Some(String::from(tag)),
    })
}

fn bank() -> CardReadOutcome {
    CardReadOutcome::Success(CardInfo { card_type: CardType::Bank, tag_id: None })
}

fn input(outcome: CardReadOutcome, sink_registered: bool, now: u64) -> PollInput {
    PollInput { outcome, sink_registered, now }
}

fn delivered_ids(r: &card_poll::run::RunResult) -> Vec<&str> {
    r.delivered.iter().map(|t| t.id_token.as_str()).collect()
}

#[test]
fn idle_polling_never_dispatches_and_never_halts() {
    let reads = vec![
        input(CardReadOutcome::NoCardPresent, true, 0),
        input(CardReadOutcome::NoCardPresent, true, 1),
        input(CardReadOutcome::NoCardPresent, true, 2),
    ];
    let r = run_reads(5, &reads);
    assert!(r.delivered.is_empty());
    assert!(r.error.is_none());
    assert_eq!(r.reads_processed, 3);
}

#[test]
fn repeated_presentation_is_rate_limited_not_deduped() {
    // Two reads of the same card, the second after the cooldown window has
    // passed under the sequential wait policy: both are delivered.
    let reads = vec![
        input(CardReadOutcome::NoCardPresent, false, 0),
        input(CardReadOutcome::NoCardPresent, false, 1),
        input(membership("A1"), true, 2),
        input(membership("A1"), true, 7),
    ];
    let r = run_reads(5, &reads);
    assert_eq!(delivered_ids(&r), vec!["A1", "A1"]);
    assert!(r.error.is_none());
    assert_eq!(r.reads_processed, 4);
}

#[test]
fn bank_card_reaches_no_sink_and_loop_continues() {
    let reads = vec![input(bank(), true, 0)];
    let r = run_reads(5, &reads);
    assert!(r.delivered.is_empty());
    assert!(r.error.is_none());
    // the read was processed and the loop would go on to the next one
    assert_eq!(r.reads_processed, 1);
}

#[test]
fn fatal_read_surfaces_exactly_one_error() {
    let reads = vec![input(CardReadOutcome::Fatal(String::from("timeout")), true, 0)];
    let r = run_reads(5, &reads);
    assert!(r.delivered.is_empty());
    assert_eq!(r.reads_processed, 1);
    match r.error {
        Some(LoopError::Device(ref m)) => {
            assert!(m.contains("timeout"));
            assert_eq!(m, "timeout");
        }
        ref other => panic!("expected a device error, got {:?}", other),
    }
}

#[test]
fn fatal_read_halts_mid_sequence() {
    // nothing after the fault is processed, deliveries before it stand
    let reads = vec![
        input(membership("A1"), true, 0),
        input(CardReadOutcome::Fatal(String::from("device gone")), true, 5),
        input(membership("A2"), true, 10),
    ];
    let r = run_reads(5, &reads);
    assert_eq!(delivered_ids(&r), vec!["A1"]);
    assert_eq!(r.reads_processed, 2);
    assert!(matches!(r.error, Some(LoopError::Device(ref m)) if m == "device gone"));
}

#[test]
fn drops_are_not_queued_late_sink_gets_only_the_next_read() {
    let reads = vec![
        input(membership("M1"), false, 0),
        input(membership("M2"), false, 5),
        input(membership("M3"), true, 10),
    ];
    let r = run_reads(5, &reads);
    assert_eq!(delivered_ids(&r), vec!["M3"]);
    assert!(r.error.is_none());
    assert_eq!(r.reads_processed, 3);
}

#[test]
fn missing_identifier_halts_the_run() {
    let reads = vec![
        input(CardReadOutcome::NoCardPresent, true, 0),
        input(
            CardReadOutcome::Success(CardInfo {
                card_type: CardType::Membership,
                tag_id: None,
            }),
            true,
            1,
        ),
    ];
    let r = run_reads(5, &reads);
    assert!(r.delivered.is_empty());
    assert_eq!(r.reads_processed, 2);
    assert!(matches!(r.error, Some(LoopError::MissingTagId)));
}

#[test]
fn empty_run_does_nothing() {
    let reads: Vec<PollInput> = vec![];
    let r = run_reads(5, &reads);
    assert!(r.delivered.is_empty());
    assert!(r.error.is_none());
    assert_eq!(r.reads_processed, 0);
}

#[test]
fn delivery_uses_the_sink_registered_at_that_moment() {
    // sink present for the first read, gone for the second (last write
    // wins on the shared cell): only the first is delivered
    let reads = vec![
        input(membership("K1"), true, 0),
        input(membership("K2"), false, 5),
        input(membership("K3"), true, 10),
    ];
    let r = run_reads(5, &reads);
    assert_eq!(delivered_ids(&r), vec!["K1", "K3"]);
    assert!(r.error.is_none());
}
