//! Tests of a whole polling round driven event by event.

use sha2::Digest;

use pool_status::ledger::LedgerSnapshot;
use pool_status::replies::SingleReply;
use pool_status::status::{
    CatchupProgress, Message, RequestEvent, RoundVerdict, StatusError, StatusRound, StepResult,
};

fn local_root() -> Vec<u8> {
    (1u8..=32).collect()
}

fn round(size: usize, node_count: usize) -> StatusRound {
    StatusRound::new(LedgerSnapshot { size, root: local_root() }, node_count)
}

fn ledger_status(alias: &str, root: &str, seq_no: usize) -> Option<RequestEvent> {
    Some(RequestEvent::Received(
        alias.to_string(),
        String::new(),
        Message::LedgerStatus { merkle_root: root.to_string(), txn_seq_no: seq_no },
    ))
}

#[test]
fn threshold_is_fixed_at_round_start() {
    assert_eq!(round(5, 4).f(), 1);
    assert_eq!(round(5, 7).f(), 2);
    assert_eq!(round(5, 10).f(), 3);
}

/// Two matching votes out of n = 4 resolve the round as soon as the second
/// arrives, independent of the two still-outstanding nodes.
#[test]
fn two_matching_votes_resolve_immediately() {
    let x = bs58::encode(local_root()).into_string();
    let mut r = round(5, 4);

    let step = r.process_event(ledger_status("n1", &x, 5));
    assert_eq!(step.clear_timeout, Some("n1".to_string()));
    assert_eq!(step.verdict, None);

    let step = r.process_event(ledger_status("n2", &x, 5));
    assert_eq!(step.clear_timeout, Some("n2".to_string()));
    assert_eq!(step.verdict, Some(RoundVerdict::NotNeeded));
}

/// A winning vote for a divergent root at the local height fails the round
/// with an integrity error and never yields a catch-up target.
#[test]
fn divergent_root_at_local_height_fails() {
    let y = bs58::encode(vec![9u8; 32]).into_string();
    let mut r = round(5, 4);
    r.process_event(ledger_status("n1", &y, 5));
    let step = r.process_event(ledger_status("n2", &y, 5));
    assert_eq!(step.verdict, Some(RoundVerdict::Failed(StatusError::RootMismatch)));
}

/// Four distinct votes out of n = 4: in progress while a head could still
/// reach two voters, no consensus once every node has answered differently.
#[test]
fn four_distinct_votes_end_in_no_consensus() {
    let mut r = round(5, 4);
    assert_eq!(r.process_event(ledger_status("n1", "r1", 7)).verdict, None);
    assert_eq!(r.process_event(ledger_status("n2", "r2", 7)).verdict, None);
    assert_eq!(r.process_event(ledger_status("n3", "r3", 7)).verdict, None);
    let step = r.process_event(ledger_status("n4", "r4", 7));
    match step.verdict {
        Some(RoundVerdict::Failed(StatusError::NoConsensus(outcomes))) => {
            assert_eq!(outcomes.len(), 4);
            assert!(outcomes.iter().all(|(_, o)| *o == SingleReply::Reply));
        }
        other => panic!("expected a no-consensus failure, got {:?}", other),
    }
}

/// Acknowledgement-only events never alter tracker counts and never trigger
/// re-evaluation.
#[test]
fn ack_events_change_nothing() {
    let mut r = round(5, 4);
    let ack = Some(RequestEvent::Received(
        "n1".to_string(),
        "ack".to_string(),
        Message::ReqAck,
    ));
    let step = r.process_event(ack);
    assert_eq!(step, StepResult { clear_timeout: None, verdict: None });
    assert_eq!(r.replies_resolved(), 0);

    // Even in a state where any recording event would end the round, an
    // acknowledgement does not.
    r.process_event(ledger_status("n1", "r1", 7));
    r.process_event(ledger_status("n2", "r2", 7));
    r.process_event(ledger_status("n3", "r3", 7));
    let ack = Some(RequestEvent::Received(
        "n4".to_string(),
        "ack".to_string(),
        Message::ReqAck,
    ));
    let step = r.process_event(ack);
    assert_eq!(step, StepResult { clear_timeout: None, verdict: None });
    assert_eq!(r.replies_resolved(), 3);
}

/// An exhausted event source fails the round as interrupted.
#[test]
fn exhausted_source_is_interrupted() {
    let mut r = round(5, 4);
    let step = r.process_event(None);
    assert_eq!(step.clear_timeout, None);
    assert_eq!(step.verdict, Some(RoundVerdict::Failed(StatusError::Interrupted)));
}

/// Rejections are downgraded to per-node failures; the round continues and
/// only systemic disagreement ends it.
#[test]
fn rejections_and_timeouts_aggregate_into_no_consensus() {
    let mut r = round(5, 4);
    let nack = Some(RequestEvent::Received(
        "n1".to_string(),
        "nack payload".to_string(),
        Message::ReqNack,
    ));
    let step = r.process_event(nack);
    assert_eq!(step.clear_timeout, Some("n1".to_string()));
    assert_eq!(step.verdict, None);

    assert_eq!(
        r.process_event(Some(RequestEvent::Timeout("n2".to_string()))).verdict,
        None
    );
    let step = r.process_event(Some(RequestEvent::Timeout("n3".to_string())));
    match step.verdict {
        Some(RoundVerdict::Failed(StatusError::NoConsensus(outcomes))) => {
            assert_eq!(outcomes.len(), 3);
            assert_eq!(
                outcomes[0],
                ("n1".to_string(), SingleReply::Failed("nack payload".to_string()))
            );
            assert_eq!(outcomes[1], ("n2".to_string(), SingleReply::Timeout));
            assert_eq!(outcomes[2], ("n3".to_string(), SingleReply::Timeout));
        }
        other => panic!("expected a no-consensus failure, got {:?}", other),
    }
}

/// A status claim and a consistency-proof claim of the same head fall into
/// one group; the stored key carries the hashes of the last inserted vote,
/// so the quorum is verified against the proof.
#[test]
fn status_and_proof_claims_group_together() {
    let mut cur = local_root();
    let mut hashes: Vec<String> = Vec::new();
    for fill in [0x11u8, 0x22, 0x33] {
        let h = vec![fill; 32];
        hashes.push(bs58::encode(&h).into_string());
        let mut joined = cur.clone();
        joined.extend_from_slice(&h);
        cur = sha2::Sha256::digest(&joined).to_vec();
    }
    let z = bs58::encode(&cur).into_string();

    let mut r = round(5, 4);
    assert_eq!(r.process_event(ledger_status("n1", &z, 8)).verdict, None);
    let proof_claim = Some(RequestEvent::Received(
        "n2".to_string(),
        String::new(),
        Message::ConsistencyProof { new_merkle_root: z.clone(), seq_no_end: 8, hashes },
    ));
    let step = r.process_event(proof_claim);
    assert_eq!(
        step.verdict,
        Some(RoundVerdict::ShouldBeStarted((
            cur,
            8,
            vec!["n1".to_string(), "n2".to_string()]
        )))
    );
}

/// Unknown reply kinds fold into the failure path instead of being silently
/// mis-handled.
#[test]
fn unexpected_replies_are_recorded_as_failures() {
    let mut r = round(5, 4);
    let unexpected = Some(RequestEvent::Received(
        "n1".to_string(),
        "garbled".to_string(),
        Message::Unexpected,
    ));
    let step = r.process_event(unexpected);
    assert_eq!(step.clear_timeout, Some("n1".to_string()));
    assert_eq!(step.verdict, None);
    assert_eq!(r.replies_resolved(), 1);
}

/// The round accepts an event for a known node even once every node is
/// resolved, but must not record a never-seen alias beyond `n` nodes.
#[test]
fn can_record_guards_the_tracker_bound() {
    let mut r = round(5, 2);
    r.process_event(ledger_status("n1", "r1", 7));
    let step = r.process_event(ledger_status("n2", "r2", 7));
    assert!(step.verdict.is_some());
    assert!(r.can_record(&ledger_status("n2", "r2", 7)));
    assert!(!r.can_record(&ledger_status("n5", "r5", 7)));
    assert!(r.can_record(&None));
}
