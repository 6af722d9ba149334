//! Tests of the threshold and of the quorum decision functions on concrete
//! snapshots.

use pool_status::consensus::{ConsensusState, VoteKey};
use sha2::Digest;

use pool_status::ledger::LedgerSnapshot;
use pool_status::min_consensus;
use pool_status::replies::ReplyState;
use pool_status::status::{check_nodes_responses_on_status, try_to_catch_up, CatchupProgress, StatusError};

fn local_root() -> Vec<u8> {
    (1u8..=32).collect()
}

fn other_root() -> Vec<u8> {
    (101u8..=132).collect()
}

fn snapshot(size: usize) -> LedgerSnapshot {
    LedgerSnapshot { size, root: local_root() }
}

fn key(root: &str, size: usize, hashes: Option<Vec<String>>) -> VoteKey {
    VoteKey { mt_root: root.to_string(), mt_size: size, hashes }
}

fn names(aliases: &[&str]) -> Vec<String> {
    aliases.iter().map(|a| a.to_string()).collect()
}

#[test]
fn threshold_formula() {
    assert_eq!(min_consensus(1), 0);
    assert_eq!(min_consensus(2), 0);
    assert_eq!(min_consensus(3), 0);
    assert_eq!(min_consensus(4), 1);
    assert_eq!(min_consensus(7), 2);
    assert_eq!(min_consensus(10), 3);
    assert_eq!(min_consensus(13), 4);
}

#[test]
fn same_height_same_root_not_needed() {
    let x = bs58::encode(local_root()).into_string();
    let r = try_to_catch_up(&key(&x, 5, None), &snapshot(5), &names(&["n1", "n2"]));
    assert_eq!(r, Ok(CatchupProgress::NotNeeded));
}

#[test]
fn same_height_other_root_is_integrity_failure() {
    let y = bs58::encode(other_root()).into_string();
    let r = try_to_catch_up(&key(&y, 5, None), &snapshot(5), &names(&["n1", "n2"]));
    assert_eq!(r, Err(StatusError::RootMismatch));
}

#[test]
fn local_ahead_of_quorum_is_failure() {
    let w = bs58::encode(other_root()).into_string();
    let r = try_to_catch_up(&key(&w, 5, None), &snapshot(9), &names(&["n1", "n2"]));
    assert_eq!(r, Err(StatusError::LocalAhead));
}

#[test]
fn larger_claim_without_proof_starts_catchup() {
    let target = other_root();
    let z = bs58::encode(&target).into_string();
    let r = try_to_catch_up(&key(&z, 8, None), &snapshot(5), &names(&["n1", "n3"]));
    assert_eq!(
        r,
        Ok(CatchupProgress::ShouldBeStarted((target, 8, names(&["n1", "n3"]))))
    );
}

#[test]
fn larger_claim_with_malformed_root_is_parse_failure() {
    // '0', 'O', 'I' and 'l' are outside the base58 alphabet.
    let r = try_to_catch_up(&key("0OIl", 8, None), &snapshot(5), &names(&["n1"]));
    assert_eq!(r, Err(StatusError::BadTargetRoot));
}

fn sha256_pair(a: &[u8], b: &[u8]) -> Vec<u8> {
    let mut joined = a.to_vec();
    joined.extend_from_slice(b);
    sha2::Sha256::digest(&joined).to_vec()
}

/// Builds a valid proof of three new entries over the local root and returns
/// (proof hashes as base58 text, target root bytes).
fn valid_proof() -> (Vec<String>, Vec<u8>) {
    let h1 = vec![0xa1u8; 32];
    let h2 = vec![0xb2u8; 32];
    let h3 = vec![0xc3u8; 32];
    let mut cur = local_root();
    for h in [&h1, &h2, &h3] {
        cur = sha256_pair(&cur, h);
    }
    let hashes = [&h1, &h2, &h3]
        .iter()
        .map(|h| bs58::encode(h).into_string())
        .collect();
    (hashes, cur)
}

#[test]
fn valid_consistency_proof_starts_catchup() {
    let (hashes, target) = valid_proof();
    let z = bs58::encode(&target).into_string();
    let r = try_to_catch_up(&key(&z, 8, Some(hashes)), &snapshot(5), &names(&["n1", "n2"]));
    assert_eq!(
        r,
        Ok(CatchupProgress::ShouldBeStarted((target, 8, names(&["n1", "n2"]))))
    );
}

#[test]
fn corrupting_any_single_hash_fails_verification() {
    let (hashes, target) = valid_proof();
    let z = bs58::encode(&target).into_string();
    for corrupt_at in 0..3 {
        let mut bad = hashes.clone();
        let mut bytes = bs58::decode(&bad[corrupt_at]).into_vec().unwrap();
        bytes[0] ^= 0xff;
        bad[corrupt_at] = bs58::encode(&bytes).into_string();
        let r = try_to_catch_up(&key(&z, 8, Some(bad)), &snapshot(5), &names(&["n1", "n2"]));
        assert_eq!(r, Err(StatusError::InvalidProof));
    }
}

#[test]
fn wrong_proof_length_fails_verification() {
    let (hashes, target) = valid_proof();
    let z = bs58::encode(&target).into_string();
    let short: Vec<String> = hashes[..2].to_vec();
    let r = try_to_catch_up(&key(&z, 8, Some(short)), &snapshot(5), &names(&["n1"]));
    assert_eq!(r, Err(StatusError::InvalidProof));
}

#[test]
fn malformed_proof_hash_is_parse_failure() {
    let (mut hashes, target) = valid_proof();
    let z = bs58::encode(&target).into_string();
    hashes[1] = "0".to_string();
    let r = try_to_catch_up(&key(&z, 8, Some(hashes)), &snapshot(5), &names(&["n1"]));
    assert_eq!(r, Err(StatusError::BadProofHash));
}

/// Three nodes voted three distinct heads out of n = 4: with one node still
/// outstanding a fourth vote could still reach 2 > f = 1, so the round is in
/// progress; once the fourth node casts a fourth distinct vote, no head can
/// pass f any more.
#[test]
fn distinct_votes_reach_no_consensus_only_when_hopeless() {
    let ledger = snapshot(5);
    let mut replies = ReplyState::new();
    let mut votes = ConsensusState::new();
    for (alias, root) in [("n1", "r1"), ("n2", "r2"), ("n3", "r3")] {
        replies.add_reply(alias.to_string());
        votes.insert(key(root, 7, None), alias.to_string());
    }
    let r = check_nodes_responses_on_status(&ledger, &replies, &votes, 4, 1);
    assert_eq!(r, Ok(CatchupProgress::InProgress));

    replies.add_reply("n4".to_string());
    votes.insert(key("r4", 7, None), "n4".to_string());
    let r = check_nodes_responses_on_status(&ledger, &replies, &votes, 4, 1);
    assert_eq!(r, Ok(CatchupProgress::NoConsensus));
}

/// The quorum decision function is pure: evaluating an unchanged snapshot
/// twice yields the identical verdict.
#[test]
fn decision_is_pure() {
    let ledger = snapshot(5);
    let mut replies = ReplyState::new();
    let mut votes = ConsensusState::new();
    let x = bs58::encode(local_root()).into_string();
    replies.add_reply("n1".to_string());
    votes.insert(key(&x, 5, None), "n1".to_string());
    replies.add_reply("n2".to_string());
    votes.insert(key(&x, 5, None), "n2".to_string());
    let first = check_nodes_responses_on_status(&ledger, &replies, &votes, 4, 1);
    let second = check_nodes_responses_on_status(&ledger, &replies, &votes, 4, 1);
    assert_eq!(first, second);
    assert_eq!(first, Ok(CatchupProgress::NotNeeded));
}

/// The winning group is the earliest to reach the maximal size in insertion
/// order: with two groups of equal size the earlier one wins.
#[test]
fn tie_break_is_first_in_insertion_order() {
    let ledger = snapshot(5);
    let x = bs58::encode(local_root()).into_string();
    let y = bs58::encode(other_root()).into_string();
    let mut replies = ReplyState::new();
    let mut votes = ConsensusState::new();
    // Group for the local head forms first, a divergent group second; both
    // reach size 2 > f = 1 but the earlier group wins, so the verdict is
    // NotNeeded rather than RootMismatch.
    for (alias, root) in [("n1", &x), ("n2", &y), ("n3", &x), ("n4", &y)] {
        replies.add_reply(alias.to_string());
        votes.insert(key(root, 5, None), alias.to_string());
    }
    let r = check_nodes_responses_on_status(&ledger, &replies, &votes, 7, 1);
    assert_eq!(r, Ok(CatchupProgress::NotNeeded));
}
