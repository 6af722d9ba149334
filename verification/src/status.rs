//! The status/catch-up decision core.
//!
//! A [`StatusRound`] owns the per-round trackers. The caller broadcasts the
//! status probe itself, then feeds every inbound event into
//! [`StatusRound::process_event`] and acts on the returned [`StepResult`]:
//! clear the named node's timer, stop with the verdict, or wait for the next
//! event. The quorum rule is the standard Byzantine `f`-out-of-`n` test: a
//! claimed ledger head is trusted once strictly more than `f` nodes attest
//! it, and consensus is declared unreachable once the nodes still silent
//! could not, even unanimously, push any claim past `f`.

use vstd::prelude::*;

use crate::codec::{b58_bytes_of, b58_decode, b58_encode, b58_of};
use crate::consensus::{group_insert, max_group_index, ConsensusState, GroupV, VoteKey, VoteKeyV};
use crate::ledger::{check_cons_proofs, spec_check_cons_proofs, LedgerSnapshot, ProofError};
use crate::replies::{has_key, replies_add, ReplyState, ReplyV, SingleReply};

verus! {

/// A decided new ledger head: its root hash (decoded bytes), its size, and
/// the aliases of the nodes that attested it.
pub type CatchupTarget = (Vec<u8>, usize, Vec<String>);

/// What the quorum decision function concludes from the current trackers.
#[derive(Debug, PartialEq, Eq)]
pub enum CatchupProgress {
    /// A quorum attested a larger head: catch up to this target.
    ShouldBeStarted(CatchupTarget),
    /// No claim can reach a quorum any more.
    NoConsensus,
    /// A quorum attested exactly the local head: the replica is up to date.
    NotNeeded,
    /// No claim has reached a quorum yet, but one still can.
    InProgress,
}

/// Ghost image of a [`CatchupProgress`].
pub enum ProgressV {
    ShouldBeStarted(Seq<u8>, int, Seq<Seq<char>>),
    NoConsensus,
    NotNeeded,
    InProgress,
}

impl View for CatchupProgress {
    type V = ProgressV;

    open spec fn view(&self) -> ProgressV {
        match self {
            CatchupProgress::ShouldBeStarted(t) => ProgressV::ShouldBeStarted(
                t.0@,
                t.1 as int,
                t.2.deep_view(),
            ),
            CatchupProgress::NoConsensus => ProgressV::NoConsensus,
            CatchupProgress::NotNeeded => ProgressV::NotNeeded,
            CatchupProgress::InProgress => ProgressV::InProgress,
        }
    }
}

/// Why a round failed.
#[derive(Debug, PartialEq, Eq)]
pub enum StatusError {
    /// The event source was exhausted before a verdict was reached.
    Interrupted,
    /// No claim can reach a quorum any more; carries every node's outcome as
    /// the aggregated diagnostic.
    NoConsensus(Vec<(String, SingleReply)>),
    /// A quorum attested a head of the local size with another root: the
    /// local ledger diverged.
    RootMismatch,
    /// A quorum attested a head smaller than the local ledger: the local
    /// replica cannot be ahead of a quorum of honest nodes.
    LocalAhead,
    /// The winning claim's root hash is not valid base58 text.
    BadTargetRoot,
    /// A consistency-proof hash of the winning claim is not valid base58
    /// text.
    BadProofHash,
    /// The winning claim's consistency proof does not extend the local
    /// ledger to the claimed head.
    InvalidProof,
}

/// Ghost image of a [`StatusError`].
pub enum StatusErrorV {
    Interrupted,
    NoConsensus(Seq<(Seq<char>, ReplyV)>),
    RootMismatch,
    LocalAhead,
    BadTargetRoot,
    BadProofHash,
    InvalidProof,
}

impl View for StatusError {
    type V = StatusErrorV;

    open spec fn view(&self) -> StatusErrorV {
        match self {
            StatusError::Interrupted => StatusErrorV::Interrupted,
            StatusError::NoConsensus(reps) => StatusErrorV::NoConsensus(
                Seq::new(reps@.len(), |i: int| (reps@[i].0@, reps@[i].1@)),
            ),
            StatusError::RootMismatch => StatusErrorV::RootMismatch,
            StatusError::LocalAhead => StatusErrorV::LocalAhead,
            StatusError::BadTargetRoot => StatusErrorV::BadTargetRoot,
            StatusError::BadProofHash => StatusErrorV::BadProofHash,
            StatusError::InvalidProof => StatusErrorV::InvalidProof,
        }
    }
}

/// Ghost image of a `Result<CatchupProgress, StatusError>`.
pub open spec fn res_view(r: Result<CatchupProgress, StatusError>) -> Result<
    ProgressV,
    StatusErrorV,
> {
    match r {
        Result::Ok(p) => Result::Ok(p@),
        Result::Err(e) => Result::Err(e@),
    }
}

/// What [`try_to_catch_up`] decides for the winning vote `key` attested by
/// `voters`, against the local snapshot `(local_root, local_size)`.
pub open spec fn spec_try_to_catch_up(
    key: VoteKeyV,
    voters: Seq<Seq<char>>,
    local_root: Seq<u8>,
    local_size: int,
) -> Result<ProgressV, StatusErrorV> {
    if key.size == local_size {
        if key.root == b58_of(local_root) {
            Result::Ok(ProgressV::NotNeeded)
        } else {
            Result::Err(StatusErrorV::RootMismatch)
        }
    } else if key.size > local_size {
        match b58_bytes_of(key.root) {
            Option::None => Result::Err(StatusErrorV::BadTargetRoot),
            Option::Some(root_bytes) => match key.hashes {
                Option::None => Result::Ok(
                    ProgressV::ShouldBeStarted(root_bytes, key.size, voters),
                ),
                Option::Some(hs) => match spec_check_cons_proofs(
                    local_root,
                    local_size,
                    hs,
                    root_bytes,
                    key.size,
                ) {
                    Result::Ok(_) => Result::Ok(
                        ProgressV::ShouldBeStarted(root_bytes, key.size, voters),
                    ),
                    Result::Err(ProofError::BadProofHash) => Result::Err(
                        StatusErrorV::BadProofHash,
                    ),
                    Result::Err(ProofError::InvalidProof) => Result::Err(
                        StatusErrorV::InvalidProof,
                    ),
                },
            },
        }
    } else {
        Result::Err(StatusErrorV::LocalAhead)
    }
}

/// What [`check_nodes_responses_on_status`] decides from a snapshot of the
/// trackers: resolve the winning vote once its group exceeds `f`, declare
/// `NoConsensus` once even unanimous outstanding nodes could not push any
/// claim past `f`, and wait otherwise.
pub open spec fn spec_check_status(
    local_root: Seq<u8>,
    local_size: int,
    groups: Seq<GroupV>,
    replies_len: int,
    n: int,
    f: int,
) -> Result<ProgressV, StatusErrorV> {
    let max_consensus: int = if groups.len() > 0 {
        groups[max_group_index(groups)].voters.len() as int
    } else {
        0
    };
    if groups.len() > 0 && max_consensus > f {
        let g = groups[max_group_index(groups)];
        spec_try_to_catch_up(g.key, g.voters, local_root, local_size)
    } else if max_consensus + n - replies_len <= f {
        Result::Ok(ProgressV::NoConsensus)
    } else {
        Result::Ok(ProgressV::InProgress)
    }
}

/// Once the winning group exceeds `f`, the verdict is the resolution of that
/// vote alone: it does not depend on how many nodes have answered or on the
/// node count, so the round resolves as soon as the quorum forms, independent
/// of the still-outstanding nodes.
pub proof fn lemma_quorum_resolves_independently(
    local_root: Seq<u8>,
    local_size: int,
    groups: Seq<GroupV>,
    replies_len: int,
    n: int,
    f: int,
)
    requires
        groups.len() > 0,
        groups[max_group_index(groups)].voters.len() > f,
    ensures
        spec_check_status(local_root, local_size, groups, replies_len, n, f)
            == spec_try_to_catch_up(
            groups[max_group_index(groups)].key,
            groups[max_group_index(groups)].voters,
            local_root,
            local_size,
        ),
{
}

/// The quorum decision is pure: two evaluations of an unchanged snapshot of
/// the ledger and the trackers yield the identical verdict.
pub proof fn lemma_decision_pure(
    r1: Result<ProgressV, StatusErrorV>,
    r2: Result<ProgressV, StatusErrorV>,
    local_root: Seq<u8>,
    local_size: int,
    groups: Seq<GroupV>,
    replies_len: int,
    n: int,
    f: int,
)
    requires
        r1 == spec_check_status(local_root, local_size, groups, replies_len, n, f),
        r2 == spec_check_status(local_root, local_size, groups, replies_len, n, f),
    ensures
        r1 == r2,
{
}

/// A copy of `nodes`, in order.
fn clone_aliases(nodes: &Vec<String>) -> (r: Vec<String>)
    ensures
        r.deep_view() == nodes.deep_view(),
{
    let mut r: Vec<String> = Vec::new();
    let mut i: usize = 0;
    while i < nodes.len()
        invariant
            i <= nodes@.len(),
            r@.len() == i,
            forall|k: int| 0 <= k < i ==> r@[k]@ == nodes@[k]@,
        decreases nodes@.len() - i,
    {
        r.push(nodes[i].clone());
        i = i + 1;
    }
    proof {
        assert(r.deep_view() =~= nodes.deep_view());
    }
    r
}

/// Resolves the winning vote `ledger_status`, attested by `nodes`, against
/// the local snapshot: a claim of the local size must carry the local root
/// (else the ledger diverged); a larger claim must decode from base58 and,
/// where it carries proof hashes, extend the local tree to the claimed head;
/// a smaller claim is a local-state failure.
pub fn try_to_catch_up(
    ledger_status: &VoteKey,
    merkle_tree: &LedgerSnapshot,
    nodes: &Vec<String>,
) -> (r: Result<CatchupProgress, StatusError>)
    ensures
        res_view(r) == spec_try_to_catch_up(
            ledger_status@,
            nodes.deep_view(),
            merkle_tree.root@,
            merkle_tree.size as int,
        ),
{
    let target_mt_size = ledger_status.mt_size;
    if target_mt_size == merkle_tree.size {
        let cur_mt_hash = b58_encode(merkle_tree.root.as_slice());
        if cur_mt_hash == ledger_status.mt_root {
            Result::Ok(CatchupProgress::NotNeeded)
        } else {
            Result::Err(StatusError::RootMismatch)
        }
    } else if target_mt_size > merkle_tree.size {
        match b58_decode(ledger_status.mt_root.as_str()) {
            Option::None => Result::Err(StatusError::BadTargetRoot),
            Option::Some(target_mt_root) => {
                match &ledger_status.hashes {
                    Option::None => {},
                    Option::Some(hashes) => {
                        match check_cons_proofs(merkle_tree, hashes, &target_mt_root, target_mt_size) {
                            Result::Ok(_) => {},
                            Result::Err(ProofError::BadProofHash) => {
                                return Result::Err(StatusError::BadProofHash);
                            },
                            Result::Err(ProofError::InvalidProof) => {
                                return Result::Err(StatusError::InvalidProof);
                            },
                        }
                    },
                }
                let attestors = clone_aliases(nodes);
                Result::Ok(CatchupProgress::ShouldBeStarted((target_mt_root, target_mt_size, attestors)))
            },
        }
    } else {
        Result::Err(StatusError::LocalAhead)
    }
}

/// The quorum decision function: a pure function of the ledger snapshot, the
/// reply tracker, the vote grouper and the round constants `n` and `f`.
pub fn check_nodes_responses_on_status(
    merkle_tree: &LedgerSnapshot,
    replies: &ReplyState,
    consensus: &ConsensusState,
    total_nodes_count: usize,
    f: usize,
) -> (r: Result<CatchupProgress, StatusError>)
    requires
        replies@.len() <= total_nodes_count,
    ensures
        res_view(r) == spec_check_status(
            merkle_tree.root@,
            merkle_tree.size as int,
            consensus@,
            replies@.len() as int,
            total_nodes_count as int,
            f as int,
        ),
{
    let max_consensus: usize;
    match consensus.max_entry() {
        Option::Some((most_popular_vote, votes)) => {
            let votes_count = votes.len();
            proof {
                assert(votes.deep_view().len() == votes@.len());
            }
            if votes_count > f {
                return try_to_catch_up(most_popular_vote, merkle_tree, votes);
            }
            max_consensus = votes_count;
        },
        Option::None => {
            max_consensus = 0;
        },
    }
    if total_nodes_count - replies.len() <= f - max_consensus {
        Result::Ok(CatchupProgress::NoConsensus)
    } else {
        Result::Ok(CatchupProgress::InProgress)
    }
}

/// A parsed inbound message, as the external parser hands it over. Kinds the
/// round does not know fold into `Unexpected` and take the failure path.
#[derive(Debug, PartialEq, Eq)]
pub enum Message {
    /// A node's claim of its current ledger head.
    LedgerStatus { merkle_root: String, txn_seq_no: usize },
    /// A node's claim of a larger head together with a consistency proof.
    ConsistencyProof { new_merkle_root: String, seq_no_end: usize, hashes: Vec<String> },
    /// Acknowledgement only: no decision-relevant content.
    ReqAck,
    /// Negative acknowledgement.
    ReqNack,
    /// Rejection.
    Reject,
    /// Any other reply.
    Unexpected,
}

/// Ghost image of a [`Message`].
pub enum MessageV {
    LedgerStatus { root: Seq<char>, seq_no: int },
    ConsistencyProof { root: Seq<char>, seq_no: int, hashes: Seq<Seq<char>> },
    ReqAck,
    ReqNack,
    Reject,
    Unexpected,
}

impl View for Message {
    type V = MessageV;

    open spec fn view(&self) -> MessageV {
        match self {
            Message::LedgerStatus { merkle_root, txn_seq_no } => MessageV::LedgerStatus {
                root: merkle_root@,
                seq_no: *txn_seq_no as int,
            },
            Message::ConsistencyProof { new_merkle_root, seq_no_end, hashes } => MessageV::ConsistencyProof {
                root: new_merkle_root@,
                seq_no: *seq_no_end as int,
                hashes: hashes.deep_view(),
            },
            Message::ReqAck => MessageV::ReqAck,
            Message::ReqNack => MessageV::ReqNack,
            Message::Reject => MessageV::Reject,
            Message::Unexpected => MessageV::Unexpected,
        }
    }
}

/// One inbound event of the round: a reply from a node (alias, raw payload,
/// parsed message) or a node's timeout.
#[derive(Debug, PartialEq, Eq)]
pub enum RequestEvent {
    Received(String, String, Message),
    Timeout(String),
}

/// Ghost image of a [`RequestEvent`].
pub enum EventV {
    Received(Seq<char>, Seq<char>, MessageV),
    Timeout(Seq<char>),
}

impl View for RequestEvent {
    type V = EventV;

    open spec fn view(&self) -> EventV {
        match self {
            RequestEvent::Received(alias, raw, msg) => EventV::Received(alias@, raw@, msg@),
            RequestEvent::Timeout(alias) => EventV::Timeout(alias@),
        }
    }
}

/// Ghost image of an optional [`RequestEvent`], `None` standing for the
/// exhausted event source.
pub open spec fn opt_event_view(ev: Option<RequestEvent>) -> Option<EventV> {
    match ev {
        Option::None => Option::None,
        Option::Some(e) => Option::Some(e@),
    }
}

/// The round's terminal verdict.
#[derive(Debug, PartialEq, Eq)]
pub enum RoundVerdict {
    /// The local replica is up to date.
    NotNeeded,
    /// Catch up to this target.
    ShouldBeStarted(CatchupTarget),
    /// The round failed.
    Failed(StatusError),
}

/// Ghost image of a [`RoundVerdict`].
pub enum VerdictV {
    NotNeeded,
    ShouldBeStarted(Seq<u8>, int, Seq<Seq<char>>),
    Failed(StatusErrorV),
}

impl View for RoundVerdict {
    type V = VerdictV;

    open spec fn view(&self) -> VerdictV {
        match self {
            RoundVerdict::NotNeeded => VerdictV::NotNeeded,
            RoundVerdict::ShouldBeStarted(t) => VerdictV::ShouldBeStarted(
                t.0@,
                t.1 as int,
                t.2.deep_view(),
            ),
            RoundVerdict::Failed(e) => VerdictV::Failed(e@),
        }
    }
}

/// What the caller must do after one event: clear the named node's pending
/// timer (where set), then stop with the verdict (where set) or wait for the
/// next event.
#[derive(Debug, PartialEq, Eq)]
pub struct StepResult {
    pub clear_timeout: Option<String>,
    pub verdict: Option<RoundVerdict>,
}

/// Ghost image of a [`StepResult`].
pub struct StepV {
    pub clear_timeout: Option<Seq<char>>,
    pub verdict: Option<VerdictV>,
}

impl View for StepResult {
    type V = StepV;

    open spec fn view(&self) -> StepV {
        StepV {
            clear_timeout: match &self.clear_timeout {
                Option::None => Option::None,
                Option::Some(a) => Option::Some(a@),
            },
            verdict: match &self.verdict {
                Option::None => Option::None,
                Option::Some(v) => Option::Some(v@),
            },
        }
    }
}

/// Ghost image of a [`StatusRound`].
pub struct RoundV {
    pub local_root: Seq<u8>,
    pub local_size: int,
    pub node_count: int,
    pub f: int,
    pub replies: Seq<(Seq<char>, ReplyV)>,
    pub groups: Seq<GroupV>,
}

/// The verdict that a quorum decision yields: `InProgress` keeps the round
/// open, `NoConsensus` fails it with the aggregated per-node outcomes, the
/// rest end it directly.
pub open spec fn spec_verdict_of(
    res: Result<ProgressV, StatusErrorV>,
    replies: Seq<(Seq<char>, ReplyV)>,
) -> Option<VerdictV> {
    match res {
        Result::Ok(ProgressV::NotNeeded) => Option::Some(VerdictV::NotNeeded),
        Result::Ok(ProgressV::InProgress) => Option::None,
        Result::Ok(ProgressV::NoConsensus) => Option::Some(
            VerdictV::Failed(StatusErrorV::NoConsensus(replies)),
        ),
        Result::Ok(ProgressV::ShouldBeStarted(root, size, attestors)) => Option::Some(
            VerdictV::ShouldBeStarted(root, size, attestors),
        ),
        Result::Err(e) => Option::Some(VerdictV::Failed(e)),
    }
}

/// The step that re-evaluates the quorum rule on the round state `rv`.
pub open spec fn spec_eval(rv: RoundV, clear_timeout: Option<Seq<char>>) -> (RoundV, StepV) {
    let res = spec_check_status(
        rv.local_root,
        rv.local_size,
        rv.groups,
        rv.replies.len() as int,
        rv.node_count,
        rv.f,
    );
    (rv, StepV { clear_timeout: clear_timeout, verdict: spec_verdict_of(res, rv.replies) })
}

/// What one event does to the round: the new round state and the step result.
///
/// A substantive claim records a success and casts a vote, then re-evaluates;
/// an acknowledgement changes nothing; a rejecting or unexpected reply
/// records a failure, then re-evaluates; a timeout records a timeout, then
/// re-evaluates; an exhausted event source fails the round as interrupted.
pub open spec fn spec_step(rv: RoundV, ev: Option<EventV>) -> (RoundV, StepV) {
    match ev {
        Option::None => (
            rv,
            StepV {
                clear_timeout: Option::None,
                verdict: Option::Some(VerdictV::Failed(StatusErrorV::Interrupted)),
            },
        ),
        Option::Some(EventV::Timeout(alias)) => spec_eval(
            RoundV { replies: replies_add(rv.replies, alias, ReplyV::Timeout), ..rv },
            Option::None,
        ),
        Option::Some(EventV::Received(alias, raw, msg)) => match msg {
            MessageV::ReqAck => (rv, StepV { clear_timeout: Option::None, verdict: Option::None }),
            MessageV::LedgerStatus { root, seq_no } => spec_eval(
                RoundV {
                    replies: replies_add(rv.replies, alias, ReplyV::Reply),
                    groups: group_insert(
                        rv.groups,
                        VoteKeyV { root: root, size: seq_no, hashes: Option::None },
                        alias,
                    ),
                    ..rv
                },
                Option::Some(alias),
            ),
            MessageV::ConsistencyProof { root, seq_no, hashes } => spec_eval(
                RoundV {
                    replies: replies_add(rv.replies, alias, ReplyV::Reply),
                    groups: group_insert(
                        rv.groups,
                        VoteKeyV { root: root, size: seq_no, hashes: Option::Some(hashes) },
                        alias,
                    ),
                    ..rv
                },
                Option::Some(alias),
            ),
            MessageV::ReqNack | MessageV::Reject | MessageV::Unexpected => spec_eval(
                RoundV { replies: replies_add(rv.replies, alias, ReplyV::Failed(raw)), ..rv },
                Option::Some(alias),
            ),
        },
    }
}

/// Acknowledgement-only events never alter the trackers and never trigger a
/// re-evaluation: the round state is unchanged and no verdict and no
/// timer-clearing is asked for.
pub proof fn lemma_ack_changes_nothing(rv: RoundV, alias: Seq<char>, raw: Seq<char>)
    ensures
        spec_step(rv, Option::Some(EventV::Received(alias, raw, MessageV::ReqAck))).0 == rv,
        spec_step(
            rv,
            Option::Some(EventV::Received(alias, raw, MessageV::ReqAck)),
        ).1.verdict is None,
        spec_step(
            rv,
            Option::Some(EventV::Received(alias, raw, MessageV::ReqAck)),
        ).1.clear_timeout is None,
{
}

/// Whether the round can record an outcome for the node the event names: the
/// tracker has room for a new node, or the node already has an entry that the
/// event replaces. Events that record nothing are always accepted.
pub open spec fn spec_can_record(rv: RoundV, ev: Option<EventV>) -> bool {
    match ev {
        Option::None => true,
        Option::Some(EventV::Timeout(alias)) => rv.replies.len() < rv.node_count || has_key(
            rv.replies,
            alias,
        ),
        Option::Some(EventV::Received(alias, _raw, msg)) => match msg {
            MessageV::ReqAck => true,
            _ => rv.replies.len() < rv.node_count || has_key(rv.replies, alias),
        },
    }
}

/// One polling round's state: the local ledger snapshot, the round constants
/// `n` and `f` fixed at round start, and the two trackers.
pub struct StatusRound {
    merkle_tree: LedgerSnapshot,
    node_count: usize,
    f: usize,
    replies: ReplyState,
    consensus: ConsensusState,
}

impl View for StatusRound {
    type V = RoundV;

    closed spec fn view(&self) -> RoundV {
        RoundV {
            local_root: self.merkle_tree.root@,
            local_size: self.merkle_tree.size as int,
            node_count: self.node_count as int,
            f: self.f as int,
            replies: self.replies@,
            groups: self.consensus@,
        }
    }
}

impl StatusRound {
    /// The trackers are well-formed, the resolved count never exceeds the
    /// node count, and `f` is the threshold computed from the node count at
    /// round start.
    pub closed spec fn wf(&self) -> bool {
        &&& self.replies.wf()
        &&& self.consensus.wf()
        &&& self@.node_count >= 1
        &&& self@.f == (self@.node_count - 1) / 3
        &&& self@.replies.len() <= self@.node_count
    }

    /// Opens a round over `total_node_count` nodes against the given local
    /// snapshot; the threshold `f` is fixed here, before any reply is
    /// processed.
    pub fn new(merkle_tree: LedgerSnapshot, total_node_count: usize) -> (r: StatusRound)
        requires
            total_node_count >= 1,
        ensures
            r.wf(),
            r@.local_root == merkle_tree.root@,
            r@.local_size == merkle_tree.size as int,
            r@.node_count == total_node_count as int,
            r@.f == (total_node_count - 1) as int / 3,
            r@.replies =~= Seq::<(Seq<char>, ReplyV)>::empty(),
            r@.groups =~= Seq::<GroupV>::empty(),
    {
        let f = crate::min_consensus(total_node_count);
        StatusRound {
            merkle_tree,
            node_count: total_node_count,
            f,
            replies: ReplyState::new(),
            consensus: ConsensusState::new(),
        }
    }

    /// Number of nodes with a resolved outcome so far.
    pub fn replies_resolved(&self) -> (r: usize)
        ensures
            r == self@.replies.len(),
    {
        self.replies.len()
    }

    /// The round's threshold `f`.
    pub fn f(&self) -> (r: usize)
        ensures
            r == self@.f,
    {
        self.f
    }

    /// Whether [`Self::process_event`] accepts this event: true unless the
    /// event names a node the round has never heard of while outcomes for all
    /// `n` nodes are already recorded.
    pub fn can_record(&self, event: &Option<RequestEvent>) -> (r: bool)
        ensures
            r == spec_can_record(self@, opt_event_view(*event)),
    {
        match event {
            Option::None => true,
            Option::Some(RequestEvent::Received(alias, _raw, msg)) => match msg {
                Message::ReqAck => true,
                _ => self.replies.len() < self.node_count || self.replies.has(alias),
            },
            Option::Some(RequestEvent::Timeout(alias)) => self.replies.len() < self.node_count
                || self.replies.has(alias),
        }
    }

    /// Re-evaluates the quorum rule on the current state and builds the step
    /// result.
    fn evaluate(&self, clear_timeout: Option<String>) -> (r: StepResult)
        requires
            self.wf(),
        ensures
            r@ == spec_eval(
                self@,
                match clear_timeout {
                    Option::None => Option::None::<Seq<char>>,
                    Option::Some(a) => Option::Some(a@),
                },
            ).1,
    {
        let verdict: Option<RoundVerdict> = match check_nodes_responses_on_status(
            &self.merkle_tree,
            &self.replies,
            &self.consensus,
            self.node_count,
            self.f,
        ) {
            Result::Ok(CatchupProgress::NotNeeded) => Option::Some(RoundVerdict::NotNeeded),
            Result::Ok(CatchupProgress::InProgress) => Option::None,
            Result::Ok(CatchupProgress::NoConsensus) => Option::Some(
                RoundVerdict::Failed(StatusError::NoConsensus(self.replies.outcomes())),
            ),
            Result::Ok(CatchupProgress::ShouldBeStarted(target)) => Option::Some(
                RoundVerdict::ShouldBeStarted(target),
            ),
            Result::Err(e) => Option::Some(RoundVerdict::Failed(e)),
        };
        StepResult { clear_timeout, verdict }
    }

    /// Feeds one inbound event (or `None` for the exhausted event source)
    /// into the round: updates the trackers as the event demands,
    /// re-evaluates the quorum rule after every substantive change, and
    /// returns what the caller must do. Acknowledgement-only events change
    /// nothing and trigger no re-evaluation.
    pub fn process_event(&mut self, event: Option<RequestEvent>) -> (r: StepResult)
        requires
            old(self).wf(),
            spec_can_record(old(self)@, opt_event_view(event)),
        ensures
            final(self).wf(),
            (final(self)@, r@) == spec_step(old(self)@, opt_event_view(event)),
    {
        match event {
            Option::None => StepResult {
                clear_timeout: Option::None,
                verdict: Option::Some(RoundVerdict::Failed(StatusError::Interrupted)),
            },
            Option::Some(RequestEvent::Timeout(node_alias)) => {
                self.replies.add_timeout(node_alias);
                self.evaluate(Option::None)
            },
            Option::Some(RequestEvent::Received(node_alias, raw_msg, parsed)) => match parsed {
                Message::ReqAck => StepResult {
                    clear_timeout: Option::None,
                    verdict: Option::None,
                },
                Message::LedgerStatus { merkle_root, txn_seq_no } => {
                    self.replies.add_reply(node_alias.clone());
                    self.consensus.insert(
                        VoteKey {
                            mt_root: merkle_root,
                            mt_size: txn_seq_no,
                            hashes: Option::None,
                        },
                        node_alias.clone(),
                    );
                    self.evaluate(Option::Some(node_alias))
                },
                Message::ConsistencyProof { new_merkle_root, seq_no_end, hashes } => {
                    self.replies.add_reply(node_alias.clone());
                    self.consensus.insert(
                        VoteKey {
                            mt_root: new_merkle_root,
                            mt_size: seq_no_end,
                            hashes: Option::Some(hashes),
                        },
                        node_alias.clone(),
                    );
                    self.evaluate(Option::Some(node_alias))
                },
                Message::ReqNack | Message::Reject | Message::Unexpected => {
                    self.replies.add_failed(node_alias.clone(), raw_msg);
                    self.evaluate(Option::Some(node_alias))
                },
            },
        }
    }
}

} // verus!
