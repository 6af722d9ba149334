//! Status/catch-up decision core of a distributed-ledger pool client.
//!
//! Given a locally held Merkle-tree snapshot of committed transactions, the
//! library evaluates ledger-head claims collected from validator nodes and
//! decides, under Byzantine-fault assumptions, whether the local replica is up
//! to date (`NotNeeded`), must synchronize to a new head
//! (`ShouldBeStarted`), or whether no quorum can be reached (`NoConsensus`).
//! The network transport stays outside: callers feed inbound events into a
//! [`status::StatusRound`] one at a time and act on the step result.

use vstd::prelude::*;

pub mod codec;
pub mod consensus;
pub mod ledger;
pub mod replies;
pub mod status;

verus! {

/// Maximum number of faulty nodes tolerated among `total_nodes` validators:
/// a claim is trusted once strictly more than `f = (total_nodes - 1) / 3`
/// nodes corroborate it.
pub fn min_consensus(total_nodes: usize) -> (f: usize)
    requires
        total_nodes >= 1,
    ensures
        f == (total_nodes - 1) / 3,
{
    (total_nodes - 1) / 3
}

} // verus!
