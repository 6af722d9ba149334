//! Per-node reply bookkeeping for one polling round.
//!
//! Every validator node ends the round with exactly one terminal outcome:
//! success, failure (with the raw payload kept for diagnostics) or timeout.
//! A node that reports twice keeps only its latest outcome; the count of
//! resolved nodes therefore counts distinct nodes.

use vstd::prelude::*;

verus! {

/// Terminal outcome of one node for the round.
#[derive(Debug, PartialEq, Eq)]
pub enum SingleReply {
    /// The node answered with a substantive claim.
    Reply,
    /// The node answered with a rejection or an unexpected message; the raw
    /// payload is kept for diagnostics.
    Failed(String),
    /// The node never answered within the round timeout.
    Timeout,
}

/// Ghost image of a [`SingleReply`].
pub enum ReplyV {
    Reply,
    Failed(Seq<char>),
    Timeout,
}

impl View for SingleReply {
    type V = ReplyV;

    open spec fn view(&self) -> ReplyV {
        match self {
            SingleReply::Reply => ReplyV::Reply,
            SingleReply::Failed(raw) => ReplyV::Failed(raw@),
            SingleReply::Timeout => ReplyV::Timeout,
        }
    }
}

impl Clone for SingleReply {
    fn clone(&self) -> (r: Self)
        ensures
            r@ == self@,
    {
        match self {
            SingleReply::Reply => SingleReply::Reply,
            SingleReply::Failed(raw) => SingleReply::Failed(raw.clone()),
            SingleReply::Timeout => SingleReply::Timeout,
        }
    }
}

/// Whether some entry of `s` carries the node `alias`.
pub open spec fn has_key(s: Seq<(Seq<char>, ReplyV)>, alias: Seq<char>) -> bool {
    exists|i: int| 0 <= i < s.len() && s[i].0 == alias
}

/// The entries after recording `rep` for `alias`: the entry of a node already
/// heard from is replaced, a new node is appended.
pub open spec fn replies_add(
    s: Seq<(Seq<char>, ReplyV)>,
    alias: Seq<char>,
    rep: ReplyV,
) -> Seq<(Seq<char>, ReplyV)> {
    if has_key(s, alias) {
        Seq::new(s.len(), |i: int| if s[i].0 == alias { (alias, rep) } else { s[i] })
    } else {
        s.push((alias, rep))
    }
}

/// Outcomes of the nodes resolved so far, one entry per node.
pub struct ReplyState {
    entries: Vec<(String, SingleReply)>,
}

impl View for ReplyState {
    type V = Seq<(Seq<char>, ReplyV)>;

    closed spec fn view(&self) -> Seq<(Seq<char>, ReplyV)> {
        Seq::new(self.entries@.len(), |i: int| (self.entries@[i].0@, self.entries@[i].1@))
    }
}

impl ReplyState {
    /// One entry per node: no alias occurs twice.
    pub open spec fn wf(&self) -> bool {
        forall|i: int, j: int| 0 <= i < j < self@.len() ==> self@[i].0 != self@[j].0
    }

    pub fn new() -> (r: ReplyState)
        ensures
            r@ =~= Seq::<(Seq<char>, ReplyV)>::empty(),
            r.wf(),
    {
        ReplyState { entries: Vec::new() }
    }

    /// Number of nodes resolved so far.
    pub fn len(&self) -> (r: usize)
        ensures
            r == self@.len(),
    {
        self.entries.len()
    }

    /// Whether `alias` already has a recorded outcome.
    pub fn has(&self, alias: &String) -> (r: bool)
        ensures
            r == has_key(self@, alias@),
    {
        let mut i: usize = 0;
        while i < self.entries.len()
            invariant
                i <= self.entries@.len(),
                self@.len() == self.entries@.len(),
                forall|k: int| 0 <= k < i ==> self@[k].0 != alias@,
            decreases self.entries@.len() - i,
        {
            if self.entries[i].0 == *alias {
                assert(self@[i as int].0 == alias@);
                return true;
            }
            i = i + 1;
        }
        false
    }

    /// Records `rep` as the outcome of `alias`, replacing an earlier outcome
    /// of the same node.
    fn record(&mut self, node_alias: String, rep: SingleReply)
        requires
            old(self).wf(),
        ensures
            final(self).wf(),
            final(self)@ == replies_add(old(self)@, node_alias@, rep@),
    {
        let ghost s0 = self@;
        let ghost ents0 = self.entries@;
        let mut i: usize = 0;
        while i < self.entries.len()
            invariant
                i <= self.entries@.len(),
                self.entries@ == ents0,
                old(self)@ == s0,
                self@ == s0,
                self@.len() == self.entries@.len(),
                forall|p: int, q: int| 0 <= p < q < s0.len() ==> s0[p].0 != s0[q].0,
                forall|k: int| 0 <= k < i ==> self@[k].0 != node_alias@,
            decreases self.entries@.len() - i,
        {
            if self.entries[i].0 == node_alias {
                assert(self@[i as int].0 == node_alias@);
                assert(has_key(s0, node_alias@));
                let entry = self.entries.remove(i);
                self.entries.insert(i, (entry.0, rep));
                proof {
                    assert forall|k: int| 0 <= k < self@.len() implies self@[k] == replies_add(
                        s0,
                        node_alias@,
                        rep@,
                    )[k] by {
                        if k != i {
                            assert(self.entries@[k] == ents0[k]);
                            if k < i {
                                assert(s0[k].0 != s0[i as int].0);
                            } else {
                                assert(s0[i as int].0 != s0[k].0);
                            }
                        }
                    }
                    assert(self@ =~= replies_add(s0, node_alias@, rep@));
                }
                return ;
            }
            i = i + 1;
        }
        assert(!has_key(s0, node_alias@));
        let ghost alias_v = node_alias@;
        let ghost rep_v = rep@;
        self.entries.push((node_alias, rep));
        proof {
            assert forall|k: int| 0 <= k < s0.len() implies self@[k] == s0[k] by {
                assert(self.entries@[k] == ents0[k]);
            }
            assert(self@[s0.len() as int] == (alias_v, rep_v));
            assert(self@ =~= s0.push((alias_v, rep_v)));
        }
    }

    /// Records a substantive answer from `node_alias`.
    pub fn add_reply(&mut self, node_alias: String)
        requires
            old(self).wf(),
        ensures
            final(self).wf(),
            final(self)@ == replies_add(old(self)@, node_alias@, ReplyV::Reply),
    {
        self.record(node_alias, SingleReply::Reply);
    }

    /// Records a rejecting or unexpected answer from `node_alias`, keeping
    /// the raw payload.
    pub fn add_failed(&mut self, node_alias: String, raw_msg: String)
        requires
            old(self).wf(),
        ensures
            final(self).wf(),
            final(self)@ == replies_add(old(self)@, node_alias@, ReplyV::Failed(raw_msg@)),
    {
        self.record(node_alias, SingleReply::Failed(raw_msg));
    }

    /// Records that `node_alias` timed out.
    pub fn add_timeout(&mut self, node_alias: String)
        requires
            old(self).wf(),
        ensures
            final(self).wf(),
            final(self)@ == replies_add(old(self)@, node_alias@, ReplyV::Timeout),
    {
        self.record(node_alias, SingleReply::Timeout);
    }

    /// A copy of every recorded outcome, in recording order: the aggregated
    /// diagnostic handed out when the round ends without consensus.
    pub fn outcomes(&self) -> (r: Vec<(String, SingleReply)>)
        ensures
            Seq::new(r@.len(), |i: int| (r@[i].0@, r@[i].1@)) == self@,
    {
        let mut r: Vec<(String, SingleReply)> = Vec::new();
        let mut i: usize = 0;
        while i < self.entries.len()
            invariant
                i <= self.entries@.len(),
                self@.len() == self.entries@.len(),
                r@.len() == i,
                forall|k: int|
                    0 <= k < i ==> (r@[k].0@ == self@[k].0 && r@[k].1@ == self@[k].1),
            decreases self.entries@.len() - i,
        {
            let alias = self.entries[i].0.clone();
            let rep = self.entries[i].1.clone();
            r.push((alias, rep));
            i = i + 1;
        }
        proof {
            assert(Seq::new(r@.len(), |i: int| (r@[i].0@, r@[i].1@)) =~= self@);
        }
        r
    }
}

} // verus!
