//! Grouping of node votes by the ledger head they claim.
//!
//! A vote key is the `(root, size, proof-hashes?)` tuple a node reported.
//! Votes are grouped by `(root, size)` alone: two nodes claiming the same
//! head stand in one group whether or not either supplied proof hashes, and
//! the stored key carries whichever hash list the last inserted vote of the
//! group had. The winning group is the one with the most voters; among
//! equally large groups the one earliest in insertion order wins, so the
//! tie-break is deterministic and reproducible.
//!
//! An alias is counted once within a group, but a node that casts two votes
//! for distinct heads counts toward both groups: a vote, once cast, is never
//! retracted.

use vstd::prelude::*;

verus! {

/// A claimed ledger head as a node reported it: root hash as base58 text,
/// tree size, and the consistency-proof hashes if the claim carried any.
pub struct VoteKey {
    pub mt_root: String,
    pub mt_size: usize,
    pub hashes: Option<Vec<String>>,
}

/// Ghost image of a [`VoteKey`].
pub struct VoteKeyV {
    pub root: Seq<char>,
    pub size: int,
    pub hashes: Option<Seq<Seq<char>>>,
}

impl View for VoteKey {
    type V = VoteKeyV;

    open spec fn view(&self) -> VoteKeyV {
        VoteKeyV { root: self.mt_root@, size: self.mt_size as int, hashes: self.hashes.deep_view() }
    }
}

/// Ghost image of one vote group: the stored key and the aliases of the nodes
/// that cast the vote, in insertion order.
pub struct GroupV {
    pub key: VoteKeyV,
    pub voters: Seq<Seq<char>>,
}

struct VoteGroup {
    key: VoteKey,
    voters: Vec<String>,
}

impl View for VoteGroup {
    type V = GroupV;

    closed spec fn view(&self) -> GroupV {
        GroupV { key: self.key@, voters: self.voters.deep_view() }
    }
}

/// Whether group `g` collects votes for the head `(root, size)`.
pub open spec fn group_matches(g: GroupV, root: Seq<char>, size: int) -> bool {
    g.key.root == root && g.key.size == size
}

/// Whether some group of `gs` collects votes for the head `(root, size)`.
pub open spec fn has_group(gs: Seq<GroupV>, root: Seq<char>, size: int) -> bool {
    exists|i: int| 0 <= i < gs.len() && group_matches(gs[i], root, size)
}

/// The groups after `alias` casts a vote for `key`: the vote joins the group
/// of `(key.root, key.size)` if one exists (the stored key then carries this
/// vote's hash list, and a voter is counted once), else it founds a new group
/// at the end.
pub open spec fn group_insert(gs: Seq<GroupV>, key: VoteKeyV, alias: Seq<char>) -> Seq<GroupV> {
    if has_group(gs, key.root, key.size) {
        Seq::new(
            gs.len(),
            |i: int|
                if group_matches(gs[i], key.root, key.size) {
                    GroupV {
                        key: key,
                        voters: if gs[i].voters.contains(alias) {
                            gs[i].voters
                        } else {
                            gs[i].voters.push(alias)
                        },
                    }
                } else {
                    gs[i]
                },
        )
    } else {
        gs.push(GroupV { key: key, voters: seq![alias] })
    }
}

/// Whether `gs[i]` is the winning group: no group has more voters, and every
/// earlier group has fewer. At most one index satisfies this.
pub open spec fn is_max_group(gs: Seq<GroupV>, i: int) -> bool {
    &&& 0 <= i < gs.len()
    &&& forall|j: int| 0 <= j < gs.len() ==> gs[j].voters.len() <= gs[i].voters.len()
    &&& forall|j: int| 0 <= j < i ==> gs[j].voters.len() < gs[i].voters.len()
}

/// The index of the winning group (meaningful only where one exists, that is
/// where `gs` is not empty).
pub open spec fn max_group_index(gs: Seq<GroupV>) -> int {
    choose|i: int| is_max_group(gs, i)
}

/// The winning group is unique: the earliest group of maximal size.
pub proof fn lemma_max_group_unique(gs: Seq<GroupV>, i1: int, i2: int)
    requires
        is_max_group(gs, i1),
        is_max_group(gs, i2),
    ensures
        i1 == i2,
{
    if i1 < i2 {
        assert(gs[i1].voters.len() < gs[i2].voters.len());
        assert(gs[i2].voters.len() <= gs[i1].voters.len());
    } else if i2 < i1 {
        assert(gs[i2].voters.len() < gs[i1].voters.len());
        assert(gs[i1].voters.len() <= gs[i2].voters.len());
    }
}

/// Multimap from claimed ledger head to the nodes that attested it.
pub struct ConsensusState {
    groups: Vec<VoteGroup>,
}

impl View for ConsensusState {
    type V = Seq<GroupV>;

    closed spec fn view(&self) -> Seq<GroupV> {
        Seq::new(self.groups@.len(), |i: int| self.groups@[i]@)
    }
}

impl ConsensusState {
    /// Groups collect distinct heads, and no alias is counted twice within a
    /// group.
    pub open spec fn wf(&self) -> bool {
        &&& forall|i: int, j: int|
            0 <= i < j < self@.len() ==> !group_matches(
                self@[j],
                self@[i].key.root,
                self@[i].key.size,
            )
        &&& forall|i: int, p: int, q: int|
            0 <= i < self@.len() && 0 <= p < q < self@[i].voters.len() ==> self@[i].voters[p]
                != self@[i].voters[q]
    }

    pub fn new() -> (r: ConsensusState)
        ensures
            r@ =~= Seq::<GroupV>::empty(),
            r.wf(),
    {
        ConsensusState { groups: Vec::new() }
    }

    /// Records that `node_alias` voted for the head `key`.
    pub fn insert(&mut self, key: VoteKey, node_alias: String)
        requires
            old(self).wf(),
        ensures
            final(self).wf(),
            final(self)@ == group_insert(old(self)@, key@, node_alias@),
    {
        let ghost gs0 = self@;
        let ghost grp0 = self.groups@;
        let ghost key_v = key@;
        let ghost alias_v = node_alias@;
        let mut i: usize = 0;
        while i < self.groups.len()
            invariant
                i <= self.groups@.len(),
                self.groups@ == grp0,
                old(self)@ == gs0,
                self@ == gs0,
                old(self).wf(),
                self@.len() == self.groups@.len(),
                key_v == key@,
                alias_v == node_alias@,
                forall|k: int| 0 <= k < i ==> !group_matches(gs0[k], key_v.root, key_v.size),
            decreases self.groups@.len() - i,
        {
            if self.groups[i].key.mt_root == key.mt_root && self.groups[i].key.mt_size
                == key.mt_size {
                assert(group_matches(gs0[i as int], key_v.root, key_v.size));
                let group = self.groups.remove(i);
                let voters = add_voter(group.voters, node_alias);
                self.groups.insert(i, VoteGroup { key, voters });
                proof {
                    assert forall|k: int| 0 <= k < self@.len() implies self@[k] == group_insert(
                        gs0,
                        key_v,
                        alias_v,
                    )[k] by {
                        if k != i {
                            assert(self.groups@[k] == grp0[k]);
                            if k < i {
                                assert(!group_matches(gs0[k], gs0[i as int].key.root, gs0[i as int].key.size));
                            } else {
                                assert(!group_matches(gs0[k], gs0[i as int].key.root, gs0[i as int].key.size));
                            }
                        }
                    }
                    assert(self@ =~= group_insert(gs0, key_v, alias_v));
                }
                return ;
            }
            i = i + 1;
        }
        assert(!has_group(gs0, key_v.root, key_v.size));
        let mut voters: Vec<String> = Vec::new();
        voters.push(node_alias);
        proof {
            assert(voters.deep_view() =~= seq![alias_v]);
        }
        self.groups.push(VoteGroup { key, voters });
        proof {
            assert forall|k: int| 0 <= k < gs0.len() implies self@[k] == gs0[k] by {
                assert(self.groups@[k] == grp0[k]);
            }
            assert(self@ =~= gs0.push(GroupV { key: key_v, voters: seq![alias_v] }));
        }
    }

    /// The winning group: the earliest group with the most voters, or `None`
    /// while no vote has been cast.
    pub fn max_entry(&self) -> (r: Option<(&VoteKey, &Vec<String>)>)
        ensures
            match r {
                Option::None => self@.len() == 0,
                Option::Some((k, voters)) => {
                    &&& self@.len() > 0
                    &&& is_max_group(self@, max_group_index(self@))
                    &&& k@ == self@[max_group_index(self@)].key
                    &&& voters.deep_view() == self@[max_group_index(self@)].voters
                },
            },
    {
        if self.groups.len() == 0 {
            return Option::None;
        }
        let mut best: usize = 0;
        let mut i: usize = 1;
        while i < self.groups.len()
            invariant
                best < i <= self.groups@.len(),
                self@.len() == self.groups@.len(),
                forall|j: int| 0 <= j < i ==> self@[j].voters.len() <= self@[best as int].voters.len(),
                forall|j: int| 0 <= j < best ==> self@[j].voters.len() < self@[best as int].voters.len(),
            decreases self.groups@.len() - i,
        {
            if self.groups[i].voters.len() > self.groups[best].voters.len() {
                assert(self@[i as int].voters.len() > self@[best as int].voters.len());
                best = i;
            }
            i = i + 1;
        }
        proof {
            assert(is_max_group(self@, best as int));
            lemma_max_group_unique(self@, best as int, max_group_index(self@));
        }
        let group = &self.groups[best];
        Option::Some((&group.key, &group.voters))
    }
}

/// `voters` with `alias` appended, unless it is already a voter.
fn add_voter(voters: Vec<String>, alias: String) -> (r: Vec<String>)
    ensures
        r.deep_view() == (if voters.deep_view().contains(alias@) {
            voters.deep_view()
        } else {
            voters.deep_view().push(alias@)
        }),
{
    let ghost vs0 = voters.deep_view();
    let mut i: usize = 0;
    while i < voters.len()
        invariant
            i <= voters@.len(),
            vs0 == voters.deep_view(),
            vs0.len() == voters@.len(),
            forall|k: int| 0 <= k < voters@.len() ==> vs0[k] == voters@[k]@,
            forall|k: int| 0 <= k < i ==> vs0[k] != alias@,
        decreases voters@.len() - i,
    {
        if voters[i] == alias {
            assert(vs0[i as int] == alias@);
            assert(vs0.contains(alias@));
            return voters;
        }
        i = i + 1;
    }
    assert(!vs0.contains(alias@));
    let ghost alias_v = alias@;
    let mut r = voters;
    r.push(alias);
    proof {
        assert forall|k: int| 0 <= k < vs0.len() implies r.deep_view()[k] == vs0[k] by {}
        assert(r.deep_view()[vs0.len() as int] == alias_v);
        assert(r.deep_view() =~= vs0.push(alias_v));
    }
    r
}

} // verus!
