//! Group membership: voters, learners and witnesses, quorums, joint
//! consensus and learner catch-up.
use vstd::prelude::*;
use vstd::string::*;
use crate::errors::{RustRaftError, RaftError, invalid_request};
use crate::text::{decimal_chars, u64_to_decimal};
use crate::types::{RustRaftGroupId, RustRaftLogIndex, RustRaftNodeId};
use crate::seqs::{clone_ids, slice_contains, position_of, remove_node, count_acked, first_position, lemma_first_position_unique};

verus! {

/// How many positions of `members` hold a node that `acks` acknowledges.
pub open spec fn acked_count(members: Seq<u64>, acks: Seq<u64>) -> nat
    decreases members.len(),
{
    if members.len() == 0 {
        0
    } else {
        acked_count(members.drop_last(), acks) + (if acks.contains(members.last()) { 1nat } else { 0nat })
    }
}

/// How many positions of `members` hold a node acknowledged by both sets.
pub open spec fn acked_by_both_count(members: Seq<u64>, a: Seq<u64>, b: Seq<u64>) -> nat
    decreases members.len(),
{
    if members.len() == 0 {
        0
    } else {
        acked_by_both_count(members.drop_last(), a, b) + (if a.contains(members.last())
            && b.contains(members.last()) { 1nat } else { 0nat })
    }
}

/// A strict majority of `n` participants.
pub open spec fn majority_of(n: nat) -> nat {
    n / 2 + 1
}

/// Counting both sets over the members counts their overlap at most once too
/// many: `count(a) + count(b) <= len + count(a and b)`.
pub proof fn lemma_acked_counts_overlap(members: Seq<u64>, a: Seq<u64>, b: Seq<u64>)
    ensures
        acked_count(members, a) + acked_count(members, b) <= members.len()
            + acked_by_both_count(members, a, b),
        acked_count(members, a) <= members.len(),
    decreases members.len(),
{
    if members.len() > 0 {
        lemma_acked_counts_overlap(members.drop_last(), a, b);
    }
}

/// A member acknowledged by both sets exists when the overlap count is positive.
pub proof fn lemma_both_count_witness(members: Seq<u64>, a: Seq<u64>, b: Seq<u64>)
    requires
        acked_by_both_count(members, a, b) > 0,
    ensures
        exists|i: int| 0 <= i < members.len() && a.contains(#[trigger] members[i]) && b.contains(members[i]),
    decreases members.len(),
{
    let init = members.drop_last();
    if acked_by_both_count(init, a, b) > 0 {
        lemma_both_count_witness(init, a, b);
        let i = choose|i: int| 0 <= i < init.len() && a.contains(#[trigger] init[i]) && b.contains(init[i]);
        assert(members[i] == init[i]);
    } else {
        let i = members.len() - 1;
        assert(a.contains(members[i]) && b.contains(members[i]));
    }
}

/// Counting acknowledgements over the concatenation of two member lists.
pub proof fn lemma_acked_count_concat(s: Seq<u64>, t: Seq<u64>, acks: Seq<u64>)
    ensures
        acked_count(s + t, acks) == acked_count(s, acks) + acked_count(t, acks),
    decreases t.len(),
{
    if t.len() == 0 {
        assert(s + t =~= s);
    } else {
        lemma_acked_count_concat(s, t.drop_last(), acks);
        assert((s + t).drop_last() =~= s + t.drop_last());
    }
}

/// A quorum is the smallest strict majority: it is more than half of the
/// participants, and one fewer is not.
pub proof fn law_quorum_is_smallest_majority(n: nat)
    ensures
        2 * majority_of(n) > n,
        2 * (majority_of(n) - 1) <= n,
        majority_of(n) >= 1,
{
}

/// Acknowledgements count once per voting position held by an acknowledging
/// node: an acknowledgement from a node that holds no position adds nothing,
/// repeating an acknowledgement adds nothing, and every position counts at
/// most once.
pub proof fn law_acknowledgements_count_positions(members: Seq<u64>, acks: Seq<u64>, x: u64)
    ensures
        !members.contains(x) ==> acked_count(members, acks.push(x)) == acked_count(members, acks),
        acks.contains(x) ==> acked_count(members, acks.push(x)) == acked_count(members, acks),
        acked_count(members, acks) <= members.len(),
        acked_count(members, acks) == members.len() <==> (forall|i: int| 0 <= i < members.len() ==> acks.contains(
            #[trigger] members[i],
        )),
    decreases members.len(),
{
    lemma_acked_counts_overlap(members, acks, acks);
    if members.len() > 0 {
        let init = members.drop_last();
        law_acknowledgements_count_positions(init, acks, x);
        let y = members.last();
        if !members.contains(x) {
            assert(!init.contains(x)) by {
                if init.contains(x) {
                    let w = choose|w: int| 0 <= w < init.len() && init[w] == x;
                    assert(members[w] == x);
                }
            }
            assert(y != x) by {
                assert(members[members.len() - 1] == y);
            }
            assert(acks.push(x).contains(y) == acks.contains(y)) by {
                if acks.push(x).contains(y) {
                    let w = choose|w: int| 0 <= w < acks.push(x).len() && acks.push(x)[w] == y;
                    assert(acks[w] == y);
                }
                if acks.contains(y) {
                    let w = choose|w: int| 0 <= w < acks.len() && acks[w] == y;
                    assert(acks.push(x)[w] == y);
                }
            }
        }
        if acks.contains(x) {
            assert(acks.push(x).contains(y) == acks.contains(y)) by {
                if acks.push(x).contains(y) {
                    let w = choose|w: int| 0 <= w < acks.push(x).len() && acks.push(x)[w] == y;
                    if w == acks.len() {
                        let v = choose|v: int| 0 <= v < acks.len() && acks[v] == x;
                        assert(acks[v] == y);
                    } else {
                        assert(acks[w] == y);
                    }
                }
                if acks.contains(y) {
                    let w = choose|w: int| 0 <= w < acks.len() && acks[w] == y;
                    assert(acks.push(x)[w] == y);
                }
            }
        }
        lemma_acked_counts_overlap(init, acks, acks);
        if acked_count(members, acks) == members.len() {
            assert forall|i: int| 0 <= i < members.len() implies acks.contains(#[trigger] members[i]) by {
                if i < members.len() - 1 {
                    assert(init[i] == members[i]);
                }
            }
        }
        if forall|i: int| 0 <= i < members.len() ==> acks.contains(#[trigger] members[i]) {
            assert forall|i: int| 0 <= i < init.len() implies acks.contains(#[trigger] init[i]) by {
                assert(members[i] == init[i]);
            }
            assert(acks.contains(members[members.len() - 1]));
        }
    }
}

/// The members of a group.
#[derive(Debug, Clone, PartialEq, Eq)]
pub struct RustRaftMembership {
    pub group_id: RustRaftGroupId,
    pub voters: Vec<RustRaftNodeId>,
    pub learners: Vec<RustRaftNodeId>,
    pub witnesses: Vec<RustRaftNodeId>,
    pub epoch: u64,
}

pub type RaftMembership = RustRaftMembership;

/// Whether a learner has caught up with the leader's commit index.
#[derive(Debug, Clone, PartialEq, Eq)]
pub struct RaftLearnerCatchUpReport {
    pub learner_id: RustRaftNodeId,
    pub learner_match_index: RustRaftLogIndex,
    pub leader_commit_index: RustRaftLogIndex,
    pub caught_up: bool,
    pub lag: RustRaftLogIndex,
    pub promotable: bool,
    pub reason: String,
}

/// `a - b`, or zero when `b` exceeds `a`.
pub open spec fn sat_sub(a: u64, b: u64) -> u64 {
    if a >= b { (a - b) as u64 } else { 0 }
}

/// A membership as plain values.
pub struct MembershipModel {
    pub group_id: u64,
    pub voters: Seq<u64>,
    pub learners: Seq<u64>,
    pub witnesses: Seq<u64>,
    pub epoch: u64,
}

impl RustRaftMembership {
    pub open spec fn model(self) -> MembershipModel {
        MembershipModel {
            group_id: self.group_id,
            voters: self.voters@,
            learners: self.learners@,
            witnesses: self.witnesses@,
            epoch: self.epoch,
        }
    }

    /// A copy of the membership.
    pub fn duplicate(&self) -> (r: Self)
        ensures
            r.model() == self.model(),
    {
        RustRaftMembership {
            group_id: self.group_id,
            voters: clone_ids(&self.voters),
            learners: clone_ids(&self.learners),
            witnesses: clone_ids(&self.witnesses),
            epoch: self.epoch,
        }
    }

    /// Nodes that vote: voters followed by witnesses.
    pub open spec fn quorum_members(self) -> Seq<u64> {
        self.voters@ + self.witnesses@
    }

    /// Same group, epoch and member lists.
    pub open spec fn same_lists(self, other: Self) -> bool {
        &&& self.group_id == other.group_id
        &&& self.epoch == other.epoch
        &&& self.voters@ == other.voters@
        &&& self.learners@ == other.learners@
        &&& self.witnesses@ == other.witnesses@
    }

    /// Whether `node_id` is a voter, learner or witness.
    pub open spec fn is_member(self, node_id: u64) -> bool {
        self.voters@.contains(node_id) || self.learners@.contains(node_id)
            || self.witnesses@.contains(node_id)
    }

    pub open spec fn spec_quorum_size(self) -> nat {
        majority_of(self.voters@.len() + self.witnesses@.len())
    }

    /// A strict majority of voters and witnesses together.
    pub fn quorum_size(&self) -> (r: usize)
        requires
            self.voters@.len() + self.witnesses@.len() <= usize::MAX,
        ensures
            r == self.spec_quorum_size(),
    {
        let participants = self.voters.len() + self.witnesses.len();
        participants / 2 + 1
    }

    /// Whether the acknowledging nodes reach a quorum of voters and witnesses.
    /// Each voting position counts once when its node acknowledged.
    pub fn quorum_reached(&self, acknowledgements: &[RustRaftNodeId]) -> (r: bool)
        requires
            self.voters@.len() + self.witnesses@.len() <= usize::MAX,
        ensures
            r == (acked_count(self.quorum_members(), acknowledgements@) >= self.spec_quorum_size()),
    {
        let votes_voters = count_acked(&self.voters, acknowledgements);
        let votes_witnesses = count_acked(&self.witnesses, acknowledgements);
        proof {
            lemma_acked_count_concat(self.voters@, self.witnesses@, acknowledgements@);
            lemma_acked_counts_overlap(self.voters@, acknowledgements@, acknowledgements@);
            lemma_acked_counts_overlap(self.witnesses@, acknowledgements@, acknowledgements@);
        }
        votes_voters + votes_witnesses >= self.quorum_size()
    }

    /// Rejects a node that is already a member.
    pub fn ensure_absent(&self, node_id: RustRaftNodeId) -> (r: Result<(), RaftError>)
        ensures
            r is Ok <==> !self.is_member(node_id),
            r matches Err(e) ==> is_already_member_error(e, node_id),
    {
        if slice_contains(&self.voters, node_id) || slice_contains(&self.learners, node_id)
            || slice_contains(&self.witnesses, node_id)
        {
            return Err(already_member(node_id));
        }
        Ok(())
    }

    /// Adds a learner that is not yet a member, advancing the epoch.
    pub fn add_learner(&mut self, node_id: RustRaftNodeId) -> (r: Result<(), RaftError>)
        requires
            old(self).epoch < u64::MAX,
        ensures
            r is Ok <==> !old(self).is_member(node_id),
            r is Ok ==> *final(self) == (RustRaftMembership {
                learners: final(self).learners,
                epoch: (old(self).epoch + 1) as u64,
                ..*old(self)
            }) && final(self).learners@ == old(self).learners@.push(node_id),
            r matches Err(e) ==> is_already_member_error(e, node_id) && final(self).same_lists(*old(self)),
    {
        self.ensure_absent(node_id)?;
        self.learners.push(node_id);
        self.epoch = self.epoch + 1;
        Ok(())
    }

    /// Adds a witness that is not yet a member, advancing the epoch.
    pub fn add_witness(&mut self, node_id: RustRaftNodeId) -> (r: Result<(), RaftError>)
        requires
            old(self).epoch < u64::MAX,
        ensures
            r is Ok <==> !old(self).is_member(node_id),
            r is Ok ==> *final(self) == (RustRaftMembership {
                witnesses: final(self).witnesses,
                epoch: (old(self).epoch + 1) as u64,
                ..*old(self)
            }) && final(self).witnesses@ == old(self).witnesses@.push(node_id),
            r matches Err(e) ==> is_already_member_error(e, node_id) && final(self).same_lists(*old(self)),
    {
        self.ensure_absent(node_id)?;
        self.witnesses.push(node_id);
        self.epoch = self.epoch + 1;
        Ok(())
    }

    /// Moves a learner to the voters, advancing the epoch.
    pub fn promote_learner(&mut self, node_id: RustRaftNodeId) -> (r: Result<(), RaftError>)
        requires
            old(self).epoch < u64::MAX,
        ensures
            r is Ok <==> old(self).learners@.contains(node_id),
            r is Ok ==> {
                let p = first_position(old(self).learners@, node_id);
                &&& final(self).learners@ == old(self).learners@.remove(p)
                &&& final(self).voters@ == old(self).voters@.push(node_id)
                &&& final(self).witnesses == old(self).witnesses
                &&& final(self).group_id == old(self).group_id
                &&& final(self).epoch == old(self).epoch + 1
            },
            r matches Err(e) ==> is_not_learner_error(e, node_id) && final(self).same_lists(*old(self)),
    {
        match position_of(&self.learners, node_id) {
            None => Err(not_learner(node_id)),
            Some(position) => {
                self.learners.remove(position);
                self.voters.push(node_id);
                self.epoch = self.epoch + 1;
                Ok(())
            },
        }
    }

    /// Removes a member from the first list that holds it (voters, then
    /// learners, then witnesses), advancing the epoch.
    pub fn remove_peer(&mut self, node_id: RustRaftNodeId) -> (r: Result<(), RaftError>)
        requires
            old(self).epoch < u64::MAX,
        ensures
            r is Ok <==> old(self).is_member(node_id),
            r is Ok ==> {
                &&& final(self).group_id == old(self).group_id
                &&& final(self).epoch == old(self).epoch + 1
                &&& if old(self).voters@.contains(node_id) {
                    &&& final(self).voters@ == old(self).voters@.remove(first_position(old(self).voters@, node_id))
                    &&& final(self).learners@ == old(self).learners@
                    &&& final(self).witnesses@ == old(self).witnesses@
                } else if old(self).learners@.contains(node_id) {
                    &&& final(self).voters@ == old(self).voters@
                    &&& final(self).learners@ == old(self).learners@.remove(first_position(old(self).learners@, node_id))
                    &&& final(self).witnesses@ == old(self).witnesses@
                } else {
                    &&& final(self).voters@ == old(self).voters@
                    &&& final(self).learners@ == old(self).learners@
                    &&& final(self).witnesses@ == old(self).witnesses@.remove(first_position(old(self).witnesses@, node_id))
                }
            },
            r matches Err(e) ==> e == RustRaftError::NodeNotFound(node_id) && final(self).same_lists(*old(self)),
    {
        if remove_node(&mut self.voters, node_id) {
            self.epoch = self.epoch + 1;
            return Ok(());
        }
        if remove_node(&mut self.learners, node_id) {
            self.epoch = self.epoch + 1;
            return Ok(());
        }
        if remove_node(&mut self.witnesses, node_id) {
            self.epoch = self.epoch + 1;
            return Ok(());
        }
        Err(RustRaftError::NodeNotFound(node_id))
    }

    /// Reports whether a learner has caught up with the leader's commit index.
    pub fn catchup_report(
        &self,
        learner_id: RustRaftNodeId,
        learner_match_index: RustRaftLogIndex,
        leader_commit_index: RustRaftLogIndex,
    ) -> (r: RaftLearnerCatchUpReport)
        ensures
            r.learner_id == learner_id,
            r.learner_match_index == learner_match_index,
            r.leader_commit_index == leader_commit_index,
            r.lag == sat_sub(leader_commit_index, learner_match_index),
            r.caught_up == (self.learners@.contains(learner_id) && learner_match_index >= leader_commit_index),
            r.promotable == r.caught_up,
            r.reason@ == (if !self.learners@.contains(learner_id) {
                "node_is_not_learner"@
            } else if r.caught_up {
                "learner_caught_up"@
            } else {
                "learner_lagging"@
            }),
    {
        let lag = if leader_commit_index >= learner_match_index {
            leader_commit_index - learner_match_index
        } else {
            0
        };
        let is_learner = slice_contains(&self.learners, learner_id);
        let caught_up = is_learner && learner_match_index >= leader_commit_index;
        RaftLearnerCatchUpReport {
            learner_id,
            learner_match_index,
            leader_commit_index,
            caught_up,
            lag,
            promotable: caught_up,
            reason: if !is_learner {
                String::from_str("node_is_not_learner")
            } else if caught_up {
                String::from_str("learner_caught_up")
            } else {
                String::from_str("learner_lagging")
            },
        }
    }
}

/// Any two acknowledgement sets that each reach a quorum of a membership
/// share at least one acknowledged voter or witness: quorums intersect.
pub proof fn law_quorums_intersect(m: RustRaftMembership, a: Seq<u64>, b: Seq<u64>)
    requires
        acked_count(m.quorum_members(), a) >= m.spec_quorum_size(),
        acked_count(m.quorum_members(), b) >= m.spec_quorum_size(),
    ensures
        exists|n: u64| m.quorum_members().contains(n) && a.contains(n) && b.contains(n),
{
    let members = m.quorum_members();
    lemma_acked_counts_overlap(members, a, b);
    lemma_both_count_witness(members, a, b);
    let i = choose|i: int| 0 <= i < members.len() && a.contains(#[trigger] members[i]) && b.contains(members[i]);
    assert(members.contains(members[i]));
}

/// A membership change expressed as the voters before and after it.
#[derive(Debug, Clone, PartialEq, Eq)]
pub struct RustRaftJointMembership {
    pub old_voters: Vec<RustRaftNodeId>,
    pub new_voters: Vec<RustRaftNodeId>,
}

pub type JointConsensusMembership = RustRaftJointMembership;

impl RustRaftJointMembership {
    pub open spec fn spec_old_quorum_size(self) -> nat {
        majority_of(self.old_voters@.len())
    }

    pub open spec fn spec_new_quorum_size(self) -> nat {
        majority_of(self.new_voters@.len())
    }

    /// A joint quorum is a majority of the old voters and of the new voters.
    pub open spec fn spec_quorum_reached(self, acks: Seq<u64>) -> bool {
        &&& acked_count(self.old_voters@, acks) >= self.spec_old_quorum_size()
        &&& acked_count(self.new_voters@, acks) >= self.spec_new_quorum_size()
    }

    /// A strict majority of the old voters.
    pub fn old_quorum_size(&self) -> (r: usize)
        ensures
            r == self.spec_old_quorum_size(),
    {
        self.old_voters.len() / 2 + 1
    }

    /// A strict majority of the new voters.
    pub fn new_quorum_size(&self) -> (r: usize)
        ensures
            r == self.spec_new_quorum_size(),
    {
        self.new_voters.len() / 2 + 1
    }

    /// Whether the acknowledging nodes reach a majority of both voter sets.
    pub fn quorum_reached(&self, acknowledgements: &[RustRaftNodeId]) -> (r: bool)
        ensures
            r == self.spec_quorum_reached(acknowledgements@),
    {
        let old_votes = count_acked(&self.old_voters, acknowledgements);
        let new_votes = count_acked(&self.new_voters, acknowledgements);
        old_votes >= self.old_quorum_size() && new_votes >= self.new_quorum_size()
    }
}

/// Two joint quorums share an acknowledged old voter and an acknowledged new
/// voter, so neither configuration can decide alone during the change.
pub proof fn law_joint_quorums_intersect(j: RustRaftJointMembership, a: Seq<u64>, b: Seq<u64>)
    requires
        j.spec_quorum_reached(a),
        j.spec_quorum_reached(b),
    ensures
        exists|n: u64| j.old_voters@.contains(n) && a.contains(n) && b.contains(n),
        exists|n: u64| j.new_voters@.contains(n) && a.contains(n) && b.contains(n),
{
    lemma_acked_counts_overlap(j.old_voters@, a, b);
    lemma_both_count_witness(j.old_voters@, a, b);
    let i = choose|i: int| 0 <= i < j.old_voters@.len() && a.contains(#[trigger] j.old_voters@[i]) && b.contains(j.old_voters@[i]);
    assert(j.old_voters@.contains(j.old_voters@[i]));
    lemma_acked_counts_overlap(j.new_voters@, a, b);
    lemma_both_count_witness(j.new_voters@, a, b);
    let k = choose|k: int| 0 <= k < j.new_voters@.len() && a.contains(#[trigger] j.new_voters@[k]) && b.contains(j.new_voters@[k]);
    assert(j.new_voters@.contains(j.new_voters@[k]));
}

/// Removing a learner that was just added gives back the member lists from
/// before the addition.
pub proof fn law_remove_undoes_add_learner(
    before: RustRaftMembership,
    added: RustRaftMembership,
    removed: RustRaftMembership,
    node_id: u64,
)
    requires
        !before.is_member(node_id),
        added.voters@ == before.voters@,
        added.witnesses@ == before.witnesses@,
        added.learners@ == before.learners@.push(node_id),
        removed.voters@ == added.voters@,
        removed.witnesses@ == added.witnesses@,
        removed.learners@ == added.learners@.remove(first_position(added.learners@, node_id)),
    ensures
        removed.voters@ == before.voters@,
        removed.learners@ == before.learners@,
        removed.witnesses@ == before.witnesses@,
{
    let p = before.learners@.len() as int;
    assert forall|j: int| 0 <= j < p implies added.learners@[j] != node_id by {
        assert(before.learners@[j] == added.learners@[j]);
        assert(before.learners@.contains(before.learners@[j]));
    }
    lemma_first_position_unique(added.learners@, node_id, p);
    assert(removed.learners@ =~= before.learners@);
}

/// The error returned when adding a node that is already a member.
pub open spec fn is_already_member_error(e: RustRaftError, node_id: u64) -> bool {
    e matches RustRaftError::InvalidRequest(s)
        && s@ == "node "@ + decimal_chars(node_id as nat) + " is already a member"@
}

/// The error returned when promoting a node that is not a learner.
pub open spec fn is_not_learner_error(e: RustRaftError, node_id: u64) -> bool {
    e matches RustRaftError::InvalidRequest(s)
        && s@ == "node "@ + decimal_chars(node_id as nat) + " is not a learner"@
}

fn already_member(node_id: u64) -> (e: RustRaftError)
    ensures
        is_already_member_error(e, node_id),
{
    let s = String::from_str("node ").concat(u64_to_decimal(node_id).as_str());
    RustRaftError::InvalidRequest(s.concat(" is already a member"))
}

fn not_learner(node_id: u64) -> (e: RustRaftError)
    ensures
        is_not_learner_error(e, node_id),
{
    let s = String::from_str("node ").concat(u64_to_decimal(node_id).as_str());
    RustRaftError::InvalidRequest(s.concat(" is not a learner"))
}

} // verus!
