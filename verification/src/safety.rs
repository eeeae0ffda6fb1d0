//! Read, write, append and promotion safety decisions.
use vstd::prelude::*;
use vstd::string::*;
use crate::membership::sat_sub;
use crate::types::{
    RustRaftAppendEntriesRequest, RustRaftLogEntry, RustRaftPeerStatus, RustRaftReadIndexRequest,
    RustRaftRole, RustRaftStatusSnapshot,
};

verus! {

#[derive(Debug, Clone, PartialEq, Eq)]
pub struct RustRaftReadSafetyDecision {
    pub safe: bool,
    pub read_index: u64,
    pub lease_read: bool,
    pub reason: String,
}

#[derive(Debug, Clone, Copy, PartialEq, Eq, Structural)]
pub enum RustRaftReadSafetyOperation {
    ReadIndex,
    LeaseRead,
    BoundedStaleRead,
    Write,
}

#[derive(Debug, Clone, Copy, PartialEq, Eq, Structural)]
pub struct RustRaftReadSafetyRuntimeInput {
    pub operation: RustRaftReadSafetyOperation,
    pub node_id: u64,
    pub leader_id: u64,
    pub node_alive: bool,
    pub role_can_serve_data: bool,
    pub leader_lease_valid: bool,
    pub has_majority: bool,
    pub node_commit_index: u64,
    pub leader_commit_index: u64,
    pub max_stale_index_lag: u64,
}

#[derive(Debug, Clone, PartialEq, Eq)]
pub struct RustRaftReadSafetyRuntimeDecision {
    pub allowed: bool,
    pub read_index: u64,
    pub reason: String,
    pub stale_leader_lease_rejected: bool,
    pub lagging_follower_read_rejected: bool,
    pub stale_follower_write_rejected: bool,
    pub minority_partition_read_rejected: bool,
    pub minority_partition_write_rejected: bool,
    pub healed_follower_catchup_observed: bool,
}

#[derive(Debug, Clone, PartialEq, Eq)]
pub struct RustRaftLearnerPromotionDecision {
    pub promotable: bool,
    pub learner_id: u64,
    pub learner_match_index: u64,
    pub required_match_index: u64,
    pub reason: String,
}

#[derive(Debug, Clone, PartialEq, Eq)]
pub struct RustRaftAppendSafetyDecision {
    pub accepted: bool,
    pub rejected_compacted_entry: bool,
    pub reason: String,
}

/// The reason a leader-side read check gives.
pub open spec fn read_safety_reason(status: RustRaftStatusSnapshot, request: RustRaftReadIndexRequest) -> Seq<char> {
    if status.group_id != request.group_id {
        "group_mismatch"@
    } else if !(status.role is Leader) {
        "not_leader"@
    } else if status.applied_index < request.min_commit_index {
        "apply_lag"@
    } else {
        "safe"@
    }
}

/// Decides whether a read may be served from the given status: only the
/// leader of the same group, once it has applied up to the requested index.
pub fn rustraft_read_safety_decision(
    status: &RustRaftStatusSnapshot,
    request: &RustRaftReadIndexRequest,
) -> (r: RustRaftReadSafetyDecision)
    ensures
        r.safe == (status.group_id == request.group_id && status.role is Leader
            && status.applied_index >= request.min_commit_index),
        r.read_index == status.commit_index,
        r.lease_read == (r.safe && request.allow_lease_read),
        r.reason@ == read_safety_reason(*status, *request),
{
    if status.group_id != request.group_id {
        return RustRaftReadSafetyDecision {
            safe: false,
            read_index: status.commit_index,
            lease_read: false,
            reason: String::from_str("group_mismatch"),
        };
    }
    if !matches!(status.role, RustRaftRole::Leader) {
        return RustRaftReadSafetyDecision {
            safe: false,
            read_index: status.commit_index,
            lease_read: false,
            reason: String::from_str("not_leader"),
        };
    }
    if status.applied_index < request.min_commit_index {
        return RustRaftReadSafetyDecision {
            safe: false,
            read_index: status.commit_index,
            lease_read: false,
            reason: String::from_str("apply_lag"),
        };
    }
    RustRaftReadSafetyDecision {
        safe: true,
        read_index: status.commit_index,
        lease_read: request.allow_lease_read,
        reason: String::from_str("safe"),
    }
}

/// The decision of the runtime read/write safety check, without its reason text.
pub struct RuntimeDecisionModel {
    pub allowed: bool,
    pub read_index: u64,
    pub reason: Seq<char>,
    pub stale_leader_lease_rejected: bool,
    pub lagging_follower_read_rejected: bool,
    pub stale_follower_write_rejected: bool,
    pub minority_partition_read_rejected: bool,
    pub minority_partition_write_rejected: bool,
    pub healed_follower_catchup_observed: bool,
}

/// How far a read may lag the leader for the given operation.
pub open spec fn allowed_lag(input: RustRaftReadSafetyRuntimeInput) -> u64 {
    if input.operation is BoundedStaleRead { input.max_stale_index_lag } else { 0 }
}

/// The runtime safety rule for reads and writes.
///
/// Writes need the leader and a majority. Reads need a live data-serving
/// replica; read-index and lease reads also need a valid leader lease and a
/// majority; and the replica may lag the leader's commit index by at most the
/// operation's budget (zero except for bounded-stale reads).
pub open spec fn runtime_decision_model(input: RustRaftReadSafetyRuntimeInput) -> RuntimeDecisionModel {
    let is_follower = input.node_id != input.leader_id;
    if input.operation is Write {
        let allowed = !is_follower && input.has_majority;
        RuntimeDecisionModel {
            allowed,
            read_index: input.leader_commit_index,
            reason: if allowed { "write_authority"@ } else if is_follower { "not_leader"@ } else { "minority_partition"@ },
            stale_leader_lease_rejected: false,
            lagging_follower_read_rejected: false,
            stale_follower_write_rejected: is_follower,
            minority_partition_read_rejected: false,
            minority_partition_write_rejected: !input.has_majority,
            healed_follower_catchup_observed: false,
        }
    } else if !input.node_alive || !input.role_can_serve_data {
        RuntimeDecisionModel {
            allowed: false,
            read_index: input.node_commit_index,
            reason: "node_unavailable"@,
            stale_leader_lease_rejected: false,
            lagging_follower_read_rejected: false,
            stale_follower_write_rejected: false,
            minority_partition_read_rejected: false,
            minority_partition_write_rejected: false,
            healed_follower_catchup_observed: false,
        }
    } else if (input.operation is ReadIndex || input.operation is LeaseRead)
        && (!input.leader_lease_valid || !input.has_majority) {
        RuntimeDecisionModel {
            allowed: false,
            read_index: input.node_commit_index,
            reason: if !input.leader_lease_valid { "stale_leader_lease"@ } else { "minority_partition"@ },
            stale_leader_lease_rejected: !input.leader_lease_valid,
            lagging_follower_read_rejected: false,
            stale_follower_write_rejected: false,
            minority_partition_read_rejected: !input.has_majority,
            minority_partition_write_rejected: false,
            healed_follower_catchup_observed: false,
        }
    } else if sat_sub(input.leader_commit_index, input.node_commit_index) > allowed_lag(input) {
        RuntimeDecisionModel {
            allowed: false,
            read_index: input.node_commit_index,
            reason: "replica_lagging"@,
            stale_leader_lease_rejected: false,
            lagging_follower_read_rejected: is_follower,
            stale_follower_write_rejected: false,
            minority_partition_read_rejected: false,
            minority_partition_write_rejected: false,
            healed_follower_catchup_observed: false,
        }
    } else {
        RuntimeDecisionModel {
            allowed: true,
            read_index: input.node_commit_index,
            reason: "safe"@,
            stale_leader_lease_rejected: false,
            lagging_follower_read_rejected: false,
            stale_follower_write_rejected: false,
            minority_partition_read_rejected: false,
            minority_partition_write_rejected: false,
            healed_follower_catchup_observed: is_follower && input.node_commit_index == input.leader_commit_index,
        }
    }
}

impl RustRaftReadSafetyRuntimeDecision {
    /// This decision, with its reason as characters.
    pub open spec fn model(self) -> RuntimeDecisionModel {
        RuntimeDecisionModel {
            allowed: self.allowed,
            read_index: self.read_index,
            reason: self.reason@,
            stale_leader_lease_rejected: self.stale_leader_lease_rejected,
            lagging_follower_read_rejected: self.lagging_follower_read_rejected,
            stale_follower_write_rejected: self.stale_follower_write_rejected,
            minority_partition_read_rejected: self.minority_partition_read_rejected,
            minority_partition_write_rejected: self.minority_partition_write_rejected,
            healed_follower_catchup_observed: self.healed_follower_catchup_observed,
        }
    }
}

fn rejected(read_index: u64, reason: &str) -> (r: RustRaftReadSafetyRuntimeDecision)
    ensures
        !r.allowed,
        r.read_index == read_index,
        r.reason@ == reason@,
        !r.stale_leader_lease_rejected,
        !r.lagging_follower_read_rejected,
        !r.stale_follower_write_rejected,
        !r.minority_partition_read_rejected,
        !r.minority_partition_write_rejected,
        !r.healed_follower_catchup_observed,
{
    RustRaftReadSafetyRuntimeDecision {
        allowed: false,
        read_index,
        reason: String::from_str(reason),
        stale_leader_lease_rejected: false,
        lagging_follower_read_rejected: false,
        stale_follower_write_rejected: false,
        minority_partition_read_rejected: false,
        minority_partition_write_rejected: false,
        healed_follower_catchup_observed: false,
    }
}

/// Applies the runtime safety rule to one operation.
pub fn rustraft_read_safety_runtime_decision(
    input: RustRaftReadSafetyRuntimeInput,
) -> (r: RustRaftReadSafetyRuntimeDecision)
    ensures
        r.model() == runtime_decision_model(input),
{
    let is_follower = input.node_id != input.leader_id;
    if matches!(input.operation, RustRaftReadSafetyOperation::Write) {
        let stale_follower_write_rejected = is_follower;
        let minority_partition_write_rejected = !input.has_majority;
        let allowed = !stale_follower_write_rejected && !minority_partition_write_rejected;
        return RustRaftReadSafetyRuntimeDecision {
            allowed,
            read_index: input.leader_commit_index,
            reason: if allowed {
                String::from_str("write_authority")
            } else if stale_follower_write_rejected {
                String::from_str("not_leader")
            } else {
                String::from_str("minority_partition")
            },
            stale_leader_lease_rejected: false,
            lagging_follower_read_rejected: false,
            stale_follower_write_rejected,
            minority_partition_read_rejected: false,
            minority_partition_write_rejected,
            healed_follower_catchup_observed: false,
        };
    }
    if !input.node_alive || !input.role_can_serve_data {
        return rejected(input.node_commit_index, "node_unavailable");
    }
    if matches!(input.operation, RustRaftReadSafetyOperation::ReadIndex | RustRaftReadSafetyOperation::LeaseRead)
        && (!input.leader_lease_valid || !input.has_majority)
    {
        return RustRaftReadSafetyRuntimeDecision {
            allowed: false,
            read_index: input.node_commit_index,
            reason: if !input.leader_lease_valid {
                String::from_str("stale_leader_lease")
            } else {
                String::from_str("minority_partition")
            },
            stale_leader_lease_rejected: !input.leader_lease_valid,
            lagging_follower_read_rejected: false,
            stale_follower_write_rejected: false,
            minority_partition_read_rejected: !input.has_majority,
            minority_partition_write_rejected: false,
            healed_follower_catchup_observed: false,
        };
    }
    let lag = if input.leader_commit_index >= input.node_commit_index {
        input.leader_commit_index - input.node_commit_index
    } else {
        0
    };
    let max_lag = if matches!(input.operation, RustRaftReadSafetyOperation::BoundedStaleRead) {
        input.max_stale_index_lag
    } else {
        0
    };
    if lag > max_lag {
        let mut d = rejected(input.node_commit_index, "replica_lagging");
        d.lagging_follower_read_rejected = is_follower;
        return d;
    }
    RustRaftReadSafetyRuntimeDecision {
        allowed: true,
        read_index: input.node_commit_index,
        reason: String::from_str("safe"),
        stale_leader_lease_rejected: false,
        lagging_follower_read_rejected: false,
        stale_follower_write_rejected: false,
        minority_partition_read_rejected: false,
        minority_partition_write_rejected: false,
        healed_follower_catchup_observed: is_follower && input.node_commit_index == input.leader_commit_index,
    }
}

/// A write is allowed exactly on the leader while it holds a majority.
pub proof fn law_write_needs_leader_and_majority(input: RustRaftReadSafetyRuntimeInput)
    requires
        input.operation is Write,
    ensures
        runtime_decision_model(input).allowed <==> (input.node_id == input.leader_id && input.has_majority),
{
}

/// An allowed read is served by a live data-serving replica whose commit index
/// lags the leader's by no more than the operation allows, and read-index and
/// lease reads additionally hold a valid lease and a majority.
pub proof fn law_allowed_read_is_fresh_enough(input: RustRaftReadSafetyRuntimeInput)
    requires
        !(input.operation is Write),
        runtime_decision_model(input).allowed,
    ensures
        input.node_alive,
        input.role_can_serve_data,
        sat_sub(input.leader_commit_index, input.node_commit_index) <= allowed_lag(input),
        (input.operation is ReadIndex || input.operation is LeaseRead) ==> input.leader_lease_valid
            && input.has_majority,
        runtime_decision_model(input).read_index == input.node_commit_index,
{
}

/// The converse: a read on a live data-serving replica is allowed, safe, at
/// the replica's commit index, whenever its commit index trails the
/// leader's by no more than the operation allows (nothing, except the
/// configured budget for a bounded-stale read) and, for a read-index or
/// lease read, the leader's lease is valid and a majority is held. A
/// follower that has caught up with the leader is reported as such.
pub proof fn law_fresh_enough_read_is_allowed(input: RustRaftReadSafetyRuntimeInput)
    requires
        !(input.operation is Write),
        input.node_alive,
        input.role_can_serve_data,
        (input.operation is ReadIndex || input.operation is LeaseRead) ==> input.leader_lease_valid
            && input.has_majority,
        input.leader_commit_index <= input.node_commit_index + (if input.operation is BoundedStaleRead {
            input.max_stale_index_lag as int
        } else {
            0
        }),
    ensures
        runtime_decision_model(input).allowed,
        runtime_decision_model(input).reason == "safe"@,
        runtime_decision_model(input).read_index == input.node_commit_index,
        !runtime_decision_model(input).lagging_follower_read_rejected,
        runtime_decision_model(input).healed_follower_catchup_observed == (input.node_id != input.leader_id
            && input.node_commit_index == input.leader_commit_index),
{
}

/// A read whose replica trails the leader by more than the operation allows
/// is rejected as lagging, even with a valid lease and a majority.
pub proof fn law_lagging_read_is_rejected(input: RustRaftReadSafetyRuntimeInput)
    requires
        !(input.operation is Write),
        input.node_alive,
        input.role_can_serve_data,
        (input.operation is ReadIndex || input.operation is LeaseRead) ==> input.leader_lease_valid
            && input.has_majority,
        input.leader_commit_index > input.node_commit_index + (if input.operation is BoundedStaleRead {
            input.max_stale_index_lag as int
        } else {
            0
        }),
    ensures
        !runtime_decision_model(input).allowed,
        runtime_decision_model(input).reason == "replica_lagging"@,
        runtime_decision_model(input).lagging_follower_read_rejected == (input.node_id != input.leader_id),
{
}

/// Widening the stale-read budget never turns an allowed bounded-stale read
/// into a rejection.
pub proof fn law_bounded_stale_budget_monotone(input: RustRaftReadSafetyRuntimeInput, wider: u64)
    requires
        input.operation is BoundedStaleRead,
        wider >= input.max_stale_index_lag,
        runtime_decision_model(input).allowed,
    ensures
        runtime_decision_model(RustRaftReadSafetyRuntimeInput { max_stale_index_lag: wider, ..input }).allowed,
{
}

/// The first position of a peer with the given id in a status's peer list.
pub open spec fn peer_position(peers: Seq<RustRaftPeerStatus>, id: u64) -> int {
    choose|p: int| 0 <= p < peers.len() && peers[p].node_id == id && forall|j: int| 0 <= j < p ==> peers[j].node_id != id
}

/// Whether the status lists a peer with the given id.
pub open spec fn has_peer(peers: Seq<RustRaftPeerStatus>, id: u64) -> bool {
    exists|p: int| 0 <= p < peers.len() && peers[p].node_id == id
}

fn find_peer(peers: &Vec<RustRaftPeerStatus>, id: u64) -> (r: Option<usize>)
    ensures
        r is None <==> !has_peer(peers@, id),
        r matches Some(p) ==> p == peer_position(peers@, id) && p < peers@.len(),
{
    let mut i: usize = 0;
    while i < peers.len()
        invariant
            i <= peers.len(),
            forall|j: int| 0 <= j < i ==> peers@[j].node_id != id,
        decreases peers.len() - i,
    {
        if peers[i].node_id == id {
            proof {
                let q = peer_position(peers@, id);
                assert(0 <= q < peers@.len() && peers@[q].node_id == id && forall|j: int| 0 <= j < q ==> peers@[j].node_id != id);
                if q < i {
                } else if i < q {
                    assert(peers@[i as int].node_id != id);
                }
            }
            return Some(i);
        }
        i = i + 1;
    }
    None
}

/// Decides whether a learner may be promoted: it must be listed as a healthy
/// learner whose match index is within `max_lag` of the commit index.
pub fn rustraft_learner_promotion_decision(
    status: &RustRaftStatusSnapshot,
    learner_id: u64,
    max_lag: u64,
) -> (r: RustRaftLearnerPromotionDecision)
    ensures
        r.learner_id == learner_id,
        r.required_match_index == sat_sub(status.commit_index, max_lag),
        !has_peer(status.peers@, learner_id) ==> {
            &&& !r.promotable
            &&& r.learner_match_index == 0
            &&& r.reason@ == "learner_missing"@
        },
        has_peer(status.peers@, learner_id) ==> {
            let peer = status.peers@[peer_position(status.peers@, learner_id)];
            &&& r.promotable == (peer.learner && peer.healthy && peer.matched >= r.required_match_index)
            &&& r.learner_match_index == peer.matched
            &&& r.reason@ == (if r.promotable { "caught_up"@ } else { "not_caught_up"@ })
        },
{
    let required_match_index = if status.commit_index >= max_lag {
        status.commit_index - max_lag
    } else {
        0
    };
    match find_peer(&status.peers, learner_id) {
        None => RustRaftLearnerPromotionDecision {
            promotable: false,
            learner_id,
            learner_match_index: 0,
            required_match_index,
            reason: String::from_str("learner_missing"),
        },
        Some(p) => {
            let peer = &status.peers[p];
            let promotable = peer.learner && peer.healthy && peer.matched >= required_match_index;
            RustRaftLearnerPromotionDecision {
                promotable,
                learner_id,
                learner_match_index: peer.matched,
                required_match_index,
                reason: if promotable {
                    String::from_str("caught_up")
                } else {
                    String::from_str("not_caught_up")
                },
            }
        },
    }
}

/// The previous log index named by an append request, zero when absent.
pub open spec fn prev_index(request: RustRaftAppendEntriesRequest) -> u64 {
    match request.prev_log_id {
        Some(id) => id.index,
        None => 0,
    }
}

/// The prefix check rejects a previous entry that lies in the compacted range.
pub open spec fn prev_compacted(first_retained: u64, snapshot_index: u64, request: RustRaftAppendEntriesRequest) -> bool {
    let p = prev_index(request);
    p > 0 && p < first_retained && p <= snapshot_index
}

/// Some entry of the request lies below the first retained index.
pub open spec fn entry_compacted(first_retained: u64, request: RustRaftAppendEntriesRequest) -> bool {
    exists|i: int| 0 <= i < request.entries@.len() && request.entries@[i].log_id.index < first_retained
}

/// An append is accepted exactly when nothing it touches is compacted: its
/// previous index is absent (zero), at or beyond the first retained index,
/// or beyond the snapshot, and every entry sits at or beyond the first
/// retained index. An entry exactly at the first retained index is never
/// compacted.
pub proof fn law_append_accepted_iff_nothing_compacted(
    first_retained: u64,
    snapshot_index: u64,
    request: RustRaftAppendEntriesRequest,
)
    ensures
        !(prev_compacted(first_retained, snapshot_index, request) || entry_compacted(first_retained, request)) <==> ({
            let p: u64 = match request.prev_log_id {
                Some(id) => id.index,
                None => 0,
            };
            &&& (p == 0 || p >= first_retained || p > snapshot_index)
            &&& forall|i: int| 0 <= i < request.entries@.len() ==> request.entries@[i].log_id.index >= first_retained
        }),
        (forall|i: int| 0 <= i < request.entries@.len() ==> request.entries@[i].log_id.index >= first_retained)
            ==> !entry_compacted(first_retained, request),
{
}

/// Rejects appends that refer to compacted log positions.
pub fn rustraft_append_safety_decision(
    first_retained_log_index: u64,
    snapshot_index: u64,
    request: &RustRaftAppendEntriesRequest,
) -> (r: RustRaftAppendSafetyDecision)
    ensures
        r.accepted == !(prev_compacted(first_retained_log_index, snapshot_index, *request)
            || entry_compacted(first_retained_log_index, *request)),
        r.rejected_compacted_entry == !r.accepted,
        r.reason@ == (if prev_compacted(first_retained_log_index, snapshot_index, *request) {
            "prev_log_compacted"@
        } else if entry_compacted(first_retained_log_index, *request) {
            "entry_compacted"@
        } else {
            "accepted"@
        }),
{
    let prev = match &request.prev_log_id {
        Some(id) => id.index,
        None => 0,
    };
    if prev > 0 && prev < first_retained_log_index && prev <= snapshot_index {
        return RustRaftAppendSafetyDecision {
            accepted: false,
            rejected_compacted_entry: true,
            reason: String::from_str("prev_log_compacted"),
        };
    }
    let mut i: usize = 0;
    while i < request.entries.len()
        invariant
            i <= request.entries.len(),
            forall|j: int| 0 <= j < i ==> request.entries@[j].log_id.index >= first_retained_log_index,
            !prev_compacted(first_retained_log_index, snapshot_index, *request),
        decreases request.entries.len() - i,
    {
        if request.entries[i].log_id.index < first_retained_log_index {
            assert(entry_compacted(first_retained_log_index, *request)) by {
                assert(request.entries@[i as int].log_id.index < first_retained_log_index);
            }
            return RustRaftAppendSafetyDecision {
                accepted: false,
                rejected_compacted_entry: true,
                reason: String::from_str("entry_compacted"),
            };
        }
        i = i + 1;
    }
    RustRaftAppendSafetyDecision {
        accepted: true,
        rejected_compacted_entry: false,
        reason: String::from_str("accepted"),
    }
}

} // verus!
