//! Identifiers, log entries, RPC messages and status snapshots shared by the
//! whole library.
use vstd::prelude::*;

verus! {

pub type RustRaftNodeId = u64;

pub type RustRaftGroupId = u64;

pub type RustRaftTerm = u64;

pub type RustRaftLogIndex = u64;

pub type RustRaftSnapshotId = String;

pub type RustRaftPayload = Vec<u8>;

pub type EntryPayload = RustRaftPayload;

pub type RustRaftSnapshotPayload = Vec<u8>;

/// The Raft role a node currently plays.
#[derive(Debug, Clone, Copy, PartialEq, Eq, Structural)]
pub enum RustRaftRole {
    Leader,
    Follower,
    Candidate,
    Learner,
}

/// A (term, index) pair naming one log position.
#[derive(Debug, Clone, Copy, PartialEq, Eq, Structural)]
pub struct RustRaftLogId {
    pub term: RustRaftTerm,
    pub index: RustRaftLogIndex,
}

/// One log entry with an arbitrary payload type.
#[derive(Debug, Clone, PartialEq, Eq)]
pub struct RustRaftGenericLogEntry<P> {
    pub log_id: RustRaftLogId,
    pub payload: P,
}

pub type RustRaftLogEntry = RustRaftGenericLogEntry<RustRaftPayload>;

/// What a log entry holds: its id and the bytes of its payload.
pub struct EntryModel {
    pub log_id: RustRaftLogId,
    pub payload: Seq<u8>,
}

impl RustRaftGenericLogEntry<Vec<u8>> {
    pub open spec fn model(self) -> EntryModel {
        EntryModel { log_id: self.log_id, payload: self.payload@ }
    }

    /// A copy of the entry.
    pub fn duplicate(&self) -> (r: Self)
        ensures
            r.model() == self.model(),
    {
        RustRaftGenericLogEntry { log_id: self.log_id, payload: clone_bytes(&self.payload) }
    }
}

/// A copy of a byte vector.
pub fn clone_bytes(v: &Vec<u8>) -> (r: Vec<u8>)
    ensures
        r@ == v@,
{
    let r = v.clone();
    proof {
        assert(r@ =~= v@);
    }
    r
}

pub type RaftLogEntry<P> = RustRaftGenericLogEntry<P>;

/// The durable vote/term state of a node.
#[derive(Debug, Clone, Copy, PartialEq, Eq, Structural)]
pub struct RustRaftHardState {
    pub current_term: RustRaftTerm,
    pub voted_for: Option<RustRaftNodeId>,
    pub committed: Option<RustRaftLogId>,
}

pub type RaftHardState = RustRaftHardState;

/// The membership role of a replica.
#[derive(Debug, Clone, Copy, PartialEq, Eq, Structural)]
pub enum RustRaftReplicaRole {
    Voter,
    Learner,
    Witness,
}

impl RustRaftReplicaRole {
    /// Voters and witnesses count toward a quorum.
    pub open spec fn spec_participates_in_quorum(self) -> bool {
        self is Voter || self is Witness
    }

    /// Voters and learners hold data.
    pub open spec fn spec_can_serve_data(self) -> bool {
        self is Voter || self is Learner
    }

    /// Only voters may lead.
    pub open spec fn spec_can_be_leader(self) -> bool {
        self is Voter
    }

    #[verifier::when_used_as_spec(spec_participates_in_quorum)]
    pub fn participates_in_quorum(self) -> (r: bool)
        ensures
            r == self.spec_participates_in_quorum(),
    {
        match self {
            RustRaftReplicaRole::Voter | RustRaftReplicaRole::Witness => true,
            RustRaftReplicaRole::Learner => false,
        }
    }

    #[verifier::when_used_as_spec(spec_can_serve_data)]
    pub fn can_serve_data(self) -> (r: bool)
        ensures
            r == self.spec_can_serve_data(),
    {
        match self {
            RustRaftReplicaRole::Voter | RustRaftReplicaRole::Learner => true,
            RustRaftReplicaRole::Witness => false,
        }
    }

    #[verifier::when_used_as_spec(spec_can_be_leader)]
    pub fn can_be_leader(self) -> (r: bool)
        ensures
            r == self.spec_can_be_leader(),
    {
        match self {
            RustRaftReplicaRole::Voter => true,
            _ => false,
        }
    }
}

impl Default for RustRaftReplicaRole {
    fn default() -> (r: Self)
        ensures
            r == RustRaftReplicaRole::Voter,
    {
        RustRaftReplicaRole::Voter
    }
}

/// One peer of a Raft group, with its addresses and role.
#[derive(Debug, Clone, PartialEq, Eq)]
pub struct RustRaftPeer {
    pub node_id: RustRaftNodeId,
    pub raft_addr: String,
    pub snapshot_addr: String,
    pub role: RustRaftReplicaRole,
    pub auto_promote: bool,
}

/// Metadata of a snapshot: its id, the last log id it covers and the members.
#[derive(Debug, Clone, PartialEq, Eq)]
pub struct RustRaftSnapshotMeta {
    pub snapshot_id: RustRaftSnapshotId,
    pub last_log_id: RustRaftLogId,
    pub membership: Vec<RustRaftNodeId>,
}

/// Snapshot metadata as plain values.
pub struct SnapshotMetaModel {
    pub snapshot_id: Seq<char>,
    pub last_log_id: RustRaftLogId,
    pub membership: Seq<u64>,
}

impl RustRaftSnapshotMeta {
    pub open spec fn model(self) -> SnapshotMetaModel {
        SnapshotMetaModel { snapshot_id: self.snapshot_id@, last_log_id: self.last_log_id, membership: self.membership@ }
    }

    /// A copy with the same view.
    pub fn duplicate(&self) -> (r: Self)
        ensures
            r.snapshot_id@ == self.snapshot_id@,
            r.last_log_id == self.last_log_id,
            r.membership@ == self.membership@,
    {
        RustRaftSnapshotMeta {
            snapshot_id: self.snapshot_id.clone(),
            last_log_id: self.last_log_id,
            membership: self.membership.clone(),
        }
    }

    /// Equality of two metadata values by their views.
    pub open spec fn same_as(self, other: Self) -> bool {
        &&& self.snapshot_id@ == other.snapshot_id@
        &&& self.last_log_id == other.last_log_id
        &&& self.membership@ == other.membership@
    }

    /// Decides `same_as`.
    pub fn equals(&self, other: &Self) -> (r: bool)
        ensures
            r == self.same_as(*other),
    {
        if self.snapshot_id != other.snapshot_id || self.last_log_id != other.last_log_id {
            return false;
        }
        if self.membership.len() != other.membership.len() {
            return false;
        }
        let mut i: usize = 0;
        while i < self.membership.len()
            invariant
                i <= self.membership.len(),
                self.membership.len() == other.membership.len(),
                forall|j: int| 0 <= j < i ==> self.membership@[j] == other.membership@[j],
            decreases self.membership.len() - i,
        {
            if self.membership[i] != other.membership[i] {
                return false;
            }
            i = i + 1;
        }
        assert(self.membership@ =~= other.membership@);
        true
    }
}

/// One chunk of a streamed snapshot.
#[derive(Debug, Clone, PartialEq, Eq)]
pub struct RustRaftSnapshotChunk {
    pub meta: RustRaftSnapshotMeta,
    pub offset: u64,
    pub data: RustRaftSnapshotPayload,
    pub done: bool,
}

pub type SnapshotChunk = RustRaftSnapshotChunk;

/// A complete snapshot of one group.
#[derive(Debug, Clone, PartialEq, Eq)]
pub struct RustRaftGenericSnapshot<G, P> {
    pub group_id: G,
    pub meta: RustRaftSnapshotMeta,
    pub payload: P,
}

pub type RaftSnapshot = RustRaftGenericSnapshot<RustRaftGroupId, RustRaftSnapshotPayload>;

/// A snapshot chunk with an arbitrary payload type.
#[derive(Debug, Clone, PartialEq, Eq)]
pub struct RustRaftGenericSnapshotChunk<P> {
    pub meta: RustRaftSnapshotMeta,
    pub offset: u64,
    pub data: P,
    pub done: bool,
}

#[derive(Debug, Clone, PartialEq, Eq)]
pub struct RustRaftAppendEntriesRequest {
    pub group_id: RustRaftGroupId,
    pub term: RustRaftTerm,
    pub leader_id: RustRaftNodeId,
    pub prev_log_id: Option<RustRaftLogId>,
    pub entries: Vec<RustRaftLogEntry>,
    pub leader_commit: RustRaftLogIndex,
}

pub type AppendEntriesRequest = RustRaftAppendEntriesRequest;

#[derive(Debug, Clone, Copy, PartialEq, Eq, Structural)]
pub struct RustRaftAppendEntriesResponse {
    pub term: RustRaftTerm,
    pub success: bool,
    pub match_index: RustRaftLogIndex,
    pub rejection_hint: Option<RustRaftLogIndex>,
}

pub type AppendEntriesResponse = RustRaftAppendEntriesResponse;

#[derive(Debug, Clone, Copy, PartialEq, Eq, Structural)]
pub struct RustRaftVoteRequest {
    pub group_id: RustRaftGroupId,
    pub term: RustRaftTerm,
    pub candidate_id: RustRaftNodeId,
    pub last_log_id: Option<RustRaftLogId>,
    pub pre_vote: bool,
}

pub type VoteRequest = RustRaftVoteRequest;

#[derive(Debug, Clone, PartialEq, Eq)]
pub struct RustRaftVoteResponse {
    pub term: RustRaftTerm,
    pub vote_granted: bool,
    pub reason: String,
}

pub type VoteResponse = RustRaftVoteResponse;

#[derive(Debug, Clone, PartialEq, Eq)]
pub struct RustRaftInstallSnapshotRequest {
    pub group_id: RustRaftGroupId,
    pub term: RustRaftTerm,
    pub leader_id: RustRaftNodeId,
    pub chunk: RustRaftSnapshotChunk,
}

pub type InstallSnapshotRequest = RustRaftInstallSnapshotRequest;

#[derive(Debug, Clone, PartialEq, Eq)]
pub struct RustRaftInstallSnapshotResponse {
    pub term: RustRaftTerm,
    pub accepted: bool,
    pub next_offset: u64,
    pub reason: String,
}

pub type InstallSnapshotResponse = RustRaftInstallSnapshotResponse;

#[derive(Debug, Clone, Copy, PartialEq, Eq, Structural)]
pub struct RustRaftReadIndexRequest {
    pub group_id: RustRaftGroupId,
    pub requester_id: RustRaftNodeId,
    pub min_commit_index: RustRaftLogIndex,
    pub allow_lease_read: bool,
}

pub type ReadIndexRequest = RustRaftReadIndexRequest;

#[derive(Debug, Clone, PartialEq, Eq)]
pub struct RustRaftReadIndexResponse {
    pub safe: bool,
    pub read_index: RustRaftLogIndex,
    pub lease_read: bool,
    pub reason: String,
}

pub type ReadIndexResponse = RustRaftReadIndexResponse;

#[derive(Debug, Clone, Copy, PartialEq, Eq, Structural)]
pub struct RustRaftPeerStatus {
    pub node_id: RustRaftNodeId,
    pub matched: RustRaftLogIndex,
    pub next_index: RustRaftLogIndex,
    pub learner: bool,
    pub healthy: bool,
    pub lag: RustRaftLogIndex,
}

/// The status of one node as seen by the operator.
#[derive(Debug, Clone, PartialEq, Eq)]
pub struct RustRaftStatusSnapshot {
    pub group_id: RustRaftGroupId,
    pub node_id: RustRaftNodeId,
    pub role: RustRaftRole,
    pub term: RustRaftTerm,
    pub leader_id: Option<RustRaftNodeId>,
    pub commit_index: RustRaftLogIndex,
    pub applied_index: RustRaftLogIndex,
    pub last_log_index: RustRaftLogIndex,
    pub last_snapshot_index: RustRaftLogIndex,
    pub peers: Vec<RustRaftPeerStatus>,
}

/// A status snapshot as plain values.
pub struct StatusModel {
    pub group_id: u64,
    pub node_id: u64,
    pub role: RustRaftRole,
    pub term: u64,
    pub leader_id: Option<u64>,
    pub commit_index: u64,
    pub applied_index: u64,
    pub last_log_index: u64,
    pub last_snapshot_index: u64,
    pub peers: Seq<RustRaftPeerStatus>,
}

impl RustRaftStatusSnapshot {
    pub open spec fn model(self) -> StatusModel {
        StatusModel {
            group_id: self.group_id,
            node_id: self.node_id,
            role: self.role,
            term: self.term,
            leader_id: self.leader_id,
            commit_index: self.commit_index,
            applied_index: self.applied_index,
            last_log_index: self.last_log_index,
            last_snapshot_index: self.last_snapshot_index,
            peers: self.peers@,
        }
    }
}

#[derive(Debug, Clone, PartialEq, Eq)]
pub struct RustRaftProposeOptions {
    pub expected_term: Option<RustRaftTerm>,
    pub is_command: bool,
}

impl Default for RustRaftProposeOptions {
    fn default() -> (r: Self)
        ensures
            r.expected_term is None,
            r.is_command,
    {
        RustRaftProposeOptions { expected_term: None, is_command: true }
    }
}

#[derive(Debug, Clone, PartialEq, Eq)]
pub struct RustRaftApplyRequest {
    pub group_id: RustRaftGroupId,
    pub log_id: RustRaftLogId,
    pub payload: RustRaftPayload,
}

#[derive(Debug, Clone, PartialEq, Eq)]
pub struct RustRaftApplyResponse {
    pub applied_index: RustRaftLogIndex,
    pub response: RustRaftPayload,
}

#[derive(Debug, Clone, PartialEq, Eq)]
pub struct RustRaftGenericApplyRequest<G, P> {
    pub group_id: G,
    pub log_id: RustRaftLogId,
    pub payload: P,
}

pub type RaftApplyRequest<G, P> = RustRaftGenericApplyRequest<G, P>;

#[derive(Debug, Clone, PartialEq, Eq)]
pub struct RustRaftGenericApplyResponse<P> {
    pub applied_index: RustRaftLogIndex,
    pub response: P,
}

pub type RaftApplyResponse<P> = RustRaftGenericApplyResponse<P>;

} // verus!
