//! An in-process Raft group: replicas keyed by id, each with the
//! replication pipeline the leader keeps for it; elections, proposals,
//! append handling, reads, leadership transfer, membership changes and
//! snapshot installation.
use vstd::prelude::*;
use vstd::string::*;
use crate::errors::{ErrorModel, fails_with, RaftConfigError, RustRaftConfig, RustRaftError, config_error_message, config_error_to_raft_error, config_first_error, invalid_request};
use crate::node::{NodeModel, RaftNode, entries_above, lemma_entries_above_len, entry_models, appended_all, below_max, lemma_appended_all_below_max, lemma_entries_above_below_max, lemma_match_below_max};
use crate::wal::{RustRaftApplySnapshotFence, install_error, rustraft_validate_snapshot_install};
use crate::health::{RaftClusterStatusReport, cluster_report_post, rustraft_cluster_status_report};
use crate::snapshot::{RaftSnapshotInstallState, RaftSnapshotLifecycle, install_request_pre, install_request_post};
use crate::pipeline::{
    out_of_order_pre, out_of_order_post, expire_pre, expire_post, begin_send_pre, begin_send_post, chunk_sent_pre,
    chunk_sent_post, chunk_acknowledged_pre, chunk_acknowledged_post, begin_install_pre, chunk_received_pre,
    begin_install_post, chunk_received_post,
    append_response_post, append_response_pre, queue_append_post, flush_post, flush_count, RaftInflightAppend,
    PipelineModel, RaftReplicationPipeline, RustRaftPeerPipelineStatus, RustRaftPipelineLimits,
};
use crate::text::{decimal_chars, u64_to_decimal};
use crate::membership::{RaftLearnerCatchUpReport, RustRaftMembership, sat_sub};
use crate::report::s;
use crate::seqs::strs;
use crate::types::{
    RustRaftProposeOptions,
    RustRaftSnapshotMeta,
    RustRaftInstallSnapshotRequest, RustRaftInstallSnapshotResponse, SnapshotMetaModel,
    RustRaftAppendEntriesRequest, RaftSnapshot, EntryModel,
    RustRaftLogEntry, RustRaftPayload,
    StatusModel, RustRaftPeerStatus, RustRaftReadIndexRequest, RustRaftReadIndexResponse, RustRaftStatusSnapshot,
    RustRaftAppendEntriesResponse, RustRaftGroupId, RustRaftLogId, RustRaftLogIndex, RustRaftNodeId, RustRaftPeer,
    RustRaftReplicaRole, RustRaftRole, RustRaftHardState,
};

verus! {

/// Below 2^62: room for any sum or increment the engine makes in one call.
pub open spec fn small(x: u64) -> bool {
    x < 0x4000_0000_0000_0000
}

/// Every counter and index of a pipeline status is small.
pub open spec fn status_headroom(s: RustRaftPeerPipelineStatus) -> bool {
    &&& small(s.match_index)
    &&& small(s.next_index)
    &&& small(s.append_requests)
    &&& small(s.append_accepted)
    &&& small(s.append_rejected)
    &&& small(s.apply_backpressure_rejections)
    &&& small(s.memory_backpressure_rejections)
    &&& small(s.oversized_log_rejections)
    &&& small(s.out_of_order_append_rejections)
    &&& small(s.reorder_entries_rejected)
    &&& small(s.reorder_entry_timeouts)
    &&& small(s.reorder_dropped_packages)
    &&& small(s.stale_term_rejections)
    &&& small(s.snapshot_send_attempts)
    &&& small(s.snapshot_backpressure_rejections)
    &&& small(s.snapshot_install_rolled_back)
}

/// A pipeline whose counters, indexes and transfer have room.
pub open spec fn pipeline_headroom(p: PipelineModel) -> bool {
    &&& status_headroom(p.status)
    &&& p.transfer matches Some(t) ==> small(t.snapshot_index) && t.acknowledged_chunks < 0x1_0000_0000 && small(
        t.bytes_sent,
    ) && small(t.bytes_received)
}

/// A replica whose term and indexes have room.
pub open spec fn node_headroom(n: NodeModel) -> bool {
    &&& small(n.hard_state.current_term)
    &&& small(n.match_index())
    &&& small(n.commit_index)
    &&& small(n.applied_index)
}

/// The cluster as plain values; replicas and pipelines are kept in
/// increasing order of node id, the pipeline of a replica at its position.
pub struct ClusterModel {
    pub group_id: u64,
    pub config: RustRaftConfig,
    pub nodes: Seq<NodeModel>,
    pub pipelines: Seq<PipelineModel>,
    pub leader_id: Option<u64>,
    pub current_term: u64,
    pub commit_index: u64,
    pub applied_index: u64,
    pub last_log_index: u64,
    pub running: bool,
    pub leader_lease_valid: bool,
}

impl ClusterModel {
    /// Whether `id` is a replica of the cluster.
    pub open spec fn has_node(self, id: u64) -> bool {
        exists|i: int| 0 <= i < self.nodes.len() && self.nodes[i].id == id
    }

    /// The position of replica `id` (meaningful when it is one).
    pub open spec fn pos(self, id: u64) -> int {
        choose|i: int| 0 <= i < self.nodes.len() && self.nodes[i].id == id
    }

    /// The ids of the replicas, in increasing order.
    pub open spec fn ids(self) -> Seq<u64> {
        node_id_seq(self.nodes)
    }

    /// What every operation keeps: one pipeline per replica at its position
    /// with its id and the production limits, replica ids strictly
    /// increasing, sound pipelines, and a leader that is a replica.
    pub open spec fn wf(self) -> bool {
        &&& self.nodes.len() == self.pipelines.len()
        &&& forall|i: int, j: int| 0 <= i < j < self.nodes.len() ==> #[trigger] self.nodes[i].id < #[trigger] self.nodes[j].id
        &&& forall|i: int|
            0 <= i < self.nodes.len() ==> {
                &&& (#[trigger] self.pipelines[i]).peer_id == self.nodes[i].id
                &&& self.pipelines[i].wf()
                &&& self.pipelines[i].limits == RustRaftPipelineLimits::spec_production_default()
            }
        &&& self.leader_id matches Some(l) ==> self.has_node(l)
        &&& self.leader_id is Some ==> self.current_term > 0
    }

    /// Room in every counter, index and term for one more operation.
    pub open spec fn headroom(self) -> bool {
        &&& small(self.current_term)
        &&& small(self.last_log_index)
        &&& small(self.commit_index)
        &&& forall|i: int| 0 <= i < self.nodes.len() ==> node_headroom(#[trigger] self.nodes[i])
        &&& forall|i: int| 0 <= i < self.pipelines.len() ==> pipeline_headroom(#[trigger] self.pipelines[i])
    }
}

/// A replica with the pipeline the leader keeps for it.
#[derive(Debug, Clone)]
struct Member {
    node: RaftNode,
    pipeline: RaftReplicationPipeline,
}

/// An in-process Raft group.
#[derive(Debug, Clone)]
pub struct RaftCluster {
    pub group_id: RustRaftGroupId,
    pub config: RustRaftConfig,
    members: Vec<Member>,
    leader_id: Option<RustRaftNodeId>,
    current_term: u64,
    commit_index: RustRaftLogIndex,
    applied_index: RustRaftLogIndex,
    last_log_index: RustRaftLogIndex,
    running: bool,
    leader_lease_valid: bool,
}

impl View for RaftCluster {
    type V = ClusterModel;

    closed spec fn view(&self) -> ClusterModel {
        ClusterModel {
            group_id: self.group_id,
            config: self.config,
            nodes: self.members@.map_values(|m: Member| m.node.model()),
            pipelines: self.members@.map_values(|m: Member| m.pipeline@),
            leader_id: self.leader_id,
            current_term: self.current_term,
            commit_index: self.commit_index,
            applied_index: self.applied_index,
            last_log_index: self.last_log_index,
            running: self.running,
            leader_lease_valid: self.leader_lease_valid,
        }
    }
}

/// The position of the first peer whose id an earlier peer already has.
pub open spec fn first_duplicate(peers: Seq<RustRaftPeer>) -> Option<int>
    decreases peers.len(),
{
    if peers.len() == 0 {
        None
    } else {
        match first_duplicate(peers.drop_last()) {
            Some(j) => Some(j),
            None => if exists|i: int| 0 <= i < peers.len() - 1 && peers[i].node_id == peers.last().node_id {
                Some(peers.len() - 1)
            } else {
                None
            },
        }
    }
}

/// The error of an id given twice.
pub open spec fn duplicate_message(id: u64) -> Seq<char> {
    "duplicate raft node id "@ + decimal_chars(id as nat)
}

fn duplicate_error(id: u64) -> (e: RustRaftError)
    ensures
        e matches RustRaftError::InvalidRequest(m) && m@ == duplicate_message(id),
{
    RustRaftError::InvalidRequest(String::from_str("duplicate raft node id ").concat(u64_to_decimal(id).as_str()))
}

/// Node ids strictly increasing.
pub open spec fn increasing_ids(ids: Seq<u64>) -> bool {
    forall|a: int, b: int| 0 <= a < b < ids.len() ==> #[trigger] ids[a] < #[trigger] ids[b]
}

spec fn member_ids(ms: Seq<Member>) -> Seq<u64> {
    ms.map_values(|m: Member| m.node.id)
}

/// Inserts a member at the place of its id; gives it back when its id is taken.
fn insert_member(members: &mut Vec<Member>, m: Member) -> (r: Result<(), Member>)
    requires
        increasing_ids(member_ids(old(members)@)),
    ensures
        member_ids(old(members)@).contains(m.node.id) ==> r == Err::<(), Member>(m) && final(members)@ == old(members)@,
        !member_ids(old(members)@).contains(m.node.id) ==> r is Ok && exists|k: int|
            0 <= k <= old(members)@.len() && final(members)@ == old(members)@.insert(k, m),
        increasing_ids(member_ids(final(members)@)),
{
    let id = m.node.id;
    let ghost ids = member_ids(members@);
    let mut k: usize = 0;
    while k < members.len() && members[k].node.id < id
        invariant
            ids == member_ids(members@),
            k <= members@.len(),
            forall|a: int| 0 <= a < k ==> #[trigger] ids[a] < id,
        decreases members@.len() - k,
    {
        k = k + 1;
    }
    if k < members.len() && members[k].node.id == id {
        proof {
            assert(ids[k as int] == id);
        }
        return Err(m);
    }
    proof {
        assert forall|a: int| 0 <= a < ids.len() implies ids[a] != id by {
            if a >= k {
                if a > k {
                    assert(ids[k as int] < ids[a]);
                }
            }
        }
    }
    let ghost before = members@;
    members.insert(k, m);
    proof {
        let after = member_ids(members@);
        assert(after =~= ids.insert(k as int, id));
        assert forall|a: int, b: int| 0 <= a < b < after.len() implies #[trigger] after[a] < #[trigger] after[b] by {
            if a < k && b < k {
            } else if a < k && b == k {
            } else if a < k && b > k {
                assert(after[b] == ids[b - 1]);
                if b - 1 > k {
                    assert(ids[k as int] < ids[b - 1]);
                }
                assert(ids[b - 1] >= id);
            } else if a == k {
                assert(after[b] == ids[b - 1]);
                assert(ids[b - 1] >= id);
            } else {
                assert(after[a] == ids[a - 1] && after[b] == ids[b - 1]);
            }
        }
    }
    Ok(())
}

/// The role of the peer with id `id` (meaningful when there is one).
pub open spec fn peer_role(peers: Seq<RustRaftPeer>, id: u64) -> RustRaftReplicaRole {
    peers[choose|j: int| 0 <= j < peers.len() && peers[j].node_id == id].role
}

/// The ids of the peers, in order.
pub open spec fn peer_id_seq(peers: Seq<RustRaftPeer>) -> Seq<u64> {
    peers.map_values(|p: RustRaftPeer| p.node_id)
}

/// The ids of the peers.
pub open spec fn peer_ids(peers: Seq<RustRaftPeer>) -> Set<u64> {
    peer_id_seq(peers).to_set()
}

/// The ids of the replicas, in order.
pub open spec fn node_id_seq(nodes: Seq<NodeModel>) -> Seq<u64> {
    nodes.map_values(|n: NodeModel| n.id)
}

impl RaftCluster {
    pub closed spec fn wf(&self) -> bool {
        &&& self@.wf()
        &&& forall|i: int| 0 <= i < self.members@.len() ==> (#[trigger] self.members@[i]).pipeline.wf()
    }

    /// The replicas of a new cluster: one fresh replica per peer id, in
    /// increasing order of id.
    pub open spec fn initial_nodes(peers: Seq<RustRaftPeer>, nodes: Seq<NodeModel>) -> bool {
        &&& increasing_ids(node_id_seq(nodes))
        &&& node_id_seq(nodes).to_set() == peer_ids(peers)
        &&& forall|i: int| 0 <= i < nodes.len() ==> #[trigger] nodes[i] == NodeModel::fresh(nodes[i].id, peer_role(peers, nodes[i].id))
    }

    /// A stopped cluster without leader, one fresh replica per peer; refused
    /// when the configuration is invalid, when there are no peers, when an id
    /// is given twice (the first repeated one is named), or when no peer can
    /// lead.
    pub fn new(group_id: RustRaftGroupId, config: RustRaftConfig, peers: Vec<RustRaftPeer>) -> (r: Result<Self, RustRaftError>)
        ensures
            config_first_error(config) is Some ==> (r matches Err(RustRaftError::Config(m)) && m@
                == config_error_message(config_first_error(config)->0)),
            config_first_error(config) is None && peers@.len() == 0 ==> (r matches Err(RustRaftError::InvalidRequest(m))
                && m@ == "raft cluster requires at least one peer"@),
            config_first_error(config) is None && peers@.len() > 0 && first_duplicate(peers@) is Some ==> (
            r matches Err(RustRaftError::InvalidRequest(m)) && m@ == duplicate_message(
                peers@[first_duplicate(peers@)->0].node_id,
            )),
            config_first_error(config) is None && peers@.len() > 0 && first_duplicate(peers@) is None && !(exists|j: int|
                0 <= j < peers@.len() && (#[trigger] peers@[j]).role == RustRaftReplicaRole::Voter) ==> (r matches Err(
                RustRaftError::InvalidRequest(m),
            ) && m@ == "raft cluster requires at least one voter"@),
            r matches Ok(c) ==> {
                &&& c.wf()
                &&& c@.wf()
                &&& c@.group_id == group_id
                &&& c@.config == config
                &&& Self::initial_nodes(peers@, c@.nodes)
                &&& forall|i: int|
                    0 <= i < c@.nodes.len() ==> #[trigger] c@.pipelines[i] == PipelineModel::fresh(
                        c@.nodes[i].id,
                        1,
                        RustRaftPipelineLimits::spec_production_default(),
                    )
                &&& c@.leader_id is None
                &&& c@.current_term == 0
                &&& c@.commit_index == 0
                &&& c@.applied_index == 0
                &&& c@.last_log_index == 0
                &&& !c@.running
                &&& !c@.leader_lease_valid
            },
            r is Ok <==> (config_first_error(config) is None && peers@.len() > 0 && first_duplicate(peers@) is None
                && exists|j: int| 0 <= j < peers@.len() && (#[trigger] peers@[j]).role == RustRaftReplicaRole::Voter),
    {
        match config.validate() {
            Err(e) => {
                return Err(config_error_to_raft_error(e));
            },
            Ok(()) => {},
        }
        if peers.len() == 0 {
            return Err(invalid_request("raft cluster requires at least one peer"));
        }
        let mut members: Vec<Member> = Vec::new();
        let mut has_voter = false;
        let mut i: usize = 0;
        proof {
            assert(member_ids(members@).to_set() =~= peer_ids(peers@.take(0)));
        }
        while i < peers.len()
            invariant
                config_first_error(config) is None,
                peers@.len() > 0,
                i <= peers@.len(),
                first_duplicate(peers@.take(i as int)) is None,
                increasing_ids(member_ids(members@)),
                member_ids(members@).to_set() == peer_ids(peers@.take(i as int)),
                forall|a: int| 0 <= a < members@.len() ==> {
                    &&& (#[trigger] members@[a]).node.model() == NodeModel::fresh(members@[a].node.id, peer_role(peers@.take(i as int), members@[a].node.id))
                    &&& members@[a].pipeline@ == PipelineModel::fresh(members@[a].node.id, 1, RustRaftPipelineLimits::spec_production_default())
                    &&& members@[a].pipeline.wf()
                },
                has_voter == exists|j: int| 0 <= j < i && (#[trigger] peers@[j]).role == RustRaftReplicaRole::Voter,
            decreases peers@.len() - i,
        {
            let peer = &peers[i];
            let id = peer.node_id;
            let ghost pre = peers@.take(i as int);
            let ghost post = peers@.take(i + 1);
            proof {
                assert(post.drop_last() =~= pre);
                assert(post.last() == peers@[i as int]);
                assert(post =~= pre.push(peers@[i as int]));
                assert(peer_id_seq(post) =~= peer_id_seq(pre).push(id));
                peer_id_seq(pre).lemma_push_to_set_commute(id);
            }
            let candidate = Member {
                node: RaftNode::new(id, peer.role),
                pipeline: RaftReplicationPipeline::new(id, 1, RustRaftPipelineLimits::production_default()),
            };
            let ghost before = members@;
            match insert_member(&mut members, candidate) {
                Err(_) => {
                    proof {
                        assert(peer_ids(pre).contains(id));
                        let w = choose|j: int| 0 <= j < pre.len() && #[trigger] peer_id_seq(pre)[j] == id;
                        assert(pre[w].node_id == id);
                        assert(post[w] == pre[w]);
                        assert(first_duplicate(post) == Some(i as int));
                        lemma_first_duplicate_prefix(peers@, i + 1);
                    }
                    return Err(duplicate_error(id));
                },
                Ok(()) => {},
            }
            proof {
                assert(!peer_ids(pre).contains(id));
                assert forall|a: int| 0 <= a < pre.len() implies pre[a].node_id != id by {
                    assert(peer_id_seq(pre)[a] == pre[a].node_id);
                }
                assert(first_duplicate(post) is None);
                let k = choose|k: int| 0 <= k <= before.len() && members@ == before.insert(k, candidate);
                assert(member_ids(members@) =~= member_ids(before).insert(k, id));
                lemma_seq_insert_to_set(member_ids(before), k, id);
                assert forall|q: u64| q != id && peer_id_seq(pre).contains(q) implies peer_role(post, q) == peer_role(pre, q) by {
                    let j1 = choose|j: int| 0 <= j < pre.len() && pre[j].node_id == q;
                    assert(peer_id_seq(pre)[j1] == q);
                    let j2 = choose|j: int| 0 <= j < post.len() && post[j].node_id == q;
                    assert(post[j2].node_id == q);
                    if j2 == i {
                        assert(false);
                    }
                    assert(post[j2] == pre[j2]);
                    let j3 = choose|j: int| 0 <= j < pre.len() && pre[j].node_id == q;
                    if j2 != j3 {
                        assert(post[j3] == pre[j3]);
                        assert(first_duplicate(post) is None);
                        lemma_no_duplicate_distinct(post, j2, j3);
                    }
                }
                assert(post[i as int].node_id == id);
                let jj = choose|j: int| 0 <= j < post.len() && post[j].node_id == id;
                if jj != i {
                    lemma_no_duplicate_distinct(post, jj, i as int);
                }
                assert(peer_role(post, id) == peer.role);
                assert forall|a: int| 0 <= a < members@.len() implies {
                    &&& (#[trigger] members@[a]).node.model() == NodeModel::fresh(members@[a].node.id, peer_role(post, members@[a].node.id))
                    &&& members@[a].pipeline@ == PipelineModel::fresh(members@[a].node.id, 1, RustRaftPipelineLimits::spec_production_default())
                    &&& members@[a].pipeline.wf()
                } by {
                    if a < k {
                        assert(members@[a] == before[a]);
                        assert(member_ids(before)[a] == before[a].node.id);
                        assert(member_ids(before).to_set().contains(before[a].node.id));
                    } else if a > k {
                        assert(members@[a] == before[a - 1]);
                        assert(member_ids(before)[a - 1] == before[a - 1].node.id);
                        assert(member_ids(before).to_set().contains(before[a - 1].node.id));
                    }
                }
            }
            if peer.role == RustRaftReplicaRole::Voter {
                has_voter = true;
            }
            i = i + 1;
        }
        proof {
            assert(peers@.take(peers@.len() as int) =~= peers@);
        }
        if !has_voter {
            return Err(invalid_request("raft cluster requires at least one voter"));
        }
        let c = RaftCluster {
            group_id,
            config,
            members,
            leader_id: None,
            current_term: 0,
            commit_index: 0,
            applied_index: 0,
            last_log_index: 0,
            running: false,
            leader_lease_valid: false,
        };
        proof {
            assert(node_id_seq(c@.nodes) =~= member_ids(c.members@));
            assert forall|a: int| 0 <= a < c@.nodes.len() implies (#[trigger] c@.pipelines[a]).wf() by {
                assert(c@.pipelines[a] == c.members@[a].pipeline@);
            }
            assert forall|a: int, b: int| 0 <= a < b < c@.nodes.len() implies #[trigger] c@.nodes[a].id < #[trigger] c@.nodes[b].id by {
                assert(member_ids(c.members@)[a] == c@.nodes[a].id);
                assert(member_ids(c.members@)[b] == c@.nodes[b].id);
            }
        }
        Ok(c)
    }
}

/// Without a repeated id, different positions hold different ids.
proof fn lemma_no_duplicate_distinct(peers: Seq<RustRaftPeer>, a: int, b: int)
    requires
        first_duplicate(peers) is None,
        0 <= a < peers.len(),
        0 <= b < peers.len(),
        a != b,
    ensures
        peers[a].node_id != peers[b].node_id,
    decreases peers.len(),
{
    let hi = if a > b { a } else { b };
    let lo = if a > b { b } else { a };
    if hi == peers.len() - 1 {
        assert(peers[lo].node_id != peers.last().node_id || exists|i: int| 0 <= i < peers.len() - 1 && peers[i].node_id == peers.last().node_id);
    } else {
        lemma_no_duplicate_distinct(peers.drop_last(), a, b);
    }
}

proof fn lemma_seq_insert_to_set(s: Seq<u64>, k: int, x: u64)
    requires
        0 <= k <= s.len(),
    ensures
        s.insert(k, x).to_set() == s.to_set().insert(x),
{
    let after = s.insert(k, x);
    assert forall|e: u64| after.contains(e) implies s.contains(e) || e == x by {
        let j = choose|j: int| 0 <= j < after.len() && after[j] == e;
        if j < k {
            assert(s[j] == e);
        } else if j > k {
            assert(s[j - 1] == e);
        }
    }
    assert forall|e: u64| s.contains(e) implies after.contains(e) by {
        let j = choose|j: int| 0 <= j < s.len() && s[j] == e;
        if j < k {
            assert(after[j] == e);
        } else {
            assert(after[j + 1] == e);
        }
    }
    assert(after[k] == x);
    assert(after.to_set() =~= s.to_set().insert(x));
}

/// A repeated id in a prefix is the first repeated id of the whole sequence.
proof fn lemma_first_duplicate_prefix(peers: Seq<RustRaftPeer>, n: int)
    requires
        0 <= n <= peers.len(),
        first_duplicate(peers.take(n)) is Some,
    ensures
        first_duplicate(peers) == first_duplicate(peers.take(n)),
    decreases peers.len() - n,
{
    if n < peers.len() {
        assert(peers.take(n + 1).drop_last() =~= peers.take(n));
        lemma_first_duplicate_prefix(peers, n + 1);
    } else {
        assert(peers.take(n) =~= peers);
    }
}

/// The ids of the replicas with the given role, in increasing order.
pub open spec fn ids_with_role(nodes: Seq<NodeModel>, role: RustRaftReplicaRole) -> Seq<u64>
    decreases nodes.len(),
{
    if nodes.len() == 0 {
        seq![]
    } else {
        ids_with_role(nodes.drop_last(), role) + if nodes.last().replica_role == role {
            seq![nodes.last().id]
        } else {
            seq![]
        }
    }
}

/// What replica `viewer` reports of the other replicas, in increasing order of id.
pub open spec fn peer_statuses(nodes: Seq<NodeModel>, viewer: u64, viewer_match: u64) -> Seq<RustRaftPeerStatus>
    decreases nodes.len(),
{
    if nodes.len() == 0 {
        seq![]
    } else {
        let n = nodes.last();
        peer_statuses(nodes.drop_last(), viewer, viewer_match) + if n.id != viewer {
            seq![RustRaftPeerStatus {
                node_id: n.id,
                matched: n.match_index(),
                next_index: (n.match_index() + 1) as u64,
                learner: n.replica_role == RustRaftReplicaRole::Learner,
                healthy: n.healthy,
                lag: sat_sub(viewer_match, n.match_index()),
            }]
        } else {
            seq![]
        }
    }
}

impl ClusterModel {
    /// Replica `id` (meaningful when it is one).
    pub open spec fn node(self, id: u64) -> NodeModel {
        self.nodes[self.pos(id)]
    }

    /// The pipeline of replica `id` (meaningful when it is one).
    pub open spec fn pipeline(self, id: u64) -> PipelineModel {
        self.pipelines[self.pos(id)]
    }

    /// Every replica has a match index below the largest index.
    pub open spec fn matches_below_max(self) -> bool {
        forall|i: int| 0 <= i < self.nodes.len() ==> (#[trigger] self.nodes[i]).match_index() < u64::MAX
    }

    /// Every replica other than `id` has a match index below the largest index.
    pub open spec fn peer_matches_below_max(self, id: u64) -> bool {
        forall|i: int| 0 <= i < self.nodes.len() && (#[trigger] self.nodes[i]).id != id ==> self.nodes[i].match_index() < u64::MAX
    }

    /// The status replica `id` reports.
    pub open spec fn status_of(self, id: u64) -> StatusModel {
        let n = self.node(id);
        StatusModel {
                group_id: self.group_id,
                node_id: id,
                role: n.raft_role,
                term: n.hard_state.current_term,
                leader_id: self.leader_id,
                commit_index: n.commit_index,
                applied_index: n.applied_index,
                last_log_index: n.match_index(),
                last_snapshot_index: match n.installed_snapshot {
                    Some(s) => s.last_log_id.index,
                    None => 0,
                },
                peers: peer_statuses(self.nodes, id, n.match_index()),
        }
    }

    /// The answer to a read-index request by a replica of the group: unsafe
    /// on an unhealthy replica or one that has not applied the requested
    /// index, else safe at its commit index, served from the lease when the
    /// request allows it, the configuration enables it, the requester leads
    /// and its lease is valid.
    pub open spec fn read_answer(self, request: RustRaftReadIndexRequest) -> (bool, u64, bool, Seq<char>) {
        let n = self.node(request.requester_id);
        if !n.healthy {
            (false, n.commit_index, false, "node_unhealthy"@)
        } else if request.min_commit_index > n.applied_index {
            (false, n.commit_index, false, "applied_index_behind_min_commit"@)
        } else {
            let lease = request.allow_lease_read && self.config.enable_lease_read && self.leader_id == Some(
                request.requester_id,
            ) && self.leader_lease_valid;
            (true, n.commit_index, lease, if lease { "lease_read"@ } else { "read_index"@ })
        }
    }
}

/// Whether some replica of `nodes` has id `id`.
pub open spec fn is_replica(nodes: Seq<NodeModel>, id: u64) -> bool {
    exists|i: int| 0 <= i < nodes.len() && nodes[i].id == id
}

/// Whether some peer of `peers` has id `id`.
pub open spec fn is_peer(peers: Seq<RustRaftPeer>, id: u64) -> bool {
    exists|j: int| 0 <= j < peers.len() && peers[j].node_id == id
}

/// Which replicas may lead: voters; learners and witnesses never.
pub proof fn law_only_voters_lead(role: RustRaftReplicaRole)
    ensures
        role.spec_can_be_leader() <==> role == RustRaftReplicaRole::Voter,
        role.spec_participates_in_quorum() <==> role != RustRaftReplicaRole::Learner,
        role.spec_can_serve_data() <==> role != RustRaftReplicaRole::Witness,
{
}

/// A campaign goes ahead exactly when the cluster runs (or the campaign is
/// forced) and the candidate is a healthy voter of the cluster.
pub proof fn law_campaign_admitted(m: ClusterModel, c: u64, forced: bool)
    ensures
        campaign_refusal(m, c, forced) is None <==> ((m.running || forced) && m.has_node(c) && m.node(c).replica_role
            == RustRaftReplicaRole::Voter && m.node(c).healthy),
{
}

/// Leadership moves to a target exactly when it is a healthy voter of the
/// cluster whose log has reached the commit index.
pub proof fn law_transfer_admitted(m: ClusterModel, target: u64)
    ensures
        transfer_refusal(m, target) is None <==> (m.has_node(target) && m.node(target).replica_role
            == RustRaftReplicaRole::Voter && m.node(target).healthy && m.node(target).match_index() >= m.commit_index),
{
}

/// A proposal goes ahead exactly when the running cluster has a leader that
/// is a healthy replica and the payload fits `max_payload_bytes`; without a
/// leader it is refused as such.
pub proof fn law_propose_admitted(m: ClusterModel, len: nat)
    ensures
        propose_refusal(m, len) is None <==> (m.leader_id is Some && m.running && len <= m.config.max_payload_bytes
            && m.has_node(m.leader_id->0) && m.node(m.leader_id->0).healthy),
        m.leader_id is None ==> propose_refusal(m, len) == Some(ErrorModel::NoLeader),
{
}

/// A replica takes an append exactly when its term is not behind the
/// replica's and, if it names a previous entry, the replica's log reaches
/// that entry's index.
pub proof fn law_append_taken(n: NodeModel, request: RustRaftAppendEntriesRequest)
    ensures
        !append_refused(n, request) <==> (request.term >= n.hard_state.current_term && match request.prev_log_id {
            Some(prev) => prev.index == 0 || n.match_index() >= prev.index,
            None => true,
        }),
{
}

/// A new cluster holds exactly its peers: when the replicas' ids are the
/// peers' ids (as `initial_nodes`, which `RaftCluster::new` ensures, states),
/// every peer is a replica and every replica is a peer.
pub proof fn law_new_cluster_holds_its_peers(peers: Seq<RustRaftPeer>, nodes: Seq<NodeModel>)
    requires
        node_id_seq(nodes).to_set() == peer_ids(peers),
    ensures
        forall|j: int| 0 <= j < peers.len() ==> is_replica(nodes, #[trigger] peers[j].node_id),
        forall|i: int| 0 <= i < nodes.len() ==> is_peer(peers, #[trigger] nodes[i].id),
{
    let pids = peer_id_seq(peers);
    let ids = node_id_seq(nodes);
    assert forall|j: int| 0 <= j < peers.len() implies is_replica(nodes, #[trigger] peers[j].node_id) by {
        assert(pids[j] == peers[j].node_id);
        assert(pids.to_set().contains(pids[j]));
        assert(ids.to_set().contains(peers[j].node_id));
        let i = choose|i: int| 0 <= i < ids.len() && ids[i] == peers[j].node_id;
        assert(nodes[i].id == ids[i]);
    }
    assert forall|i: int| 0 <= i < nodes.len() implies is_peer(peers, #[trigger] nodes[i].id) by {
        assert(ids[i] == nodes[i].id);
        assert(ids.to_set().contains(ids[i]));
        assert(pids.to_set().contains(nodes[i].id));
        let j = choose|j: int| 0 <= j < pids.len() && pids[j] == nodes[i].id;
        assert(peers[j].node_id == pids[j]);
    }
}

proof fn lemma_ids_with_role_contains(nodes: Seq<NodeModel>, role: RustRaftReplicaRole, id: u64)
    ensures
        ids_with_role(nodes, role).contains(id) <==> exists|i: int|
            0 <= i < nodes.len() && (#[trigger] nodes[i]).id == id && nodes[i].replica_role == role,
    decreases nodes.len(),
{
    if nodes.len() > 0 {
        let init = nodes.drop_last();
        lemma_ids_with_role_contains(init, role, id);
        let tail = if nodes.last().replica_role == role { seq![nodes.last().id] } else { Seq::<u64>::empty() };
        assert(ids_with_role(nodes, role) == ids_with_role(init, role) + tail);
        if ids_with_role(nodes, role).contains(id) {
            let k = choose|k: int| 0 <= k < ids_with_role(nodes, role).len() && ids_with_role(nodes, role)[k] == id;
            if k < ids_with_role(init, role).len() {
                assert(ids_with_role(init, role)[k] == id);
                assert(ids_with_role(init, role).contains(id));
                let i = choose|i: int| 0 <= i < init.len() && (#[trigger] init[i]).id == id && init[i].replica_role == role;
                assert(nodes[i] == init[i]);
            } else {
                assert(nodes[nodes.len() - 1].id == id);
            }
        }
        if exists|i: int| 0 <= i < nodes.len() && (#[trigger] nodes[i]).id == id && nodes[i].replica_role == role {
            let i = choose|i: int| 0 <= i < nodes.len() && (#[trigger] nodes[i]).id == id && nodes[i].replica_role == role;
            if i < nodes.len() - 1 {
                assert(init[i] == nodes[i]);
                assert(ids_with_role(init, role).contains(id));
                let k = choose|k: int| 0 <= k < ids_with_role(init, role).len() && ids_with_role(init, role)[k] == id;
                assert(ids_with_role(nodes, role)[k] == id);
            } else {
                assert(ids_with_role(nodes, role)[ids_with_role(init, role).len() as int] == id);
            }
        }
    }
}

/// The membership of a new cluster sorts its peers by role: when the
/// replicas are the peers with their roles and no peer id repeats (as
/// `RaftCluster::new` ensures), each peer's id is listed under its own role,
/// and an id is listed under a role only for a peer with that id and role.
pub proof fn law_new_cluster_membership_by_role(peers: Seq<RustRaftPeer>, nodes: Seq<NodeModel>)
    requires
        node_id_seq(nodes).to_set() == peer_ids(peers),
        forall|i: int| 0 <= i < nodes.len() ==> (#[trigger] nodes[i]).replica_role == peer_role(peers, nodes[i].id),
        first_duplicate(peers) is None,
    ensures
        forall|j: int| 0 <= j < peers.len() ==> ids_with_role(nodes, (#[trigger] peers[j]).role).contains(peers[j].node_id),
        forall|role: RustRaftReplicaRole, id: u64| #[trigger] ids_with_role(nodes, role).contains(id) ==> exists|j: int|
            0 <= j < peers.len() && (#[trigger] peers[j]).node_id == id && peers[j].role == role,
{
    assert forall|j: int| 0 <= j < peers.len() implies ids_with_role(nodes, (#[trigger] peers[j]).role).contains(
        peers[j].node_id,
    ) by {
        law_new_cluster_holds_its_peers(peers, nodes);
        assert(is_replica(nodes, peers[j].node_id));
        let i = choose|i: int| 0 <= i < nodes.len() && nodes[i].id == peers[j].node_id;
        let w = choose|w: int| 0 <= w < peers.len() && peers[w].node_id == nodes[i].id;
        assert(peers[w].node_id == nodes[i].id);
        if w != j {
            lemma_no_duplicate_distinct(peers, w, j);
        }
        assert(nodes[i].replica_role == peers[j].role);
        lemma_ids_with_role_contains(nodes, peers[j].role, peers[j].node_id);
    }
    assert forall|role: RustRaftReplicaRole, id: u64| #[trigger] ids_with_role(nodes, role).contains(id) implies exists|j: int|
        0 <= j < peers.len() && (#[trigger] peers[j]).node_id == id && peers[j].role == role by {
        lemma_ids_with_role_contains(nodes, role, id);
        let i = choose|i: int| 0 <= i < nodes.len() && (#[trigger] nodes[i]).id == id && nodes[i].replica_role == role;
        law_new_cluster_holds_its_peers(peers, nodes);
        assert(is_peer(peers, nodes[i].id));
        let w = choose|w: int| 0 <= w < peers.len() && peers[w].node_id == nodes[i].id;
        let c = choose|c: int| 0 <= c < peers.len() && peers[c].node_id == id;
        assert(peers[c].node_id == id);
        if c != w {
            lemma_no_duplicate_distinct(peers, c, w);
        }
        assert(peers[w].role == role);
    }
}

proof fn lemma_pos_unique(m: ClusterModel, i: int)
    requires
        forall|a: int, b: int| 0 <= a < b < m.nodes.len() ==> #[trigger] m.nodes[a].id < #[trigger] m.nodes[b].id,
        0 <= i < m.nodes.len(),
    ensures
        m.has_node(m.nodes[i].id),
        m.pos(m.nodes[i].id) == i,
{
    let id = m.nodes[i].id;
    assert(m.has_node(id));
    let p = m.pos(id);
    if p < i {
        assert(m.nodes[p].id < m.nodes[i].id);
    } else if p > i {
        assert(m.nodes[i].id < m.nodes[p].id);
    }
}

impl RaftCluster {
    /// The position of replica `id`, if it is one.
    fn find(&self, id: RustRaftNodeId) -> (r: Option<usize>)
        requires
            self.wf(),
        ensures
            r is None <==> !self@.has_node(id),
            r matches Some(i) ==> i < self@.nodes.len() && self@.nodes[i as int].id == id && self@.pos(id) == i,
    {
        let mut i: usize = 0;
        while i < self.members.len()
            invariant
                self.wf(),
                i <= self.members@.len(),
                forall|j: int| 0 <= j < i ==> (#[trigger] self@.nodes[j]).id != id,
            decreases self.members@.len() - i,
        {
            proof {
                assert(self@.nodes[i as int] == self.members@[i as int].node.model());
            }
            if self.members[i].node.id == id {
                proof {
                    lemma_pos_unique(self@, i as int);
                }
                return Some(i);
            }
            i = i + 1;
        }
        None
    }

    /// The current leader, if any.
    pub fn leader_id(&self) -> (r: Option<RustRaftNodeId>)
        ensures
            r == self@.leader_id,
    {
        self.leader_id
    }

    /// Marks the leader's lease valid or not.
    pub fn set_leader_lease_valid(&mut self, valid: bool)
        requires
            old(self).wf(),
        ensures
            final(self).wf(),
            final(self)@ == (ClusterModel { leader_lease_valid: valid, ..old(self)@ }),
    {
        self.leader_lease_valid = valid;
    }

    /// Stops the cluster; the leader's lease is no longer valid.
    pub fn stop(&mut self) -> (r: Result<(), RustRaftError>)
        requires
            old(self).wf(),
        ensures
            final(self).wf(),
            r is Ok,
            final(self)@ == (ClusterModel { running: false, leader_lease_valid: false, ..old(self)@ }),
    {
        self.running = false;
        self.leader_lease_valid = false;
        Ok(())
    }

    /// The ids of the replicas, in increasing order.
    pub fn node_ids(&self) -> (r: Vec<RustRaftNodeId>)
        requires
            self.wf(),
        ensures
            r@ == self@.ids(),
    {
        let mut out: Vec<u64> = Vec::new();
        let mut i: usize = 0;
        while i < self.members.len()
            invariant
                i <= self.members@.len(),
                out@ == self@.ids().take(i as int),
            decreases self.members@.len() - i,
        {
            out.push(self.members[i].node.id);
            proof {
                assert(out@ =~= self@.ids().take(i + 1));
            }
            i = i + 1;
        }
        proof {
            assert(self@.ids().take(self.members@.len() as int) =~= self@.ids());
        }
        out
    }

    /// The current membership: voters, learners and witnesses in increasing
    /// order of id, with the current term as epoch.
    pub fn membership(&self) -> (r: RustRaftMembership)
        requires
            self.wf(),
        ensures
            r.group_id == self@.group_id,
            r.voters@ == ids_with_role(self@.nodes, RustRaftReplicaRole::Voter),
            r.learners@ == ids_with_role(self@.nodes, RustRaftReplicaRole::Learner),
            r.witnesses@ == ids_with_role(self@.nodes, RustRaftReplicaRole::Witness),
            r.epoch == self@.current_term,
    {
        let ghost nodes = self@.nodes;
        let mut voters: Vec<u64> = Vec::new();
        let mut learners: Vec<u64> = Vec::new();
        let mut witnesses: Vec<u64> = Vec::new();
        let mut i: usize = 0;
        proof {
            assert(nodes.take(0) =~= Seq::<NodeModel>::empty());
        }
        while i < self.members.len()
            invariant
                nodes == self@.nodes,
                i <= nodes.len(),
                voters@ == ids_with_role(nodes.take(i as int), RustRaftReplicaRole::Voter),
                learners@ == ids_with_role(nodes.take(i as int), RustRaftReplicaRole::Learner),
                witnesses@ == ids_with_role(nodes.take(i as int), RustRaftReplicaRole::Witness),
            decreases nodes.len() - i,
        {
            let n = &self.members[i].node;
            proof {
                assert(nodes.take(i + 1).drop_last() =~= nodes.take(i as int));
                assert(nodes.take(i + 1).last() == n.model());
            }
            match n.replica_role {
                RustRaftReplicaRole::Voter => voters.push(n.id),
                RustRaftReplicaRole::Learner => learners.push(n.id),
                RustRaftReplicaRole::Witness => witnesses.push(n.id),
            }
            proof {
                assert(voters@ =~= ids_with_role(nodes.take(i + 1), RustRaftReplicaRole::Voter));
                assert(learners@ =~= ids_with_role(nodes.take(i + 1), RustRaftReplicaRole::Learner));
                assert(witnesses@ =~= ids_with_role(nodes.take(i + 1), RustRaftReplicaRole::Witness));
            }
            i = i + 1;
        }
        proof {
            assert(nodes.take(nodes.len() as int) =~= nodes);
        }
        RustRaftMembership { group_id: self.group_id, voters, learners, witnesses, epoch: self.current_term }
    }

    /// The status replica `node_id` reports; refused for an unknown replica.
    /// Each other replica is reported with the index after its match index,
    /// so those match indexes are below the largest index.
    pub fn status(&self, node_id: RustRaftNodeId) -> (r: Result<RustRaftStatusSnapshot, RustRaftError>)
        requires
            self.wf(),
            self@.peer_matches_below_max(node_id),
        ensures
            !self@.has_node(node_id) ==> r == Err::<RustRaftStatusSnapshot, RustRaftError>(RustRaftError::NodeNotFound(node_id)),
            self@.has_node(node_id) ==> (r matches Ok(st) && st.model() == self@.status_of(node_id)),
    {
        let i = match self.find(node_id) {
            None => {
                return Err(RustRaftError::NodeNotFound(node_id));
            },
            Some(i) => i,
        };
        let node = &self.members[i].node;
        let ghost m = self@;
        proof {
            assert(m.nodes[i as int] == node.model());
        }
        let own_match = node.match_index();
        let mut peers: Vec<RustRaftPeerStatus> = Vec::new();
        let mut j: usize = 0;
        proof {
            assert(m.nodes.take(0) =~= Seq::<NodeModel>::empty());
        }
        while j < self.members.len()
            invariant
                m == self@,
                self@.peer_matches_below_max(node_id),
                j <= m.nodes.len(),
                peers@ == peer_statuses(m.nodes.take(j as int), node_id, own_match),
            decreases m.nodes.len() - j,
        {
            let p = &self.members[j].node;
            proof {
                assert(m.nodes.take(j + 1).drop_last() =~= m.nodes.take(j as int));
                assert(m.nodes.take(j + 1).last() == p.model());
                assert(m.nodes[j as int] == p.model());
            }
            if p.id != node_id {
                let pm = p.match_index();
                peers.push(
                    RustRaftPeerStatus {
                        node_id: p.id,
                        matched: pm,
                        next_index: pm + 1,
                        learner: p.replica_role == RustRaftReplicaRole::Learner,
                        healthy: p.healthy,
                        lag: own_match.saturating_sub(pm),
                    },
                );
            }
            proof {
                assert(peers@ =~= peer_statuses(m.nodes.take(j + 1), node_id, own_match));
            }
            j = j + 1;
        }
        proof {
            assert(m.nodes.take(m.nodes.len() as int) =~= m.nodes);
        }
        Ok(
            RustRaftStatusSnapshot {
                group_id: self.group_id,
                node_id,
                role: node.raft_role,
                term: node.hard_state.current_term,
                leader_id: self.leader_id,
                commit_index: node.commit_index,
                applied_index: node.applied_index,
                last_log_index: own_match,
                last_snapshot_index: match &node.installed_snapshot {
                    Some(s) => s.last_log_id.index,
                    None => 0,
                },
                peers,
            },
        )
    }

    /// Answers a read-index request; refused for another group or an unknown requester.
    pub fn read_index(&self, request: RustRaftReadIndexRequest) -> (r: Result<RustRaftReadIndexResponse, RustRaftError>)
        requires
            self.wf(),
        ensures
            request.group_id != self@.group_id ==> (r matches Err(RustRaftError::InvalidRequest(m))
                && m@ == "read index group id mismatch"@),
            request.group_id == self@.group_id && !self@.has_node(request.requester_id) ==> r == Err::<
                RustRaftReadIndexResponse,
                RustRaftError,
            >(RustRaftError::NodeNotFound(request.requester_id)),
            request.group_id == self@.group_id && self@.has_node(request.requester_id) ==> (r matches Ok(resp) && {
                let a = self@.read_answer(request);
                &&& resp.safe == a.0
                &&& resp.read_index == a.1
                &&& resp.lease_read == a.2
                &&& resp.reason@ == a.3
            }),
    {
        if request.group_id != self.group_id {
            return Err(invalid_request("read index group id mismatch"));
        }
        let i = match self.find(request.requester_id) {
            None => {
                return Err(RustRaftError::NodeNotFound(request.requester_id));
            },
            Some(i) => i,
        };
        let node = &self.members[i].node;
        proof {
            assert(self@.nodes[i as int] == node.model());
        }
        if !node.healthy {
            return Ok(
                RustRaftReadIndexResponse {
                    safe: false,
                    read_index: node.commit_index,
                    lease_read: false,
                    reason: s("node_unhealthy"),
                },
            );
        }
        if request.min_commit_index > node.applied_index {
            return Ok(
                RustRaftReadIndexResponse {
                    safe: false,
                    read_index: node.commit_index,
                    lease_read: false,
                    reason: s("applied_index_behind_min_commit"),
                },
            );
        }
        let lease_read = request.allow_lease_read && self.config.enable_lease_read && self.leader_id == Some(
            request.requester_id,
        ) && self.leader_lease_valid;
        Ok(
            RustRaftReadIndexResponse {
                safe: true,
                read_index: node.commit_index,
                lease_read,
                reason: if lease_read { s("lease_read") } else { s("read_index") },
            },
        )
    }

    /// Whether replica `node_id` may serve a lease read at `min_commit_index`.
    pub fn lease_read_eligible(&self, node_id: RustRaftNodeId, min_commit_index: RustRaftLogIndex) -> (r: Result<bool, RustRaftError>)
        requires
            self.wf(),
        ensures
            !self@.has_node(node_id) ==> r == Err::<bool, RustRaftError>(RustRaftError::NodeNotFound(node_id)),
            self@.has_node(node_id) ==> r == Ok::<bool, RustRaftError>({
                let a = self@.read_answer(
                    RustRaftReadIndexRequest {
                        group_id: self@.group_id,
                        requester_id: node_id,
                        min_commit_index,
                        allow_lease_read: true,
                    },
                );
                a.0 && a.2
            }),
    {
        let response = self.read_index(
            RustRaftReadIndexRequest { group_id: self.group_id, requester_id: node_id, min_commit_index, allow_lease_read: true },
        );
        match response {
            Err(e) => Err(e),
            Ok(resp) => Ok(resp.safe && resp.lease_read),
        }
    }

    /// How far a learner has caught up with the commit index; refused for an unknown replica.
    pub fn catchup_report(&self, learner_id: RustRaftNodeId) -> (r: Result<RaftLearnerCatchUpReport, RustRaftError>)
        requires
            self.wf(),
        ensures
            !self@.has_node(learner_id) ==> r == Err::<RaftLearnerCatchUpReport, RustRaftError>(RustRaftError::NodeNotFound(learner_id)),
            self@.has_node(learner_id) ==> (r matches Ok(rep) && {
                let mi = self@.node(learner_id).match_index();
                let learner = ids_with_role(self@.nodes, RustRaftReplicaRole::Learner).contains(learner_id);
                &&& rep.learner_id == learner_id
                &&& rep.learner_match_index == mi
                &&& rep.leader_commit_index == self@.commit_index
                &&& rep.lag == sat_sub(self@.commit_index, mi)
                &&& rep.caught_up == (learner && mi >= self@.commit_index)
                &&& rep.promotable == rep.caught_up
            }),
    {
        let i = match self.find(learner_id) {
            None => {
                return Err(RustRaftError::NodeNotFound(learner_id));
            },
            Some(i) => i,
        };
        proof {
            assert(self@.nodes[i as int] == self.members@[i as int].node.model());
        }
        let mi = self.members[i].node.match_index();
        let membership = self.membership();
        Ok(membership.catchup_report(learner_id, mi, self.commit_index))
    }
}

impl ClusterModel {
    /// The cluster with member `i` replaced.
    pub open spec fn with_member(self, i: int, n: NodeModel, p: PipelineModel) -> Self {
        ClusterModel { nodes: self.nodes.update(i, n), pipelines: self.pipelines.update(i, p), ..self }
    }

    /// The replicas after an election won by `c` in `term`: every replica
    /// takes the term and records its vote for `c`; `c` leads, learners stay
    /// learners, the others follow.
    pub open spec fn elected_nodes(self, term: u64, c: u64) -> Seq<NodeModel> {
        self.nodes.map_values(|n: NodeModel| elected(n, term, c))
    }

    /// The acknowledgement the leader's own pipeline receives after a change:
    /// success at the last log index, in the current term.
    pub open spec fn leader_ack(self) -> RustRaftAppendEntriesResponse {
        RustRaftAppendEntriesResponse {
            term: self.current_term,
            success: true,
            match_index: self.last_log_index,
            rejection_hint: None,
        }
    }

    /// `n` is `m` after the leader's pipeline (if there is a leader)
    /// received the leader's acknowledgement; nothing else changes.
    pub open spec fn pipelines_refreshed(m: ClusterModel, n: ClusterModel) -> bool {
        match m.leader_id {
            None => n == m,
            Some(l) => {
                let i = m.pos(l);
                exists|p: PipelineModel, r: Result<(), RustRaftError>|
                    append_response_post(m.pipelines[i], m.leader_ack(), p, r) && n == (ClusterModel {
                        pipelines: m.pipelines.update(i, p),
                        ..m
                    })
            },
        }
    }

    /// `n` is `m` after `c` won an election: the term advances, `c` leads
    /// with a valid lease, the replicas take the term and their vote, and the
    /// leader's pipeline is refreshed.
    pub open spec fn campaigned(m: ClusterModel, c: u64, n: ClusterModel) -> bool {
        let term = (m.current_term + 1) as u64;
        Self::pipelines_refreshed(
            ClusterModel {
                current_term: term,
                leader_id: Some(c),
                leader_lease_valid: true,
                nodes: m.elected_nodes(term, c),
                ..m
            },
            n,
        )
    }
}

/// Replica `n` after `c` won the election of `term`.
pub open spec fn elected(n: NodeModel, term: u64, c: u64) -> NodeModel {
    NodeModel {
        hard_state: RustRaftHardState { current_term: term, voted_for: Some(c), ..n.hard_state },
        raft_role: if n.id == c {
            RustRaftRole::Leader
        } else if n.replica_role == RustRaftReplicaRole::Learner {
            RustRaftRole::Learner
        } else {
            RustRaftRole::Follower
        },
        ..n
    }
}

/// Why `campaign(c, forced)` is refused on `m`, if it is: before start
/// unless forced, an unknown replica, one that cannot lead, an unhealthy one.
pub open spec fn campaign_refusal(m: ClusterModel, c: u64, forced: bool) -> Option<ErrorModel> {
    if !m.running && !forced {
        Some(ErrorModel::InvalidRequest("cannot campaign before cluster start"@))
    } else if !m.has_node(c) {
        Some(ErrorModel::NodeNotFound(c))
    } else if !m.node(c).replica_role.spec_can_be_leader() {
        Some(ErrorModel::InvalidRequest(cannot_lead_message(c)))
    } else if !m.node(c).healthy {
        Some(ErrorModel::InvalidRequest(unhealthy_message(c)))
    } else {
        None
    }
}

/// The error of a replica that cannot lead.
pub open spec fn cannot_lead_message(id: u64) -> Seq<char> {
    "node "@ + decimal_chars(id as nat) + " cannot become leader"@
}

/// The error of an unhealthy replica.
pub open spec fn unhealthy_message(id: u64) -> Seq<char> {
    "node "@ + decimal_chars(id as nat) + " is not healthy"@
}

/// The error of a replica behind the commit index.
pub open spec fn behind_message(id: u64, commit: u64) -> Seq<char> {
    "node "@ + decimal_chars(id as nat) + " is behind committed index "@ + decimal_chars(commit as nat)
}

fn node_error(id: u64, tail: &str) -> (e: RustRaftError)
    ensures
        e matches RustRaftError::InvalidRequest(m) && m@ == "node "@ + decimal_chars(id as nat) + tail@,
{
    RustRaftError::InvalidRequest(String::from_str("node ").concat(u64_to_decimal(id).as_str()).concat(tail))
}

fn behind_error(id: u64, commit: u64) -> (e: RustRaftError)
    ensures
        e matches RustRaftError::InvalidRequest(m) && m@ == behind_message(id, commit),
{
    RustRaftError::InvalidRequest(
        String::from_str("node ").concat(u64_to_decimal(id).as_str()).concat(" is behind committed index ").concat(
            u64_to_decimal(commit).as_str(),
        ),
    )
}

proof fn lemma_member_update(ms: Seq<Member>, i: int, m: Member)
    requires
        0 <= i < ms.len(),
    ensures
        ms.remove(i).insert(i, m) == ms.update(i, m),
        ms.update(i, m).map_values(|x: Member| x.node.model()) == ms.map_values(|x: Member| x.node.model()).update(
            i,
            m.node.model(),
        ),
        ms.update(i, m).map_values(|x: Member| x.pipeline@) == ms.map_values(|x: Member| x.pipeline@).update(i, m.pipeline@),
{
    assert(ms.remove(i).insert(i, m) =~= ms.update(i, m));
    assert(ms.update(i, m).map_values(|x: Member| x.node.model()) =~= ms.map_values(|x: Member| x.node.model()).update(
        i,
        m.node.model(),
    ));
    assert(ms.update(i, m).map_values(|x: Member| x.pipeline@) =~= ms.map_values(|x: Member| x.pipeline@).update(i, m.pipeline@));
}

impl RaftCluster {
    /// Takes member `i` out; `put_member` puts it back.
    fn take_member(&mut self, i: usize) -> (m: Member)
        requires
            i < old(self).members@.len(),
        ensures
            m == old(self).members@[i as int],
            final(self).members@ == old(self).members@.remove(i as int),
            final(self).group_id == old(self).group_id,
            final(self).config == old(self).config,
            final(self).leader_id == old(self).leader_id,
            final(self).current_term == old(self).current_term,
            final(self).commit_index == old(self).commit_index,
            final(self).applied_index == old(self).applied_index,
            final(self).last_log_index == old(self).last_log_index,
            final(self).running == old(self).running,
            final(self).leader_lease_valid == old(self).leader_lease_valid,
    {
        self.members.remove(i)
    }

    /// Puts member `m` back at position `i`.
    fn put_member(&mut self, i: usize, m: Member, Ghost(before): Ghost<RaftCluster>)
        requires
            i < before.members@.len(),
            old(self).members@ == before.members@.remove(i as int),
            old(self).group_id == before.group_id,
            old(self).config == before.config,
            old(self).leader_id == before.leader_id,
            old(self).current_term == before.current_term,
            old(self).commit_index == before.commit_index,
            old(self).applied_index == before.applied_index,
            old(self).last_log_index == before.last_log_index,
            old(self).running == before.running,
            old(self).leader_lease_valid == before.leader_lease_valid,
        ensures
            final(self).members@ == before.members@.update(i as int, m),
            final(self)@ == before@.with_member(i as int, m.node.model(), m.pipeline@),
    {
        self.members.insert(i, m);
        proof {
            lemma_member_update(before.members@, i as int, m);
        }
    }
}

proof fn lemma_with_member_wf(m: ClusterModel, i: int, n: NodeModel, p: PipelineModel)
    requires
        m.wf(),
        0 <= i < m.nodes.len(),
        n.id == m.nodes[i].id,
        p.peer_id == n.id,
        p.wf(),
        p.limits == RustRaftPipelineLimits::spec_production_default(),
    ensures
        m.with_member(i, n, p).wf(),
        forall|id: u64| m.with_member(i, n, p).has_node(id) == m.has_node(id),
        forall|id: u64| m.has_node(id) ==> m.with_member(i, n, p).pos(id) == m.pos(id),
{
    let w = m.with_member(i, n, p);
    assert forall|a: int, b: int| 0 <= a < b < w.nodes.len() implies #[trigger] w.nodes[a].id < #[trigger] w.nodes[b].id by {
        assert(w.nodes[a].id == m.nodes[a].id);
        assert(w.nodes[b].id == m.nodes[b].id);
    }
    assert forall|id: u64| w.has_node(id) == m.has_node(id) by {
        if w.has_node(id) {
            let k = choose|k: int| 0 <= k < w.nodes.len() && w.nodes[k].id == id;
            assert(m.nodes[k].id == id);
        }
        if m.has_node(id) {
            let k = choose|k: int| 0 <= k < m.nodes.len() && m.nodes[k].id == id;
            assert(w.nodes[k].id == id);
        }
    }
    assert forall|id: u64| m.has_node(id) implies w.pos(id) == m.pos(id) by {
        let k = m.pos(id);
        lemma_pos_unique(m, k);
        lemma_pos_unique(w, k);
    }
}

impl RaftCluster {
    /// Member `i`'s pipeline keeps its invariant after `put_member`.
    proof fn lemma_exec_wf_after_put(&self, before: RaftCluster, i: int, m: Member)
        requires
            before.wf(),
            0 <= i < before.members@.len(),
            self.members@ == before.members@.update(i, m),
            self@ == before@.with_member(i, m.node.model(), m.pipeline@),
            m.node.id == before@.nodes[i].id,
            m.pipeline@.peer_id == m.node.id,
            m.pipeline.wf(),
            m.pipeline@.limits == RustRaftPipelineLimits::spec_production_default(),
        ensures
            self.wf(),
            forall|id: u64| self@.has_node(id) == before@.has_node(id),
            forall|id: u64| before@.has_node(id) ==> self@.pos(id) == before@.pos(id),
    {
        lemma_with_member_wf(before@, i, m.node.model(), m.pipeline@);
        assert forall|a: int| 0 <= a < self.members@.len() implies (#[trigger] self.members@[a]).pipeline.wf() by {
            if a != i {
                assert(self.members@[a] == before.members@[a]);
            }
        }
    }

    /// The leader's own pipeline receives the leader's acknowledgement.
    fn refresh_replication_pipelines(&mut self)
        requires
            old(self).wf(),
            old(self)@.leader_id matches Some(l) ==> append_response_pre(old(self)@.pipeline(l), old(self)@.leader_ack()),
        ensures
            final(self).wf(),
            ClusterModel::pipelines_refreshed(old(self)@, final(self)@),
    {
        match self.leader_id {
            None => {},
            Some(l) => {
                match self.find(l) {
                    None => {},
                    Some(i) => {
                        let ghost before = *self;
                        let response = RustRaftAppendEntriesResponse {
                            term: self.current_term,
                            success: true,
                            match_index: self.last_log_index,
                            rejection_hint: None,
                        };
                        let mut m = self.take_member(i);
                        proof {
                            assert(before@.pipelines[i as int] == m.pipeline@);
                            assert(before.members@[i as int].pipeline.wf());
                        }
                        let ghost p0 = m.pipeline@;
                        let r = m.pipeline.handle_append_response(&response);
                        self.put_member(i, m, Ghost(before));
                        proof {
                            self.lemma_exec_wf_after_put(before, i as int, m);
                            assert(before@.nodes[i as int] == m.node.model());
                            assert(self@.nodes =~= before@.nodes);
                            assert(append_response_post(before@.pipelines[i as int], before@.leader_ack(), m.pipeline@, r));
                        }
                    },
                }
            },
        }
    }

    /// Marks replica `node_id` healthy or not; an unhealthy leader loses its lease.
    pub fn set_node_healthy(&mut self, node_id: RustRaftNodeId, healthy: bool) -> (r: Result<(), RustRaftError>)
        requires
            old(self).wf(),
        ensures
            final(self).wf(),
            !old(self)@.has_node(node_id) ==> r == Err::<(), RustRaftError>(RustRaftError::NodeNotFound(node_id))
                && final(self)@ == old(self)@,
            old(self)@.has_node(node_id) ==> r is Ok && final(self)@ == (ClusterModel {
                nodes: old(self)@.nodes.update(old(self)@.pos(node_id), NodeModel { healthy, ..old(self)@.node(node_id) }),
                leader_lease_valid: if old(self)@.leader_id == Some(node_id) && !healthy {
                    false
                } else {
                    old(self)@.leader_lease_valid
                },
                ..old(self)@
            }),
    {
        let i = match self.find(node_id) {
            None => {
                return Err(RustRaftError::NodeNotFound(node_id));
            },
            Some(i) => i,
        };
        let ghost before = *self;
        let mut m = self.take_member(i);
        proof {
            assert(before@.nodes[i as int] == m.node.model());
            assert(before@.pipelines[i as int] == m.pipeline@);
            assert(before.members@[i as int].pipeline.wf());
        }
        m.node.healthy = healthy;
        self.put_member(i, m, Ghost(before));
        proof {
            self.lemma_exec_wf_after_put(before, i as int, m);
            assert(self@.pipelines =~= before@.pipelines);
        }
        if self.leader_id == Some(node_id) && !healthy {
            self.leader_lease_valid = false;
        }
        Ok(())
    }
}

/// Replacing the replicas by ones with the same ids keeps the invariant,
/// the membership and the positions.
proof fn lemma_same_ids(m: ClusterModel, nodes: Seq<NodeModel>)
    requires
        m.wf(),
        nodes.len() == m.nodes.len(),
        forall|i: int| 0 <= i < nodes.len() ==> (#[trigger] nodes[i]).id == m.nodes[i].id,
    ensures
        (ClusterModel { nodes, ..m }).wf(),
        forall|id: u64| (ClusterModel { nodes, ..m }).has_node(id) == m.has_node(id),
        forall|id: u64| m.has_node(id) ==> (ClusterModel { nodes, ..m }).pos(id) == m.pos(id),
{
    let w = ClusterModel { nodes, ..m };
    assert forall|a: int, b: int| 0 <= a < b < w.nodes.len() implies #[trigger] w.nodes[a].id < #[trigger] w.nodes[b].id by {
        assert(w.nodes[a].id == m.nodes[a].id);
        assert(w.nodes[b].id == m.nodes[b].id);
    }
    assert forall|id: u64| w.has_node(id) == m.has_node(id) by {
        if w.has_node(id) {
            let k = choose|k: int| 0 <= k < w.nodes.len() && w.nodes[k].id == id;
            assert(m.nodes[k].id == id);
        }
        if m.has_node(id) {
            let k = choose|k: int| 0 <= k < m.nodes.len() && m.nodes[k].id == id;
            assert(w.nodes[k].id == id);
        }
    }
    assert forall|id: u64| m.has_node(id) implies w.pos(id) == m.pos(id) by {
        let k = m.pos(id);
        lemma_pos_unique(m, k);
        lemma_pos_unique(w, k);
    }
}

impl RaftCluster {
    /// Every replica takes `term` and its vote for `c`; `c` leads.
    fn elect_all(&mut self, term: u64, c: RustRaftNodeId)
        requires
            old(self).wf(),
        ensures
            final(self).wf(),
            final(self)@ == (ClusterModel { nodes: old(self)@.elected_nodes(term, c), ..old(self)@ }),
            forall|id: u64| final(self)@.has_node(id) == old(self)@.has_node(id),
            forall|id: u64| old(self)@.has_node(id) ==> final(self)@.pos(id) == old(self)@.pos(id),
    {
        let ghost start = *self;
        let n = self.members.len();
        let mut i: usize = 0;
        while i < n
            invariant
                start.wf(),
                n == start.members@.len(),
                i <= n,
                self.members@.len() == n,
                self.group_id == start.group_id,
                self.config == start.config,
                self.leader_id == start.leader_id,
                self.current_term == start.current_term,
                self.commit_index == start.commit_index,
                self.applied_index == start.applied_index,
                self.last_log_index == start.last_log_index,
                self.running == start.running,
                self.leader_lease_valid == start.leader_lease_valid,
                forall|j: int| 0 <= j < i ==> (#[trigger] self.members@[j]).node.model() == elected(
                    start.members@[j].node.model(),
                    term,
                    c,
                ) && self.members@[j].pipeline == start.members@[j].pipeline,
                forall|j: int| i <= j < n ==> #[trigger] self.members@[j] == start.members@[j],
            decreases n - i,
        {
            let ghost before = *self;
            let mut m = self.take_member(i);
            m.node.hard_state.current_term = term;
            m.node.hard_state.voted_for = Some(c);
            m.node.raft_role = if m.node.id == c {
                RustRaftRole::Leader
            } else if m.node.replica_role == RustRaftReplicaRole::Learner {
                RustRaftRole::Learner
            } else {
                RustRaftRole::Follower
            };
            self.put_member(i, m, Ghost(before));
            i = i + 1;
        }
        proof {
            let target = ClusterModel { nodes: start@.elected_nodes(term, c), ..start@ };
            assert(self@.nodes =~= target.nodes) by {
                assert forall|j: int| 0 <= j < n implies self@.nodes[j] == target.nodes[j] by {
                    assert(start@.nodes[j] == start.members@[j].node.model());
                }
            }
            assert(self@.pipelines =~= start@.pipelines) by {
                assert forall|j: int| 0 <= j < n implies self@.pipelines[j] == start@.pipelines[j] by {
                    assert(self.members@[j].pipeline == start.members@[j].pipeline);
                }
            }
            lemma_same_ids(start@, target.nodes);
            assert forall|j: int| 0 <= j < n implies (#[trigger] self.members@[j]).pipeline.wf() by {
                assert(start.members@[j].pipeline.wf());
            }
        }
    }

    /// Replica `candidate_id` wins an election: the term advances, it leads
    /// with a valid lease, every replica takes the term and its vote, and its
    /// own pipeline is refreshed. Refused before start unless `forced`, for an
    /// unknown replica, one that cannot lead, or an unhealthy one.
    pub fn campaign(&mut self, candidate_id: RustRaftNodeId, forced: bool) -> (r: Result<(), RustRaftError>)
        requires
            old(self).wf(),
            old(self)@.current_term < u64::MAX,
            old(self)@.last_log_index < u64::MAX,
            old(self)@.has_node(candidate_id) ==> old(self)@.pipeline(candidate_id).status.append_accepted < u64::MAX,
        ensures
            final(self).wf(),
            match campaign_refusal(old(self)@, candidate_id, forced) {
                Some(e) => fails_with(r, e) && final(self)@ == old(self)@,
                None => r is Ok && ClusterModel::campaigned(old(self)@, candidate_id, final(self)@),
            },
    {
        if !self.running && !forced {
            return Err(invalid_request("cannot campaign before cluster start"));
        }
        let i = match self.find(candidate_id) {
            None => {
                return Err(RustRaftError::NodeNotFound(candidate_id));
            },
            Some(i) => i,
        };
        proof {
            assert(self@.nodes[i as int] == self.members@[i as int].node.model());
        }
        if !self.members[i].node.replica_role.can_be_leader() {
            return Err(node_error(candidate_id, " cannot become leader"));
        }
        if !self.members[i].node.healthy {
            return Err(node_error(candidate_id, " is not healthy"));
        }
        let ghost old_view = self@;
        let term = self.current_term + 1;
        self.current_term = term;
        self.leader_id = Some(candidate_id);
        self.leader_lease_valid = true;
        self.elect_all(term, candidate_id);
        proof {
            assert(self@.pipeline(candidate_id) == old_view.pipeline(candidate_id));
        }
        self.refresh_replication_pipelines();
        Ok(())
    }
}

/// A replica that can lead and is healthy.
pub open spec fn eligible(n: NodeModel) -> bool {
    n.replica_role.spec_can_be_leader() && n.healthy
}

/// The position of the first replica that can lead and is healthy.
pub open spec fn first_eligible(nodes: Seq<NodeModel>) -> Option<int>
    decreases nodes.len(),
{
    if nodes.len() == 0 {
        None
    } else if eligible(nodes[0]) {
        Some(0)
    } else {
        match first_eligible(nodes.drop_first()) {
            Some(k) => Some(k + 1),
            None => None,
        }
    }
}

proof fn lemma_first_eligible(nodes: Seq<NodeModel>)
    ensures
        match first_eligible(nodes) {
            Some(k) => 0 <= k < nodes.len() && eligible(nodes[k])
                && forall|j: int| 0 <= j < k ==> !eligible(#[trigger] nodes[j]),
            None => forall|j: int| 0 <= j < nodes.len() ==> !eligible(#[trigger] nodes[j]),
        },
    decreases nodes.len(),
{
    if nodes.len() > 0 {
        lemma_first_eligible(nodes.drop_first());
        assert forall|j: int| 1 <= j < nodes.len() implies nodes[j] == nodes.drop_first()[j - 1] by {}
    }
}

/// Why `transfer_leader(target)` is refused on `m`, if it is.
pub open spec fn transfer_refusal(m: ClusterModel, target: u64) -> Option<ErrorModel> {
    if !m.has_node(target) {
        Some(ErrorModel::NodeNotFound(target))
    } else if !m.node(target).replica_role.spec_can_be_leader() {
        Some(ErrorModel::InvalidRequest(cannot_lead_message(target)))
    } else if !m.node(target).healthy {
        Some(ErrorModel::InvalidRequest(unhealthy_message(target)))
    } else if m.node(target).match_index() < m.commit_index {
        Some(ErrorModel::InvalidRequest(behind_message(target, m.commit_index)))
    } else {
        None
    }
}

impl ClusterModel {
    /// The cluster with replica `n` and pipeline `p` inserted at position `k`.
    pub open spec fn inserted(self, k: int, n: NodeModel, p: PipelineModel) -> Self {
        ClusterModel { nodes: self.nodes.insert(k, n), pipelines: self.pipelines.insert(k, p), ..self }
    }

    /// The cluster with the replica at position `k` and its pipeline removed.
    pub open spec fn removed(self, k: int) -> Self {
        ClusterModel { nodes: self.nodes.remove(k), pipelines: self.pipelines.remove(k), ..self }
    }

    /// Each replica's pipeline has room for one more acknowledgement.
    pub open spec fn acks_have_room(self) -> bool {
        forall|i: int| 0 <= i < self.pipelines.len() ==> (#[trigger] self.pipelines[i]).status.append_accepted < u64::MAX
    }
}

/// Inserting a replica with a new id, at the place that keeps ids
/// increasing, with a sound pipeline of its own, keeps the invariant and
/// every other replica and pipeline.
proof fn lemma_inserted(m: ClusterModel, k: int, n: NodeModel, p: PipelineModel)
    requires
        m.wf(),
        0 <= k <= m.nodes.len(),
        !m.has_node(n.id),
        increasing_ids(node_id_seq(m.nodes.insert(k, n))),
        p.peer_id == n.id,
        p.wf(),
        p.limits == RustRaftPipelineLimits::spec_production_default(),
    ensures
        m.inserted(k, n, p).wf(),
        forall|id: u64| #[trigger] m.inserted(k, n, p).has_node(id) == (m.has_node(id) || id == n.id),
        forall|id: u64| m.has_node(id) ==> m.inserted(k, n, p).node(id) == m.node(id) && m.inserted(k, n, p).pipeline(id) == m.pipeline(id),
        m.inserted(k, n, p).pos(n.id) == k,
{
    let w = m.inserted(k, n, p);
    assert forall|a: int, b: int| 0 <= a < b < w.nodes.len() implies #[trigger] w.nodes[a].id < #[trigger] w.nodes[b].id by {
        assert(node_id_seq(w.nodes)[a] == w.nodes[a].id);
        assert(node_id_seq(w.nodes)[b] == w.nodes[b].id);
    }
    assert forall|id: u64| #[trigger] w.has_node(id) == (m.has_node(id) || id == n.id) by {
        if w.has_node(id) {
            let j = choose|j: int| 0 <= j < w.nodes.len() && w.nodes[j].id == id;
            if j < k {
                assert(m.nodes[j].id == id);
            } else if j > k {
                assert(m.nodes[j - 1].id == id);
            }
        }
        if m.has_node(id) {
            let j = choose|j: int| 0 <= j < m.nodes.len() && m.nodes[j].id == id;
            if j < k {
                assert(w.nodes[j].id == id);
            } else {
                assert(w.nodes[j + 1].id == id);
            }
        }
        if id == n.id {
            assert(w.nodes[k].id == id);
        }
    }
    assert forall|id: u64| m.has_node(id) implies w.node(id) == m.node(id) && w.pipeline(id) == m.pipeline(id) by {
        let j = m.pos(id);
        lemma_pos_unique(m, j);
        if j < k {
            assert(w.nodes[j] == m.nodes[j]);
            lemma_pos_unique(w, j);
        } else {
            assert(w.nodes[j + 1] == m.nodes[j]);
            lemma_pos_unique(w, j + 1);
        }
    }
    assert(w.nodes[k] == n);
    lemma_pos_unique(w, k);
    assert(w.leader_id matches Some(l) ==> w.has_node(l));
}

/// Removing the replica at position `k` with its pipeline keeps the invariant
/// (once a removed leader is dropped) and every other replica and pipeline.
proof fn lemma_removed(m: ClusterModel, k: int)
    requires
        m.wf(),
        0 <= k < m.nodes.len(),
    ensures
        forall|id: u64| #[trigger] m.removed(k).has_node(id) == (m.has_node(id) && id != m.nodes[k].id),
        forall|id: u64| m.has_node(id) && id != m.nodes[k].id ==> m.removed(k).node(id) == m.node(id) && m.removed(k).pipeline(id) == m.pipeline(id),
        m.leader_id != Some(m.nodes[k].id) ==> m.removed(k).wf(),
        (ClusterModel { leader_id: None, leader_lease_valid: false, ..m.removed(k) }).wf(),
{
    let w = m.removed(k);
    let gone = m.nodes[k].id;
    assert forall|a: int, b: int| 0 <= a < b < w.nodes.len() implies #[trigger] w.nodes[a].id < #[trigger] w.nodes[b].id by {
        if b < k {
        } else if a < k {
            assert(w.nodes[b] == m.nodes[b + 1]);
        } else {
            assert(w.nodes[a] == m.nodes[a + 1]);
            assert(w.nodes[b] == m.nodes[b + 1]);
        }
    }
    assert forall|id: u64| #[trigger] w.has_node(id) == (m.has_node(id) && id != gone) by {
        if w.has_node(id) {
            let j = choose|j: int| 0 <= j < w.nodes.len() && w.nodes[j].id == id;
            if j < k {
                assert(m.nodes[j].id == id);
                assert(m.nodes[j].id < m.nodes[k].id);
            } else {
                assert(m.nodes[j + 1].id == id);
                assert(m.nodes[k].id < m.nodes[j + 1].id);
            }
        }
        if m.has_node(id) && id != gone {
            let j = choose|j: int| 0 <= j < m.nodes.len() && m.nodes[j].id == id;
            if j < k {
                assert(w.nodes[j].id == id);
            } else {
                assert(j != k);
                assert(w.nodes[j - 1].id == id);
            }
        }
    }
    assert forall|id: u64| m.has_node(id) && id != gone implies w.node(id) == m.node(id) && w.pipeline(id) == m.pipeline(id) by {
        let j = m.pos(id);
        lemma_pos_unique(m, j);
        if j < k {
            assert(w.nodes[j] == m.nodes[j]);
            lemma_pos_unique(w, j);
        } else {
            assert(j != k);
            assert(w.nodes[j - 1] == m.nodes[j]);
            lemma_pos_unique(w, j - 1);
        }
    }
}

impl RaftCluster {
    /// Starts the cluster. Without a leader, the first replica (in order of
    /// id) that can lead and is healthy wins a forced election; when there is
    /// none the call fails, the cluster still marked running.
    pub fn start(&mut self) -> (r: Result<(), RustRaftError>)
        requires
            old(self).wf(),
            old(self)@.current_term < u64::MAX,
            old(self)@.last_log_index < u64::MAX,
            old(self)@.acks_have_room(),
        ensures
            final(self).wf(),
            ({
                let running = ClusterModel { running: true, ..old(self)@ };
                if old(self)@.leader_id is Some {
                    r is Ok && final(self)@ == running
                } else {
                    match first_eligible(old(self)@.nodes) {
                        None => fails_with(r, ErrorModel::InvalidRequest("no healthy voter"@)) && final(self)@ == running,
                        Some(k) => r is Ok && ClusterModel::campaigned(running, old(self)@.nodes[k].id, final(self)@),
                    }
                }
            }),
    {
        self.running = true;
        if self.leader_id.is_some() {
            return Ok(());
        }
        let ghost nodes = self@.nodes;
        let ghost running = self@;
        let n = self.members.len();
        let mut i: usize = 0;
        while i < n
            invariant
                self.wf(),
                self@ == running,
                running == (ClusterModel { running: true, ..old(self)@ }),
                running.leader_id is None,
                running.running,
                running.current_term < u64::MAX,
                running.last_log_index < u64::MAX,
                running.acks_have_room(),
                n == self@.nodes.len(),
                nodes == self@.nodes,
                i <= n,
                forall|j: int| 0 <= j < i ==> !eligible(#[trigger] nodes[j]),
            decreases n - i,
        {
            proof {
                assert(nodes[i as int] == self.members@[i as int].node.model());
            }
            if self.members[i].node.replica_role.can_be_leader() && self.members[i].node.healthy {
                let id = self.members[i].node.id;
                proof {
                    lemma_first_eligible(nodes);
                    assert(eligible(nodes[i as int]));
                    assert(first_eligible(nodes) == Some(i as int));
                    lemma_pos_unique(self@, i as int);
                }
                return self.campaign(id, true);
            }
            i = i + 1;
        }
        proof {
            lemma_first_eligible(nodes);
            assert(first_eligible(nodes) is None);
        }
        Err(invalid_request("no healthy voter"))
    }

    /// Hands leadership to `target` through a forced election; refused for
    /// an unknown replica, one that cannot lead, an unhealthy one, or one
    /// behind the committed index.
    pub fn transfer_leader(&mut self, target: RustRaftNodeId) -> (r: Result<(), RustRaftError>)
        requires
            old(self).wf(),
            old(self)@.current_term < u64::MAX,
            old(self)@.last_log_index < u64::MAX,
            old(self)@.has_node(target) ==> old(self)@.pipeline(target).status.append_accepted < u64::MAX,
        ensures
            final(self).wf(),
            match transfer_refusal(old(self)@, target) {
                Some(e) => fails_with(r, e) && final(self)@ == old(self)@,
                None => r is Ok && ClusterModel::campaigned(old(self)@, target, final(self)@),
            },
    {
        let i = match self.find(target) {
            None => {
                return Err(RustRaftError::NodeNotFound(target));
            },
            Some(i) => i,
        };
        proof {
            assert(self@.nodes[i as int] == self.members@[i as int].node.model());
        }
        if !self.members[i].node.replica_role.can_be_leader() {
            return Err(node_error(target, " cannot become leader"));
        }
        if !self.members[i].node.healthy {
            return Err(node_error(target, " is not healthy"));
        }
        if self.members[i].node.match_index() < self.commit_index {
            return Err(behind_error(target, self.commit_index));
        }
        self.campaign(target, true)
    }

    /// Makes replica `node_id` a voting follower; refused for an unknown
    /// replica or one behind the committed index.
    pub fn promote_peer(&mut self, node_id: RustRaftNodeId) -> (r: Result<(), RustRaftError>)
        requires
            old(self).wf(),
        ensures
            final(self).wf(),
            !old(self)@.has_node(node_id) ==> fails_with(r, ErrorModel::NodeNotFound(node_id)) && final(self)@ == old(self)@,
            old(self)@.has_node(node_id) && old(self)@.node(node_id).match_index() < old(self)@.commit_index ==> fails_with(
                r,
                ErrorModel::InvalidRequest(behind_message(node_id, old(self)@.commit_index)),
            ) && final(self)@ == old(self)@,
            old(self)@.has_node(node_id) && old(self)@.node(node_id).match_index() >= old(self)@.commit_index ==> r is Ok
                && final(self)@ == (ClusterModel {
                nodes: old(self)@.nodes.update(
                    old(self)@.pos(node_id),
                    NodeModel {
                        replica_role: RustRaftReplicaRole::Voter,
                        raft_role: RustRaftRole::Follower,
                        ..old(self)@.node(node_id)
                    },
                ),
                ..old(self)@
            }),
    {
        let i = match self.find(node_id) {
            None => {
                return Err(RustRaftError::NodeNotFound(node_id));
            },
            Some(i) => i,
        };
        let ghost before = *self;
        proof {
            assert(self@.nodes[i as int] == self.members@[i as int].node.model());
        }
        if self.members[i].node.match_index() < self.commit_index {
            return Err(behind_error(node_id, self.commit_index));
        }
        let mut m = self.take_member(i);
        proof {
            assert(before@.pipelines[i as int] == m.pipeline@);
            assert(before.members@[i as int].pipeline.wf());
        }
        m.node.replica_role = RustRaftReplicaRole::Voter;
        m.node.raft_role = RustRaftRole::Follower;
        self.put_member(i, m, Ghost(before));
        proof {
            self.lemma_exec_wf_after_put(before, i as int, m);
            assert(self@.pipelines =~= before@.pipelines);
        }
        Ok(())
    }

    /// Adds replica `peer` with the role it names, a fresh pipeline expecting
    /// the entry after the last log index, and refreshes the leader's
    /// pipeline; refused when the id is taken.
    pub fn add_peer(&mut self, peer: RustRaftPeer) -> (r: Result<(), RustRaftError>)
        requires
            old(self).wf(),
            old(self)@.last_log_index < u64::MAX,
            old(self)@.leader_id matches Some(l) ==> old(self)@.pipeline(l).status.append_accepted < u64::MAX,
        ensures
            final(self).wf(),
            old(self)@.has_node(peer.node_id) ==> fails_with(
                r,
                ErrorModel::InvalidRequest(duplicate_message(peer.node_id)),
            ) && final(self)@ == old(self)@,
            !old(self)@.has_node(peer.node_id) ==> r is Ok && exists|k: int|
                0 <= k <= old(self)@.nodes.len() && ClusterModel::pipelines_refreshed(
                    #[trigger] old(self)@.inserted(
                        k,
                        NodeModel::fresh(peer.node_id, peer.role),
                        PipelineModel::fresh(
                            peer.node_id,
                            (old(self)@.last_log_index + 1) as u64,
                            RustRaftPipelineLimits::spec_production_default(),
                        ),
                    ),
                    final(self)@,
                ),
    {
        let id = peer.node_id;
        let candidate = Member {
            node: RaftNode::new(id, peer.role),
            pipeline: RaftReplicationPipeline::new(id, self.last_log_index + 1, RustRaftPipelineLimits::production_default()),
        };
        let ghost before = *self;
        proof {
            assert(member_ids(self.members@) =~= node_id_seq(self@.nodes));
            assert forall|q: u64| #[trigger] member_ids(self.members@).contains(q) == self@.has_node(q) by {
                if member_ids(self.members@).contains(q) {
                    let j = choose|j: int| 0 <= j < member_ids(self.members@).len() && member_ids(self.members@)[j] == q;
                    assert(self@.nodes[j].id == q);
                }
                if self@.has_node(q) {
                    let j = choose|j: int| 0 <= j < self@.nodes.len() && self@.nodes[j].id == q;
                    assert(member_ids(self.members@)[j] == q);
                }
            }
        }
        match insert_member(&mut self.members, candidate) {
            Err(_) => {
                return Err(duplicate_error(id));
            },
            Ok(()) => {},
        }
        let ghost k = choose|k: int| 0 <= k <= before.members@.len() && self.members@ == before.members@.insert(k, candidate);
        proof {
            let w = before@.inserted(k, candidate.node.model(), candidate.pipeline@);
            assert(self@.nodes =~= w.nodes);
            assert(self@.pipelines =~= w.pipelines);
            assert(node_id_seq(w.nodes) =~= member_ids(self.members@));
            lemma_inserted(before@, k, candidate.node.model(), candidate.pipeline@);
            assert forall|j: int| 0 <= j < self.members@.len() implies (#[trigger] self.members@[j]).pipeline.wf() by {
                if j < k {
                    assert(self.members@[j] == before.members@[j]);
                } else if j > k {
                    assert(self.members@[j] == before.members@[j - 1]);
                }
            }
        }
        self.refresh_replication_pipelines();
        Ok(())
    }

    /// Adds `peer` as a learner.
    pub fn add_learner(&mut self, peer: RustRaftPeer) -> (r: Result<(), RustRaftError>)
        requires
            old(self).wf(),
            old(self)@.last_log_index < u64::MAX,
            old(self)@.leader_id matches Some(l) ==> old(self)@.pipeline(l).status.append_accepted < u64::MAX,
        ensures
            final(self).wf(),
            old(self)@.has_node(peer.node_id) ==> fails_with(
                r,
                ErrorModel::InvalidRequest(duplicate_message(peer.node_id)),
            ) && final(self)@ == old(self)@,
            !old(self)@.has_node(peer.node_id) ==> r is Ok && exists|k: int|
                0 <= k <= old(self)@.nodes.len() && ClusterModel::pipelines_refreshed(
                    #[trigger] old(self)@.inserted(
                        k,
                        NodeModel::fresh(peer.node_id, RustRaftReplicaRole::Learner),
                        PipelineModel::fresh(
                            peer.node_id,
                            (old(self)@.last_log_index + 1) as u64,
                            RustRaftPipelineLimits::spec_production_default(),
                        ),
                    ),
                    final(self)@,
                ),
    {
        self.add_peer(RustRaftPeer { role: RustRaftReplicaRole::Learner, ..peer })
    }

    /// Adds `peer` as a witness.
    pub fn add_witness(&mut self, peer: RustRaftPeer) -> (r: Result<(), RustRaftError>)
        requires
            old(self).wf(),
            old(self)@.last_log_index < u64::MAX,
            old(self)@.leader_id matches Some(l) ==> old(self)@.pipeline(l).status.append_accepted < u64::MAX,
        ensures
            final(self).wf(),
            old(self)@.has_node(peer.node_id) ==> fails_with(
                r,
                ErrorModel::InvalidRequest(duplicate_message(peer.node_id)),
            ) && final(self)@ == old(self)@,
            !old(self)@.has_node(peer.node_id) ==> r is Ok && exists|k: int|
                0 <= k <= old(self)@.nodes.len() && ClusterModel::pipelines_refreshed(
                    #[trigger] old(self)@.inserted(
                        k,
                        NodeModel::fresh(peer.node_id, RustRaftReplicaRole::Witness),
                        PipelineModel::fresh(
                            peer.node_id,
                            (old(self)@.last_log_index + 1) as u64,
                            RustRaftPipelineLimits::spec_production_default(),
                        ),
                    ),
                    final(self)@,
                ),
    {
        self.add_peer(RustRaftPeer { role: RustRaftReplicaRole::Witness, ..peer })
    }

    /// Removes replica `node_id` and its pipeline; a removed leader leaves
    /// the cluster without leader or lease; the leader's pipeline, if any, is
    /// refreshed.
    pub fn remove_peer(&mut self, node_id: RustRaftNodeId) -> (r: Result<(), RustRaftError>)
        requires
            old(self).wf(),
            old(self)@.last_log_index < u64::MAX,
            old(self)@.leader_id matches Some(l) ==> old(self)@.pipeline(l).status.append_accepted < u64::MAX,
        ensures
            final(self).wf(),
            !old(self)@.has_node(node_id) ==> fails_with(r, ErrorModel::NodeNotFound(node_id)) && final(self)@ == old(self)@,
            old(self)@.has_node(node_id) ==> r is Ok && ClusterModel::pipelines_refreshed(
                if old(self)@.leader_id == Some(node_id) {
                    ClusterModel { leader_id: None, leader_lease_valid: false, ..old(self)@.removed(old(self)@.pos(node_id)) }
                } else {
                    old(self)@.removed(old(self)@.pos(node_id))
                },
                final(self)@,
            ),
    {
        let i = match self.find(node_id) {
            None => {
                return Err(RustRaftError::NodeNotFound(node_id));
            },
            Some(i) => i,
        };
        let ghost before = *self;
        let _gone = self.members.remove(i);
        if self.leader_id == Some(node_id) {
            self.leader_id = None;
            self.leader_lease_valid = false;
        }
        proof {
            let w = before@.removed(i as int);
            assert(self@.nodes =~= w.nodes);
            assert(self@.pipelines =~= w.pipelines);
            lemma_removed(before@, i as int);
            assert forall|j: int| 0 <= j < self.members@.len() implies (#[trigger] self.members@[j]).pipeline.wf() by {
                if j < i {
                    assert(self.members@[j] == before.members@[j]);
                } else {
                    assert(self.members@[j] == before.members@[j + 1]);
                }
            }
        }
        self.refresh_replication_pipelines();
        Ok(())
    }
}

/// The highest commit index among the replicas (0 without replicas).
pub open spec fn max_commit(nodes: Seq<NodeModel>) -> u64
    decreases nodes.len(),
{
    if nodes.len() == 0 {
        0
    } else {
        let r = max_commit(nodes.drop_last());
        if nodes.last().commit_index > r { nodes.last().commit_index } else { r }
    }
}

/// The highest index any replica holds (0 without replicas).
pub open spec fn max_match(nodes: Seq<NodeModel>) -> u64
    decreases nodes.len(),
{
    if nodes.len() == 0 {
        0
    } else {
        let r = max_match(nodes.drop_last());
        if nodes.last().match_index() > r { nodes.last().match_index() } else { r }
    }
}

/// The lowest applied index among the replicas that serve data, if any does.
pub open spec fn min_applied(nodes: Seq<NodeModel>) -> Option<u64>
    decreases nodes.len(),
{
    if nodes.len() == 0 {
        None
    } else {
        let r = min_applied(nodes.drop_last());
        let n = nodes.last();
        if n.replica_role.spec_can_serve_data() {
            match r {
                Some(a) => Some(if n.applied_index < a { n.applied_index } else { a }),
                None => Some(n.applied_index),
            }
        } else {
            r
        }
    }
}

/// The match indexes of the healthy replicas that count for the quorum, in
/// order of id.
pub open spec fn quorum_candidates(nodes: Seq<NodeModel>) -> Seq<u64>
    decreases nodes.len(),
{
    if nodes.len() == 0 {
        seq![]
    } else {
        let r = quorum_candidates(nodes.drop_last());
        let n = nodes.last();
        if n.healthy && n.replica_role.spec_participates_in_quorum() {
            r.push(n.match_index())
        } else {
            r
        }
    }
}

/// How many replicas count for the quorum.
pub open spec fn participants(nodes: Seq<NodeModel>) -> nat
    decreases nodes.len(),
{
    if nodes.len() == 0 {
        0
    } else {
        participants(nodes.drop_last()) + if nodes.last().replica_role.spec_participates_in_quorum() { 1nat } else { 0nat }
    }
}

/// A majority of the replicas that count for the quorum.
pub open spec fn quorum_size(nodes: Seq<NodeModel>) -> nat {
    participants(nodes) / 2 + 1
}

/// How many values of `s` are at least `x`.
pub open spec fn count_at_least(s: Seq<u64>, x: u64) -> nat
    decreases s.len(),
{
    if s.len() == 0 {
        0
    } else {
        count_at_least(s.drop_last(), x) + if s.last() >= x { 1nat } else { 0nat }
    }
}

/// The largest value of `rest` that at least `k` values of `all` reach (0 if none).
pub open spec fn max_reached_by(rest: Seq<u64>, all: Seq<u64>, k: nat) -> u64
    decreases rest.len(),
{
    if rest.len() == 0 {
        0
    } else {
        let r = max_reached_by(rest.drop_last(), all, k);
        let x = rest.last();
        if count_at_least(all, x) >= k && x > r { x } else { r }
    }
}

/// The `k`-th largest value of `s`: the largest value that `k` of its values reach.
pub open spec fn kth_largest(s: Seq<u64>, k: nat) -> u64 {
    max_reached_by(s, s, k)
}

/// The index the healthy quorum participants hold: the `q`-th largest of
/// their match indexes for a quorum of `q`, or the smallest when fewer than
/// `q` are healthy.
pub open spec fn quorum_index(nodes: Seq<NodeModel>) -> u64 {
    let c = quorum_candidates(nodes);
    let q = quorum_size(nodes);
    kth_largest(c, if c.len() >= q { q } else { c.len() })
}

impl ClusterModel {
    /// The cluster with its commit index, applied index and last log index
    /// recomputed from the replicas.
    pub open spec fn indexes_refreshed(self) -> ClusterModel {
        ClusterModel {
            commit_index: max_commit(self.nodes),
            applied_index: match min_applied(self.nodes) {
                Some(a) => a,
                None => 0,
            },
            last_log_index: max_match(self.nodes),
            ..self
        }
    }

    /// The cluster after the leader advanced the commit index: with no
    /// healthy quorum participant nothing changes; otherwise the commit index
    /// becomes at least the quorum index, every healthy replica learns it, and
    /// the indexes are recomputed.
    pub open spec fn commit_refreshed(self) -> ClusterModel {
        if quorum_candidates(self.nodes).len() == 0 {
            self
        } else {
            let q = quorum_index(self.nodes);
            let c = if self.commit_index >= q { self.commit_index } else { q };
            ClusterModel {
                commit_index: c,
                nodes: self.nodes.map_values(|n: NodeModel| if n.healthy { n.committed_to(c) } else { n }),
                ..self
            }.indexes_refreshed()
        }
    }
}

impl RaftCluster {
    /// Recomputes the commit index (highest of the replicas), the applied
    /// index (lowest of those serving data) and the last log index (highest
    /// held).
    fn refresh_cluster_indexes(&mut self)
        requires
            old(self).wf(),
        ensures
            final(self).wf(),
            final(self)@ == old(self)@.indexes_refreshed(),
    {
        let ghost nodes = self@.nodes;
        let n = self.members.len();
        let mut commit: u64 = 0;
        let mut last: u64 = 0;
        let mut applied: Option<u64> = None;
        let mut i: usize = 0;
        while i < n
            invariant
                self.wf(),
                nodes == self@.nodes,
                n == nodes.len(),
                i <= n,
                commit == max_commit(nodes.take(i as int)),
                last == max_match(nodes.take(i as int)),
                applied == min_applied(nodes.take(i as int)),
            decreases n - i,
        {
            proof {
                assert(nodes.take(i + 1).drop_last() =~= nodes.take(i as int));
                assert(nodes.take(i + 1).last() == self.members@[i as int].node.model());
            }
            let node = &self.members[i].node;
            if node.commit_index > commit {
                commit = node.commit_index;
            }
            let mi = node.match_index();
            if mi > last {
                last = mi;
            }
            if node.replica_role.can_serve_data() {
                applied = match applied {
                    Some(a) => Some(if node.applied_index < a { node.applied_index } else { a }),
                    None => Some(node.applied_index),
                };
            }
            i = i + 1;
        }
        proof {
            assert(nodes.take(n as int) =~= nodes);
        }
        self.commit_index = commit;
        self.applied_index = match applied {
            Some(a) => a,
            None => 0,
        };
        self.last_log_index = last;
    }

    /// The healthy quorum participants' match indexes and the number of
    /// quorum participants.
    fn commit_candidates(&self) -> (r: (Vec<u64>, u64))
        requires
            self.wf(),
        ensures
            r.0@ == quorum_candidates(self@.nodes),
            r.1 == participants(self@.nodes),
    {
        let ghost nodes = self@.nodes;
        let n = self.members.len();
        let mut c: Vec<u64> = Vec::new();
        let mut p: u64 = 0;
        let mut i: usize = 0;
        while i < n
            invariant
                self.wf(),
                nodes == self@.nodes,
                n == nodes.len(),
                i <= n,
                c@ == quorum_candidates(nodes.take(i as int)),
                p == participants(nodes.take(i as int)),
                p <= i,
            decreases n - i,
        {
            proof {
                assert(nodes.take(i + 1).drop_last() =~= nodes.take(i as int));
                assert(nodes.take(i + 1).last() == self.members@[i as int].node.model());
            }
            let node = &self.members[i].node;
            if node.replica_role.participates_in_quorum() {
                p = p + 1;
                if node.healthy {
                    c.push(node.match_index());
                }
            }
            i = i + 1;
        }
        proof {
            assert(nodes.take(n as int) =~= nodes);
        }
        (c, p)
    }
}

/// How many values of `s` are at least `x`.
fn count_reaching(s: &Vec<u64>, x: u64) -> (r: u64)
    ensures
        r == count_at_least(s@, x),
{
    let mut r: u64 = 0;
    let mut i: usize = 0;
    while i < s.len()
        invariant
            i <= s@.len(),
            r == count_at_least(s@.take(i as int), x),
            r <= i,
        decreases s@.len() - i,
    {
        proof {
            assert(s@.take(i + 1).drop_last() =~= s@.take(i as int));
        }
        if s[i] >= x {
            r = r + 1;
        }
        i = i + 1;
    }
    proof {
        assert(s@.take(s@.len() as int) =~= s@);
    }
    r
}

/// The `k`-th largest value of `s`.
fn kth_largest_of(s: &Vec<u64>, k: u64) -> (r: u64)
    ensures
        r == kth_largest(s@, k as nat),
{
    let mut r: u64 = 0;
    let mut i: usize = 0;
    while i < s.len()
        invariant
            i <= s@.len(),
            r == max_reached_by(s@.take(i as int), s@, k as nat),
        decreases s@.len() - i,
    {
        proof {
            assert(s@.take(i + 1).drop_last() =~= s@.take(i as int));
        }
        let x = s[i];
        if count_reaching(s, x) >= k && x > r {
            r = x;
        }
        i = i + 1;
    }
    proof {
        assert(s@.take(s@.len() as int) =~= s@);
    }
    r
}

impl RaftCluster {
    /// Advances the commit index to what the healthy quorum participants
    /// hold, lets every healthy replica learn it, and recomputes the indexes;
    /// does nothing without a healthy quorum participant.
    fn refresh_commit_index(&mut self)
        requires
            old(self).wf(),
        ensures
            final(self).wf(),
            final(self)@ == old(self)@.commit_refreshed(),
    {
        let (candidates, voters) = self.commit_candidates();
        if candidates.len() == 0 {
            return;
        }
        let q = voters / 2 + 1;
        let k = if candidates.len() as u64 >= q { q } else { candidates.len() as u64 };
        let quorum_index = kth_largest_of(&candidates, k);
        if self.commit_index < quorum_index {
            self.commit_index = quorum_index;
        }
        let c = self.commit_index;
        let ghost start = *self;
        let n = self.members.len();
        let mut i: usize = 0;
        while i < n
            invariant
                start.wf(),
                n == start.members@.len(),
                i <= n,
                self.members@.len() == n,
                self.group_id == start.group_id,
                self.config == start.config,
                self.leader_id == start.leader_id,
                self.current_term == start.current_term,
                self.commit_index == start.commit_index,
                self.applied_index == start.applied_index,
                self.last_log_index == start.last_log_index,
                self.running == start.running,
                self.leader_lease_valid == start.leader_lease_valid,
                forall|j: int| 0 <= j < i ==> (#[trigger] self.members@[j]).node.model() == (if start.members@[j].node.healthy {
                    start.members@[j].node.model().committed_to(c)
                } else {
                    start.members@[j].node.model()
                }) && self.members@[j].pipeline == start.members@[j].pipeline,
                forall|j: int| i <= j < n ==> #[trigger] self.members@[j] == start.members@[j],
            decreases n - i,
        {
            if self.members[i].node.healthy {
                let ghost before = *self;
                let mut m = self.take_member(i);
                m.node.advance_commit(c);
                self.put_member(i, m, Ghost(before));
            }
            i = i + 1;
        }
        proof {
            let target = start@.nodes.map_values(|x: NodeModel| if x.healthy { x.committed_to(c) } else { x });
            assert(self@.nodes =~= target) by {
                assert forall|j: int| 0 <= j < n implies self@.nodes[j] == target[j] by {
                    assert(start@.nodes[j] == start.members@[j].node.model());
                }
            }
            assert(self@.pipelines =~= start@.pipelines) by {
                assert forall|j: int| 0 <= j < n implies self@.pipelines[j] == start@.pipelines[j] by {
                    assert(self.members@[j].pipeline == start.members@[j].pipeline);
                }
            }
            lemma_same_ids(start@, target);
            assert forall|j: int| 0 <= j < n implies (#[trigger] self.members@[j]).pipeline.wf() by {
                assert(start.members@[j].pipeline.wf());
            }
        }
        self.refresh_cluster_indexes();
    }
}

/// The acknowledgement replica `n` sends once it holds an entry.
pub open spec fn append_ack(n: NodeModel) -> RustRaftAppendEntriesResponse {
    RustRaftAppendEntriesResponse {
        term: n.hard_state.current_term,
        success: true,
        match_index: n.match_index(),
        rejection_hint: None,
    }
}

/// What a proposal of `entry` does to one replica `n0` and its pipeline `p0`
/// under leader `leader`: the leader appends it; a replica that serves no
/// data is left alone; any other queues it on its pipeline, stopping the
/// proposal with the pipeline's error when refused, else flushes the window
/// and, when healthy, appends it and acknowledges it on the pipeline.
pub open spec fn propose_step(
    leader: u64,
    entry: RustRaftLogEntry,
    n0: NodeModel,
    p0: PipelineModel,
    n1: NodeModel,
    p1: PipelineModel,
    r: Result<(), RustRaftError>,
) -> bool {
    if n0.id == leader {
        n1 == n0.appended(entry.model()) && p1 == p0 && r is Ok
    } else if !n0.replica_role.spec_can_serve_data() {
        n1 == n0 && p1 == p0 && r is Ok
    } else {
        exists|pq: PipelineModel, rq: Result<(), RustRaftError>|
            #[trigger] queue_append_post(p0, entry, pq, rq) && if rq is Err {
                r == rq && n1 == n0 && p1 == pq
            } else {
                r is Ok && exists|pf: PipelineModel, sent: Vec<RaftInflightAppend>|
                    #[trigger] flush_post(pq, pf, sent) && if n0.healthy {
                        n1 == n0.appended(entry.model()) && exists|ra: Result<(), RustRaftError>|
                            #[trigger] append_response_post(pf, append_ack(n1), p1, ra)
                    } else {
                        n1 == n0 && p1 == pf
                    }
            }
    }
}

/// Why `propose` is refused on `m` for a payload of `len` bytes, if it is:
/// no leader, a stopped cluster, an oversized payload, an unknown or
/// unhealthy leader.
pub open spec fn propose_refusal(m: ClusterModel, len: nat) -> Option<ErrorModel> {
    match m.leader_id {
        None => Some(ErrorModel::NoLeader),
        Some(l) => if !m.running {
            Some(ErrorModel::InvalidRequest("cannot propose while cluster is stopped"@))
        } else if len > m.config.max_payload_bytes {
            Some(ErrorModel::InvalidRequest("payload exceeds max_payload_bytes"@))
        } else if !m.has_node(l) {
            Some(ErrorModel::NodeNotFound(l))
        } else if !m.node(l).healthy {
            Some(ErrorModel::NotLeader(l))
        } else {
            None
        },
    }
}

impl ClusterModel {
    /// `n` is `m` after the proposal of `entry` went through replicas
    /// `0..k` successfully and, when `k` is not past the end, stopped at
    /// replica `k` with the error `rk`; the other replicas and all other
    /// fields are unchanged.
    pub open spec fn proposed_through(
        m: ClusterModel,
        leader: u64,
        entry: RustRaftLogEntry,
        n: ClusterModel,
        k: int,
        rk: Result<(), RustRaftError>,
    ) -> bool {
        &&& 0 <= k <= m.nodes.len()
        &&& n.nodes.len() == m.nodes.len()
        &&& n.pipelines.len() == m.pipelines.len()
        &&& n == ClusterModel { nodes: n.nodes, pipelines: n.pipelines, ..m }
        &&& forall|j: int|
            0 <= j < k ==> propose_step(leader, entry, m.nodes[j], m.pipelines[j], #[trigger] n.nodes[j], n.pipelines[j], Ok(()))
        &&& k < m.nodes.len() ==> rk is Err && propose_step(leader, entry, m.nodes[k], m.pipelines[k], n.nodes[k], n.pipelines[k], rk)
        &&& forall|j: int| k < j < m.nodes.len() ==> #[trigger] n.nodes[j] == m.nodes[j] && n.pipelines[j] == m.pipelines[j]
    }
}

/// A flush never takes more entries than the in-flight window has room for.
proof fn lemma_flush_count_room(q: Seq<crate::types::EntryModel>, entries: int, bytes: int, max_entries: int, max_bytes: int)
    requires
        entries <= max_entries,
    ensures
        flush_count(q, entries, bytes, max_entries, max_bytes) + entries <= max_entries,
    decreases q.len(),
{
    if entries < max_entries && q.len() > 0 && bytes + q[0].payload.len() <= max_bytes {
        lemma_flush_count_room(q.drop_first(), entries + 1, bytes + q[0].payload.len(), max_entries, max_bytes);
    }
}

/// One replica's part of a proposal.
fn propose_to_member(m: &mut Member, leader: RustRaftNodeId, entry: &RustRaftLogEntry) -> (r: Result<(), RustRaftError>)
    requires
        old(m).pipeline.wf(),
        old(m).pipeline@.limits == RustRaftPipelineLimits::spec_production_default(),
        pipeline_headroom(old(m).pipeline@),
        node_headroom(old(m).node.model()),
        entry.log_id.index < u64::MAX,
    ensures
        final(m).pipeline.wf(),
        final(m).node.id == old(m).node.id,
        final(m).pipeline@.peer_id == old(m).pipeline@.peer_id,
        final(m).pipeline@.limits == old(m).pipeline@.limits,
        propose_step(leader, *entry, old(m).node.model(), old(m).pipeline@, final(m).node.model(), final(m).pipeline@, r),
{
    let ghost n0 = m.node.model();
    let ghost p0 = m.pipeline@;
    if m.node.id == leader {
        m.node.append_entry(entry.duplicate());
        return Ok(());
    }
    if !m.node.replica_role.can_serve_data() {
        return Ok(());
    }
    let rq = m.pipeline.queue_append(entry.duplicate());
    let ghost pq = m.pipeline@;
    proof {
        assert(queue_append_post(p0, *entry, pq, rq));
    }
    if rq.is_err() {
        return rq;
    }
    proof {
        lemma_flush_count_room(
            pq.append_queue,
            pq.status.inflight_entries as int,
            pq.status.inflight_bytes as int,
            pq.limits.max_inflights_replicate as int,
            pq.limits.max_memory_replicate_log_bytes as int,
        );
    }
    let sent = m.pipeline.flush_append_window();
    let ghost pf = m.pipeline@;
    if m.node.healthy {
        m.node.append_entry(entry.duplicate());
        let response = RustRaftAppendEntriesResponse {
            term: m.node.hard_state.current_term,
            success: true,
            match_index: m.node.match_index(),
            rejection_hint: None,
        };
        let ra = m.pipeline.handle_append_response(&response);
        proof {
            assert(append_response_post(pf, append_ack(m.node.model()), m.pipeline@, ra));
        }
    }
    Ok(())
}

impl RaftCluster {
    /// Room for one more proposal in every counter, index and term.
    pub open spec fn has_room(&self) -> bool {
        self@.headroom()
    }

    /// The leader appends `payload` as the next entry of the current term;
    /// every other replica that serves data queues it on its pipeline and
    /// flushes, and, when healthy, appends and acknowledges it; then the
    /// commit index advances. A pipeline that refuses the entry stops the
    /// proposal with its error, leaving the replicas after it untouched.
    /// Refused without a leader, while stopped, for a payload above
    /// `max_payload_bytes`, or with an unhealthy leader.
    pub fn propose(&mut self, payload: RustRaftPayload) -> (r: Result<RustRaftLogId, RustRaftError>)
        requires
            old(self).wf(),
            old(self).has_room(),
        ensures
            final(self).wf(),
            match propose_refusal(old(self)@, payload@.len()) {
                Some(e) => fails_with(r, e) && final(self)@ == old(self)@,
                None => {
                    let o = old(self)@;
                    let leader = o.leader_id->0;
                    let id = RustRaftLogId { term: o.current_term, index: (o.last_log_index + 1) as u64 };
                    let entry = RustRaftLogEntry { log_id: id, payload };
                    let m1 = ClusterModel { last_log_index: id.index, ..o };
                    exists|mid: ClusterModel, k: int, rk: Result<(), RustRaftError>|
                        #[trigger] ClusterModel::proposed_through(m1, leader, entry, mid, k, rk) && if k == o.nodes.len() {
                            r == Ok::<RustRaftLogId, RustRaftError>(id) && final(self)@ == mid.commit_refreshed()
                        } else {
                            r == match rk {
                                Ok(_) => Ok::<RustRaftLogId, RustRaftError>(id),
                                Err(e) => Err::<RustRaftLogId, RustRaftError>(e),
                            } && final(self)@ == mid
                        }
                },
            },
    {
        let leader_id = match self.leader_id {
            None => {
                return Err(RustRaftError::NoLeader);
            },
            Some(l) => l,
        };
        if !self.running {
            return Err(invalid_request("cannot propose while cluster is stopped"));
        }
        if payload.len() as u64 > self.config.max_payload_bytes {
            return Err(invalid_request("payload exceeds max_payload_bytes"));
        }
        let li = match self.find(leader_id) {
            None => {
                return Err(RustRaftError::NodeNotFound(leader_id));
            },
            Some(i) => i,
        };
        proof {
            assert(self@.nodes[li as int] == self.members@[li as int].node.model());
        }
        if !self.members[li].node.healthy {
            return Err(RustRaftError::NotLeader(leader_id));
        }
        let log_id = RustRaftLogId { term: self.current_term, index: self.last_log_index + 1 };
        let entry = RustRaftLogEntry { log_id, payload };
        self.last_log_index = log_id.index;
        let ghost start = *self;
        let ghost m1 = self@;
        let n = self.members.len();
        let mut i: usize = 0;
        while i < n
            invariant
                start.wf(),
                start@ == m1,
                m1 == (ClusterModel { last_log_index: entry.log_id.index, ..old(self)@ }),
                old(self)@.headroom(),
                old(self)@.leader_id == Some(leader_id),
                propose_refusal(old(self)@, entry.payload@.len()) is None,
                entry.log_id.index < u64::MAX,
                entry.log_id == log_id,
                log_id == (RustRaftLogId { term: old(self)@.current_term, index: (old(self)@.last_log_index + 1) as u64 }),
                entry.payload == payload,
                n == start.members@.len(),
                i <= n,
                self.members@.len() == n,
                self.group_id == start.group_id,
                self.config == start.config,
                self.leader_id == start.leader_id,
                self.current_term == start.current_term,
                self.commit_index == start.commit_index,
                self.applied_index == start.applied_index,
                self.last_log_index == start.last_log_index,
                self.running == start.running,
                self.leader_lease_valid == start.leader_lease_valid,
                forall|j: int| 0 <= j < i ==> propose_step(
                    leader_id,
                    entry,
                    start.members@[j].node.model(),
                    start.members@[j].pipeline@,
                    (#[trigger] self.members@[j]).node.model(),
                    self.members@[j].pipeline@,
                    Ok(()),
                ),
                forall|j: int| 0 <= j < i ==> {
                    &&& (#[trigger] self.members@[j]).node.id == start.members@[j].node.id
                    &&& self.members@[j].pipeline.wf()
                    &&& self.members@[j].pipeline@.peer_id == start.members@[j].pipeline@.peer_id
                    &&& self.members@[j].pipeline@.limits == start.members@[j].pipeline@.limits
                },
                forall|j: int| i <= j < n ==> #[trigger] self.members@[j] == start.members@[j],
            decreases n - i,
        {
            let ghost before = *self;
            let mut m = self.take_member(i);
            proof {
                assert(m1.nodes[i as int] == m.node.model());
                assert(m1.pipelines[i as int] == m.pipeline@);
                assert(start.members@[i as int].pipeline.wf());
                assert(node_headroom(m1.nodes[i as int]));
                assert(pipeline_headroom(m1.pipelines[i as int]));
            }
            let step = propose_to_member(&mut m, leader_id, &entry);
            self.put_member(i, m, Ghost(before));
            if step.is_err() {
                proof {
                    self.lemma_proposal_view(start, leader_id, entry, (i + 1) as int);
                    assert(ClusterModel::proposed_through(m1, leader_id, entry, self@, i as int, step));
                }
                return match step {
                    Ok(_) => Ok(log_id),
                    Err(e) => Err(e),
                };
            }
            i = i + 1;
        }
        proof {
            self.lemma_proposal_view(start, leader_id, entry, n as int);
            assert(ClusterModel::proposed_through(m1, leader_id, entry, self@, n as int, Ok(())));
        }
        let ghost mid = self@;
        self.refresh_commit_index();
        Ok(log_id)
    }

    /// After the members `0..i` stepped, the cluster keeps its invariant.
    proof fn lemma_proposal_view(&self, start: RaftCluster, leader: u64, entry: RustRaftLogEntry, i: int)
        requires
            start.wf(),
            0 <= i <= start.members@.len(),
            self.members@.len() == start.members@.len(),
            self.group_id == start.group_id,
            self.config == start.config,
            self.leader_id == start.leader_id,
            self.current_term == start.current_term,
            self.commit_index == start.commit_index,
            self.applied_index == start.applied_index,
            self.last_log_index == start.last_log_index,
            self.running == start.running,
            self.leader_lease_valid == start.leader_lease_valid,
            forall|j: int| 0 <= j < i ==> {
                &&& (#[trigger] self.members@[j]).node.id == start.members@[j].node.id
                &&& self.members@[j].pipeline.wf()
                &&& self.members@[j].pipeline@.peer_id == start.members@[j].pipeline@.peer_id
                &&& self.members@[j].pipeline@.limits == start.members@[j].pipeline@.limits
            },
            forall|j: int| i <= j < self.members@.len() ==> #[trigger] self.members@[j] == start.members@[j],
        ensures
            self.wf(),
            self@ == (ClusterModel { nodes: self@.nodes, pipelines: self@.pipelines, ..start@ }),
            self@.nodes.len() == start@.nodes.len(),
            self@.pipelines.len() == start@.pipelines.len(),
            forall|j: int| 0 <= j < self.members@.len() ==> #[trigger] self@.nodes[j] == self.members@[j].node.model() && self@.pipelines[j] == self.members@[j].pipeline@,
            forall|j: int| 0 <= j < self.members@.len() ==> #[trigger] start@.nodes[j] == start.members@[j].node.model() && start@.pipelines[j] == start.members@[j].pipeline@,
    {
        let w = self@;
        let m = start@;
        assert forall|j: int| 0 <= j < w.nodes.len() implies (#[trigger] w.nodes[j]).id == m.nodes[j].id by {
            assert(w.nodes[j] == self.members@[j].node.model());
            assert(m.nodes[j] == start.members@[j].node.model());
        }
        lemma_same_ids(m, w.nodes);
        assert forall|j: int| 0 <= j < w.nodes.len() implies {
            &&& (#[trigger] w.pipelines[j]).peer_id == w.nodes[j].id
            &&& w.pipelines[j].wf()
            &&& w.pipelines[j].limits == RustRaftPipelineLimits::spec_production_default()
        } by {
            assert(w.pipelines[j] == self.members@[j].pipeline@);
            assert(m.pipelines[j] == start.members@[j].pipeline@);
            assert(w.nodes[j] == self.members@[j].node.model());
            assert(m.nodes[j] == start.members@[j].node.model());
            assert(start.members@[j].pipeline.wf());
        }
        assert forall|j: int| 0 <= j < self.members@.len() implies (#[trigger] self.members@[j]).pipeline.wf() by {
            assert(start.members@[j].pipeline.wf());
        }
    }
}

/// The refusal a replica sends: its term and match index, with the match
/// index as hint.
pub open spec fn append_rejection(n: NodeModel) -> RustRaftAppendEntriesResponse {
    RustRaftAppendEntriesResponse {
        term: n.hard_state.current_term,
        success: false,
        match_index: n.match_index(),
        rejection_hint: Some(n.match_index()),
    }
}

/// Whether replica `n` refuses `request`: its term is older than the
/// replica's, or it names a previous entry the replica does not hold.
pub open spec fn append_refused(n: NodeModel, request: RustRaftAppendEntriesRequest) -> bool {
    ||| request.term < n.hard_state.current_term
    ||| (request.prev_log_id matches Some(prev) && prev.index > 0 && n.match_index() < prev.index)
}

/// Replica `n` after accepting `request`: it takes the term and follows (a
/// learner stays one), appends the entries when it serves data, and learns
/// the leader's commit index.
pub open spec fn append_accepted(n: NodeModel, request: RustRaftAppendEntriesRequest) -> NodeModel {
    let n1 = NodeModel {
        hard_state: RustRaftHardState { current_term: request.term, ..n.hard_state },
        raft_role: if n.replica_role == RustRaftReplicaRole::Learner {
            RustRaftRole::Learner
        } else {
            RustRaftRole::Follower
        },
        ..n
    };
    let n2 = if n.replica_role.spec_can_serve_data() { appended_all(n1, entry_models(request.entries@)) } else { n1 };
    n2.committed_to(request.leader_commit)
}

/// The name under which a directly installed snapshot is recorded.
pub open spec fn installed_name(target: u64, index: u64) -> Seq<char> {
    "installed-"@ + decimal_chars(target as nat) + "-"@ + decimal_chars(index as nat)
}

/// `p2` is `p0` after recording a one-chunk install of `index` under the
/// installed name and receiving its only chunk (each step's refusal ignored).
pub open spec fn install_recorded(p0: PipelineModel, target: u64, index: u64, p2: PipelineModel) -> bool {
    exists|sid: String, p1: PipelineModel, r1: Result<(), RustRaftError>, r2: Result<(), RustRaftError>|
        sid@ == installed_name(target, index) && #[trigger] begin_install_post(p0, sid, index, 1, p1, r1)
            && #[trigger] chunk_received_post(p1, 0, true, p2, r2)
}

/// Why installing a snapshot of group `group` ending at `last` with `fence`
/// on `target` is refused, if it is.
pub open spec fn install_refusal(
    m: ClusterModel,
    target: u64,
    group: u64,
    last: RustRaftLogId,
    fence: RustRaftApplySnapshotFence,
) -> Option<ErrorModel> {
    if group != m.group_id {
        Some(ErrorModel::InvalidRequest("snapshot group id mismatch"@))
    } else if install_error(last, fence) is Some {
        Some(ErrorModel::Storage(install_error(last, fence)->0))
    } else if !m.has_node(target) {
        Some(ErrorModel::NodeNotFound(target))
    } else {
        None
    }
}

impl RaftCluster {
    /// Delivers an append request to replica `target`. A request of an older
    /// term, or naming a previous entry the replica lacks, is answered with a
    /// refusal and changes nothing; otherwise the replica accepts it (see
    /// `append_accepted`), the indexes are recomputed, and it answers with
    /// its term and match index. Refused for an unknown replica, then for a
    /// request of another group.
    pub fn append_entries_to(&mut self, target: RustRaftNodeId, request: RustRaftAppendEntriesRequest) -> (r: Result<
        RustRaftAppendEntriesResponse,
        RustRaftError,
    >)
        requires
            old(self).wf(),
        ensures
            final(self).wf(),
            !old(self)@.has_node(target) ==> fails_with(r, ErrorModel::NodeNotFound(target)) && final(self)@ == old(self)@,
            old(self)@.has_node(target) && request.group_id != old(self)@.group_id ==> fails_with(
                r,
                ErrorModel::InvalidRequest("append entries group id mismatch"@),
            ) && final(self)@ == old(self)@,
            old(self)@.has_node(target) && request.group_id == old(self)@.group_id && append_refused(old(self)@.node(target), request)
                ==> r == Ok::<RustRaftAppendEntriesResponse, RustRaftError>(append_rejection(old(self)@.node(target)))
                && final(self)@ == old(self)@,
            old(self)@.has_node(target) && request.group_id == old(self)@.group_id && !append_refused(old(self)@.node(target), request)
                ==> ({
                let n = append_accepted(old(self)@.node(target), request);
                &&& r == Ok::<RustRaftAppendEntriesResponse, RustRaftError>(append_ack(n))
                &&& final(self)@ == old(self)@.with_member(old(self)@.pos(target), n, old(self)@.pipeline(target)).indexes_refreshed()
            }),
    {
        let i = match self.find(target) {
            None => {
                return Err(RustRaftError::NodeNotFound(target));
            },
            Some(i) => i,
        };
        if request.group_id != self.group_id {
            return Err(invalid_request("append entries group id mismatch"));
        }
        proof {
            assert(self@.nodes[i as int] == self.members@[i as int].node.model());
        }
        let mi = self.members[i].node.match_index();
        let node_term = self.members[i].node.hard_state.current_term;
        let refused = request.term < node_term || match request.prev_log_id {
            Some(prev) => prev.index > 0 && mi < prev.index,
            None => false,
        };
        if refused {
            return Ok(RustRaftAppendEntriesResponse { term: node_term, success: false, match_index: mi, rejection_hint: Some(mi) });
        }
        let ghost before = *self;
        let mut m = self.take_member(i);
        proof {
            assert(before@.pipelines[i as int] == m.pipeline@);
            assert(before.members@[i as int].pipeline.wf());
        }
        let ghost n0 = m.node.model();
        m.node.hard_state.current_term = request.term;
        m.node.raft_role = if m.node.replica_role == RustRaftReplicaRole::Learner {
            RustRaftRole::Learner
        } else {
            RustRaftRole::Follower
        };
        let ghost n1 = m.node.model();
        if m.node.replica_role.can_serve_data() {
            let ghost es = entry_models(request.entries@);
            let mut j: usize = 0;
            while j < request.entries.len()
                invariant
                    j <= request.entries@.len(),
                    es == entry_models(request.entries@),
                    m.node.model() == appended_all(n1, es.take(j as int)),
                    m.node.id == n1.id,
                    m.pipeline == before.members@[i as int].pipeline,
                decreases request.entries@.len() - j,
            {
                proof {
                    assert(es.take(j + 1).drop_last() =~= es.take(j as int));
                    assert(es.take(j + 1).last() == request.entries@[j as int].model());
                }
                m.node.append_entry(request.entries[j].duplicate());
                j = j + 1;
            }
            proof {
                assert(es.take(request.entries@.len() as int) =~= es);
            }
        }
        m.node.advance_commit(request.leader_commit);
        let term = m.node.hard_state.current_term;
        let match_index = m.node.match_index();
        self.put_member(i, m, Ghost(before));
        proof {
            self.lemma_exec_wf_after_put(before, i as int, m);
            lemma_pos_unique(before@, i as int);
        }
        self.refresh_cluster_indexes();
        Ok(RustRaftAppendEntriesResponse { term, success: true, match_index, rejection_hint: None })
    }

    /// Installs a snapshot on replica `target`: the replica drops the entries
    /// it covers and commits (and, serving data, applies) up to it, its
    /// pipeline records a completed one-chunk install, and the indexes are
    /// recomputed. Refused for another group, a fence that does not match the
    /// snapshot, or an unknown replica.
    pub fn install_snapshot_to(&mut self, target: RustRaftNodeId, snapshot: RaftSnapshot, fence: RustRaftApplySnapshotFence) -> (r:
        Result<(), RustRaftError>)
        requires
            old(self).wf(),
            snapshot.meta.last_log_id.index < u64::MAX,
            old(self)@.has_node(target) ==> pipeline_headroom(old(self)@.pipeline(target)),
        ensures
            final(self).wf(),
            match install_refusal(old(self)@, target, snapshot.group_id, snapshot.meta.last_log_id, fence) {
                Some(e) => fails_with(r, e) && final(self)@ == old(self)@,
                None => r is Ok && exists|p: PipelineModel|
                    #[trigger] install_recorded(old(self)@.pipeline(target), target, snapshot.meta.last_log_id.index, p)
                        && final(self)@ == old(self)@.with_member(
                        old(self)@.pos(target),
                        old(self)@.node(target).with_snapshot(snapshot.meta.model()),
                        p,
                    ).indexes_refreshed(),
            },
    {
        if snapshot.group_id != self.group_id {
            return Err(invalid_request("snapshot group id mismatch"));
        }
        let checked = rustraft_validate_snapshot_install(&snapshot, &fence);
        match checked {
            Err(e) => {
                return Err(e);
            },
            Ok(()) => {},
        }
        let i = match self.find(target) {
            None => {
                return Err(RustRaftError::NodeNotFound(target));
            },
            Some(i) => i,
        };
        let snapshot_index = snapshot.meta.last_log_id.index;
        let ghost before = *self;
        let mut m = self.take_member(i);
        proof {
            assert(before@.pipelines[i as int] == m.pipeline@);
            assert(before@.nodes[i as int] == m.node.model());
            assert(before.members@[i as int].pipeline.wf());
            lemma_pos_unique(before@, i as int);
        }
        let ghost meta = snapshot.meta.model();
        m.node.install_snapshot(snapshot.meta);
        let name = String::from_str("installed-").concat(u64_to_decimal(target).as_str()).concat("-").concat(
            u64_to_decimal(snapshot_index).as_str(),
        );
        let ghost sid = name;
        let ghost p0 = m.pipeline@;
        let r1 = m.pipeline.begin_snapshot_install(name, snapshot_index, 1);
        let ghost p1 = m.pipeline@;
        let r2 = m.pipeline.receive_snapshot_chunk(0, true);
        proof {
            assert(begin_install_post(p0, sid, snapshot_index, 1, p1, r1));
            assert(chunk_received_post(p1, 0, true, m.pipeline@, r2));
            assert(install_recorded(p0, target, snapshot_index, m.pipeline@));
        }
        self.put_member(i, m, Ghost(before));
        proof {
            self.lemma_exec_wf_after_put(before, i as int, m);
        }
        self.refresh_cluster_indexes();
        Ok(())
    }
}

/// `fin` is `mid` after replica `target` caught up on `tail`: it appends
/// the entries, learns the larger of the cluster's commit index and its own
/// match index, its pipeline takes its acknowledgement in the current term
/// and records that it rejoined after a compacted log, and the indexes are
/// recomputed.
pub open spec fn tail_caught_up(mid: ClusterModel, target: u64, tail: Seq<EntryModel>, fin: ClusterModel) -> bool {
    exists|pa: PipelineModel, ra: Result<(), RustRaftError>|
        #[trigger] append_response_post(mid.pipeline(target), catch_up_ack(mid, target, tail), pa, ra) && fin == mid.with_member(
            mid.pos(target),
            caught_up_node(mid, target, tail),
            pa.with_status(RustRaftPeerPipelineStatus { snapshot_rejoin_after_compacted_log: true, ..pa.status }),
        ).indexes_refreshed()
}

/// Replica `target` of `mid` after appending `tail` and learning the larger
/// of the cluster's commit index and its own match index.
pub open spec fn caught_up_node(mid: ClusterModel, target: u64, tail: Seq<EntryModel>) -> NodeModel {
    let na = appended_all(mid.node(target), tail);
    na.committed_to(if mid.commit_index >= na.match_index() { mid.commit_index } else { na.match_index() })
}

/// The acknowledgement of a caught-up replica, in the current term.
pub open spec fn catch_up_ack(mid: ClusterModel, target: u64, tail: Seq<EntryModel>) -> RustRaftAppendEntriesResponse {
    RustRaftAppendEntriesResponse {
        term: mid.current_term,
        success: true,
        match_index: caught_up_node(mid, target, tail).match_index(),
        rejection_hint: None,
    }
}

/// Recording an install leaves the acknowledgement counters alone.
proof fn lemma_install_recorded_counters(p0: PipelineModel, target: u64, index: u64, p2: PipelineModel)
    requires
        install_recorded(p0, target, index, p2),
    ensures
        p2.status.append_accepted == p0.status.append_accepted,
        p2.status.stale_term_rejections == p0.status.stale_term_rejections,
{
    let (sid, p1, r1, r2) = choose|sid: String, p1: PipelineModel, r1: Result<(), RustRaftError>, r2: Result<(), RustRaftError>|
        sid@ == installed_name(target, index) && #[trigger] begin_install_post(p0, sid, index, 1, p1, r1)
            && #[trigger] chunk_received_post(p1, 0, true, p2, r2);
    assert(begin_install_post(p0, sid, index, 1, p1, r1));
    assert(chunk_received_post(p1, 0, true, p2, r2));
}

impl RaftCluster {
    /// Installs a snapshot on replica `target` (as `install_snapshot_to`),
    /// then lets it catch up on `tail` (see `tail_caught_up`). Refused when
    /// the first tail entry does not lie above the snapshot, or when the
    /// install is refused.
    pub fn install_snapshot_with_tail_to(
        &mut self,
        target: RustRaftNodeId,
        snapshot: RaftSnapshot,
        fence: RustRaftApplySnapshotFence,
        tail_entries: Vec<RustRaftLogEntry>,
    ) -> (r: Result<(), RustRaftError>)
        requires
            old(self).wf(),
            snapshot.meta.last_log_id.index < u64::MAX,
            below_max(entry_models(tail_entries@)),
            old(self)@.has_node(target) ==> pipeline_headroom(old(self)@.pipeline(target)) && below_max(
                old(self)@.node(target).log,
            ),
        ensures
            final(self).wf(),
            tail_entries@.len() > 0 && tail_entries@[0].log_id.index <= snapshot.meta.last_log_id.index ==> fails_with(
                r,
                ErrorModel::InvalidRequest("tail catch-up entry overlaps installed snapshot"@),
            ) && final(self)@ == old(self)@,
            !(tail_entries@.len() > 0 && tail_entries@[0].log_id.index <= snapshot.meta.last_log_id.index) ==> match install_refusal(
                old(self)@,
                target,
                snapshot.group_id,
                snapshot.meta.last_log_id,
                fence,
            ) {
                Some(e) => fails_with(r, e) && final(self)@ == old(self)@,
                None => r is Ok && exists|p: PipelineModel|
                    #[trigger] install_recorded(old(self)@.pipeline(target), target, snapshot.meta.last_log_id.index, p)
                        && tail_caught_up(
                        old(self)@.with_member(
                            old(self)@.pos(target),
                            old(self)@.node(target).with_snapshot(snapshot.meta.model()),
                            p,
                        ).indexes_refreshed(),
                        target,
                        entry_models(tail_entries@),
                        final(self)@,
                    ),
            },
    {
        let snapshot_index = snapshot.meta.last_log_id.index;
        if tail_entries.len() > 0 && tail_entries[0].log_id.index <= snapshot_index {
            return Err(invalid_request("tail catch-up entry overlaps installed snapshot"));
        }
        let ghost o = self@;
        let ghost meta = snapshot.meta.model();
        let installed = self.install_snapshot_to(target, snapshot, fence);
        match installed {
            Err(e) => {
                return Err(e);
            },
            Ok(()) => {},
        }
        let ghost mid = self@;
        let ghost p = choose|p: PipelineModel|
            #[trigger] install_recorded(o.pipeline(target), target, snapshot_index, p) && mid == o.with_member(
                o.pos(target),
                o.node(target).with_snapshot(meta),
                p,
            ).indexes_refreshed();
        proof {
            assert(mid.nodes[o.pos(target)].id == target);
        }
        let i = match self.find(target) {
            None => {
                return Err(RustRaftError::NodeNotFound(target));
            },
            Some(i) => i,
        };
        proof {
            lemma_pos_unique(o, i as int);
            lemma_install_recorded_counters(o.pipeline(target), target, snapshot_index, p);
            assert(mid.node(target) == o.node(target).with_snapshot(meta));
            assert(mid.pipeline(target) == p);
            lemma_entries_above_below_max(o.node(target).log, snapshot_index);
        }
        let ghost before = *self;
        let mut m = self.take_member(i);
        proof {
            assert(before@.pipelines[i as int] == m.pipeline@);
            assert(before@.nodes[i as int] == m.node.model());
            assert(before.members@[i as int].pipeline.wf());
        }
        let ghost n0 = m.node.model();
        let ghost es = entry_models(tail_entries@);
        let mut j: usize = 0;
        while j < tail_entries.len()
            invariant
                j <= tail_entries@.len(),
                es == entry_models(tail_entries@),
                m.node.model() == appended_all(n0, es.take(j as int)),
                m.node.id == n0.id,
                m.pipeline == before.members@[i as int].pipeline,
            decreases tail_entries@.len() - j,
        {
            proof {
                assert(es.take(j + 1).drop_last() =~= es.take(j as int));
                assert(es.take(j + 1).last() == tail_entries@[j as int].model());
            }
            m.node.append_entry(tail_entries[j].duplicate());
            j = j + 1;
        }
        proof {
            assert(es.take(tail_entries@.len() as int) =~= es);
            lemma_appended_all_below_max(n0, es);
        }
        let mi = m.node.match_index();
        let c = if self.commit_index >= mi { self.commit_index } else { mi };
        m.node.advance_commit(c);
        let response = RustRaftAppendEntriesResponse {
            term: self.current_term,
            success: true,
            match_index: m.node.match_index(),
            rejection_hint: None,
        };
        let ghost pp = m.pipeline@;
        let ra = m.pipeline.handle_append_response(&response);
        let ghost pa = m.pipeline@;
        m.pipeline.mark_snapshot_rejoin_after_compacted_log();
        self.put_member(i, m, Ghost(before));
        proof {
            self.lemma_exec_wf_after_put(before, i as int, m);
            lemma_pos_unique(mid, i as int);
            assert(append_response_post(mid.pipeline(target), response, pa, ra));
            assert(install_recorded(o.pipeline(target), target, snapshot_index, p));
        }
        self.refresh_cluster_indexes();
        proof {
            let na = appended_all(mid.node(target), es);
            assert(n0 == mid.node(target));
            let cc = if mid.commit_index >= na.match_index() { mid.commit_index } else { na.match_index() };
            let n = na.committed_to(cc);
            assert(m.node.model() == n);
            assert(self@ == mid.with_member(mid.pos(target), n, m.pipeline@).indexes_refreshed());
            let ack = catch_up_ack(mid, target, es);
            assert(response == ack);
            assert(append_response_post(mid.pipeline(target), ack, pa, ra));
            assert(tail_caught_up(mid, target, es, self@));
        }
        Ok(())
    }
}

/// `fin` is `m` after a snapshot with metadata `meta` was installed on
/// replica `target` (see `install_snapshot_to`).
pub open spec fn installed_on(m: ClusterModel, target: u64, meta: SnapshotMetaModel, fin: ClusterModel) -> bool {
    exists|p: PipelineModel|
        #[trigger] install_recorded(m.pipeline(target), target, meta.last_log_id.index, p) && fin == m.with_member(
            m.pos(target),
            m.node(target).with_snapshot(meta),
            p,
        ).indexes_refreshed()
}

/// The answer to a snapshot chunk: accepted, with the next offset.
pub open spec fn chunk_answer(r: RustRaftInstallSnapshotResponse, term: u64, next_offset: u64, reason: Seq<char>) -> bool {
    r.term == term && r.accepted && r.next_offset == next_offset && r.reason@ == reason
}

fn chunk_response(term: u64, next_offset: u64, reason: &str) -> (r: RustRaftInstallSnapshotResponse)
    ensures
        chunk_answer(r, term, next_offset, reason@),
{
    RustRaftInstallSnapshotResponse { term, accepted: true, next_offset, reason: String::from_str(reason) }
}

impl RaftCluster {
    /// Handles a snapshot sent as chunks of an RPC: a chunk that is not the
    /// last is acknowledged (in the larger of the cluster's and the request's
    /// term) and changes nothing; the last one, which must then be the whole
    /// snapshot (offset 0), is installed on `target` with its own fence.
    /// Refused for another group, a last chunk at another offset, or an
    /// unknown replica.
    pub fn install_snapshot_chunk_to(&mut self, target: RustRaftNodeId, request: RustRaftInstallSnapshotRequest) -> (r: Result<
        RustRaftInstallSnapshotResponse,
        RustRaftError,
    >)
        requires
            old(self).wf(),
            request.chunk.offset + request.chunk.data@.len() <= u64::MAX,
            request.chunk.meta.last_log_id.index < u64::MAX,
            old(self)@.has_node(target) ==> pipeline_headroom(old(self)@.pipeline(target)),
        ensures
            final(self).wf(),
            ({
                let o = old(self)@;
                let c = request.chunk;
                let next = (c.offset + c.data@.len()) as u64;
                let term = if o.current_term >= request.term { o.current_term } else { request.term };
                if request.group_id != o.group_id {
                    fails_with(r, ErrorModel::InvalidRequest("snapshot install group id mismatch"@)) && final(self)@ == o
                } else if !c.done {
                    r matches Ok(a) && chunk_answer(a, term, next, "snapshot_chunk_accepted"@) && final(self)@ == o
                } else if c.offset != 0 {
                    fails_with(
                        r,
                        ErrorModel::InvalidRequest(
                            "snapshot chunk offset "@ + decimal_chars(c.offset as nat) + " does not match next offset "@
                                + decimal_chars(0),
                        ),
                    ) && final(self)@ == o
                } else if !o.has_node(target) {
                    fails_with(r, ErrorModel::NodeNotFound(target)) && final(self)@ == o
                } else {
                    r matches Ok(a) && chunk_answer(a, term, next, "snapshot_installed"@) && installed_on(
                        o,
                        target,
                        c.meta.model(),
                        final(self)@,
                    )
                }
            }),
    {
        if request.group_id != self.group_id {
            return Err(invalid_request("snapshot install group id mismatch"));
        }
        let next_offset = request.chunk.offset + request.chunk.data.len() as u64;
        let term = if self.current_term >= request.term { self.current_term } else { request.term };
        if !request.chunk.done {
            return Ok(chunk_response(term, next_offset, "snapshot_chunk_accepted"));
        }
        let ghost meta = request.chunk.meta.model();
        let mut install = RaftSnapshotInstallState::new(request.chunk.meta.duplicate());
        let step = install.install_chunk(request.chunk);
        match step {
            Err(e) => {
                return Err(e);
            },
            Ok(()) => {},
        }
        let snapshot = match install.finish(self.group_id) {
            Err(e) => {
                return Err(e);
            },
            Ok(s) => s,
        };
        let snapshot_index = snapshot.meta.last_log_id.index;
        let fence = RustRaftApplySnapshotFence {
            applied_index: snapshot_index,
            commit_index: snapshot_index,
            installed_snapshot_index: snapshot_index,
            first_retained_log_index: snapshot_index + 1,
        };
        let installed = self.install_snapshot_to(target, snapshot, fence);
        match installed {
            Err(e) => {
                return Err(e);
            },
            Ok(()) => {},
        }
        Ok(chunk_response(term, next_offset, "snapshot_installed"))
    }

    /// Hands a snapshot chunk to `lifecycle`; when it completes the install,
    /// the snapshot is installed on `target` with its own fence. The answer
    /// carries the cluster's term and the next offset. Refused for another
    /// group, when the lifecycle refuses the chunk, or for an unknown replica.
    pub fn install_snapshot_lifecycle_request_to(
        &mut self,
        target: RustRaftNodeId,
        lifecycle: &mut RaftSnapshotLifecycle,
        request: RustRaftInstallSnapshotRequest,
    ) -> (r: Result<RustRaftInstallSnapshotResponse, RustRaftError>)
        requires
            old(self).wf(),
            old(lifecycle).wf(),
            install_request_pre(old(lifecycle)@, request),
            request.chunk.offset + request.chunk.data@.len() <= u64::MAX,
            request.chunk.meta.last_log_id.index < u64::MAX,
            old(self)@.has_node(target) ==> pipeline_headroom(old(self)@.pipeline(target)),
        ensures
            final(self).wf(),
            final(lifecycle).wf(),
            ({
                let o = old(self)@;
                let c = request.chunk;
                let next = (c.offset + c.data@.len()) as u64;
                if request.group_id != o.group_id {
                    fails_with(r, ErrorModel::InvalidRequest("snapshot lifecycle group id mismatch"@)) && final(self)@ == o
                        && final(lifecycle)@ == old(lifecycle)@
                } else {
                    exists|lr: Result<Option<RaftSnapshot>, RustRaftError>|
                        #[trigger] install_request_post(old(lifecycle)@, request, final(lifecycle)@, lr) && match lr {
                            Err(e) => r == Err::<RustRaftInstallSnapshotResponse, RustRaftError>(e) && final(self)@ == o,
                            Ok(None) => r matches Ok(a) && chunk_answer(a, o.current_term, next, "snapshot_chunk_accepted"@)
                                && final(self)@ == o,
                            Ok(Some(snap)) => if !o.has_node(target) {
                                fails_with(r, ErrorModel::NodeNotFound(target)) && final(self)@ == o
                            } else {
                                r matches Ok(a) && chunk_answer(a, o.current_term, next, "snapshot_installed"@)
                                    && installed_on(o, target, snap.meta.model(), final(self)@)
                            },
                        }
                }
            }),
    {
        if request.group_id != self.group_id {
            return Err(invalid_request("snapshot lifecycle group id mismatch"));
        }
        let next_offset = request.chunk.offset + request.chunk.data.len() as u64;
        let ghost req = request;
        let handled = lifecycle.install_request(request);
        proof {
            assert(install_request_post(old(lifecycle)@, req, lifecycle@, handled));
        }
        match handled {
            Err(e) => Err(e),
            Ok(None) => Ok(chunk_response(self.current_term, next_offset, "snapshot_chunk_accepted")),
            Ok(Some(snapshot)) => {
                let snapshot_index = snapshot.meta.last_log_id.index;
                let fence = RustRaftApplySnapshotFence {
                    applied_index: snapshot_index,
                    commit_index: snapshot_index,
                    installed_snapshot_index: snapshot_index,
                    first_retained_log_index: snapshot_index + 1,
                };
                let installed = self.install_snapshot_to(target, snapshot, fence);
                match installed {
                    Err(e) => Err(e),
                    Ok(()) => Ok(chunk_response(self.current_term, next_offset, "snapshot_installed")),
                }
            },
        }
    }
}

impl RaftCluster {
    /// What taking member `i` out shows of it.
    proof fn lemma_member_taken(&self, before: RaftCluster, i: int, m: Member)
        requires
            before.wf(),
            0 <= i < before.members@.len(),
            m == before.members@[i],
        ensures
            m.pipeline.wf(),
            m.pipeline@ == before@.pipelines[i],
            m.node.model() == before@.nodes[i],
            m.pipeline@.peer_id == m.node.id,
            m.pipeline@.limits == RustRaftPipelineLimits::spec_production_default(),
            before@.pos(m.node.id) == i,
            before@.has_node(m.node.id),
    {
        assert(before@.nodes[i] == before.members@[i].node.model());
        assert(before@.pipelines[i] == before.members@[i].pipeline@);
        assert(before@.pipelines[i].peer_id == before@.nodes[i].id);
        assert(before@.pipelines[i].limits == RustRaftPipelineLimits::spec_production_default());
        lemma_pos_unique(before@, i);
    }

    /// Hands an entry that arrived out of order to the pipeline of `peer_id` (see `receive_out_of_order`); refused for an unknown replica.
    pub fn receive_out_of_order_append_for(&mut self, peer_id: RustRaftNodeId, entry: RustRaftLogEntry) -> (r: Result<(), RustRaftError>)
        requires
            old(self).wf(),
            old(self)@.has_node(peer_id) ==> out_of_order_pre(old(self)@.pipeline(peer_id), entry),
        ensures
            final(self).wf(),
            !old(self)@.has_node(peer_id) ==> fails_with(r, ErrorModel::NodeNotFound(peer_id)) && final(self)@ == old(self)@,
            old(self)@.has_node(peer_id) ==> out_of_order_post(old(self)@.pipeline(peer_id), entry, final(self)@.pipeline(peer_id), r) && final(self)@ == old(self)@.with_member(
                old(self)@.pos(peer_id),
                old(self)@.node(peer_id),
                final(self)@.pipeline(peer_id),
            ),
    {
        let i = match self.find(peer_id) {
            None => {
                return Err(RustRaftError::NodeNotFound(peer_id));
            },
            Some(i) => i,
        };
        let ghost before = *self;
        let mut m = self.take_member(i);
        proof {
            self.lemma_member_taken(before, i as int, m);
        }
        let r = m.pipeline.receive_out_of_order(entry);
        self.put_member(i, m, Ghost(before));
        proof {
            self.lemma_exec_wf_after_put(before, i as int, m);
            lemma_pos_unique(self@, i as int);
        }
        r
    }

    /// Drops what waits in the reorder queue of `peer_id`'s pipeline and returns how many entries it dropped; refused for an unknown replica.
    pub fn expire_peer_reorder_queue(&mut self, peer_id: RustRaftNodeId) -> (r: Result<u64, RustRaftError>)
        requires
            old(self).wf(),
            old(self)@.has_node(peer_id) ==> expire_pre(old(self)@.pipeline(peer_id)),
        ensures
            final(self).wf(),
            !old(self)@.has_node(peer_id) ==> fails_with(r, ErrorModel::NodeNotFound(peer_id)) && final(self)@ == old(self)@,
            old(self)@.has_node(peer_id) ==> (r matches Ok(k) && expire_post(old(self)@.pipeline(peer_id), final(self)@.pipeline(peer_id), k)) && final(self)@ == old(self)@.with_member(
                old(self)@.pos(peer_id),
                old(self)@.node(peer_id),
                final(self)@.pipeline(peer_id),
            ),
    {
        let i = match self.find(peer_id) {
            None => {
                return Err(RustRaftError::NodeNotFound(peer_id));
            },
            Some(i) => i,
        };
        let ghost before = *self;
        let mut m = self.take_member(i);
        proof {
            self.lemma_member_taken(before, i as int, m);
        }
        let r = m.pipeline.expire_reorder_queue();
        self.put_member(i, m, Ghost(before));
        proof {
            self.lemma_exec_wf_after_put(before, i as int, m);
            lemma_pos_unique(self@, i as int);
        }
        Ok(r)
    }

    /// Starts sending snapshot `snapshot_id` to `peer_id` (see `begin_snapshot_send`); refused for an unknown replica.
    pub fn begin_snapshot_send_to(&mut self, peer_id: RustRaftNodeId, snapshot_id: String, snapshot_index: RustRaftLogIndex, total_chunks: u64) -> (r: Result<(), RustRaftError>)
        requires
            old(self).wf(),
            old(self)@.has_node(peer_id) ==> begin_send_pre(old(self)@.pipeline(peer_id)),
        ensures
            final(self).wf(),
            !old(self)@.has_node(peer_id) ==> fails_with(r, ErrorModel::NodeNotFound(peer_id)) && final(self)@ == old(self)@,
            old(self)@.has_node(peer_id) ==> begin_send_post(old(self)@.pipeline(peer_id), snapshot_id, snapshot_index, total_chunks, final(self)@.pipeline(peer_id), r) && final(self)@ == old(self)@.with_member(
                old(self)@.pos(peer_id),
                old(self)@.node(peer_id),
                final(self)@.pipeline(peer_id),
            ),
    {
        let i = match self.find(peer_id) {
            None => {
                return Err(RustRaftError::NodeNotFound(peer_id));
            },
            Some(i) => i,
        };
        let ghost before = *self;
        let mut m = self.take_member(i);
        proof {
            self.lemma_member_taken(before, i as int, m);
        }
        let r = m.pipeline.begin_snapshot_send(snapshot_id, snapshot_index, total_chunks);
        self.put_member(i, m, Ghost(before));
        proof {
            self.lemma_exec_wf_after_put(before, i as int, m);
            lemma_pos_unique(self@, i as int);
        }
        r
    }

    /// Records a snapshot chunk of `bytes` sent to `peer_id`; refused for an unknown replica.
    pub fn record_snapshot_chunk_sent_to(&mut self, peer_id: RustRaftNodeId, bytes: u64) -> (r: Result<(), RustRaftError>)
        requires
            old(self).wf(),
            old(self)@.has_node(peer_id) ==> chunk_sent_pre(old(self)@.pipeline(peer_id), bytes),
        ensures
            final(self).wf(),
            !old(self)@.has_node(peer_id) ==> fails_with(r, ErrorModel::NodeNotFound(peer_id)) && final(self)@ == old(self)@,
            old(self)@.has_node(peer_id) ==> chunk_sent_post(old(self)@.pipeline(peer_id), bytes, final(self)@.pipeline(peer_id), r) && final(self)@ == old(self)@.with_member(
                old(self)@.pos(peer_id),
                old(self)@.node(peer_id),
                final(self)@.pipeline(peer_id),
            ),
    {
        let i = match self.find(peer_id) {
            None => {
                return Err(RustRaftError::NodeNotFound(peer_id));
            },
            Some(i) => i,
        };
        let ghost before = *self;
        let mut m = self.take_member(i);
        proof {
            self.lemma_member_taken(before, i as int, m);
        }
        let r = m.pipeline.record_snapshot_chunk_sent(bytes);
        self.put_member(i, m, Ghost(before));
        proof {
            self.lemma_exec_wf_after_put(before, i as int, m);
            lemma_pos_unique(self@, i as int);
        }
        r
    }

    /// Records that `peer_id` acknowledged a snapshot chunk; refused for an unknown replica.
    pub fn acknowledge_snapshot_chunk_to(&mut self, peer_id: RustRaftNodeId) -> (r: Result<(), RustRaftError>)
        requires
            old(self).wf(),
            old(self)@.has_node(peer_id) ==> chunk_acknowledged_pre(old(self)@.pipeline(peer_id)),
        ensures
            final(self).wf(),
            !old(self)@.has_node(peer_id) ==> fails_with(r, ErrorModel::NodeNotFound(peer_id)) && final(self)@ == old(self)@,
            old(self)@.has_node(peer_id) ==> chunk_acknowledged_post(old(self)@.pipeline(peer_id), final(self)@.pipeline(peer_id), r) && final(self)@ == old(self)@.with_member(
                old(self)@.pos(peer_id),
                old(self)@.node(peer_id),
                final(self)@.pipeline(peer_id),
            ),
    {
        let i = match self.find(peer_id) {
            None => {
                return Err(RustRaftError::NodeNotFound(peer_id));
            },
            Some(i) => i,
        };
        let ghost before = *self;
        let mut m = self.take_member(i);
        proof {
            self.lemma_member_taken(before, i as int, m);
        }
        let r = m.pipeline.acknowledge_snapshot_chunk();
        self.put_member(i, m, Ghost(before));
        proof {
            self.lemma_exec_wf_after_put(before, i as int, m);
            lemma_pos_unique(self@, i as int);
        }
        r
    }

    /// Starts installing snapshot `snapshot_id` from `peer_id` (see `begin_snapshot_install`); refused for an unknown replica.
    pub fn begin_snapshot_install_from(&mut self, peer_id: RustRaftNodeId, snapshot_id: String, snapshot_index: RustRaftLogIndex, total_chunks: u64) -> (r: Result<(), RustRaftError>)
        requires
            old(self).wf(),
            old(self)@.has_node(peer_id) ==> begin_install_pre(old(self)@.pipeline(peer_id)),
        ensures
            final(self).wf(),
            !old(self)@.has_node(peer_id) ==> fails_with(r, ErrorModel::NodeNotFound(peer_id)) && final(self)@ == old(self)@,
            old(self)@.has_node(peer_id) ==> begin_install_post(old(self)@.pipeline(peer_id), snapshot_id, snapshot_index, total_chunks, final(self)@.pipeline(peer_id), r) && final(self)@ == old(self)@.with_member(
                old(self)@.pos(peer_id),
                old(self)@.node(peer_id),
                final(self)@.pipeline(peer_id),
            ),
    {
        let i = match self.find(peer_id) {
            None => {
                return Err(RustRaftError::NodeNotFound(peer_id));
            },
            Some(i) => i,
        };
        let ghost before = *self;
        let mut m = self.take_member(i);
        proof {
            self.lemma_member_taken(before, i as int, m);
        }
        let r = m.pipeline.begin_snapshot_install(snapshot_id, snapshot_index, total_chunks);
        self.put_member(i, m, Ghost(before));
        proof {
            self.lemma_exec_wf_after_put(before, i as int, m);
            lemma_pos_unique(self@, i as int);
        }
        r
    }

    /// Records a snapshot chunk of `bytes` received from `peer_id`, the last one when `done`; refused for an unknown replica.
    pub fn receive_snapshot_chunk_from(&mut self, peer_id: RustRaftNodeId, bytes: u64, done: bool) -> (r: Result<(), RustRaftError>)
        requires
            old(self).wf(),
            old(self)@.has_node(peer_id) ==> chunk_received_pre(old(self)@.pipeline(peer_id), bytes, done),
        ensures
            final(self).wf(),
            !old(self)@.has_node(peer_id) ==> fails_with(r, ErrorModel::NodeNotFound(peer_id)) && final(self)@ == old(self)@,
            old(self)@.has_node(peer_id) ==> chunk_received_post(old(self)@.pipeline(peer_id), bytes, done, final(self)@.pipeline(peer_id), r) && final(self)@ == old(self)@.with_member(
                old(self)@.pos(peer_id),
                old(self)@.node(peer_id),
                final(self)@.pipeline(peer_id),
            ),
    {
        let i = match self.find(peer_id) {
            None => {
                return Err(RustRaftError::NodeNotFound(peer_id));
            },
            Some(i) => i,
        };
        let ghost before = *self;
        let mut m = self.take_member(i);
        proof {
            self.lemma_member_taken(before, i as int, m);
        }
        let r = m.pipeline.receive_snapshot_chunk(bytes, done);
        self.put_member(i, m, Ghost(before));
        proof {
            self.lemma_exec_wf_after_put(before, i as int, m);
            lemma_pos_unique(self@, i as int);
        }
        r
    }

}

/// The statuses of the pipelines of every replica but the leader, in order
/// of id.
pub open spec fn follower_statuses(nodes: Seq<NodeModel>, pipelines: Seq<PipelineModel>, leader: Option<u64>) -> Seq<
    RustRaftPeerPipelineStatus,
>
    decreases nodes.len(),
{
    if nodes.len() == 0 || pipelines.len() != nodes.len() {
        seq![]
    } else {
        let r = follower_statuses(nodes.drop_last(), pipelines.drop_last(), leader);
        if Some(nodes.last().id) != leader {
            r.push(pipelines.last().status)
        } else {
            r
        }
    }
}

/// How many entries the replicas hold in all.
pub open spec fn total_log_len(nodes: Seq<NodeModel>) -> nat
    decreases nodes.len(),
{
    if nodes.len() == 0 {
        0
    } else {
        total_log_len(nodes.drop_last()) + nodes.last().log.len()
    }
}

/// How many entries at or below `index` the replicas hold in all.
pub open spec fn compacted_total(nodes: Seq<NodeModel>, index: u64) -> nat
    decreases nodes.len(),
{
    if nodes.len() == 0 {
        0
    } else {
        compacted_total(nodes.drop_last(), index) + (nodes.last().log.len() - entries_above(nodes.last().log, index).len()) as nat
    }
}

proof fn lemma_compacted_total_le(nodes: Seq<NodeModel>, index: u64)
    ensures
        compacted_total(nodes, index) <= total_log_len(nodes),
    decreases nodes.len(),
{
    if nodes.len() > 0 {
        lemma_compacted_total_le(nodes.drop_last(), index);
        lemma_entries_above_len(nodes.last().log, index);
    }
}

impl RaftCluster {
    /// The cluster's status report: every replica's status, in order of id,
    /// judged by the report builder. Every replica reports the others with
    /// the index after their match index, so all match indexes are below the
    /// largest index.
    pub fn cluster_status_report(&self) -> (r: Result<RaftClusterStatusReport, RustRaftError>)
        requires
            self.wf(),
            self@.matches_below_max(),
        ensures
            r matches Ok(rep) && rep.nodes@.len() == self@.nodes.len() && (forall|i: int|
                0 <= i < self@.nodes.len() ==> (#[trigger] rep.nodes@[i]).model() == self@.status_of(self@.nodes[i].id))
                && cluster_report_post(self@.group_id, self@.leader_id, rep.nodes, rep),
    {
        let ids = self.node_ids();
        let count = self.members.len();
        let mut statuses: Vec<RustRaftStatusSnapshot> = Vec::new();
        let mut i: usize = 0;
        while i < ids.len()
            invariant
                self.wf(),
                self@.matches_below_max(),
                ids@ == self@.ids(),
                ids@.len() == self@.nodes.len(),
                count == self@.nodes.len(),
                i <= ids@.len(),
                statuses@.len() == i,
                forall|j: int| 0 <= j < i ==> (#[trigger] statuses@[j]).model() == self@.status_of(self@.nodes[j].id),
            decreases ids@.len() - i,
        {
            proof {
                assert(ids@[i as int] == self@.nodes[i as int].id);
                lemma_pos_unique(self@, i as int);
            }
            let st = self.status(ids[i]);
            let st = match st {
                Ok(st) => st,
                Err(e) => {
                    return Err(e);
                },
            };
            statuses.push(st);
            i = i + 1;
        }
        Ok(rustraft_cluster_status_report(self.group_id, self.leader_id, statuses))
    }

    /// The status of `peer_id`'s pipeline; refused for an unknown replica.
    pub fn peer_pipeline_status(&self, peer_id: RustRaftNodeId) -> (r: Result<RustRaftPeerPipelineStatus, RustRaftError>)
        requires
            self.wf(),
        ensures
            !self@.has_node(peer_id) ==> r == Err::<RustRaftPeerPipelineStatus, RustRaftError>(RustRaftError::NodeNotFound(peer_id)),
            self@.has_node(peer_id) ==> r == Ok::<RustRaftPeerPipelineStatus, RustRaftError>(self@.pipeline(peer_id).status),
    {
        match self.find(peer_id) {
            None => Err(RustRaftError::NodeNotFound(peer_id)),
            Some(i) => {
                proof {
                    assert(self@.pipelines[i as int] == self.members@[i as int].pipeline@);
                }
                Ok(self.members[i].pipeline.status())
            },
        }
    }

    /// The statuses of the pipelines of every replica but the leader, in
    /// order of id.
    pub fn peer_pipeline_statuses(&self) -> (r: Vec<RustRaftPeerPipelineStatus>)
        requires
            self.wf(),
        ensures
            r@ == follower_statuses(self@.nodes, self@.pipelines, self@.leader_id),
    {
        let ghost m = self@;
        let mut out: Vec<RustRaftPeerPipelineStatus> = Vec::new();
        let mut i: usize = 0;
        while i < self.members.len()
            invariant
                m == self@,
                self.wf(),
                i <= self.members@.len(),
                out@ == follower_statuses(m.nodes.take(i as int), m.pipelines.take(i as int), m.leader_id),
            decreases self.members@.len() - i,
        {
            proof {
                assert(m.nodes.take(i + 1).drop_last() =~= m.nodes.take(i as int));
                assert(m.pipelines.take(i + 1).drop_last() =~= m.pipelines.take(i as int));
                assert(m.nodes.take(i + 1).last() == self.members@[i as int].node.model());
                assert(m.pipelines.take(i + 1).last() == self.members@[i as int].pipeline@);
            }
            if Some(self.members[i].node.id) != self.leader_id {
                out.push(self.members[i].pipeline.status());
            }
            i = i + 1;
        }
        proof {
            assert(m.nodes.take(self.members@.len() as int) =~= m.nodes);
            assert(m.pipelines.take(self.members@.len() as int) =~= m.pipelines);
        }
        out
    }

    /// Drops from every replica's log the entries at or below `log_index`,
    /// recomputes the indexes, and returns how many entries were dropped.
    pub fn compact_logs_through(&mut self, log_index: RustRaftLogIndex) -> (r: u64)
        requires
            old(self).wf(),
            total_log_len(old(self)@.nodes) <= u64::MAX,
        ensures
            final(self).wf(),
            r == compacted_total(old(self)@.nodes, log_index),
            final(self)@ == (ClusterModel {
                nodes: old(self)@.nodes.map_values(|n: NodeModel| NodeModel { log: entries_above(n.log, log_index), ..n }),
                ..old(self)@
            }).indexes_refreshed(),
    {
        let ghost start = *self;
        let ghost nodes = self@.nodes;
        let n = self.members.len();
        let mut removed: u64 = 0;
        let mut i: usize = 0;
        while i < n
            invariant
                start.wf(),
                nodes == start@.nodes,
                total_log_len(nodes) <= u64::MAX,
                n == start.members@.len(),
                i <= n,
                self.members@.len() == n,
                self.group_id == start.group_id,
                self.config == start.config,
                self.leader_id == start.leader_id,
                self.current_term == start.current_term,
                self.commit_index == start.commit_index,
                self.applied_index == start.applied_index,
                self.last_log_index == start.last_log_index,
                self.running == start.running,
                self.leader_lease_valid == start.leader_lease_valid,
                removed == compacted_total(nodes.take(i as int), log_index),
                forall|j: int| 0 <= j < i ==> (#[trigger] self.members@[j]).node.model() == (NodeModel {
                    log: entries_above(start.members@[j].node.model().log, log_index),
                    ..start.members@[j].node.model()
                }) && self.members@[j].pipeline == start.members@[j].pipeline,
                forall|j: int| i <= j < n ==> #[trigger] self.members@[j] == start.members@[j],
            decreases n - i,
        {
            proof {
                assert(nodes.take(i + 1).drop_last() =~= nodes.take(i as int));
                assert(nodes.take(i + 1).last() == start.members@[i as int].node.model());
                lemma_compacted_total_le(nodes.take(i + 1), log_index);
                lemma_total_log_len_prefix(nodes, i + 1);
            }
            let ghost before = *self;
            let mut m = self.take_member(i);
            let dropped = m.node.compact_log_through(log_index);
            removed = removed + dropped;
            self.put_member(i, m, Ghost(before));
            i = i + 1;
        }
        proof {
            assert(nodes.take(n as int) =~= nodes);
            let target = nodes.map_values(|x: NodeModel| NodeModel { log: entries_above(x.log, log_index), ..x });
            assert(self@.nodes =~= target) by {
                assert forall|j: int| 0 <= j < n implies self@.nodes[j] == target[j] by {
                    assert(start@.nodes[j] == start.members@[j].node.model());
                }
            }
            assert(self@.pipelines =~= start@.pipelines) by {
                assert forall|j: int| 0 <= j < n implies self@.pipelines[j] == start@.pipelines[j] by {
                    assert(self.members@[j].pipeline == start.members@[j].pipeline);
                }
            }
            lemma_same_ids(start@, target);
            assert forall|j: int| 0 <= j < n implies (#[trigger] self.members@[j]).pipeline.wf() by {
                assert(start.members@[j].pipeline.wf());
            }
        }
        self.refresh_cluster_indexes();
        removed
    }

    /// What a checkpoint of replica `node_id` is made of: metadata naming
    /// `snapshot_id`, the replica's term and the larger of its commit and
    /// match indexes, with the replica ids as membership; and a copy of the
    /// replica's log, whose encoding becomes the payload. Refused for an
    /// unknown replica.
    pub fn checkpoint_source(&self, node_id: RustRaftNodeId, snapshot_id: String) -> (r: Result<
        (RustRaftSnapshotMeta, Vec<RustRaftLogEntry>),
        RustRaftError,
    >)
        requires
            self.wf(),
        ensures
            !self@.has_node(node_id) ==> fails_with(r, ErrorModel::NodeNotFound(node_id)),
            self@.has_node(node_id) ==> (r matches Ok((meta, log)) && {
                let n = self@.node(node_id);
                &&& meta.snapshot_id@ == snapshot_id@
                &&& meta.last_log_id == RustRaftLogId {
                    term: n.hard_state.current_term,
                    index: if n.commit_index >= n.match_index() { n.commit_index } else { n.match_index() },
                }
                &&& meta.membership@ == self@.ids()
                &&& entry_models(log@) == n.log
            }),
    {
        let i = match self.find(node_id) {
            None => {
                return Err(RustRaftError::NodeNotFound(node_id));
            },
            Some(i) => i,
        };
        proof {
            assert(self@.nodes[i as int] == self.members@[i as int].node.model());
        }
        let node = &self.members[i].node;
        let mi = node.match_index();
        let index = if node.commit_index >= mi { node.commit_index } else { mi };
        let copy = node.duplicate();
        let meta = RustRaftSnapshotMeta {
            snapshot_id,
            last_log_id: RustRaftLogId { term: node.hard_state.current_term, index },
            membership: self.node_ids(),
        };
        Ok((meta, copy.log))
    }
}

proof fn lemma_total_log_len_prefix(nodes: Seq<NodeModel>, i: int)
    requires
        0 <= i <= nodes.len(),
    ensures
        total_log_len(nodes.take(i)) <= total_log_len(nodes),
    decreases nodes.len(),
{
    if i < nodes.len() {
        assert(nodes.drop_last().take(i) =~= nodes.take(i));
        lemma_total_log_len_prefix(nodes.drop_last(), i);
    } else {
        assert(nodes.take(i) =~= nodes);
    }
}

/// Once some value of `rest` is reached by `k` values of `all`, the chosen
/// value is one of `rest`, reached by `k` values of `all`, and no smaller
/// than any other value of `rest` that is.
proof fn lemma_max_reached_by(rest: Seq<u64>, all: Seq<u64>, k: nat)
    ensures
        (exists|j: int| 0 <= j < rest.len() && count_at_least(all, #[trigger] rest[j]) >= k) ==> {
            let x = max_reached_by(rest, all, k);
            &&& rest.contains(x)
            &&& count_at_least(all, x) >= k
        },
        !(exists|j: int| 0 <= j < rest.len() && count_at_least(all, #[trigger] rest[j]) >= k) ==> max_reached_by(rest, all, k) == 0,
        forall|j: int| 0 <= j < rest.len() && count_at_least(all, #[trigger] rest[j]) >= k ==> rest[j] <= max_reached_by(rest, all, k),
    decreases rest.len(),
{
    if rest.len() > 0 {
        let init = rest.drop_last();
        let last = rest.last();
        lemma_max_reached_by(init, all, k);
        let r = max_reached_by(init, all, k);
        let x = max_reached_by(rest, all, k);
        assert(x >= r);
        assert forall|j: int| 0 <= j < init.len() implies #[trigger] init[j] == rest[j] by {}
        assert(rest[rest.len() - 1] == last);
        let init_has = exists|j: int| 0 <= j < init.len() && count_at_least(all, #[trigger] init[j]) >= k;
        if init_has {
            let j = choose|j: int| 0 <= j < init.len() && count_at_least(all, #[trigger] init[j]) >= k;
            assert(count_at_least(all, rest[j]) >= k);
            assert(init.contains(r));
            let w = choose|w: int| 0 <= w < init.len() && init[w] == r;
            assert(rest[w] == r);
            if x == last {
                assert(rest.contains(x));
            } else {
                assert(rest.contains(x));
            }
        } else {
            assert(r == 0);
            if count_at_least(all, last) >= k {
                assert(rest.contains(last));
                assert(x == last || (x == r && last <= r));
                if x != last {
                    assert(last == 0);
                }
            } else {
                assert(x == 0);
                assert forall|j: int| 0 <= j < rest.len() implies count_at_least(all, #[trigger] rest[j]) < k by {
                    if j < init.len() {
                        assert(rest[j] == init[j]);
                    }
                }
            }
        }
        assert forall|j: int| 0 <= j < rest.len() && count_at_least(all, #[trigger] rest[j]) >= k implies rest[j] <= x by {
            if j < init.len() {
                assert(rest[j] == init[j]);
            }
        }
    }
}

/// The smallest value of `s` is reached by all of its values.
proof fn lemma_count_at_least_min(s: Seq<u64>, x: u64)
    requires
        forall|j: int| 0 <= j < s.len() ==> #[trigger] s[j] >= x,
    ensures
        count_at_least(s, x) == s.len(),
    decreases s.len(),
{
    if s.len() > 0 {
        assert forall|j: int| 0 <= j < s.len() - 1 implies #[trigger] s.drop_last()[j] >= x by {
            assert(s.drop_last()[j] == s[j]);
        }
        lemma_count_at_least_min(s.drop_last(), x);
        assert(s.last() == s[s.len() - 1]);
    }
}

/// A sequence that is not empty has a smallest value.
proof fn lemma_seq_min(s: Seq<u64>) -> (j: int)
    requires
        s.len() > 0,
    ensures
        0 <= j < s.len(),
        forall|i: int| 0 <= i < s.len() ==> #[trigger] s[i] >= s[j],
    decreases s.len(),
{
    if s.len() == 1 {
        0
    } else {
        let k = lemma_seq_min(s.drop_last());
        assert forall|i: int| 0 <= i < s.len() - 1 implies #[trigger] s[i] == s.drop_last()[i] by {}
        if s.last() < s[k] {
            (s.len() - 1) as int
        } else {
            k
        }
    }
}

/// The index a proposal commits is held by a quorum: it is the match index
/// of a healthy replica that counts for the quorum, at least a quorum of
/// them (all of them when fewer are healthy) hold it, and no larger index is
/// held by that many.
pub proof fn law_commit_index_held_by_quorum(nodes: Seq<NodeModel>)
    requires
        quorum_candidates(nodes).len() > 0,
    ensures
        ({
            let c = quorum_candidates(nodes);
            let q = quorum_size(nodes);
            let k = if c.len() >= q { q } else { c.len() };
            &&& c.contains(quorum_index(nodes))
            &&& count_at_least(c, quorum_index(nodes)) >= k
            &&& forall|j: int| 0 <= j < c.len() && count_at_least(c, #[trigger] c[j]) >= k ==> c[j] <= quorum_index(nodes)
        }),
{
    let c = quorum_candidates(nodes);
    let q = quorum_size(nodes);
    let k = if c.len() >= q { q } else { c.len() };
    let m = lemma_seq_min(c);
    lemma_count_at_least_min(c, c[m]);
    lemma_max_reached_by(c, c, k);
}

/// The consensus surface a node offers: lifecycle, writes, reads,
/// membership changes, leadership and snapshots. Each call is described by
/// the implementation through a spec function relating the engine before
/// the call, the arguments, the engine after it and the result.
pub trait RustRaftConsensus: Sized {
    /// Whether the engine is in a state in which every call is defined.
    spec fn consensus_ready(&self) -> bool;

    spec fn started(&self, after: Self, r: Result<(), RustRaftError>) -> bool;

    spec fn stopped(&self, after: Self, r: Result<(), RustRaftError>) -> bool;

    spec fn status_answer(&self, r: Result<RustRaftStatusSnapshot, RustRaftError>) -> bool;

    spec fn proposal_outcome(
        &self,
        payload: RustRaftPayload,
        options: RustRaftProposeOptions,
        after: Self,
        r: Result<RustRaftLogId, RustRaftError>,
    ) -> bool;

    spec fn read_answer_of(&self, min_commit_index: RustRaftLogIndex, r: Result<RustRaftReadIndexResponse, RustRaftError>) -> bool;

    spec fn peer_added(&self, peer: RustRaftPeer, after: Self, r: Result<(), RustRaftError>) -> bool;

    spec fn learner_added(&self, peer: RustRaftPeer, after: Self, r: Result<(), RustRaftError>) -> bool;

    spec fn peer_promoted(&self, node_id: RustRaftNodeId, after: Self, r: Result<(), RustRaftError>) -> bool;

    spec fn witness_added(&self, peer: RustRaftPeer, after: Self, r: Result<(), RustRaftError>) -> bool;

    spec fn peer_removed(&self, node_id: RustRaftNodeId, after: Self, r: Result<(), RustRaftError>) -> bool;

    spec fn leadership_transferred(&self, target: RustRaftNodeId, after: Self, r: Result<(), RustRaftError>) -> bool;

    spec fn campaign_outcome(&self, forced: bool, after: Self, r: Result<(), RustRaftError>) -> bool;

    spec fn snapshot_triggered(&self, after: Self, r: Result<RustRaftSnapshotMeta, RustRaftError>) -> bool;

    fn start(&mut self) -> (r: Result<(), RustRaftError>)
        requires
            old(self).consensus_ready(),
        ensures
            old(self).started(*final(self), r),
    ;

    fn stop(&mut self) -> (r: Result<(), RustRaftError>)
        requires
            old(self).consensus_ready(),
        ensures
            old(self).stopped(*final(self), r),
    ;

    fn status(&self) -> (r: Result<RustRaftStatusSnapshot, RustRaftError>)
        requires
            self.consensus_ready(),
        ensures
            self.status_answer(r),
    ;

    fn propose(&mut self, payload: RustRaftPayload, options: RustRaftProposeOptions) -> (r: Result<RustRaftLogId, RustRaftError>)
        requires
            old(self).consensus_ready(),
        ensures
            old(self).proposal_outcome(payload, options, *final(self), r),
    ;

    fn read_index(&self, min_commit_index: RustRaftLogIndex) -> (r: Result<RustRaftReadIndexResponse, RustRaftError>)
        requires
            self.consensus_ready(),
        ensures
            self.read_answer_of(min_commit_index, r),
    ;

    fn add_peer(&mut self, peer: RustRaftPeer) -> (r: Result<(), RustRaftError>)
        requires
            old(self).consensus_ready(),
        ensures
            old(self).peer_added(peer, *final(self), r),
    ;

    fn add_learner(&mut self, peer: RustRaftPeer) -> (r: Result<(), RustRaftError>)
        requires
            old(self).consensus_ready(),
        ensures
            old(self).learner_added(peer, *final(self), r),
    ;

    fn promote_peer(&mut self, node_id: RustRaftNodeId) -> (r: Result<(), RustRaftError>)
        requires
            old(self).consensus_ready(),
        ensures
            old(self).peer_promoted(node_id, *final(self), r),
    ;

    fn add_witness(&mut self, peer: RustRaftPeer) -> (r: Result<(), RustRaftError>)
        requires
            old(self).consensus_ready(),
        ensures
            old(self).witness_added(peer, *final(self), r),
    ;

    fn remove_peer(&mut self, node_id: RustRaftNodeId) -> (r: Result<(), RustRaftError>)
        requires
            old(self).consensus_ready(),
        ensures
            old(self).peer_removed(node_id, *final(self), r),
    ;

    fn transfer_leader(&mut self, target: RustRaftNodeId) -> (r: Result<(), RustRaftError>)
        requires
            old(self).consensus_ready(),
        ensures
            old(self).leadership_transferred(target, *final(self), r),
    ;

    fn campaign(&mut self, forced: bool) -> (r: Result<(), RustRaftError>)
        requires
            old(self).consensus_ready(),
        ensures
            old(self).campaign_outcome(forced, *final(self), r),
    ;

    fn trigger_snapshot(&mut self) -> (r: Result<RustRaftSnapshotMeta, RustRaftError>)
        requires
            old(self).consensus_ready(),
        ensures
            old(self).snapshot_triggered(*final(self), r),
    ;
}

/// The message of a proposal made for another term.
pub open spec fn term_mismatch_message(expected: u64, current: u64) -> Seq<char> {
    "expected term "@ + decimal_chars(expected as nat) + " does not match current term "@ + decimal_chars(current as nat)
}

/// The id of a snapshot triggered at commit index `commit` of group `group`.
pub open spec fn triggered_snapshot_id(group: u64, commit: u64) -> Seq<char> {
    decimal_chars(group as nat) + "-"@ + decimal_chars(commit as nat)
}

/// The first replica that can lead, healthy or not.
pub open spec fn first_leader_capable(nodes: Seq<NodeModel>) -> Option<int>
    decreases nodes.len(),
{
    if nodes.len() == 0 {
        None
    } else if nodes[0].replica_role.spec_can_be_leader() {
        Some(0)
    } else {
        match first_leader_capable(nodes.drop_first()) {
            Some(k) => Some(k + 1),
            None => None,
        }
    }
}

proof fn lemma_first_leader_capable(nodes: Seq<NodeModel>)
    ensures
        match first_leader_capable(nodes) {
            Some(k) => 0 <= k < nodes.len() && nodes[k].replica_role.spec_can_be_leader() && forall|j: int|
                0 <= j < k ==> !(#[trigger] nodes[j]).replica_role.spec_can_be_leader(),
            None => forall|j: int| 0 <= j < nodes.len() ==> !(#[trigger] nodes[j]).replica_role.spec_can_be_leader(),
        },
    decreases nodes.len(),
{
    if nodes.len() > 0 {
        lemma_first_leader_capable(nodes.drop_first());
        assert forall|j: int| 1 <= j < nodes.len() implies nodes[j] == nodes.drop_first()[j - 1] by {}
    }
}

/// Room for any call: every counter, index and term is small.
proof fn lemma_headroom_room(m: ClusterModel)
    requires
        m.headroom(),
    ensures
        m.acks_have_room(),
        m.current_term < u64::MAX,
        m.last_log_index < u64::MAX,
{
    assert forall|i: int| 0 <= i < m.pipelines.len() implies (#[trigger] m.pipelines[i]).status.append_accepted < u64::MAX by {
        assert(pipeline_headroom(m.pipelines[i]));
    }
}

impl RustRaftConsensus for RaftCluster {
    /// The cluster keeps its invariant and has room in every counter.
    open spec fn consensus_ready(&self) -> bool {
        self.wf() && self@.headroom()
    }

    /// What `start` does (see `RaftCluster::start`).
    open spec fn started(&self, after: Self, r: Result<(), RustRaftError>) -> bool {
        &&& after.wf()
        &&& ({
            let running = ClusterModel { running: true, ..self@ };
            if self@.leader_id is Some {
                r is Ok && after@ == running
            } else {
                match first_eligible(self@.nodes) {
                    None => fails_with(r, ErrorModel::InvalidRequest("no healthy voter"@)) && after@ == running,
                    Some(k) => r is Ok && ClusterModel::campaigned(running, self@.nodes[k].id, after@),
                }
            }
        })
    }

    /// What `stop` does (see `RaftCluster::stop`).
    open spec fn stopped(&self, after: Self, r: Result<(), RustRaftError>) -> bool {
        &&& after.wf()
        &&& r is Ok
        &&& after@ == (ClusterModel { running: false, leader_lease_valid: false, ..self@ })
    }

    /// What `add_peer` does (see `RaftCluster::add_peer`).
    open spec fn peer_added(&self, peer: RustRaftPeer, after: Self, r: Result<(), RustRaftError>) -> bool {
        &&& after.wf()
        &&& self@.has_node(peer.node_id) ==> fails_with(
            r,
            ErrorModel::InvalidRequest(duplicate_message(peer.node_id)),
        ) && after@ == self@
        &&& !self@.has_node(peer.node_id) ==> r is Ok && exists|k: int|
            0 <= k <= self@.nodes.len() && ClusterModel::pipelines_refreshed(
                #[trigger] self@.inserted(
                    k,
                    NodeModel::fresh(peer.node_id, peer.role),
                    PipelineModel::fresh(
                        peer.node_id,
                        (self@.last_log_index + 1) as u64,
                        RustRaftPipelineLimits::spec_production_default(),
                    ),
                ),
                after@,
            )
    }

    /// What `add_learner` does (see `RaftCluster::add_learner`).
    open spec fn learner_added(&self, peer: RustRaftPeer, after: Self, r: Result<(), RustRaftError>) -> bool {
        &&& after.wf()
        &&& self@.has_node(peer.node_id) ==> fails_with(
            r,
            ErrorModel::InvalidRequest(duplicate_message(peer.node_id)),
        ) && after@ == self@
        &&& !self@.has_node(peer.node_id) ==> r is Ok && exists|k: int|
            0 <= k <= self@.nodes.len() && ClusterModel::pipelines_refreshed(
                #[trigger] self@.inserted(
                    k,
                    NodeModel::fresh(peer.node_id, RustRaftReplicaRole::Learner),
                    PipelineModel::fresh(
                        peer.node_id,
                        (self@.last_log_index + 1) as u64,
                        RustRaftPipelineLimits::spec_production_default(),
                    ),
                ),
                after@,
            )
    }

    /// What `promote_peer` does (see `RaftCluster::promote_peer`).
    open spec fn peer_promoted(&self, node_id: RustRaftNodeId, after: Self, r: Result<(), RustRaftError>) -> bool {
        &&& after.wf()
        &&& !self@.has_node(node_id) ==> fails_with(r, ErrorModel::NodeNotFound(node_id)) && after@ == self@
        &&& self@.has_node(node_id) && self@.node(node_id).match_index() < self@.commit_index ==> fails_with(
            r,
            ErrorModel::InvalidRequest(behind_message(node_id, self@.commit_index)),
        ) && after@ == self@
        &&& self@.has_node(node_id) && self@.node(node_id).match_index() >= self@.commit_index ==> r is Ok
            && after@ == (ClusterModel {
            nodes: self@.nodes.update(
                self@.pos(node_id),
                NodeModel {
                    replica_role: RustRaftReplicaRole::Voter,
                    raft_role: RustRaftRole::Follower,
                    ..self@.node(node_id)
                },
            ),
            ..self@
        })
    }

    /// What `add_witness` does (see `RaftCluster::add_witness`).
    open spec fn witness_added(&self, peer: RustRaftPeer, after: Self, r: Result<(), RustRaftError>) -> bool {
        &&& after.wf()
        &&& self@.has_node(peer.node_id) ==> fails_with(
            r,
            ErrorModel::InvalidRequest(duplicate_message(peer.node_id)),
        ) && after@ == self@
        &&& !self@.has_node(peer.node_id) ==> r is Ok && exists|k: int|
            0 <= k <= self@.nodes.len() && ClusterModel::pipelines_refreshed(
                #[trigger] self@.inserted(
                    k,
                    NodeModel::fresh(peer.node_id, RustRaftReplicaRole::Witness),
                    PipelineModel::fresh(
                        peer.node_id,
                        (self@.last_log_index + 1) as u64,
                        RustRaftPipelineLimits::spec_production_default(),
                    ),
                ),
                after@,
            )
    }

    /// What `remove_peer` does (see `RaftCluster::remove_peer`).
    open spec fn peer_removed(&self, node_id: RustRaftNodeId, after: Self, r: Result<(), RustRaftError>) -> bool {
        &&& after.wf()
        &&& !self@.has_node(node_id) ==> fails_with(r, ErrorModel::NodeNotFound(node_id)) && after@ == self@
        &&& self@.has_node(node_id) ==> r is Ok && ClusterModel::pipelines_refreshed(
            if self@.leader_id == Some(node_id) {
                ClusterModel { leader_id: None, leader_lease_valid: false, ..self@.removed(self@.pos(node_id)) }
            } else {
                self@.removed(self@.pos(node_id))
            },
            after@,
        )
    }

    /// What `transfer_leader` does (see `RaftCluster::transfer_leader`).
    open spec fn leadership_transferred(&self, target: RustRaftNodeId, after: Self, r: Result<(), RustRaftError>) -> bool {
        &&& after.wf()
        &&& match transfer_refusal(self@, target) {
            Some(e) => fails_with(r, e) && after@ == self@,
            None => r is Ok && ClusterModel::campaigned(self@, target, after@),
        }
    }

    /// What the trait's `status` answers: the leader's status, refused
    /// without a leader.
    open spec fn status_answer(&self, r: Result<RustRaftStatusSnapshot, RustRaftError>) -> bool {
        &&& self@.leader_id is None ==> r == Err::<RustRaftStatusSnapshot, RustRaftError>(RustRaftError::NoLeader)
        &&& self@.leader_id matches Some(l) ==> (r matches Ok(st) && st.model() == self@.status_of(l))
    }

    /// What the trait's `propose` does: a proposal (see `RaftCluster::propose`)
    /// refused, when the options name a term, unless it is the current one.
    open spec fn proposal_outcome(
        &self,
        payload: RustRaftPayload,
        options: RustRaftProposeOptions,
        after: Self,
        r: Result<RustRaftLogId, RustRaftError>,
    ) -> bool {
        &&& after.wf()
        &&& options.expected_term is Some && options.expected_term->0 != self@.current_term ==> fails_with(
            r,
            ErrorModel::InvalidRequest(term_mismatch_message(options.expected_term->0, self@.current_term)),
        ) && after@ == self@
        &&& !(options.expected_term is Some && options.expected_term->0 != self@.current_term) ==> match propose_refusal(
            self@,
            payload@.len(),
        ) {
            Some(e) => fails_with(r, e) && after@ == self@,
            None => {
                let o = self@;
                let leader = o.leader_id->0;
                let id = RustRaftLogId { term: o.current_term, index: (o.last_log_index + 1) as u64 };
                let entry = RustRaftLogEntry { log_id: id, payload };
                let m1 = ClusterModel { last_log_index: id.index, ..o };
                exists|mid: ClusterModel, k: int, rk: Result<(), RustRaftError>|
                    #[trigger] ClusterModel::proposed_through(m1, leader, entry, mid, k, rk) && if k == o.nodes.len() {
                        r == Ok::<RustRaftLogId, RustRaftError>(id) && after@ == mid.commit_refreshed()
                    } else {
                        r == match rk {
                            Ok(_) => Ok::<RustRaftLogId, RustRaftError>(id),
                            Err(e) => Err::<RustRaftLogId, RustRaftError>(e),
                        } && after@ == mid
                    }
            },
        }
    }

    /// What the trait's `read_index` answers: a read-index request by the
    /// leader, without the lease; refused without a leader.
    open spec fn read_answer_of(&self, min_commit_index: RustRaftLogIndex, r: Result<RustRaftReadIndexResponse, RustRaftError>) -> bool {
        &&& self@.leader_id is None ==> r == Err::<RustRaftReadIndexResponse, RustRaftError>(RustRaftError::NoLeader)
        &&& self@.leader_id matches Some(l) ==> (r matches Ok(resp) && {
            let a = self@.read_answer(
                RustRaftReadIndexRequest { group_id: self@.group_id, requester_id: l, min_commit_index, allow_lease_read: false },
            );
            &&& resp.safe == a.0
            &&& resp.read_index == a.1
            &&& resp.lease_read == a.2
            &&& resp.reason@ == a.3
        })
    }

    /// What the trait's `campaign` does: an election of the leader, or else
    /// of the first replica that can lead (healthy or not), or else of
    /// replica 0 (see `RaftCluster::campaign`).
    open spec fn campaign_outcome(&self, forced: bool, after: Self, r: Result<(), RustRaftError>) -> bool {
        let o = self@;
        let c = match o.leader_id {
            Some(l) => l,
            None => match first_leader_capable(o.nodes) {
                Some(k) => o.nodes[k].id,
                None => 0,
            },
        };
        &&& after.wf()
        &&& match campaign_refusal(o, c, forced) {
            Some(e) => fails_with(r, e) && after@ == o,
            None => r is Ok && ClusterModel::campaigned(o, c, after@),
        }
    }

    /// What the trait's `trigger_snapshot` answers: metadata of a snapshot
    /// at the commit index, named by the group and the commit index, in the
    /// current term, with the replica ids; nothing changes.
    open spec fn snapshot_triggered(&self, after: Self, r: Result<RustRaftSnapshotMeta, RustRaftError>) -> bool {
        &&& after@ == self@
        &&& after.wf()
        &&& r matches Ok(meta) && meta.snapshot_id@ == triggered_snapshot_id(self@.group_id, self@.commit_index)
            && meta.last_log_id == (RustRaftLogId { term: self@.current_term, index: self@.commit_index })
            && meta.membership@ == self@.ids()
    }


    /// As `RaftCluster::start`.
    fn start(&mut self) -> (r: Result<(), RustRaftError>)
    {
        proof {
            lemma_headroom_room(self@);
        }
        RaftCluster::start(self)
    }

    /// As `RaftCluster::stop`.
    fn stop(&mut self) -> (r: Result<(), RustRaftError>)
    {
        RaftCluster::stop(self)
    }

    /// The leader's status; refused without a leader.
    fn status(&self) -> (r: Result<RustRaftStatusSnapshot, RustRaftError>)
    {
        let node_id = match self.leader_id {
            None => {
                return Err(RustRaftError::NoLeader);
            },
            Some(l) => l,
        };
        RaftCluster::status(self, node_id)
    }

    /// A proposal (as `RaftCluster::propose`) that, when the options name a
    /// term, is refused unless it is the current one.
    fn propose(&mut self, payload: RustRaftPayload, options: RustRaftProposeOptions) -> (r: Result<RustRaftLogId, RustRaftError>)
    {
        match options.expected_term {
            Some(expected) => {
                if expected != self.current_term {
                    return Err(
                        RustRaftError::InvalidRequest(
                            String::from_str("expected term ").concat(u64_to_decimal(expected).as_str()).concat(
                                " does not match current term ",
                            ).concat(u64_to_decimal(self.current_term).as_str()),
                        ),
                    );
                }
            },
            None => {},
        }
        RaftCluster::propose(self, payload)
    }

    /// A read-index request by the leader at `min_commit_index`, without the
    /// lease; refused without a leader.
    fn read_index(&self, min_commit_index: RustRaftLogIndex) -> (r: Result<RustRaftReadIndexResponse, RustRaftError>)
    {
        let requester_id = match self.leader_id {
            None => {
                return Err(RustRaftError::NoLeader);
            },
            Some(l) => l,
        };
        RaftCluster::read_index(
            self,
            RustRaftReadIndexRequest { group_id: self.group_id, requester_id, min_commit_index, allow_lease_read: false },
        )
    }

    /// As `RaftCluster::add_peer`.
    fn add_peer(&mut self, peer: RustRaftPeer) -> (r: Result<(), RustRaftError>)
    {
        RaftCluster::add_peer(self, peer)
    }

    /// As `RaftCluster::add_learner`.
    fn add_learner(&mut self, peer: RustRaftPeer) -> (r: Result<(), RustRaftError>)
    {
        RaftCluster::add_learner(self, peer)
    }

    /// As `RaftCluster::promote_peer`.
    fn promote_peer(&mut self, node_id: RustRaftNodeId) -> (r: Result<(), RustRaftError>)
    {
        RaftCluster::promote_peer(self, node_id)
    }

    /// As `RaftCluster::add_witness`.
    fn add_witness(&mut self, peer: RustRaftPeer) -> (r: Result<(), RustRaftError>)
    {
        RaftCluster::add_witness(self, peer)
    }

    /// As `RaftCluster::remove_peer`.
    fn remove_peer(&mut self, node_id: RustRaftNodeId) -> (r: Result<(), RustRaftError>)
    {
        RaftCluster::remove_peer(self, node_id)
    }

    /// As `RaftCluster::transfer_leader`.
    fn transfer_leader(&mut self, target: RustRaftNodeId) -> (r: Result<(), RustRaftError>)
    {
        RaftCluster::transfer_leader(self, target)
    }

    /// An election of the leader, or else of the first replica that can lead
    /// (healthy or not), or else of replica 0 (see `RaftCluster::campaign`).
    fn campaign(&mut self, forced: bool) -> (r: Result<(), RustRaftError>)
    {
        proof {
            lemma_headroom_room(self@);
        }
        let candidate_id = match self.leader_id {
            Some(l) => l,
            None => {
                let mut found: u64 = 0;
                let mut i: usize = 0;
                let ghost nodes = self@.nodes;
                proof {
                    lemma_first_leader_capable(nodes);
                }
                while i < self.members.len()
                    invariant_except_break
                        nodes == self@.nodes,
                        self.wf(),
                        i <= nodes.len(),
                        forall|j: int| 0 <= j < i ==> !(#[trigger] nodes[j]).replica_role.spec_can_be_leader(),
                        found == 0,
                        match first_leader_capable(nodes) {
                            Some(k) => 0 <= k < nodes.len() && nodes[k].replica_role.spec_can_be_leader(),
                            None => true,
                        },
                    ensures
                        nodes == self@.nodes,
                        self.wf(),
                        found == match first_leader_capable(nodes) {
                            Some(k) => nodes[k].id,
                            None => 0,
                        },
                    decreases nodes.len() - i,
                {
                    proof {
                        assert(nodes[i as int] == self.members@[i as int].node.model());
                    }
                    if self.members[i].node.replica_role.can_be_leader() {
                        found = self.members[i].node.id;
                        proof {
                            lemma_first_leader_capable(nodes);
                            if first_leader_capable(nodes) != Some(i as int) {
                                let k = first_leader_capable(nodes)->0;
                                assert(k < i || k > i);
                            }
                        }
                        break;
                    }
                    i = i + 1;
                }
                found
            },
        };
        RaftCluster::campaign(self, candidate_id, forced)
    }

    /// Metadata of a snapshot at the commit index: named by the group and
    /// the commit index, in the current term, with the replica ids.
    fn trigger_snapshot(&mut self) -> (r: Result<RustRaftSnapshotMeta, RustRaftError>)
    {
        let id = u64_to_decimal(self.group_id).concat("-").concat(u64_to_decimal(self.commit_index).as_str());
        Ok(
            RustRaftSnapshotMeta {
                snapshot_id: id,
                last_log_id: RustRaftLogId { term: self.current_term, index: self.commit_index },
                membership: self.node_ids(),
            },
        )
    }
}

/// After an election won by `c`, `c` is the one leader: it is the cluster's
/// leader with a valid lease, the term has advanced by one, every replica is
/// on that term and voted for `c`, and no other replica has the leader role.
pub proof fn law_election_has_one_leader(m: ClusterModel, c: u64, n: ClusterModel)
    requires
        m.wf(),
        m.current_term < u64::MAX,
        ClusterModel::campaigned(m, c, n),
    ensures
        n.leader_id == Some(c),
        n.leader_lease_valid,
        n.current_term == m.current_term + 1,
        n.nodes.len() == m.nodes.len(),
        forall|i: int|
            0 <= i < n.nodes.len() ==> {
                &&& (#[trigger] n.nodes[i]).hard_state.current_term == n.current_term
                &&& n.nodes[i].hard_state.voted_for == Some(c)
                &&& (n.nodes[i].raft_role == RustRaftRole::Leader <==> n.nodes[i].id == c)
            },
{
    let term = (m.current_term + 1) as u64;
    let mid = ClusterModel {
        current_term: term,
        leader_id: Some(c),
        leader_lease_valid: true,
        nodes: m.elected_nodes(term, c),
        ..m
    };
    assert(n.nodes == mid.nodes && n.leader_id == mid.leader_id && n.current_term == mid.current_term
        && n.leader_lease_valid == mid.leader_lease_valid) by {
        match mid.leader_id {
            None => {},
            Some(l) => {
                let i = mid.pos(l);
                let (p, r) = choose|p: PipelineModel, r: Result<(), RustRaftError>|
                    append_response_post(mid.pipelines[i], mid.leader_ack(), p, r) && n == (ClusterModel {
                        pipelines: mid.pipelines.update(i, p),
                        ..mid
                    });
            },
        }
    }
}

/// A read-index answer is safe only on a healthy replica that has applied
/// the requested index, and then it reads at the replica's commit index; a
/// lease read is only ever granted to the leader while its lease is valid.
pub proof fn law_safe_reads_are_applied(m: ClusterModel, request: RustRaftReadIndexRequest)
    ensures
        m.read_answer(request).0 ==> m.node(request.requester_id).healthy && m.node(request.requester_id).applied_index
            >= request.min_commit_index,
        m.read_answer(request).1 == m.node(request.requester_id).commit_index,
        m.read_answer(request).2 ==> m.read_answer(request).0 && m.leader_id == Some(request.requester_id)
            && m.leader_lease_valid,
{
}

impl RaftCluster {
    /// Whether every counter, index and term has room for one more call
    /// (see `ClusterModel::headroom`).
    pub fn has_room_for_calls(&self) -> (r: bool)
        requires
            self.wf(),
        ensures
            r == self.has_room(),
    {
        if !(self.current_term < 0x4000_0000_0000_0000 && self.last_log_index < 0x4000_0000_0000_0000
            && self.commit_index < 0x4000_0000_0000_0000) {
            return false;
        }
        let n = self.members.len();
        let mut i: usize = 0;
        while i < n
            invariant
                self.wf(),
                n == self@.nodes.len(),
                i <= n,
                forall|j: int| 0 <= j < i ==> node_headroom(#[trigger] self@.nodes[j]),
                forall|j: int| 0 <= j < i ==> pipeline_headroom(#[trigger] self@.pipelines[j]),
            decreases n - i,
        {
            proof {
                assert(self@.nodes[i as int] == self.members@[i as int].node.model());
                assert(self@.pipelines[i as int] == self.members@[i as int].pipeline@);
            }
            let node = &self.members[i].node;
            let ok = node.hard_state.current_term < 0x4000_0000_0000_0000 && node.match_index() < 0x4000_0000_0000_0000
                && node.commit_index < 0x4000_0000_0000_0000 && node.applied_index < 0x4000_0000_0000_0000;
            if !ok || !self.members[i].pipeline.has_headroom() {
                return false;
            }
            i = i + 1;
        }
        true
    }
}

impl RaftCluster {
    /// Whether an election (`start`, `campaign`, `transfer_leader`) has room:
    /// the term and the last log index below the largest value, and every
    /// pipeline able to count one more accepted append.
    pub fn has_room_for_election(&self) -> (r: bool)
        requires
            self.wf(),
        ensures
            r == (self@.current_term < u64::MAX && self@.last_log_index < u64::MAX && self@.acks_have_room()),
    {
        if !(self.current_term < u64::MAX && self.last_log_index < u64::MAX) {
            return false;
        }
        let n = self.members.len();
        let mut i: usize = 0;
        while i < n
            invariant
                self.wf(),
                n == self@.nodes.len(),
                i <= n,
                forall|j: int| 0 <= j < i ==> (#[trigger] self@.pipelines[j]).status.append_accepted < u64::MAX,
            decreases n - i,
        {
            proof {
                assert(self@.pipelines[i as int] == self.members@[i as int].pipeline@);
            }
            if self.members[i].pipeline.status().append_accepted == u64::MAX {
                return false;
            }
            i = i + 1;
        }
        true
    }

    /// Whether every replica's match index is below the largest index, as a
    /// status report needs.
    pub fn matches_below_max(&self) -> (r: bool)
        requires
            self.wf(),
        ensures
            r == self@.matches_below_max(),
    {
        let n = self.members.len();
        let mut i: usize = 0;
        while i < n
            invariant
                self.wf(),
                n == self@.nodes.len(),
                i <= n,
                forall|j: int| 0 <= j < i ==> (#[trigger] self@.nodes[j]).match_index() < u64::MAX,
            decreases n - i,
        {
            proof {
                assert(self@.nodes[i as int] == self.members@[i as int].node.model());
            }
            if self.members[i].node.match_index() == u64::MAX {
                return false;
            }
            i = i + 1;
        }
        true
    }
}

} // verus!
