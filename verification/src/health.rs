//! Replication and apply health, and the local, cluster and admin status
//! reports built on them.
use vstd::prelude::*;
use vstd::string::*;
use crate::membership::sat_sub;
use crate::pipeline::RustRaftPeerPipelineStatus;
use crate::readiness::{
    RaftCapabilityEvidence, RustRaftParityReport, RustRaftPublicApiContract, RustRaftReadinessSnapshot,
    requirement_checks, rustraft_parity_report, rustraft_public_api_contract, is_parity_report, is_public_api_contract,
};
use crate::report::{absent_actions, absent_ids, s};
use crate::seqs::{clone_strings, strs};
use crate::sorting::{sort_dedup_strings, strictly_sorted};
use crate::transitions::prefixed;
use crate::types::{RustRaftGroupId, RustRaftLogIndex, RustRaftNodeId, RustRaftPeerStatus, RustRaftStatusSnapshot};

verus! {

#[derive(Debug, Clone, Copy, PartialEq, Eq, Structural)]
pub enum RaftHealthStatus {
    Healthy,
    Degraded,
    Unavailable,
}

#[derive(Debug, Clone, PartialEq, Eq)]
pub struct RaftReplicationHealth {
    pub status: RaftHealthStatus,
    pub leader_id: Option<RustRaftNodeId>,
    pub commit_index: RustRaftLogIndex,
    pub replicated_peer_count: u64,
    pub lagging_peer_count: u64,
    pub max_peer_lag: RustRaftLogIndex,
    pub reason: String,
}

#[derive(Debug, Clone, PartialEq, Eq)]
pub struct RaftApplyHealth {
    pub status: RaftHealthStatus,
    pub commit_index: RustRaftLogIndex,
    pub applied_index: RustRaftLogIndex,
    pub apply_lag: RustRaftLogIndex,
    pub reason: String,
}

#[derive(Debug, Clone, PartialEq, Eq)]
pub struct RaftRuntimeLocalStatusReport {
    pub node_status: RustRaftStatusSnapshot,
    pub peer_pipeline: Vec<RustRaftPeerPipelineStatus>,
    pub replication_health: RaftReplicationHealth,
    pub apply_health: RaftApplyHealth,
    pub readiness: RustRaftReadinessSnapshot,
    pub ready: bool,
    pub blockers: Vec<String>,
}

#[derive(Debug, Clone, PartialEq, Eq)]
pub struct RaftClusterStatusReport {
    pub group_id: RustRaftGroupId,
    pub leader_id: Option<RustRaftNodeId>,
    pub nodes: Vec<RustRaftStatusSnapshot>,
    pub replication_health: RaftReplicationHealth,
    pub apply_health: RaftApplyHealth,
    pub ready: bool,
    pub health: RaftHealthStatus,
    pub blockers: Vec<String>,
}

#[derive(Debug, Clone, PartialEq, Eq)]
pub struct RaftRuntimeAdminReport {
    pub cluster_status: RaftClusterStatusReport,
    pub readiness: RustRaftReadinessSnapshot,
    pub parity: RustRaftParityReport,
    pub public_api: RustRaftPublicApiContract,
    pub capability_evidence: Vec<RaftCapabilityEvidence>,
    pub ready: bool,
    pub health: RaftHealthStatus,
    pub blockers: Vec<String>,
}

/// The greatest lag the peers report, zero when there are none.
pub open spec fn max_status_lag(peers: Seq<RustRaftPeerStatus>) -> u64
    decreases peers.len(),
{
    if peers.len() == 0 {
        0
    } else {
        let m = max_status_lag(peers.drop_last());
        if peers.last().lag > m { peers.last().lag } else { m }
    }
}

/// The greatest distance from the commit index to a pipeline's match index
/// (zero when it matched it), zero when there are no pipelines.
pub open spec fn max_pipeline_lag(commit: u64, ps: Seq<RustRaftPeerPipelineStatus>) -> u64
    decreases ps.len(),
{
    if ps.len() == 0 {
        0
    } else {
        let m = max_pipeline_lag(commit, ps.drop_last());
        let l = sat_sub(commit, ps.last().match_index);
        if l > m { l } else { m }
    }
}

/// How many peers report a lag.
pub open spec fn lagging_status_peers(peers: Seq<RustRaftPeerStatus>) -> nat
    decreases peers.len(),
{
    if peers.len() == 0 {
        0
    } else {
        lagging_status_peers(peers.drop_last()) + if peers.last().lag > 0 { 1nat } else { 0nat }
    }
}

/// How many pipelines match below the commit index.
pub open spec fn lagging_pipelines(commit: u64, ps: Seq<RustRaftPeerPipelineStatus>) -> nat
    decreases ps.len(),
{
    if ps.len() == 0 {
        0
    } else {
        lagging_pipelines(commit, ps.drop_last()) + if ps.last().match_index < commit { 1nat } else { 0nat }
    }
}

/// How many peers are healthy.
pub open spec fn healthy_peers(peers: Seq<RustRaftPeerStatus>) -> nat
    decreases peers.len(),
{
    if peers.len() == 0 {
        0
    } else {
        healthy_peers(peers.drop_last()) + if peers.last().healthy { 1nat } else { 0nat }
    }
}

proof fn lemma_lagging_peers_positive(peers: Seq<RustRaftPeerStatus>)
    ensures
        lagging_status_peers(peers) > 0 <==> exists|i: int| 0 <= i < peers.len() && (#[trigger] peers[i]).lag > 0,
    decreases peers.len(),
{
    if peers.len() > 0 {
        let init = peers.drop_last();
        lemma_lagging_peers_positive(init);
        if exists|i: int| 0 <= i < init.len() && (#[trigger] init[i]).lag > 0 {
            let i = choose|i: int| 0 <= i < init.len() && (#[trigger] init[i]).lag > 0;
            assert(peers[i] == init[i]);
        }
        if exists|i: int| 0 <= i < peers.len() && (#[trigger] peers[i]).lag > 0 {
            let i = choose|i: int| 0 <= i < peers.len() && (#[trigger] peers[i]).lag > 0;
            if i < peers.len() - 1 {
                assert(init[i] == peers[i]);
            }
        }
    }
}

proof fn lemma_lagging_pipelines_positive(commit: u64, ps: Seq<RustRaftPeerPipelineStatus>)
    ensures
        lagging_pipelines(commit, ps) > 0 <==> exists|i: int| 0 <= i < ps.len() && (#[trigger] ps[i]).match_index < commit,
    decreases ps.len(),
{
    if ps.len() > 0 {
        let init = ps.drop_last();
        lemma_lagging_pipelines_positive(commit, init);
        if exists|i: int| 0 <= i < init.len() && (#[trigger] init[i]).match_index < commit {
            let i = choose|i: int| 0 <= i < init.len() && (#[trigger] init[i]).match_index < commit;
            assert(ps[i] == init[i]);
        }
        if exists|i: int| 0 <= i < ps.len() && (#[trigger] ps[i]).match_index < commit {
            let i = choose|i: int| 0 <= i < ps.len() && (#[trigger] ps[i]).match_index < commit;
            if i < ps.len() - 1 {
                assert(init[i] == ps[i]);
            }
        }
    }
}

/// Replication is healthy exactly when there is a leader, no peer reports
/// a lag and every pipeline has matched the commit index; with a leader and
/// something behind it is degraded, and without a leader unavailable.
pub proof fn law_replication_health_by_lag(
    leader: Option<u64>,
    peers: Seq<RustRaftPeerStatus>,
    commit: u64,
    ps: Seq<RustRaftPeerPipelineStatus>,
)
    ensures
        ({
            let behind = (exists|i: int| 0 <= i < peers.len() && (#[trigger] peers[i]).lag > 0) || (exists|j: int|
                0 <= j < ps.len() && (#[trigger] ps[j]).match_index < commit);
            let h = health_of(leader, lagging_status_peers(peers) + lagging_pipelines(commit, ps) > 0);
            &&& (h == RaftHealthStatus::Healthy) <==> (leader is Some && !behind)
            &&& (h == RaftHealthStatus::Degraded) <==> (leader is Some && behind)
            &&& (h == RaftHealthStatus::Unavailable) <==> leader is None
        }),
{
    lemma_lagging_peers_positive(peers);
    lemma_lagging_pipelines_positive(commit, ps);
}

/// Unavailable without a leader, degraded when something lags, else healthy.
pub open spec fn health_of(leader: Option<u64>, lagging: bool) -> RaftHealthStatus {
    if leader is None {
        RaftHealthStatus::Unavailable
    } else if lagging {
        RaftHealthStatus::Degraded
    } else {
        RaftHealthStatus::Healthy
    }
}

/// The reason given for a replication health.
pub open spec fn replication_reason(h: RaftHealthStatus) -> Seq<char> {
    match h {
        RaftHealthStatus::Healthy => "replication_healthy"@,
        RaftHealthStatus::Degraded => "replication_lagging"@,
        RaftHealthStatus::Unavailable => "leader_unavailable"@,
    }
}

/// The reason given for an apply health.
pub open spec fn apply_reason(h: RaftHealthStatus) -> Seq<char> {
    match h {
        RaftHealthStatus::Healthy => "apply_healthy"@,
        RaftHealthStatus::Degraded => "apply_lagging"@,
        RaftHealthStatus::Unavailable => "leader_unavailable"@,
    }
}

proof fn lemma_counts_bounded(peers: Seq<RustRaftPeerStatus>)
    ensures
        lagging_status_peers(peers) <= peers.len(),
        healthy_peers(peers) <= peers.len(),
    decreases peers.len(),
{
    if peers.len() > 0 {
        lemma_counts_bounded(peers.drop_last());
    }
}

proof fn lemma_pipeline_count_bounded(commit: u64, ps: Seq<RustRaftPeerPipelineStatus>)
    ensures
        lagging_pipelines(commit, ps) <= ps.len(),
    decreases ps.len(),
{
    if ps.len() > 0 {
        lemma_pipeline_count_bounded(commit, ps.drop_last());
    }
}

/// Replication health of a node: the greatest lag reported by its peers or
/// seen in the pipelines, the peers and pipelines that lag, the healthy
/// peers; unavailable without a leader, degraded when anything lags.
pub fn rustraft_replication_health(status: &RustRaftStatusSnapshot, peer_pipeline: &[RustRaftPeerPipelineStatus]) -> (r:
    RaftReplicationHealth)
    ensures
        ({
            let peers = status.peers@;
            let lagging = lagging_status_peers(peers) + lagging_pipelines(status.commit_index, peer_pipeline@);
            let ms = max_status_lag(peers);
            let mp = max_pipeline_lag(status.commit_index, peer_pipeline@);
            &&& r.status == health_of(status.leader_id, lagging > 0)
            &&& r.leader_id == status.leader_id
            &&& r.commit_index == status.commit_index
            &&& r.replicated_peer_count == healthy_peers(peers)
            &&& r.lagging_peer_count == (if lagging > u64::MAX { u64::MAX as int } else { lagging as int })
            &&& r.max_peer_lag == (if ms >= mp { ms } else { mp })
            &&& r.reason@ == replication_reason(r.status)
        }),
{
    let ghost peers = status.peers@;
    let ghost ps = peer_pipeline@;
    let commit = status.commit_index;
    let mut max_status: u64 = 0;
    let mut lagging_status: u64 = 0;
    let mut healthy: u64 = 0;
    let mut i: usize = 0;
    let peer_count = status.peers.len();
    proof {
        assert(peers.take(0) =~= Seq::<RustRaftPeerStatus>::empty());
        assert(peer_count <= u64::MAX);
    }
    while i < status.peers.len()
        invariant
            peers == status.peers@,
            i <= peers.len(),
            peers.len() <= u64::MAX,
            max_status == max_status_lag(peers.take(i as int)),
            lagging_status == lagging_status_peers(peers.take(i as int)),
            healthy == healthy_peers(peers.take(i as int)),
        decreases peers.len() - i,
    {
        let p = status.peers[i];
        proof {
            assert(peers.take(i + 1).drop_last() =~= peers.take(i as int));
            assert(peers.take(i + 1).last() == p);
            lemma_counts_bounded(peers.take(i as int));
        }
        if p.lag > max_status {
            max_status = p.lag;
        }
        if p.lag > 0 {
            lagging_status = lagging_status + 1;
        }
        if p.healthy {
            healthy = healthy + 1;
        }
        i = i + 1;
    }
    proof {
        assert(peers.take(peers.len() as int) =~= peers);
        lemma_counts_bounded(peers);
    }
    let mut max_pipeline: u64 = 0;
    let mut lagging_pipeline: u64 = 0;
    let mut j: usize = 0;
    let pipeline_count = peer_pipeline.len();
    proof {
        assert(ps.take(0) =~= Seq::<RustRaftPeerPipelineStatus>::empty());
        assert(pipeline_count <= u64::MAX);
    }
    while j < peer_pipeline.len()
        invariant
            ps == peer_pipeline@,
            j <= ps.len(),
            ps.len() <= u64::MAX,
            max_pipeline == max_pipeline_lag(commit, ps.take(j as int)),
            lagging_pipeline == lagging_pipelines(commit, ps.take(j as int)),
        decreases ps.len() - j,
    {
        let p = &peer_pipeline[j];
        proof {
            assert(ps.take(j + 1).drop_last() =~= ps.take(j as int));
            assert(ps.take(j + 1).last() == *p);
            lemma_pipeline_count_bounded(commit, ps.take(j as int));
        }
        let lag = commit.saturating_sub(p.match_index);
        if lag > max_pipeline {
            max_pipeline = lag;
        }
        if p.match_index < commit {
            lagging_pipeline = lagging_pipeline + 1;
        }
        j = j + 1;
    }
    proof {
        assert(ps.take(ps.len() as int) =~= ps);
        lemma_pipeline_count_bounded(commit, ps);
    }
    let lagging = lagging_status.saturating_add(lagging_pipeline);
    let health = if status.leader_id.is_none() {
        RaftHealthStatus::Unavailable
    } else if lagging > 0 {
        RaftHealthStatus::Degraded
    } else {
        RaftHealthStatus::Healthy
    };
    RaftReplicationHealth {
        status: health,
        leader_id: status.leader_id,
        commit_index: commit,
        replicated_peer_count: healthy,
        lagging_peer_count: lagging,
        max_peer_lag: if max_status >= max_pipeline { max_status } else { max_pipeline },
        reason: match health {
            RaftHealthStatus::Healthy => s("replication_healthy"),
            RaftHealthStatus::Degraded => s("replication_lagging"),
            RaftHealthStatus::Unavailable => s("leader_unavailable"),
        },
    }
}

/// Apply health of a node: the distance from its commit index to its applied
/// index; unavailable without a leader, degraded while something is unapplied.
pub fn rustraft_apply_health(status: &RustRaftStatusSnapshot) -> (r: RaftApplyHealth)
    ensures
        r.apply_lag == sat_sub(status.commit_index, status.applied_index),
        r.status == health_of(status.leader_id, r.apply_lag > 0),
        r.commit_index == status.commit_index,
        r.applied_index == status.applied_index,
        r.reason@ == apply_reason(r.status),
{
    let apply_lag = status.commit_index.saturating_sub(status.applied_index);
    let health = if status.leader_id.is_none() {
        RaftHealthStatus::Unavailable
    } else if apply_lag > 0 {
        RaftHealthStatus::Degraded
    } else {
        RaftHealthStatus::Healthy
    };
    RaftApplyHealth {
        status: health,
        commit_index: status.commit_index,
        applied_index: status.applied_index,
        apply_lag,
        reason: match health {
            RaftHealthStatus::Healthy => s("apply_healthy"),
            RaftHealthStatus::Degraded => s("apply_lagging"),
            RaftHealthStatus::Unavailable => s("leader_unavailable"),
        },
    }
}

/// The blockers of a local report: the replication reason unless healthy,
/// the apply reason unless healthy, and missing operator observability.
pub open spec fn local_blockers(replication: RaftHealthStatus, apply: RaftHealthStatus, observable: bool) -> Seq<Seq<char>> {
    (if replication != RaftHealthStatus::Healthy { seq![replication_reason(replication)] } else { seq![] })
        + (if apply != RaftHealthStatus::Healthy { seq![apply_reason(apply)] } else { seq![] })
        + (if !observable { seq!["operator_observability_missing"@] } else { seq![] })
}

/// The status report of one node: its replication and apply health and its
/// readiness; ready exactly when nothing blocks.
pub fn rustraft_runtime_local_status_report(
    node_status: RustRaftStatusSnapshot,
    peer_pipeline: Vec<RustRaftPeerPipelineStatus>,
    readiness: RustRaftReadinessSnapshot,
) -> (r: RaftRuntimeLocalStatusReport)
    ensures
        r.node_status == node_status,
        r.peer_pipeline == peer_pipeline,
        r.readiness == readiness,
        r.replication_health.status == health_of(
            node_status.leader_id,
            lagging_status_peers(node_status.peers@) + lagging_pipelines(node_status.commit_index, peer_pipeline@) > 0,
        ),
        r.apply_health.status == health_of(
            node_status.leader_id,
            sat_sub(node_status.commit_index, node_status.applied_index) > 0,
        ),
        strs(r.blockers@) == local_blockers(
            r.replication_health.status,
            r.apply_health.status,
            readiness.rustraft_operator_observability_present,
        ),
        r.ready == (r.blockers@.len() == 0),
{
    let replication_health = rustraft_replication_health(&node_status, peer_pipeline.as_slice());
    let apply_health = rustraft_apply_health(&node_status);
    let mut blockers: Vec<String> = Vec::new();
    if replication_health.status != RaftHealthStatus::Healthy {
        blockers.push(replication_health.reason.clone());
    }
    let ghost b1 = strs(blockers@);
    if apply_health.status != RaftHealthStatus::Healthy {
        blockers.push(apply_health.reason.clone());
    }
    let ghost b2 = strs(blockers@);
    if !readiness.rustraft_operator_observability_present {
        blockers.push(s("operator_observability_missing"));
    }
    proof {
        let rep = replication_health.status;
        let app = apply_health.status;
        assert(b1 =~= (if rep != RaftHealthStatus::Healthy { seq![replication_reason(rep)] } else { seq![] }));
        assert(b2 =~= b1 + (if app != RaftHealthStatus::Healthy { seq![apply_reason(app)] } else { seq![] }));
        assert(strs(blockers@) =~= local_blockers(rep, app, readiness.rustraft_operator_observability_present));
    }
    let ready = blockers.len() == 0;
    RaftRuntimeLocalStatusReport {
        node_status,
        peer_pipeline,
        replication_health,
        apply_health,
        readiness,
        ready,
        blockers,
    }
}

/// The position of the node reporting for the cluster: the first one that
/// is the leader, else the first one, if any.
pub open spec fn representative(nodes: Seq<RustRaftStatusSnapshot>, leader: Option<u64>) -> Option<int> {
    if exists|i: int| 0 <= i < nodes.len() && Some(nodes[i].node_id) == leader {
        Some(choose|i: int| 0 <= i < nodes.len() && Some(nodes[i].node_id) == leader
            && forall|j: int| 0 <= j < i ==> Some(#[trigger] nodes[j].node_id) != leader)
    } else if nodes.len() > 0 {
        Some(0)
    } else {
        None
    }
}

/// The blockers of a cluster report: a missing leader, then the replication
/// and apply reasons unless healthy.
pub open spec fn cluster_blockers(leader: Option<u64>, replication: (RaftHealthStatus, Seq<char>), apply: (RaftHealthStatus, Seq<char>)) -> Seq<Seq<char>> {
    (if leader is None { seq!["leader_unavailable"@] } else { seq![] })
        + (if replication.0 != RaftHealthStatus::Healthy { seq![replication.1] } else { seq![] })
        + (if apply.0 != RaftHealthStatus::Healthy { seq![apply.1] } else { seq![] })
}

/// What the cluster status report says of the statuses `nodes`.
pub open spec fn cluster_report_post(
    group_id: RustRaftGroupId,
    leader_id: Option<RustRaftNodeId>,
    nodes: Vec<RustRaftStatusSnapshot>,
    r: RaftClusterStatusReport,
) -> bool {
    &&& r.group_id == group_id
    &&& r.leader_id == leader_id
    &&& r.nodes == nodes
    &&& match representative(nodes@, leader_id) {
        Some(i) => {
            let n = nodes@[i];
            &&& r.replication_health.status == health_of(n.leader_id, lagging_status_peers(n.peers@) > 0)
            &&& r.replication_health.commit_index == n.commit_index
            &&& r.replication_health.max_peer_lag == max_status_lag(n.peers@)
            &&& r.apply_health.status == health_of(n.leader_id, sat_sub(n.commit_index, n.applied_index) > 0)
            &&& r.apply_health.apply_lag == sat_sub(n.commit_index, n.applied_index)
            &&& r.replication_health.reason@ == replication_reason(r.replication_health.status)
            &&& r.apply_health.reason@ == apply_reason(r.apply_health.status)
        },
        None => {
            &&& r.replication_health.status == RaftHealthStatus::Unavailable
            &&& r.replication_health.reason@ == "cluster_has_no_nodes"@
            &&& r.apply_health.status == RaftHealthStatus::Unavailable
            &&& r.apply_health.reason@ == "cluster_has_no_nodes"@
        },
    }
    &&& strs(r.blockers@) == cluster_blockers(
        leader_id,
        (r.replication_health.status, r.replication_health.reason@),
        (r.apply_health.status, r.apply_health.reason@),
    )
    &&& r.ready == (r.blockers@.len() == 0)
    &&& r.health == (if r.blockers@.len() == 0 {
        RaftHealthStatus::Healthy
    } else if leader_id is Some {
        RaftHealthStatus::Degraded
    } else {
        RaftHealthStatus::Unavailable
    })
}

/// The status report of a cluster, judged from the leader's status (or the
/// first node's when the leader is not among the nodes): healthy when nothing
/// blocks, else degraded with a leader and unavailable without one.
pub fn rustraft_cluster_status_report(
    group_id: RustRaftGroupId,
    leader_id: Option<RustRaftNodeId>,
    nodes: Vec<RustRaftStatusSnapshot>,
) -> (r: RaftClusterStatusReport)
    requires
    ensures
        cluster_report_post(group_id, leader_id, nodes, r),
{
    let mut pos: Option<usize> = None;
    let mut i: usize = 0;
    while i < nodes.len() && pos.is_none()
        invariant
            i <= nodes@.len(),
            pos is None ==> forall|j: int| 0 <= j < i ==> Some(#[trigger] nodes@[j].node_id) != leader_id,
            pos matches Some(p) ==> p < nodes@.len() && Some(nodes@[p as int].node_id) == leader_id && forall|j: int|
                0 <= j < p ==> Some(#[trigger] nodes@[j].node_id) != leader_id,
        decreases nodes@.len() - i + (if pos is None { 1int } else { 0int }),
    {
        if Some(nodes[i].node_id) == leader_id {
            pos = Some(i);
        } else {
            i = i + 1;
        }
    }
    let chosen: Option<usize> = match pos {
        Some(p) => Some(p),
        None => if nodes.len() > 0 { Some(0) } else { None },
    };
    proof {
        match pos {
            Some(p) => {
                let w = choose|k: int| 0 <= k < nodes@.len() && Some(nodes@[k].node_id) == leader_id
                    && forall|j: int| 0 <= j < k ==> Some(#[trigger] nodes@[j].node_id) != leader_id;
                assert(0 <= p < nodes@.len() && Some(nodes@[p as int].node_id) == leader_id);
                if w < p {
                    assert(Some(nodes@[w].node_id) != leader_id);
                } else if p < w {
                    assert(Some(nodes@[p as int].node_id) != leader_id);
                }
                assert(representative(nodes@, leader_id) == Some(p as int));
            },
            None => {
                assert(!exists|k: int| 0 <= k < nodes@.len() && Some(nodes@[k].node_id) == leader_id);
            },
        }
    }
    let (replication_health, apply_health) = match chosen {
        Some(p) => {
            let empty: Vec<RustRaftPeerPipelineStatus> = Vec::new();
            proof {
                assert(lagging_pipelines(nodes@[p as int].commit_index, empty@) == 0);
                assert(max_pipeline_lag(nodes@[p as int].commit_index, empty@) == 0);
            }
            (rustraft_replication_health(&nodes[p], empty.as_slice()), rustraft_apply_health(&nodes[p]))
        },
        None => (
            RaftReplicationHealth {
                status: RaftHealthStatus::Unavailable,
                leader_id,
                commit_index: 0,
                replicated_peer_count: 0,
                lagging_peer_count: 0,
                max_peer_lag: 0,
                reason: s("cluster_has_no_nodes"),
            },
            RaftApplyHealth {
                status: RaftHealthStatus::Unavailable,
                commit_index: 0,
                applied_index: 0,
                apply_lag: 0,
                reason: s("cluster_has_no_nodes"),
            },
        ),
    };
    let mut blockers: Vec<String> = Vec::new();
    if leader_id.is_none() {
        blockers.push(s("leader_unavailable"));
    }
    let ghost b1 = strs(blockers@);
    if replication_health.status != RaftHealthStatus::Healthy {
        blockers.push(replication_health.reason.clone());
    }
    let ghost b2 = strs(blockers@);
    if apply_health.status != RaftHealthStatus::Healthy {
        blockers.push(apply_health.reason.clone());
    }
    proof {
        let rep = (replication_health.status, replication_health.reason@);
        let app = (apply_health.status, apply_health.reason@);
        assert(b1 =~= (if leader_id is None { seq!["leader_unavailable"@] } else { Seq::<Seq<char>>::empty() }));
        assert(b2 =~= b1 + (if rep.0 != RaftHealthStatus::Healthy { seq![rep.1] } else { Seq::<Seq<char>>::empty() }));
        assert(strs(blockers@) =~= cluster_blockers(leader_id, rep, app));
    }
    let health = if blockers.len() == 0 {
        RaftHealthStatus::Healthy
    } else if leader_id.is_some() {
        RaftHealthStatus::Degraded
    } else {
        RaftHealthStatus::Unavailable
    };
    let ready = blockers.len() == 0;
    RaftClusterStatusReport {
        group_id,
        leader_id,
        nodes,
        replication_health,
        apply_health,
        ready,
        health,
        blockers,
    }
}

/// `capability_missing:<capability>` for each capability not present, in order.
pub open spec fn missing_capabilities(evs: Seq<RaftCapabilityEvidence>) -> Seq<Seq<char>>
    decreases evs.len(),
{
    if evs.len() == 0 {
        seq![]
    } else {
        missing_capabilities(evs.drop_last()) + if evs.last().present {
            seq![]
        } else {
            seq!["capability_missing:"@ + evs.last().capability@]
        }
    }
}

/// Every capability is present exactly when none is reported missing.
pub proof fn lemma_missing_capabilities_empty(evs: Seq<RaftCapabilityEvidence>)
    ensures
        missing_capabilities(evs).len() == 0 <==> forall|i: int| 0 <= i < evs.len() ==> #[trigger] evs[i].present,
    decreases evs.len(),
{
    if evs.len() > 0 {
        lemma_missing_capabilities_empty(evs.drop_last());
        if forall|i: int| 0 <= i < evs.len() ==> #[trigger] evs[i].present {
            assert forall|i: int| 0 <= i < evs.drop_last().len() implies #[trigger] evs.drop_last()[i].present by {
                assert(evs.drop_last()[i] == evs[i]);
            }
            assert(evs[evs.len() - 1].present);
        }
        if missing_capabilities(evs).len() == 0 {
            assert forall|i: int| 0 <= i < evs.len() implies #[trigger] evs[i].present by {
                if i < evs.len() - 1 {
                    assert(evs.drop_last()[i] == evs[i]);
                }
            }
        }
    }
}

/// The cluster status report fails closed: it carries the group, leader and
/// statuses it was given; it is ready exactly when nothing blocks; a missing
/// leader always blocks; a cluster without replicas is never ready and says
/// so; and its health is healthy when ready, else degraded with a leader and
/// unavailable without one.
pub proof fn law_cluster_status_report(
    group_id: RustRaftGroupId,
    leader_id: Option<RustRaftNodeId>,
    nodes: Vec<RustRaftStatusSnapshot>,
    r: RaftClusterStatusReport,
)
    requires
        cluster_report_post(group_id, leader_id, nodes, r),
    ensures
        r.group_id == group_id && r.leader_id == leader_id && r.nodes == nodes,
        r.ready == (r.blockers@.len() == 0),
        leader_id is None ==> strs(r.blockers@).contains("leader_unavailable"@),
        nodes@.len() == 0 ==> !r.ready && r.apply_health.reason@ == "cluster_has_no_nodes"@,
        r.health == (if r.ready {
            RaftHealthStatus::Healthy
        } else if leader_id is Some {
            RaftHealthStatus::Degraded
        } else {
            RaftHealthStatus::Unavailable
        }),
{
    let b = strs(r.blockers@);
    if leader_id is None {
        assert(b[0] == "leader_unavailable"@);
    }
    if nodes@.len() == 0 {
        assert(representative(nodes@, leader_id) is None);
        assert(b.len() > 0);
    }
}

/// The admin report: the cluster status, the parity report of the
/// readiness snapshot, the public API contract and the capability evidence.
/// Its blockers are those of the cluster, one per missing capability and the
/// parity blockers, sorted and without duplicates; it is ready when the
/// cluster and the parity report are, every capability is present and
/// nothing blocks.
pub fn rustraft_runtime_admin_report(
    cluster_status: RaftClusterStatusReport,
    readiness: RustRaftReadinessSnapshot,
    capability_evidence: Vec<RaftCapabilityEvidence>,
) -> (r: RaftRuntimeAdminReport)
    ensures
        r.cluster_status == cluster_status,
        r.readiness == readiness,
        r.capability_evidence == capability_evidence,
        is_parity_report(readiness, r.parity),
        is_public_api_contract(r.public_api),
        strictly_sorted(strs(r.blockers@)),
        strs(r.blockers@).to_set() == (strs(cluster_status.blockers@) + missing_capabilities(capability_evidence@)
            + absent_actions(requirement_checks(readiness))).to_set(),
        r.ready == (cluster_status.ready && r.parity.ready && (forall|i: int|
            0 <= i < capability_evidence@.len() ==> #[trigger] capability_evidence@[i].present) && r.blockers@.len()
            == 0),
        r.health == (if r.ready {
            RaftHealthStatus::Healthy
        } else if cluster_status.leader_id is Some {
            RaftHealthStatus::Degraded
        } else {
            RaftHealthStatus::Unavailable
        }),
{
    let parity = rustraft_parity_report(&readiness);
    let public_api = rustraft_public_api_contract();
    let mut blockers = clone_strings(&cluster_status.blockers);
    let ghost evs = capability_evidence@;
    let mut all_present = true;
    let mut i: usize = 0;
    proof {
        assert(strs(blockers@) =~= strs(cluster_status.blockers@) + missing_capabilities(evs.take(0)));
    }
    while i < capability_evidence.len()
        invariant
            evs == capability_evidence@,
            i <= evs.len(),
            strs(blockers@) == strs(cluster_status.blockers@) + missing_capabilities(evs.take(i as int)),
            all_present == forall|j: int| 0 <= j < i ==> #[trigger] evs[j].present,
        decreases evs.len() - i,
    {
        let e = &capability_evidence[i];
        proof {
            assert(evs.take(i + 1).drop_last() =~= evs.take(i as int));
            assert(evs.take(i + 1).last() == *e);
        }
        if !e.present {
            all_present = false;
            let msg = s("capability_missing:").concat(e.capability.as_str());
            let ghost before = strs(blockers@);
            blockers.push(msg);
            proof {
                assert(strs(blockers@) =~= before.push(msg@));
            }
        }
        proof {
            assert(strs(blockers@) =~= strs(cluster_status.blockers@) + missing_capabilities(evs.take(i + 1)));
        }
        i = i + 1;
    }
    proof {
        assert(evs.take(evs.len() as int) =~= evs);
    }
    let mut parity_blockers = clone_strings(&parity.production_blockers);
    let ghost before_append = strs(blockers@);
    blockers.append(&mut parity_blockers);
    proof {
        assert(strs(blockers@) =~= before_append + strs(parity.production_blockers@));
    }
    let blockers = sort_dedup_strings(blockers);
    let ready = cluster_status.ready && parity.ready && all_present && blockers.len() == 0;
    let health = if ready {
        RaftHealthStatus::Healthy
    } else if cluster_status.leader_id.is_some() {
        RaftHealthStatus::Degraded
    } else {
        RaftHealthStatus::Unavailable
    };
    RaftRuntimeAdminReport {
        cluster_status,
        readiness,
        parity,
        public_api,
        capability_evidence,
        ready,
        health,
        blockers,
    }
}

} // verus!
