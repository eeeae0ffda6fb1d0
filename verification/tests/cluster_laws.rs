use rustraft::{
    RaftCluster, RaftConfig, RustRaftAppendEntriesRequest, RustRaftConsensus, RustRaftError, RustRaftLogEntry,
    RustRaftLogId, RustRaftMembership, RustRaftPeer, RustRaftProposeOptions, RustRaftReadIndexRequest, RustRaftReplicaRole, RustRaftRole,
};

fn member(node_id: u64, role: RustRaftReplicaRole) -> RustRaftPeer {
    RustRaftPeer {
        node_id,
        raft_addr: format!("10.0.0.{node_id}:9000"),
        snapshot_addr: format!("10.0.0.{node_id}:9001"),
        role,
        auto_promote: false,
    }
}

fn voters(ids: &[u64]) -> RaftCluster {
    RaftCluster::new(5, RaftConfig::default(), ids.iter().map(|id| member(*id, RustRaftReplicaRole::Voter)).collect())
        .expect("cluster")
}

#[test]
fn new_cluster_refuses_duplicates_empty_and_leaderless_peer_sets() {
    assert_eq!(
        RaftCluster::new(5, RaftConfig::default(), vec![]).unwrap_err(),
        RustRaftError::InvalidRequest("raft cluster requires at least one peer".to_string())
    );
    assert_eq!(
        RaftCluster::new(
            5,
            RaftConfig::default(),
            vec![member(1, RustRaftReplicaRole::Voter), member(1, RustRaftReplicaRole::Voter)]
        )
        .unwrap_err(),
        RustRaftError::InvalidRequest("duplicate raft node id 1".to_string())
    );
    assert_eq!(
        RaftCluster::new(5, RaftConfig::default(), vec![member(1, RustRaftReplicaRole::Learner)]).unwrap_err(),
        RustRaftError::InvalidRequest("raft cluster requires at least one voter".to_string())
    );
    let mut bad = RaftConfig::default();
    bad.max_payload_bytes = 0;
    assert!(matches!(
        RaftCluster::new(5, bad, vec![member(1, RustRaftReplicaRole::Voter)]),
        Err(RustRaftError::Config(_))
    ));
}

#[test]
fn node_ids_come_back_in_increasing_order() {
    let cluster = voters(&[9, 3, 6]);
    assert_eq!(cluster.node_ids(), vec![3, 6, 9]);
}

#[test]
fn an_election_leaves_exactly_one_leader_on_one_term() {
    let mut cluster = voters(&[1, 2, 3]);
    cluster.start().expect("start");
    cluster.campaign(3, false).expect("campaign");
    assert_eq!(cluster.leader_id(), Some(3));
    let mut leaders = 0;
    for id in [1, 2, 3] {
        let status = cluster.status(id).expect("status");
        assert_eq!(status.term, 2);
        if status.role == RustRaftRole::Leader {
            leaders += 1;
            assert_eq!(id, 3);
        }
    }
    assert_eq!(leaders, 1);
}

#[test]
fn campaign_refusals_name_their_reason() {
    let mut cluster = RaftCluster::new(
        5,
        RaftConfig::default(),
        vec![member(1, RustRaftReplicaRole::Voter), member(2, RustRaftReplicaRole::Learner)],
    )
    .expect("cluster");
    assert_eq!(
        cluster.campaign(1, false),
        Err(RustRaftError::InvalidRequest("cannot campaign before cluster start".to_string()))
    );
    assert_eq!(cluster.campaign(7, true), Err(RustRaftError::NodeNotFound(7)));
    assert_eq!(
        cluster.campaign(2, true),
        Err(RustRaftError::InvalidRequest("node 2 cannot become leader".to_string()))
    );
    cluster.set_node_healthy(1, false).expect("unhealthy");
    assert_eq!(cluster.campaign(1, true), Err(RustRaftError::InvalidRequest("node 1 is not healthy".to_string())));
    assert_eq!(cluster.start(), Err(RustRaftError::InvalidRequest("no healthy voter".to_string())));
}

#[test]
fn proposals_commit_what_a_quorum_holds() {
    let mut cluster = voters(&[1, 2, 3]);
    cluster.start().expect("start");
    cluster.set_node_healthy(3, false).expect("node 3 down");
    let id = cluster.propose(b"v".to_vec()).expect("propose");
    assert_eq!(id, RustRaftLogId { term: 1, index: 1 });
    assert_eq!(cluster.status(1).expect("leader").commit_index, 1);
    assert_eq!(cluster.status(2).expect("follower").commit_index, 1);
    assert_eq!(cluster.status(3).expect("down").last_log_index, 0);
}

#[test]
fn proposal_refusals_name_their_reason() {
    let mut cluster = voters(&[1, 2, 3]);
    assert_eq!(cluster.propose(b"x".to_vec()), Err(RustRaftError::NoLeader));
    cluster.start().expect("start");
    cluster.stop().expect("stop");
    assert_eq!(
        cluster.propose(b"x".to_vec()),
        Err(RustRaftError::InvalidRequest("cannot propose while cluster is stopped".to_string()))
    );
    cluster.start().expect("restart");
    let mut small = RaftConfig::default();
    small.max_payload_bytes = 2;
    let mut tight = RaftCluster::new(5, small, vec![member(1, RustRaftReplicaRole::Voter)]).expect("cluster");
    tight.start().expect("start");
    assert_eq!(
        tight.propose(b"xyz".to_vec()),
        Err(RustRaftError::InvalidRequest("payload exceeds max_payload_bytes".to_string()))
    );
    cluster.set_node_healthy(1, false).expect("leader down");
    assert_eq!(cluster.propose(b"x".to_vec()), Err(RustRaftError::NotLeader(1)));
}

#[test]
fn reads_are_safe_only_on_healthy_replicas_that_applied_enough() {
    let mut cluster = voters(&[1, 2, 3]);
    cluster.start().expect("start");
    cluster.propose(b"a".to_vec()).expect("propose");
    cluster.set_node_healthy(2, false).expect("down");
    let read = cluster
        .read_index(RustRaftReadIndexRequest { group_id: 5, requester_id: 2, min_commit_index: 0, allow_lease_read: true })
        .expect("read");
    assert!(!read.safe);
    assert_eq!(read.reason, "node_unhealthy");
    let follower = cluster
        .read_index(RustRaftReadIndexRequest { group_id: 5, requester_id: 3, min_commit_index: 1, allow_lease_read: true })
        .expect("read");
    assert!(follower.safe);
    assert!(!follower.lease_read);
    assert_eq!(follower.reason, "read_index");
    assert_eq!(
        cluster
            .read_index(RustRaftReadIndexRequest { group_id: 6, requester_id: 1, min_commit_index: 0, allow_lease_read: true })
            .unwrap_err(),
        RustRaftError::InvalidRequest("read index group id mismatch".to_string())
    );
    assert_eq!(cluster.lease_read_eligible(1, 1), Ok(true));
}

#[test]
fn transfer_refuses_a_replica_behind_the_commit_index() {
    let mut cluster = voters(&[1, 2, 3]);
    cluster.start().expect("start");
    cluster.set_node_healthy(3, false).expect("down");
    cluster.propose(b"a".to_vec()).expect("propose");
    cluster.set_node_healthy(3, true).expect("back");
    assert_eq!(
        cluster.transfer_leader(3),
        Err(RustRaftError::InvalidRequest("node 3 is behind committed index 1".to_string()))
    );
    assert_eq!(
        cluster.promote_peer(3),
        Err(RustRaftError::InvalidRequest("node 3 is behind committed index 1".to_string()))
    );
}

#[test]
fn membership_changes_keep_ids_sorted_and_refuse_duplicates() {
    let mut cluster = voters(&[2, 4]);
    cluster.start().expect("start");
    cluster.add_learner(member(3, RustRaftReplicaRole::Voter)).expect("learner");
    cluster.add_witness(member(1, RustRaftReplicaRole::Voter)).expect("witness");
    assert_eq!(cluster.node_ids(), vec![1, 2, 3, 4]);
    let membership = cluster.membership();
    assert_eq!(membership.voters, vec![2, 4]);
    assert_eq!(membership.learners, vec![3]);
    assert_eq!(membership.witnesses, vec![1]);
    assert_eq!(
        cluster.add_peer(member(3, RustRaftReplicaRole::Voter)),
        Err(RustRaftError::InvalidRequest("duplicate raft node id 3".to_string()))
    );
    cluster.remove_peer(2).expect("remove leader");
    assert_eq!(cluster.leader_id(), None);
    assert_eq!(cluster.remove_peer(2), Err(RustRaftError::NodeNotFound(2)));
    assert_eq!(cluster.node_ids(), vec![1, 3, 4]);
}

#[test]
fn append_refusals_and_acceptance() {
    let mut cluster = voters(&[1, 2]);
    cluster.start().expect("start");
    let stale = cluster
        .append_entries_to(
            2,
            RustRaftAppendEntriesRequest { group_id: 5, term: 0, leader_id: 1, prev_log_id: None, entries: vec![], leader_commit: 0 },
        )
        .expect("answer");
    assert!(!stale.success);
    assert_eq!(stale.rejection_hint, Some(0));
    assert_eq!(
        cluster
            .append_entries_to(
                2,
                RustRaftAppendEntriesRequest { group_id: 9, term: 1, leader_id: 1, prev_log_id: None, entries: vec![], leader_commit: 0 },
            )
            .unwrap_err(),
        RustRaftError::InvalidRequest("append entries group id mismatch".to_string())
    );
    let ok = cluster
        .append_entries_to(
            2,
            RustRaftAppendEntriesRequest {
                group_id: 5,
                term: 3,
                leader_id: 1,
                prev_log_id: None,
                entries: vec![
                    RustRaftLogEntry { log_id: RustRaftLogId { term: 3, index: 1 }, payload: b"a".to_vec() },
                    RustRaftLogEntry { log_id: RustRaftLogId { term: 3, index: 2 }, payload: b"b".to_vec() },
                ],
                leader_commit: 5,
            },
        )
        .expect("answer");
    assert!(ok.success);
    assert_eq!(ok.term, 3);
    assert_eq!(ok.match_index, 2);
    assert_eq!(cluster.status(2).expect("status").commit_index, 2);
}

#[test]
fn compaction_counts_dropped_entries() {
    let mut cluster = voters(&[1, 2, 3]);
    cluster.start().expect("start");
    for i in 0..4u8 {
        cluster.propose(vec![i]).expect("propose");
    }
    assert_eq!(cluster.compact_logs_through(2), 6);
    assert_eq!(cluster.compact_logs_through(2), 0);
    assert_eq!(cluster.status(1).expect("status").last_log_index, 4);
}

#[test]
fn consensus_surface_reports_and_refuses() {
    let mut cluster = voters(&[1, 2, 3]);
    assert_eq!(RustRaftConsensus::status(&cluster), Err(RustRaftError::NoLeader));
    RustRaftConsensus::start(&mut cluster).expect("start");
    let refused = RustRaftConsensus::propose(
        &mut cluster,
        b"x".to_vec(),
        RustRaftProposeOptions { expected_term: Some(9), is_command: true },
    );
    assert_eq!(
        refused,
        Err(RustRaftError::InvalidRequest("expected term 9 does not match current term 1".to_string()))
    );
    RustRaftConsensus::propose(&mut cluster, b"x".to_vec(), RustRaftProposeOptions::default()).expect("propose");
    let meta = RustRaftConsensus::trigger_snapshot(&mut cluster).expect("meta");
    assert_eq!(meta.snapshot_id, "5-1");
    assert_eq!(meta.last_log_id, RustRaftLogId { term: 1, index: 1 });
    assert_eq!(meta.membership, vec![1, 2, 3]);
    assert!(cluster.has_room_for_calls());
}

#[test]
fn error_texts_match_their_variants() {
    assert_eq!(RustRaftError::NodeNotFound(4).to_string(), "node 4 not found");
    assert_eq!(RustRaftError::NoLeader.to_string(), "no leader is available");
    assert_eq!(RustRaftError::NotLeader(2).to_string(), "node 2 is not the leader");
    assert_eq!(RustRaftError::InvalidRequest("x".to_string()).to_string(), "invalid request: x");
    assert_eq!(RustRaftError::Transport("t".to_string()).to_string(), "transport error: t");
    assert_eq!(RustRaftError::Storage("s".to_string()).to_string(), "storage error: s");
    assert_eq!(RustRaftError::Config("c".to_string()).to_string(), "configuration error: c");
}

#[test]
fn quorum_counts_voters_and_witnesses_once() {
    let membership = RustRaftMembership { group_id: 1, voters: vec![1, 2, 3], learners: vec![4], witnesses: vec![5], epoch: 0 };
    assert_eq!(membership.quorum_size(), 3);
    assert!(!membership.quorum_reached(&[1, 5]));
    assert!(!membership.quorum_reached(&[1, 1, 4, 9]));
    assert!(membership.quorum_reached(&[1, 5, 2]));
}
