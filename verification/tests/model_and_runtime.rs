use rustraft::{
    rustraft_runtime_step, RaftNodeRuntimeCommand,
    rustraft_benchmark_operation_count, rustraft_byteraft_benchmark_workloads, rustraft_restart_stops_first,
    rustraft_runtime_peers, rustraft_same_machine_correctness_passes, rustraft_synthetic_latency_series,
    RaftApply, RaftApplyRequest, RaftApplyResponse, RaftConfig, RaftFsmAdapter, RaftLogEntry, RaftNodeRuntimeState,
    RaftReplicationPipeline, RaftStateMachine, RustRaftBenchmarkEngine, RustRaftBenchmarkWorkload, RustRaftError,
    RustRaftLogEntry, RustRaftLogId, RustRaftNodeOptions, RustRaftPeer, RustRaftPipelineLimits, RustRaftReplicaRole,
    RustRaftSameMachineModelRunner,
};

#[test]
fn workload_ids_and_order() {
    let ids: Vec<&str> = rustraft_byteraft_benchmark_workloads().into_iter().map(|w| w.id()).collect();
    assert_eq!(
        ids,
        vec![
            "single_key_writes",
            "batched_writes",
            "replication_batching",
            "wal_fsync",
            "read_index_reads",
            "lease_reads",
            "snapshot_install_catchup",
            "snapshot_streaming",
            "leader_transfer_under_load"
        ]
    );
    assert_eq!(RustRaftSameMachineModelRunner::byteraft_baseline().engine(), RustRaftBenchmarkEngine::ByteRaft);
    assert_eq!(RustRaftSameMachineModelRunner::rustraft_candidate().engine(), RustRaftBenchmarkEngine::RustRaft);
}

#[test]
fn latency_model_and_operation_counts() {
    let series = rustraft_synthetic_latency_series(RustRaftBenchmarkEngine::RustRaft, RustRaftBenchmarkWorkload::LeaseReads, 3);
    assert_eq!(series, vec![129, 139, 149]);
    let one = rustraft_synthetic_latency_series(RustRaftBenchmarkEngine::ByteRaft, RustRaftBenchmarkWorkload::SingleKeyWrites, 0);
    assert_eq!(one, vec![900]);
    assert_eq!(rustraft_benchmark_operation_count(RustRaftBenchmarkWorkload::BatchedWrites, 128, 16), 2048);
    assert_eq!(rustraft_benchmark_operation_count(RustRaftBenchmarkWorkload::BatchedWrites, usize::MAX, 2), usize::MAX);
    assert_eq!(rustraft_benchmark_operation_count(RustRaftBenchmarkWorkload::LeaseReads, 128, 16), 128);
    assert!(rustraft_same_machine_correctness_passes(RustRaftBenchmarkWorkload::BatchedWrites, 3, 1, 2));
    assert!(!rustraft_same_machine_correctness_passes(RustRaftBenchmarkWorkload::BatchedWrites, 3, 1, 1));
    assert!(!rustraft_same_machine_correctness_passes(RustRaftBenchmarkWorkload::LeaseReads, 4, 1, 1));
}

#[test]
fn runtime_peers_add_the_node_itself_once() {
    let peer = |id: u64| RustRaftPeer {
        node_id: id,
        raft_addr: format!("a{id}"),
        snapshot_addr: format!("s{id}"),
        role: RustRaftReplicaRole::Voter,
        auto_promote: true,
    };
    let mut options = RustRaftNodeOptions {
        group_id: 1,
        node_id: 4,
        raft_addr: "a4".to_string(),
        snapshot_addr: "s4".to_string(),
        wal_dir: "w".to_string(),
        snapshot_dir: "d".to_string(),
        role: RustRaftReplicaRole::Learner,
        config: RaftConfig::default(),
        peers: vec![peer(1), peer(2)],
    };
    let peers = rustraft_runtime_peers(&options);
    assert_eq!(peers.iter().map(|p| p.node_id).collect::<Vec<_>>(), vec![1, 2, 4]);
    assert_eq!(peers[2].role, RustRaftReplicaRole::Learner);
    assert!(!peers[2].auto_promote);
    options.peers.push(peer(4));
    assert_eq!(rustraft_runtime_peers(&options).len(), 3);
}

#[test]
fn restart_decisions() {
    assert_eq!(rustraft_restart_stops_first(RaftNodeRuntimeState::Running), Ok(true));
    assert_eq!(rustraft_restart_stops_first(RaftNodeRuntimeState::Stopped), Ok(false));
    assert_eq!(
        rustraft_restart_stops_first(RaftNodeRuntimeState::Shutdown),
        Err(RustRaftError::InvalidRequest("cannot restart a shutdown raft node runtime".to_string()))
    );
}

#[test]
fn pipeline_window_never_exceeds_its_limits() {
    let limits = RustRaftPipelineLimits {
        max_inflights_replicate: 2,
        max_memory_replicate_log_bytes: 6,
        max_inflights_apply_task: 4,
        max_apply_batch_bytes: 4,
        enable_reorder_queue: true,
        reorder_window_size: 4,
        reorder_timeout_us: 10,
    };
    let mut pipeline = RaftReplicationPipeline::new(2, 1, limits);
    for index in 1..=4u64 {
        let _ = pipeline.queue_append(RustRaftLogEntry { log_id: RustRaftLogId { term: 1, index }, payload: vec![0; 2] });
        let _ = pipeline.flush_append_window();
        let status = pipeline.status();
        assert!(status.inflight_entries <= 2);
        assert!(status.inflight_bytes <= 6);
    }
    assert_eq!(
        pipeline.queue_append(RustRaftLogEntry { log_id: RustRaftLogId { term: 1, index: 9 }, payload: vec![0; 5] }),
        Err(RustRaftError::InvalidRequest("append entry exceeds max apply batch bytes".to_string()))
    );
}

#[derive(Default)]
struct Failing {
    calls: u32,
}

impl RaftApply<u64, Vec<u8>> for Failing {
    type Response = u32;

    fn apply(&mut self, _request: RaftApplyRequest<u64, Vec<u8>>) -> Result<RaftApplyResponse<u32>, RustRaftError> {
        self.calls += 1;
        Err(RustRaftError::Storage("disk full".to_string()))
    }
}

impl RaftStateMachine<u64, Vec<u8>> for Failing {
    type Snapshot = u32;

    fn snapshot(&self, _group_id: u64) -> Result<u32, RustRaftError> {
        Ok(self.calls)
    }

    fn install_snapshot(&mut self, snapshot: u32) -> Result<(), RustRaftError> {
        self.calls = snapshot;
        Ok(())
    }
}

#[test]
fn a_failed_apply_records_nothing() {
    let mut adapter = RaftFsmAdapter::new(1, Failing::default());
    let entry = RaftLogEntry { log_id: RustRaftLogId { term: 1, index: 1 }, payload: vec![1] };
    assert_eq!(adapter.apply_entry(entry.clone()).unwrap_err(), RustRaftError::Storage("disk full".to_string()));
    assert_eq!(adapter.applied_log_count(), 0);
    assert_eq!(adapter.last_applied(), 0);
    assert!(adapter.apply_entry(entry).is_err());
    assert_eq!(adapter.inner().calls, 2);
    adapter.inner_mut().calls = 7;
    assert_eq!(adapter.checkpoint().expect("checkpoint").snapshot, 7);
}

#[test]
fn same_machine_benchmark_covers_required_byteraft_workloads() {
    let workloads = rustraft_byteraft_benchmark_workloads()
        .into_iter()
        .map(|workload| workload.id())
        .collect::<std::collections::BTreeSet<_>>();

    assert_eq!(
        workloads,
        [
            "single_key_writes",
            "batched_writes",
            "replication_batching",
            "wal_fsync",
            "read_index_reads",
            "lease_reads",
            "snapshot_install_catchup",
            "snapshot_streaming",
            "leader_transfer_under_load",
        ]
        .into_iter()
        .collect::<std::collections::BTreeSet<_>>()
    );
}

#[test]
fn runtime_step_follows_lifecycle_answers() {
    type S = RaftNodeRuntimeState;
    assert_eq!(rustraft_runtime_step(S::Created, RaftNodeRuntimeCommand::Start, true), (S::Running, true));
    assert_eq!(rustraft_runtime_step(S::Created, RaftNodeRuntimeCommand::Start, false), (S::Created, true));
    assert_eq!(rustraft_runtime_step(S::Running, RaftNodeRuntimeCommand::Stop, true), (S::Stopped, true));
    assert_eq!(rustraft_runtime_step(S::Running, RaftNodeRuntimeCommand::Other, true), (S::Running, true));
    assert_eq!(rustraft_runtime_step(S::Running, RaftNodeRuntimeCommand::Shutdown, false), (S::Shutdown, false));
}
