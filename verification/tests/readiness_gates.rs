use rustraft::{
    rustraft_byteraft_benchmark_workloads,
    RustRaftByteRaftBenchmarkEvidence,
    RustRaftDataNodeProcessRolloutReport,
    RustRaftMembershipScope,
    RustRaftMembershipTransitionEvidence,
    RustRaftMembershipTransitionKind,
    RustRaftMetaProcessRolloutReport,
    RustRaftPeerStatus,
    RustRaftPipelineEvidence,
    RustRaftProcessNodeEvidence,
    RustRaftProcessOperationalSemanticsEvidence,
    RustRaftProductionReadinessInput,
    RustRaftProductionStatus,
    RustRaftReadIndexRequest,
    RustRaftReadSafetyOperation,
    RustRaftReadSafetyRuntimeInput,
    RustRaftReadinessSnapshot,
    RustRaftRole,
    RustRaftSnapshotLifecycleEvidence,
    RustRaftStatusSnapshot,
    RustRaftWalLifecycleEvidence,
    rustraft_learner_promotion_decision,
    rustraft_membership_readiness_report,
    rustraft_membership_transition_missing,
    rustraft_parity_contract,
    rustraft_parity_report,
    rustraft_production_readiness_report,
    rustraft_read_safety_decision,
    rustraft_read_safety_runtime_decision,
};

fn ready_snapshot() -> RustRaftReadinessSnapshot {
    RustRaftReadinessSnapshot {
        rustraft_leader_write_authority_present: true,
        rustraft_operator_observability_present: true,
        rustraft_rpc_transport_contract_present: true,
        rustraft_log_retention_snapshot_trigger_present: true,
        rustraft_apply_snapshot_fence_present: true,
        raft_storage_apply_fence_present: true,
        rustraft_snapshot_floor_log_matching_present: true,
        rustraft_snapshot_tail_catchup_present: true,
        rustraft_compacted_entry_rejection_present: true,
        rustraft_metaserver_snapshot_floor_election_present: true,
        learner_catchup_promotion_present: true,
        metaserver_membership_workflow_present: true,
    }
}

fn ready_operational_semantics() -> RustRaftProcessOperationalSemanticsEvidence {
    RustRaftProcessOperationalSemanticsEvidence {
        api_presence_only_rejected: true,
        process_path_validated: true,
        read_index_validated: true,
        leader_lease_validated: true,
        stale_leader_lease_rejection_observed: true,
        follower_lease_expiration_observed: true,
        lagging_follower_read_rejected: true,
        bounded_stale_read_acceptance_observed: true,
        bounded_stale_read_rejection_observed: true,
        minority_partition_read_rejection_observed: true,
        healed_follower_catchup_observed: true,
        stale_follower_write_rejected: true,
        leader_transfer_exact_once_validated: true,
        leader_transfer_under_load_validated: true,
        snapshot_bootstrap_validated: true,
        snapshot_install_restart_validated: true,
        membership_rescale_validated: true,
        membership_add_promote_remove_validated: true,
        follower_rejoin_after_compaction_validated: true,
        secondary_read_eligibility_validated: true,
        apply_pipeline_converged: true,
        wal_persistence_observed: true,
        fsm_apply_idempotent_replay_observed: true,
        storage_mutation_wal_fence_atomicity_observed: true,
        snapshot_install_apply_fence_atomicity_observed: true,
        process_restart_after_apply_crash_recovered: true,
        ready: true,
        blockers: Vec::new(),
    }
}

fn ready_process_nodes() -> Vec<RustRaftProcessNodeEvidence> {
    vec![
        RustRaftProcessNodeEvidence {
            node_id: 1,
            addr: "127.0.0.1:19001".to_string(),
            wal_dir: "/tmp/rustraft/node1/wal".to_string(),
            snapshot_dir: "/tmp/rustraft/node1/snapshots".to_string(),
            commit_index: 42,
            applied_index: 42,
            snapshot_id: Some("snap-40".to_string()),
            restarted: true,
            log_store_validated: true,
        },
        RustRaftProcessNodeEvidence {
            node_id: 2,
            addr: "127.0.0.1:19002".to_string(),
            wal_dir: "/tmp/rustraft/node2/wal".to_string(),
            snapshot_dir: "/tmp/rustraft/node2/snapshots".to_string(),
            commit_index: 42,
            applied_index: 42,
            snapshot_id: Some("snap-40".to_string()),
            restarted: true,
            log_store_validated: true,
        },
    ]
}

fn ready_data_node_rollout() -> RustRaftDataNodeProcessRolloutReport {
    RustRaftDataNodeProcessRolloutReport {
        shard_id: 7,
        voters: vec![1, 2, 3],
        learners: vec![4],
        nodes: ready_process_nodes(),
        spawned_process_count: 2,
        independent_wal_dirs: true,
        independent_snapshot_dirs: true,
        observed_process_requests: 16,
        read_index_responses_observed: 8,
        restarted_node_count: 2,
        per_node_log_store_inspection_count: 2,
        write_proposed_through_process_api: true,
        leader_transfer_validated: true,
        failover_validated: true,
        secondary_lag_observed: true,
        lagging_follower_read_rejection_observed: true,
        stale_follower_write_rejection_observed: true,
        catchup_read_eligibility_observed: true,
        minority_partition_rejection_observed: true,
        bounded_stale_read_eligibility_observed: true,
        healed_follower_catchup_observed: true,
        lagging_follower_observed_lag: 3,
        membership_change_validated: true,
        follower_lag_validated: true,
        secondary_read_validated: true,
        recovered_after_restart: true,
        restart_recovery_validated: true,
        snapshot_install_validated: true,
        applied_fence_validated: true,
        crash_after_storage_mutation_recovered: true,
        crash_after_wal_persist_recovered: true,
        crash_during_snapshot_install_recovered: true,
        apply_fence_recovered_after_restart: true,
        multi_process_log_store_validated: true,
        operational_semantics: ready_operational_semantics(),
        ready: true,
        blockers: Vec::new(),
    }
}

fn ready_meta_rollout() -> RustRaftMetaProcessRolloutReport {
    RustRaftMetaProcessRolloutReport {
        voters: vec![1, 2, 3],
        learners: vec![4],
        nodes: ready_process_nodes(),
        spawned_process_count: 2,
        independent_wal_dirs: true,
        independent_snapshot_dirs: true,
        observed_process_requests: 20,
        read_index_responses_observed: 10,
        restarted_node_count: 2,
        per_node_log_store_inspection_count: 2,
        mutation_proposed_through_process_api: true,
        applied_raft_mutations: 12,
        generated_scheduler_tasks: 4,
        scheduler_retries: 1,
        stale_scheduler_token_rejected: true,
        data_node_membership_results_ready: true,
        scheduler_mutations_proposed_through_process_api: true,
        scheduler_task_replay_from_raft_log_observed: true,
        membership_mutations_proposed_through_process_api: true,
        data_node_membership_workflow_report_attached: true,
        data_node_raft_group_results_observed: true,
        failover_validated: true,
        membership_change_validated: true,
        follower_lag_validated: true,
        secondary_read_validated: true,
        read_index_validated: true,
        snapshot_install_validated: true,
        recovered_after_restart: true,
        scheduler_task_replay_validated: true,
        crash_after_meta_mutation_recovered: true,
        crash_after_meta_wal_persist_recovered: true,
        crash_during_meta_snapshot_install_recovered: true,
        meta_apply_fence_recovered_after_restart: true,
        multi_process_log_store_validated: true,
        operational_semantics: ready_operational_semantics(),
        ready: true,
        blockers: Vec::new(),
    }
}

fn membership_transition(
    scope: RustRaftMembershipScope,
    transition: RustRaftMembershipTransitionKind,
) -> RustRaftMembershipTransitionEvidence {
    match transition {
        RustRaftMembershipTransitionKind::Failover => RustRaftMembershipTransitionEvidence {
            scope,
            transition,
            before_voters: vec![1, 2, 3],
            after_voters: vec![1, 2, 3],
            before_learners: Vec::new(),
            after_learners: Vec::new(),
            leader_before: Some(1),
            leader_after: Some(2),
            failed_or_removed_nodes: vec![1],
            added_nodes: Vec::new(),
            caught_up_nodes: vec![2, 3],
            commit_index_before: 100,
            commit_index_after: 104,
            applied_index_after: 104,
            joint_consensus_used: false,
            old_majority_preserved: true,
            new_majority_reached: true,
            stale_leader_rejected: true,
            read_index_validated_after: true,
            write_validated_after: true,
            snapshot_floor_preserved: true,
            secondary_replication_visible: true,
            scheduler_generation_advanced: matches!(scope, RustRaftMembershipScope::Metaserver),
            blockers: Vec::new(),
        },
        RustRaftMembershipTransitionKind::ScaleUp => RustRaftMembershipTransitionEvidence {
            scope,
            transition,
            before_voters: vec![1, 2, 3],
            after_voters: vec![1, 2, 3, 4],
            before_learners: vec![4],
            after_learners: Vec::new(),
            leader_before: Some(1),
            leader_after: Some(1),
            failed_or_removed_nodes: Vec::new(),
            added_nodes: vec![4],
            caught_up_nodes: vec![4],
            commit_index_before: 100,
            commit_index_after: 108,
            applied_index_after: 108,
            joint_consensus_used: true,
            old_majority_preserved: true,
            new_majority_reached: true,
            stale_leader_rejected: true,
            read_index_validated_after: true,
            write_validated_after: true,
            snapshot_floor_preserved: true,
            secondary_replication_visible: true,
            scheduler_generation_advanced: matches!(scope, RustRaftMembershipScope::Metaserver),
            blockers: Vec::new(),
        },
        RustRaftMembershipTransitionKind::ScaleDown => RustRaftMembershipTransitionEvidence {
            scope,
            transition,
            before_voters: vec![1, 2, 3, 4],
            after_voters: vec![1, 2, 3],
            before_learners: Vec::new(),
            after_learners: Vec::new(),
            leader_before: Some(1),
            leader_after: Some(1),
            failed_or_removed_nodes: vec![4],
            added_nodes: Vec::new(),
            caught_up_nodes: vec![1, 2, 3],
            commit_index_before: 108,
            commit_index_after: 112,
            applied_index_after: 112,
            joint_consensus_used: true,
            old_majority_preserved: true,
            new_majority_reached: true,
            stale_leader_rejected: true,
            read_index_validated_after: true,
            write_validated_after: true,
            snapshot_floor_preserved: true,
            secondary_replication_visible: true,
            scheduler_generation_advanced: matches!(scope, RustRaftMembershipScope::Metaserver),
            blockers: Vec::new(),
        },
    }
}

fn ready_membership_transitions() -> Vec<RustRaftMembershipTransitionEvidence> {
    [
        RustRaftMembershipScope::Metaserver,
        RustRaftMembershipScope::DataNode,
    ]
    .into_iter()
    .flat_map(|scope| {
        [
            RustRaftMembershipTransitionKind::Failover,
            RustRaftMembershipTransitionKind::ScaleUp,
            RustRaftMembershipTransitionKind::ScaleDown,
        ]
        .into_iter()
        .map(move |transition| membership_transition(scope, transition))
    })
    .collect()
}

fn ready_production_input() -> RustRaftProductionReadinessInput {
    RustRaftProductionReadinessInput {
        readiness: ready_snapshot(),
        peer_pipeline: Some(RustRaftPipelineEvidence {
            per_peer_pipeline_state_present: true,
            append_backpressure_enforced: true,
            apply_backpressure_enforced: true,
            memory_replicate_bytes_enforced: true,
            oversized_log_rejection_present: true,
            out_of_order_append_handling_present: true,
            reorder_timeout_drop_present: true,
            stale_term_rejection_present: true,
            reorder_queue_enabled: true,
        }),
        snapshot_lifecycle: Some(RustRaftSnapshotLifecycleEvidence {
            sender_lifecycle_present: true,
            downloader_lifecycle_present: true,
            retry_backpressure_present: true,
            chunk_retry_present: true,
            send_timeout_present: true,
            rate_limit_present: true,
            install_progress_present: true,
            install_rollback_present: true,
            membership_change_present: true,
            rejoin_after_compacted_log_present: true,
        }),
        wal_lifecycle: Some(RustRaftWalLifecycleEvidence {
            segment_lifecycle_present: true,
            retained_range_present: true,
            sequence_range_present: true,
            log_index_range_present: true,
            compaction_observed: true,
            slow_fsync_backpressure_observed: true,
        }),
        data_node_rollout: Some(ready_data_node_rollout()),
        metaserver_rollout: Some(ready_meta_rollout()),
        membership_transitions: ready_membership_transitions(),
        benchmark: Some(ready_benchmark()),
    }
}

fn ready_benchmark() -> RustRaftByteRaftBenchmarkEvidence {
    RustRaftByteRaftBenchmarkEvidence {
        real_byteraft: true,
        rustraft_runtime: true,
        correctness_passed: true,
        performance_within_threshold: true,
        workloads: rustraft_byteraft_benchmark_workloads(),
    }
}

#[test]
fn contract_is_openraft_free_and_complete() {
    let contract = rustraft_parity_contract();
    assert!(contract.openraft_dependency_removed);
    assert_eq!(contract.requirements.len(), 12);
}

#[test]
fn report_fails_closed() {
    let mut snapshot = ready_snapshot();
    snapshot.raft_storage_apply_fence_present = false;
    let report = rustraft_parity_report(&snapshot);
    assert!(!report.ready);
    assert_eq!(report.production_status, RustRaftProductionStatus::Blocked);
    assert_eq!(report.missing, vec!["storage_apply_fence".to_string()]);
}

#[test]
fn production_readiness_gate_accepts_complete_evidence() {
    let report = rustraft_production_readiness_report(&ready_production_input());
    assert!(report.ready, "{report:#?}");
    assert_eq!(
        report.production_status,
        RustRaftProductionStatus::ProductionReady
    );
    assert!(report.missing.is_empty());
    assert!(report.production_blockers.is_empty());
    assert_eq!(report.public_api.storage_trait, "RustRaftStorage");
}

#[test]
fn production_readiness_gate_fails_closed_without_runtime_evidence() {
    let report = rustraft_production_readiness_report(&RustRaftProductionReadinessInput {
        readiness: ready_snapshot(),
        peer_pipeline: None,
        snapshot_lifecycle: None,
        wal_lifecycle: None,
        data_node_rollout: None,
        metaserver_rollout: None,
        membership_transitions: Vec::new(),
        benchmark: None,
    });
    assert!(!report.ready);
    assert_eq!(report.production_status, RustRaftProductionStatus::Blocked);
    assert!(report
        .missing
        .contains(&"pipeline:evidence_present".to_string()));
    assert!(report
        .missing
        .contains(&"snapshot:evidence_present".to_string()));
    assert!(report.missing.contains(&"wal:evidence_present".to_string()));
    assert!(report
        .missing
        .contains(&"data_node:evidence_present".to_string()));
    assert!(report
        .missing
        .contains(&"metaserver:evidence_present".to_string()));
    assert!(report
        .missing
        .iter()
        .any(|item| item == "membership:datanode:scaledown:evidence_present"));
    assert!(report
        .missing
        .contains(&"benchmark:evidence_present".to_string()));
}

#[test]
fn production_readiness_gate_reports_specific_wal_blocker() {
    let mut input = ready_production_input();
    input.wal_lifecycle = Some(RustRaftWalLifecycleEvidence {
        segment_lifecycle_present: true,
        retained_range_present: true,
        sequence_range_present: true,
        log_index_range_present: true,
        compaction_observed: false,
        slow_fsync_backpressure_observed: true,
    });
    let report = rustraft_production_readiness_report(&input);
    assert!(!report.ready);
    assert!(report.missing.contains(&"wal:compaction".to_string()));
    assert!(report
        .recommended_next_actions
        .contains(&"prove WAL compaction/released segment behavior".to_string()));
}

#[test]
fn safety_helpers_accept_healthy_state() {
    let status = RustRaftStatusSnapshot {
        group_id: 1,
        node_id: 1,
        role: RustRaftRole::Leader,
        term: 2,
        leader_id: Some(1),
        commit_index: 10,
        applied_index: 10,
        last_log_index: 10,
        last_snapshot_index: 4,
        peers: vec![RustRaftPeerStatus {
            node_id: 2,
            matched: 10,
            next_index: 11,
            learner: true,
            healthy: true,
            lag: 0,
        }],
    };
    assert!(
        rustraft_read_safety_decision(
            &status,
            &RustRaftReadIndexRequest {
                group_id: 1,
                requester_id: 1,
                min_commit_index: 10,
                allow_lease_read: true,
            },
        )
        .safe
    );
    assert!(rustraft_learner_promotion_decision(&status, 2, 0).promotable);
}

#[test]
fn runtime_read_safety_rejects_stale_leader_lease() {
    let decision = rustraft_read_safety_runtime_decision(RustRaftReadSafetyRuntimeInput {
        operation: RustRaftReadSafetyOperation::ReadIndex,
        node_id: 1,
        leader_id: 1,
        node_alive: true,
        role_can_serve_data: true,
        leader_lease_valid: false,
        has_majority: true,
        node_commit_index: 10,
        leader_commit_index: 10,
        max_stale_index_lag: 0,
    });
    assert!(!decision.allowed);
    assert!(decision.stale_leader_lease_rejected);
    assert_eq!(decision.reason, "stale_leader_lease");
}

#[test]
fn runtime_read_safety_rejects_lagging_follower() {
    let decision = rustraft_read_safety_runtime_decision(RustRaftReadSafetyRuntimeInput {
        operation: RustRaftReadSafetyOperation::ReadIndex,
        node_id: 2,
        leader_id: 1,
        node_alive: true,
        role_can_serve_data: true,
        leader_lease_valid: true,
        has_majority: true,
        node_commit_index: 7,
        leader_commit_index: 10,
        max_stale_index_lag: 0,
    });
    assert!(!decision.allowed);
    assert!(decision.lagging_follower_read_rejected);
    assert_eq!(decision.reason, "replica_lagging");
}

#[test]
fn runtime_read_safety_allows_bounded_stale_within_lag_budget() {
    let decision = rustraft_read_safety_runtime_decision(RustRaftReadSafetyRuntimeInput {
        operation: RustRaftReadSafetyOperation::BoundedStaleRead,
        node_id: 2,
        leader_id: 1,
        node_alive: true,
        role_can_serve_data: true,
        leader_lease_valid: true,
        has_majority: true,
        node_commit_index: 8,
        leader_commit_index: 10,
        max_stale_index_lag: 2,
    });
    assert!(decision.allowed);
    assert_eq!(decision.read_index, 8);
}

#[test]
fn runtime_read_safety_rejects_minority_writes() {
    let decision = rustraft_read_safety_runtime_decision(RustRaftReadSafetyRuntimeInput {
        operation: RustRaftReadSafetyOperation::Write,
        node_id: 1,
        leader_id: 1,
        node_alive: true,
        role_can_serve_data: true,
        leader_lease_valid: true,
        has_majority: false,
        node_commit_index: 10,
        leader_commit_index: 10,
        max_stale_index_lag: 0,
    });
    assert!(!decision.allowed);
    assert!(decision.minority_partition_write_rejected);
    assert_eq!(decision.reason, "minority_partition");
}

#[test]
fn membership_readiness_requires_failover_scale_up_and_scale_down_for_meta_and_data_nodes() {
    let report = rustraft_membership_readiness_report(&ready_membership_transitions());
    assert!(report.ready, "{report:#?}");
    assert!(report
        .satisfied
        .contains(&"metaserver:failover".to_string()));
    assert!(report.satisfied.contains(&"metaserver:scaleup".to_string()));
    assert!(report
        .satisfied
        .contains(&"metaserver:scaledown".to_string()));
    assert!(report.satisfied.contains(&"datanode:failover".to_string()));
    assert!(report.satisfied.contains(&"datanode:scaleup".to_string()));
    assert!(report.satisfied.contains(&"datanode:scaledown".to_string()));
}

#[test]
fn membership_readiness_fails_closed_when_transition_evidence_is_missing() {
    let transitions = ready_membership_transitions()
        .into_iter()
        .filter(|item| {
            !(item.scope == RustRaftMembershipScope::DataNode
                && item.transition == RustRaftMembershipTransitionKind::ScaleDown)
        })
        .collect::<Vec<_>>();
    let report = rustraft_membership_readiness_report(&transitions);
    assert!(!report.ready);
    assert!(report
        .missing
        .contains(&"datanode:scaledown:evidence_present".to_string()));
}

#[test]
fn membership_readiness_rejects_unsafe_scale_up_without_joint_consensus() {
    let mut transition = membership_transition(
        RustRaftMembershipScope::Metaserver,
        RustRaftMembershipTransitionKind::ScaleUp,
    );
    transition.joint_consensus_used = false;
    let missing = rustraft_membership_transition_missing(&transition);
    assert!(missing.contains(&"joint_consensus_used".to_string()));
}

#[test]
fn production_readiness_gate_blocks_without_real_byteraft_benchmark() {
    let mut input = ready_production_input();
    input.benchmark = None;
    let report = rustraft_production_readiness_report(&input);
    assert!(!report.ready);
    assert_eq!(report.missing, vec!["benchmark:evidence_present".to_string()]);

    let mut model_only = ready_benchmark();
    model_only.real_byteraft = false;
    model_only.rustraft_runtime = false;
    model_only.workloads.pop();
    input.benchmark = Some(model_only);
    let report = rustraft_production_readiness_report(&input);
    assert!(!report.ready);
    assert_eq!(
        report.missing,
        vec![
            "benchmark:real_byteraft".to_string(),
            "benchmark:rustraft_runtime".to_string(),
            "benchmark:workloads".to_string(),
        ]
    );
    assert_eq!(report.production_blockers, report.missing);
}
