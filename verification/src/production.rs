//! The fail-closed production readiness gate: runtime evidence for the
//! replication pipeline, snapshots, the WAL, process rollouts and membership
//! transitions on top of the semantic parity report.
use vstd::prelude::*;
use vstd::string::*;
use crate::readiness::{
    RustRaftParityReport, RustRaftProductionStatus, RustRaftPublicApiContract, RustRaftReadinessSnapshot,
    requirement_checks, rustraft_parity_report, rustraft_public_api_contract, is_parity_report,
    is_public_api_contract,
};
use crate::report::{
    Check, ExecCheck, ListsModel, ReportLists, absent_actions, absent_ids, apply_checks, checks_view, empty_lists,
    lemma_absent_ids_empty, lemma_apply_checks_concat, lemma_ids_concat, lemma_ids_push, present_ids, push_str, s,
    lemma_check_listed, lemma_contains_within,
};
use crate::seqs::{clone_strings, strs};
use crate::pipeline::{RustRaftPeerPipelineStatus, RustRaftPipelineLimits};
use crate::benchmark::{RustRaftBenchmarkWorkload, parity_workloads, rustraft_byteraft_benchmark_workloads};
use crate::transitions::{
    RustRaftMembershipTransitionEvidence, extend_prefixed, membership_report_missing, membership_report_satisfied,
    prefixed, rustraft_membership_readiness_report,
};

verus! {

#[derive(Debug, Clone, Copy, PartialEq, Eq, Structural)]
pub struct RustRaftPipelineEvidence {
    pub per_peer_pipeline_state_present: bool,
    pub append_backpressure_enforced: bool,
    pub apply_backpressure_enforced: bool,
    pub memory_replicate_bytes_enforced: bool,
    pub oversized_log_rejection_present: bool,
    pub out_of_order_append_handling_present: bool,
    pub reorder_timeout_drop_present: bool,
    pub stale_term_rejection_present: bool,
    pub reorder_queue_enabled: bool,
}

#[derive(Debug, Clone, Copy, PartialEq, Eq, Structural)]
pub struct RustRaftSnapshotLifecycleEvidence {
    pub sender_lifecycle_present: bool,
    pub downloader_lifecycle_present: bool,
    pub retry_backpressure_present: bool,
    pub chunk_retry_present: bool,
    pub send_timeout_present: bool,
    pub rate_limit_present: bool,
    pub install_progress_present: bool,
    pub install_rollback_present: bool,
    pub membership_change_present: bool,
    pub rejoin_after_compacted_log_present: bool,
}

#[derive(Debug, Clone, Copy, PartialEq, Eq, Structural)]
pub struct RustRaftWalLifecycleEvidence {
    pub segment_lifecycle_present: bool,
    pub retained_range_present: bool,
    pub sequence_range_present: bool,
    pub log_index_range_present: bool,
    pub compaction_observed: bool,
    pub slow_fsync_backpressure_observed: bool,
}

/// The observed state of a segmented WAL.
#[derive(Debug, Clone, Copy, PartialEq, Eq, Structural)]
pub struct RustRaftWalLifecycleStatus {
    pub segment_count: u64,
    pub active_segment_id: u64,
    pub first_retained_segment_id: u64,
    pub last_retained_segment_id: u64,
    pub total_bytes: u64,
    pub active_segment_bytes: u64,
    pub total_records: u64,
    pub first_sequence: u64,
    pub last_sequence: u64,
    pub first_log_index: u64,
    pub last_log_index: u64,
    pub released_segment_count: u64,
    pub slow_fsync_backpressure_observed: bool,
}

/// Derives WAL lifecycle evidence from an observed WAL status.
pub fn rustraft_wal_lifecycle_evidence(status: &RustRaftWalLifecycleStatus) -> (r: RustRaftWalLifecycleEvidence)
    ensures
        r.segment_lifecycle_present == (status.segment_count > 0
            && status.active_segment_id >= status.first_retained_segment_id
            && status.last_retained_segment_id >= status.first_retained_segment_id),
        r.retained_range_present == (status.first_retained_segment_id <= status.last_retained_segment_id),
        r.sequence_range_present == (status.first_sequence <= status.last_sequence && status.total_records > 0),
        r.log_index_range_present == (status.first_log_index <= status.last_log_index && status.last_log_index > 0),
        r.compaction_observed == (status.released_segment_count > 0),
        r.slow_fsync_backpressure_observed == status.slow_fsync_backpressure_observed,
{
    RustRaftWalLifecycleEvidence {
        segment_lifecycle_present: status.segment_count > 0
            && status.active_segment_id >= status.first_retained_segment_id
            && status.last_retained_segment_id >= status.first_retained_segment_id,
        retained_range_present: status.first_retained_segment_id <= status.last_retained_segment_id,
        sequence_range_present: status.first_sequence <= status.last_sequence && status.total_records > 0,
        log_index_range_present: status.first_log_index <= status.last_log_index && status.last_log_index > 0,
        compaction_observed: status.released_segment_count > 0,
        slow_fsync_backpressure_observed: status.slow_fsync_backpressure_observed,
    }
}

/// One process of a rollout, as observed.
#[derive(Debug, Clone, Default, PartialEq, Eq)]
pub struct RustRaftProcessNodeEvidence {
    pub node_id: u64,
    pub addr: String,
    pub wal_dir: String,
    pub snapshot_dir: String,
    pub commit_index: u64,
    pub applied_index: u64,
    pub snapshot_id: Option<String>,
    pub restarted: bool,
    pub log_store_validated: bool,
}

/// Runtime semantics observed through spawned processes rather than API presence.
#[derive(Debug, Clone, Default, PartialEq, Eq)]
pub struct RustRaftProcessOperationalSemanticsEvidence {
    pub api_presence_only_rejected: bool,
    pub process_path_validated: bool,
    pub read_index_validated: bool,
    pub leader_lease_validated: bool,
    pub stale_leader_lease_rejection_observed: bool,
    pub follower_lease_expiration_observed: bool,
    pub lagging_follower_read_rejected: bool,
    pub bounded_stale_read_acceptance_observed: bool,
    pub bounded_stale_read_rejection_observed: bool,
    pub minority_partition_read_rejection_observed: bool,
    pub healed_follower_catchup_observed: bool,
    pub stale_follower_write_rejected: bool,
    pub leader_transfer_exact_once_validated: bool,
    pub leader_transfer_under_load_validated: bool,
    pub snapshot_bootstrap_validated: bool,
    pub snapshot_install_restart_validated: bool,
    pub membership_rescale_validated: bool,
    pub membership_add_promote_remove_validated: bool,
    pub follower_rejoin_after_compaction_validated: bool,
    pub secondary_read_eligibility_validated: bool,
    pub apply_pipeline_converged: bool,
    pub wal_persistence_observed: bool,
    pub fsm_apply_idempotent_replay_observed: bool,
    pub storage_mutation_wal_fence_atomicity_observed: bool,
    pub snapshot_install_apply_fence_atomicity_observed: bool,
    pub process_restart_after_apply_crash_recovered: bool,
    pub ready: bool,
    pub blockers: Vec<String>,
}

/// Part 1 of `semantics_checks`.
pub open spec fn semantics_checks_part1(e: RustRaftProcessOperationalSemanticsEvidence) -> Seq<Check> {
    seq![
        Check { present: e.ready, id: "operational_semantics_ready"@, action: seq![] },
        Check { present: e.api_presence_only_rejected, id: "api_presence_only_rejected"@, action: seq![] },
        Check { present: e.process_path_validated, id: "process_path_validated"@, action: seq![] },
        Check { present: e.read_index_validated, id: "read_index_validated"@, action: seq![] },
        Check { present: e.leader_lease_validated, id: "leader_lease_validated"@, action: seq![] },
        Check { present: e.stale_leader_lease_rejection_observed, id: "stale_leader_lease_rejection_observed"@, action: seq![] },
        Check { present: e.follower_lease_expiration_observed, id: "follower_lease_expiration_observed"@, action: seq![] },
    ]
}

/// Part 2 of `semantics_checks`.
pub open spec fn semantics_checks_part2(e: RustRaftProcessOperationalSemanticsEvidence) -> Seq<Check> {
    seq![
        Check { present: e.lagging_follower_read_rejected, id: "lagging_follower_read_rejected"@, action: seq![] },
        Check { present: e.bounded_stale_read_acceptance_observed, id: "bounded_stale_read_acceptance_observed"@, action: seq![] },
        Check { present: e.bounded_stale_read_rejection_observed, id: "bounded_stale_read_rejection_observed"@, action: seq![] },
        Check { present: e.minority_partition_read_rejection_observed, id: "minority_partition_read_rejection_observed"@, action: seq![] },
        Check { present: e.healed_follower_catchup_observed, id: "healed_follower_catchup_observed"@, action: seq![] },
        Check { present: e.stale_follower_write_rejected, id: "stale_follower_write_rejected"@, action: seq![] },
        Check { present: e.leader_transfer_exact_once_validated, id: "leader_transfer_exact_once_validated"@, action: seq![] },
    ]
}

/// Part 3 of `semantics_checks`.
pub open spec fn semantics_checks_part3(e: RustRaftProcessOperationalSemanticsEvidence) -> Seq<Check> {
    seq![
        Check { present: e.leader_transfer_under_load_validated, id: "leader_transfer_under_load_validated"@, action: seq![] },
        Check { present: e.snapshot_bootstrap_validated, id: "snapshot_bootstrap_validated"@, action: seq![] },
        Check { present: e.snapshot_install_restart_validated, id: "snapshot_install_restart_validated"@, action: seq![] },
        Check { present: e.membership_rescale_validated, id: "membership_rescale_validated"@, action: seq![] },
        Check { present: e.membership_add_promote_remove_validated, id: "membership_add_promote_remove_validated"@, action: seq![] },
        Check { present: e.follower_rejoin_after_compaction_validated, id: "follower_rejoin_after_compaction_validated"@, action: seq![] },
        Check { present: e.secondary_read_eligibility_validated, id: "secondary_read_eligibility_validated"@, action: seq![] },
    ]
}

/// Part 4 of `semantics_checks`.
pub open spec fn semantics_checks_part4(e: RustRaftProcessOperationalSemanticsEvidence) -> Seq<Check> {
    seq![
        Check { present: e.apply_pipeline_converged, id: "apply_pipeline_converged"@, action: seq![] },
        Check { present: e.wal_persistence_observed, id: "wal_persistence_observed"@, action: seq![] },
        Check { present: e.fsm_apply_idempotent_replay_observed, id: "fsm_apply_idempotent_replay_observed"@, action: seq![] },
        Check { present: e.storage_mutation_wal_fence_atomicity_observed, id: "storage_mutation_wal_fence_atomicity_observed"@, action: seq![] },
        Check { present: e.snapshot_install_apply_fence_atomicity_observed, id: "snapshot_install_apply_fence_atomicity_observed"@, action: seq![] },
        Check { present: e.process_restart_after_apply_crash_recovered, id: "process_restart_after_apply_crash_recovered"@, action: seq![] },
    ]
}

/// The checks of the operational semantics, in the order they are reported.
pub open spec fn semantics_checks(e: RustRaftProcessOperationalSemanticsEvidence) -> Seq<Check> {
    semantics_checks_part1(e) + semantics_checks_part2(e) + semantics_checks_part3(e) + semantics_checks_part4(e)
}

/// The semantics still missing: failed checks, then `blocker:<blocker>`.
pub open spec fn semantics_missing(e: RustRaftProcessOperationalSemanticsEvidence) -> Seq<Seq<char>> {
    absent_ids(semantics_checks(e)) + prefixed("blocker:"@, strs(e.blockers@))
}

fn semantics_checks_part1_exec(e: &RustRaftProcessOperationalSemanticsEvidence) -> (out: Vec<ExecCheck>)
    ensures
        checks_view(out@) == semantics_checks_part1(*e),
{
    let out = vec![
        ExecCheck::plain(e.ready, "operational_semantics_ready"),
        ExecCheck::plain(e.api_presence_only_rejected, "api_presence_only_rejected"),
        ExecCheck::plain(e.process_path_validated, "process_path_validated"),
        ExecCheck::plain(e.read_index_validated, "read_index_validated"),
        ExecCheck::plain(e.leader_lease_validated, "leader_lease_validated"),
        ExecCheck::plain(e.stale_leader_lease_rejection_observed, "stale_leader_lease_rejection_observed"),
        ExecCheck::plain(e.follower_lease_expiration_observed, "follower_lease_expiration_observed"),
    ];
    proof {
        assert(checks_view(out@) =~= semantics_checks_part1(*e));
    }
    out
}

fn semantics_checks_part2_exec(e: &RustRaftProcessOperationalSemanticsEvidence) -> (out: Vec<ExecCheck>)
    ensures
        checks_view(out@) == semantics_checks_part2(*e),
{
    let out = vec![
        ExecCheck::plain(e.lagging_follower_read_rejected, "lagging_follower_read_rejected"),
        ExecCheck::plain(e.bounded_stale_read_acceptance_observed, "bounded_stale_read_acceptance_observed"),
        ExecCheck::plain(e.bounded_stale_read_rejection_observed, "bounded_stale_read_rejection_observed"),
        ExecCheck::plain(e.minority_partition_read_rejection_observed, "minority_partition_read_rejection_observed"),
        ExecCheck::plain(e.healed_follower_catchup_observed, "healed_follower_catchup_observed"),
        ExecCheck::plain(e.stale_follower_write_rejected, "stale_follower_write_rejected"),
        ExecCheck::plain(e.leader_transfer_exact_once_validated, "leader_transfer_exact_once_validated"),
    ];
    proof {
        assert(checks_view(out@) =~= semantics_checks_part2(*e));
    }
    out
}

fn semantics_checks_part3_exec(e: &RustRaftProcessOperationalSemanticsEvidence) -> (out: Vec<ExecCheck>)
    ensures
        checks_view(out@) == semantics_checks_part3(*e),
{
    let out = vec![
        ExecCheck::plain(e.leader_transfer_under_load_validated, "leader_transfer_under_load_validated"),
        ExecCheck::plain(e.snapshot_bootstrap_validated, "snapshot_bootstrap_validated"),
        ExecCheck::plain(e.snapshot_install_restart_validated, "snapshot_install_restart_validated"),
        ExecCheck::plain(e.membership_rescale_validated, "membership_rescale_validated"),
        ExecCheck::plain(e.membership_add_promote_remove_validated, "membership_add_promote_remove_validated"),
        ExecCheck::plain(e.follower_rejoin_after_compaction_validated, "follower_rejoin_after_compaction_validated"),
        ExecCheck::plain(e.secondary_read_eligibility_validated, "secondary_read_eligibility_validated"),
    ];
    proof {
        assert(checks_view(out@) =~= semantics_checks_part3(*e));
    }
    out
}

fn semantics_checks_part4_exec(e: &RustRaftProcessOperationalSemanticsEvidence) -> (out: Vec<ExecCheck>)
    ensures
        checks_view(out@) == semantics_checks_part4(*e),
{
    let out = vec![
        ExecCheck::plain(e.apply_pipeline_converged, "apply_pipeline_converged"),
        ExecCheck::plain(e.wal_persistence_observed, "wal_persistence_observed"),
        ExecCheck::plain(e.fsm_apply_idempotent_replay_observed, "fsm_apply_idempotent_replay_observed"),
        ExecCheck::plain(e.storage_mutation_wal_fence_atomicity_observed, "storage_mutation_wal_fence_atomicity_observed"),
        ExecCheck::plain(e.snapshot_install_apply_fence_atomicity_observed, "snapshot_install_apply_fence_atomicity_observed"),
        ExecCheck::plain(e.process_restart_after_apply_crash_recovered, "process_restart_after_apply_crash_recovered"),
    ];
    proof {
        assert(checks_view(out@) =~= semantics_checks_part4(*e));
    }
    out
}

fn semantics_exec(e: &RustRaftProcessOperationalSemanticsEvidence) -> (r: Vec<ExecCheck>)
    ensures
        checks_view(r@) == semantics_checks(*e),
{
    let mut out = semantics_checks_part1_exec(e);
    append_checks(&mut out, semantics_checks_part2_exec(e));
    append_checks(&mut out, semantics_checks_part3_exec(e));
    append_checks(&mut out, semantics_checks_part4_exec(e));
    out
}

impl RustRaftProcessOperationalSemanticsEvidence {
    /// Every semantic was observed, the evidence is ready and has no blockers.
    pub open spec fn spec_proves_runtime_semantics(self) -> bool {
        &&& self.ready
        &&& self.blockers@.len() == 0
        &&& self.api_presence_only_rejected
        &&& self.process_path_validated
        &&& self.read_index_validated
        &&& self.leader_lease_validated
        &&& self.stale_leader_lease_rejection_observed
        &&& self.follower_lease_expiration_observed
        &&& self.lagging_follower_read_rejected
        &&& self.bounded_stale_read_acceptance_observed
        &&& self.bounded_stale_read_rejection_observed
        &&& self.minority_partition_read_rejection_observed
        &&& self.healed_follower_catchup_observed
        &&& self.stale_follower_write_rejected
        &&& self.leader_transfer_exact_once_validated
        &&& self.leader_transfer_under_load_validated
        &&& self.snapshot_bootstrap_validated
        &&& self.snapshot_install_restart_validated
        &&& self.membership_rescale_validated
        &&& self.membership_add_promote_remove_validated
        &&& self.follower_rejoin_after_compaction_validated
        &&& self.secondary_read_eligibility_validated
        &&& self.apply_pipeline_converged
        &&& self.wal_persistence_observed
        &&& self.fsm_apply_idempotent_replay_observed
        &&& self.storage_mutation_wal_fence_atomicity_observed
        &&& self.snapshot_install_apply_fence_atomicity_observed
        &&& self.process_restart_after_apply_crash_recovered
    }

    /// Whether the evidence proves the runtime semantics.
    pub fn proves_runtime_semantics(&self) -> (r: bool)
        ensures
            r == self.spec_proves_runtime_semantics(),
    {
        self.ready && self.blockers.len() == 0
            && self.api_presence_only_rejected
            && self.process_path_validated
            && self.read_index_validated
            && self.leader_lease_validated
            && self.stale_leader_lease_rejection_observed
            && self.follower_lease_expiration_observed
            && self.lagging_follower_read_rejected
            && self.bounded_stale_read_acceptance_observed
            && self.bounded_stale_read_rejection_observed
            && self.minority_partition_read_rejection_observed
            && self.healed_follower_catchup_observed
            && self.stale_follower_write_rejected
            && self.leader_transfer_exact_once_validated
            && self.leader_transfer_under_load_validated
            && self.snapshot_bootstrap_validated
            && self.snapshot_install_restart_validated
            && self.membership_rescale_validated
            && self.membership_add_promote_remove_validated
            && self.follower_rejoin_after_compaction_validated
            && self.secondary_read_eligibility_validated
            && self.apply_pipeline_converged
            && self.wal_persistence_observed
            && self.fsm_apply_idempotent_replay_observed
            && self.storage_mutation_wal_fence_atomicity_observed
            && self.snapshot_install_apply_fence_atomicity_observed
            && self.process_restart_after_apply_crash_recovered
    }

    /// The semantics not yet observed, then the blockers as `blocker:<blocker>`.
    pub fn missing_requirements(&self) -> (r: Vec<String>)
        ensures
            strs(r@) == semantics_missing(*self),
    {
        let checks = semantics_exec(self);
        let mut lists = empty_lists();
        lists.require_all(checks);
        let ReportLists { satisfied: _, missing, blockers: _, actions: _ } = lists;
        let mut missing = missing;
        proof {
            assert(strs(missing@) =~= absent_ids(semantics_checks(*self)));
        }
        extend_prefixed(&mut missing, "blocker:", &self.blockers);
        missing
    }
}

/// The runtime semantics are proven exactly when nothing is reported missing.
pub proof fn law_semantics_proven_iff_nothing_missing(e: RustRaftProcessOperationalSemanticsEvidence)
    ensures
        e.spec_proves_runtime_semantics() <==> semantics_missing(e).len() == 0,
{
    let cs = semantics_checks(e);
    lemma_absent_ids_empty(cs);
    if semantics_missing(e).len() == 0 {
        assert(absent_ids(cs).len() == 0);
        assert(prefixed("blocker:"@, strs(e.blockers@)).len() == 0);
        assert(cs[0].present);
        assert(cs[1].present);
        assert(cs[2].present);
        assert(cs[3].present);
        assert(cs[4].present);
        assert(cs[5].present);
        assert(cs[6].present);
        assert(cs[7].present);
        assert(cs[8].present);
        assert(cs[9].present);
        assert(cs[10].present);
        assert(cs[11].present);
        assert(cs[12].present);
        assert(cs[13].present);
        assert(cs[14].present);
        assert(cs[15].present);
        assert(cs[16].present);
        assert(cs[17].present);
        assert(cs[18].present);
        assert(cs[19].present);
        assert(cs[20].present);
        assert(cs[21].present);
        assert(cs[22].present);
        assert(cs[23].present);
        assert(cs[24].present);
        assert(cs[25].present);
        assert(cs[26].present);
    }
}

#[derive(Debug, Clone, Default, PartialEq, Eq)]
pub struct RustRaftDataNodeProcessRolloutReport {
    pub shard_id: u64,
    pub voters: Vec<u64>,
    pub learners: Vec<u64>,
    pub nodes: Vec<RustRaftProcessNodeEvidence>,
    pub spawned_process_count: u64,
    pub independent_wal_dirs: bool,
    pub independent_snapshot_dirs: bool,
    pub observed_process_requests: u64,
    pub read_index_responses_observed: u64,
    pub restarted_node_count: u64,
    pub per_node_log_store_inspection_count: u64,
    pub write_proposed_through_process_api: bool,
    pub leader_transfer_validated: bool,
    pub failover_validated: bool,
    pub secondary_lag_observed: bool,
    pub lagging_follower_read_rejection_observed: bool,
    pub stale_follower_write_rejection_observed: bool,
    pub catchup_read_eligibility_observed: bool,
    pub minority_partition_rejection_observed: bool,
    pub bounded_stale_read_eligibility_observed: bool,
    pub healed_follower_catchup_observed: bool,
    pub lagging_follower_observed_lag: u64,
    pub membership_change_validated: bool,
    pub follower_lag_validated: bool,
    pub secondary_read_validated: bool,
    pub recovered_after_restart: bool,
    pub restart_recovery_validated: bool,
    pub snapshot_install_validated: bool,
    pub applied_fence_validated: bool,
    pub crash_after_storage_mutation_recovered: bool,
    pub crash_after_wal_persist_recovered: bool,
    pub crash_during_snapshot_install_recovered: bool,
    pub apply_fence_recovered_after_restart: bool,
    pub multi_process_log_store_validated: bool,
    pub operational_semantics: RustRaftProcessOperationalSemanticsEvidence,
    pub ready: bool,
    pub blockers: Vec<String>,
}

#[derive(Debug, Clone, Default, PartialEq, Eq)]
pub struct RustRaftMetaProcessRolloutReport {
    pub voters: Vec<u64>,
    pub learners: Vec<u64>,
    pub nodes: Vec<RustRaftProcessNodeEvidence>,
    pub spawned_process_count: u64,
    pub independent_wal_dirs: bool,
    pub independent_snapshot_dirs: bool,
    pub observed_process_requests: u64,
    pub read_index_responses_observed: u64,
    pub restarted_node_count: u64,
    pub per_node_log_store_inspection_count: u64,
    pub mutation_proposed_through_process_api: bool,
    pub applied_raft_mutations: u64,
    pub generated_scheduler_tasks: u64,
    pub scheduler_retries: u64,
    pub stale_scheduler_token_rejected: bool,
    pub data_node_membership_results_ready: bool,
    pub scheduler_mutations_proposed_through_process_api: bool,
    pub scheduler_task_replay_from_raft_log_observed: bool,
    pub membership_mutations_proposed_through_process_api: bool,
    pub data_node_membership_workflow_report_attached: bool,
    pub data_node_raft_group_results_observed: bool,
    pub failover_validated: bool,
    pub membership_change_validated: bool,
    pub follower_lag_validated: bool,
    pub secondary_read_validated: bool,
    pub read_index_validated: bool,
    pub snapshot_install_validated: bool,
    pub recovered_after_restart: bool,
    pub scheduler_task_replay_validated: bool,
    pub crash_after_meta_mutation_recovered: bool,
    pub crash_after_meta_wal_persist_recovered: bool,
    pub crash_during_meta_snapshot_install_recovered: bool,
    pub meta_apply_fence_recovered_after_restart: bool,
    pub multi_process_log_store_validated: bool,
    pub operational_semantics: RustRaftProcessOperationalSemanticsEvidence,
    pub ready: bool,
    pub blockers: Vec<String>,
}

/// What a parity benchmark run against the reference engine showed: whether
/// the baseline was the real ByteRaft harness and the candidate the RustRaft
/// runtime (not a model), whether both were correct, whether the candidate
/// stayed within the latency and throughput threshold, and which workloads ran.
#[derive(Debug, Clone, PartialEq, Eq)]
pub struct RustRaftByteRaftBenchmarkEvidence {
    pub real_byteraft: bool,
    pub rustraft_runtime: bool,
    pub correctness_passed: bool,
    pub performance_within_threshold: bool,
    pub workloads: Vec<RustRaftBenchmarkWorkload>,
}

/// Every workload of the parity benchmark is among `ws`.
pub open spec fn covers_parity_workloads(ws: Seq<RustRaftBenchmarkWorkload>) -> bool {
    forall|i: int| 0 <= i < parity_workloads().len() ==> ws.contains(#[trigger] parity_workloads()[i])
}

fn has_workload(ws: &Vec<RustRaftBenchmarkWorkload>, w: RustRaftBenchmarkWorkload) -> (r: bool)
    ensures
        r == ws@.contains(w),
{
    let mut i: usize = 0;
    while i < ws.len()
        invariant
            i <= ws@.len(),
            forall|j: int| 0 <= j < i ==> ws@[j] != w,
        decreases ws@.len() - i,
    {
        if ws[i] == w {
            return true;
        }
        i = i + 1;
    }
    false
}

fn covers_workloads(ws: &Vec<RustRaftBenchmarkWorkload>) -> (r: bool)
    ensures
        r == covers_parity_workloads(ws@),
{
    let required = rustraft_byteraft_benchmark_workloads();
    let mut i: usize = 0;
    while i < required.len()
        invariant
            required@ == parity_workloads(),
            i <= required@.len(),
            forall|j: int| 0 <= j < i ==> ws@.contains(#[trigger] parity_workloads()[j]),
        decreases required@.len() - i,
    {
        if !has_workload(ws, required[i]) {
            return false;
        }
        i = i + 1;
    }
    true
}

/// Input of the production readiness gate.
#[derive(Debug, Clone, PartialEq, Eq)]
pub struct RustRaftProductionReadinessInput {
    pub readiness: RustRaftReadinessSnapshot,
    pub peer_pipeline: Option<RustRaftPipelineEvidence>,
    pub snapshot_lifecycle: Option<RustRaftSnapshotLifecycleEvidence>,
    pub wal_lifecycle: Option<RustRaftWalLifecycleEvidence>,
    pub data_node_rollout: Option<RustRaftDataNodeProcessRolloutReport>,
    pub metaserver_rollout: Option<RustRaftMetaProcessRolloutReport>,
    pub membership_transitions: Vec<RustRaftMembershipTransitionEvidence>,
    pub benchmark: Option<RustRaftByteRaftBenchmarkEvidence>,
}

/// Result of the production readiness gate.
#[derive(Debug, Clone, PartialEq, Eq)]
pub struct RustRaftProductionReadinessReport {
    pub parity: RustRaftParityReport,
    pub public_api: RustRaftPublicApiContract,
    pub ready: bool,
    pub production_status: RustRaftProductionStatus,
    pub satisfied: Vec<String>,
    pub missing: Vec<String>,
    pub production_blockers: Vec<String>,
    pub recommended_next_actions: Vec<String>,
}

/// Checks that always fail, one per id, each with `prefix` in front.
pub open spec fn failing_checks(prefix: Seq<char>, ids: Seq<Seq<char>>, action: Seq<char>) -> Seq<Check> {
    ids.map_values(|x: Seq<char>| Check { present: false, id: prefix + x, action })
}

fn failing_exec(prefix: &str, ids: &Vec<String>, action: &str) -> (r: Vec<ExecCheck>)
    ensures
        checks_view(r@) == failing_checks(prefix@, strs(ids@), action@),
{
    let ghost want = failing_checks(prefix@, strs(ids@), action@);
    let mut out: Vec<ExecCheck> = Vec::new();
    let mut i: usize = 0;
    while i < ids.len()
        invariant
            i <= ids.len(),
            want == failing_checks(prefix@, strs(ids@), action@),
            out@.len() == i,
            forall|j: int| 0 <= j < i ==> #[trigger] out@[j].view() == want[j],
        decreases ids.len() - i,
    {
        out.push(ExecCheck {
            present: false,
            id: String::from_str(prefix).concat(ids[i].as_str()),
            action: String::from_str(action),
        });
        proof {
            assert(strs(ids@)[i as int] == ids@[i as int]@);
            assert(out@[i as int].view() == want[i as int]);
        }
        i = i + 1;
    }
    proof {
        assert(checks_view(out@) =~= want);
    }
    out
}

fn append_checks(a: &mut Vec<ExecCheck>, b: Vec<ExecCheck>)
    ensures
        checks_view(final(a)@) == checks_view(old(a)@) + checks_view(b@),
{
    let mut b = b;
    let ghost bv = checks_view(b@);
    a.append(&mut b);
    proof {
        assert(checks_view(a@) =~= checks_view(old(a)@) + bv);
    }
}

/// The pipeline checks: whether the evidence is attached, then its own checks.
#[verifier::opaque]
pub open spec fn pipeline_section(e: Option<RustRaftPipelineEvidence>) -> Seq<Check> {
    seq![Check { present: e is Some, id: "pipeline:evidence_present"@, action: "attach per-peer pipeline evidence from the running RustRaft group"@ }] + match e {
        Some(r) => seq![
            Check { present: r.per_peer_pipeline_state_present, id: "pipeline:per_peer_state"@, action: "export per-peer replication/apply pipeline state"@ },
            Check { present: r.append_backpressure_enforced, id: "pipeline:append_backpressure"@, action: "prove append queue backpressure under load"@ },
            Check { present: r.apply_backpressure_enforced, id: "pipeline:apply_backpressure"@, action: "prove apply queue backpressure under load"@ },
            Check { present: r.memory_replicate_bytes_enforced, id: "pipeline:memory_replicate_bytes"@, action: "prove max_memory_replicate_log_bytes enforcement"@ },
            Check { present: r.oversized_log_rejection_present, id: "pipeline:oversized_log_rejection"@, action: "prove oversized log entry rejection"@ },
            Check { present: r.out_of_order_append_handling_present, id: "pipeline:out_of_order_append_handling"@, action: "prove out-of-order append handling/rejection"@ },
            Check { present: r.reorder_queue_enabled, id: "pipeline:reorder_queue"@, action: "enable and prove reorder queue behavior"@ },
        ],
        None => seq![],
    }
}

fn pipeline_exec(e: &Option<RustRaftPipelineEvidence>) -> (r: Vec<ExecCheck>)
    ensures
        checks_view(r@) == pipeline_section(*e),
{
    reveal(pipeline_section);
    let mut out = vec![ExecCheck::new(e.is_some(), "pipeline:evidence_present", "attach per-peer pipeline evidence from the running RustRaft group")];
    match e {
        Some(r) => {
            let more = vec![
                ExecCheck::new(r.per_peer_pipeline_state_present, "pipeline:per_peer_state", "export per-peer replication/apply pipeline state"),
                ExecCheck::new(r.append_backpressure_enforced, "pipeline:append_backpressure", "prove append queue backpressure under load"),
                ExecCheck::new(r.apply_backpressure_enforced, "pipeline:apply_backpressure", "prove apply queue backpressure under load"),
                ExecCheck::new(r.memory_replicate_bytes_enforced, "pipeline:memory_replicate_bytes", "prove max_memory_replicate_log_bytes enforcement"),
                ExecCheck::new(r.oversized_log_rejection_present, "pipeline:oversized_log_rejection", "prove oversized log entry rejection"),
                ExecCheck::new(r.out_of_order_append_handling_present, "pipeline:out_of_order_append_handling", "prove out-of-order append handling/rejection"),
                ExecCheck::new(r.reorder_queue_enabled, "pipeline:reorder_queue", "enable and prove reorder queue behavior"),
            ];
            assert(checks_view(more@) =~= seq![
                Check { present: r.per_peer_pipeline_state_present, id: "pipeline:per_peer_state"@, action: "export per-peer replication/apply pipeline state"@ },
                Check { present: r.append_backpressure_enforced, id: "pipeline:append_backpressure"@, action: "prove append queue backpressure under load"@ },
                Check { present: r.apply_backpressure_enforced, id: "pipeline:apply_backpressure"@, action: "prove apply queue backpressure under load"@ },
                Check { present: r.memory_replicate_bytes_enforced, id: "pipeline:memory_replicate_bytes"@, action: "prove max_memory_replicate_log_bytes enforcement"@ },
                Check { present: r.oversized_log_rejection_present, id: "pipeline:oversized_log_rejection"@, action: "prove oversized log entry rejection"@ },
                Check { present: r.out_of_order_append_handling_present, id: "pipeline:out_of_order_append_handling"@, action: "prove out-of-order append handling/rejection"@ },
                Check { present: r.reorder_queue_enabled, id: "pipeline:reorder_queue"@, action: "enable and prove reorder queue behavior"@ },
            ]);
            append_checks(&mut out, more);
        },
        None => {},
    }
    assert(checks_view(out@) =~= pipeline_section(*e));
    out
}

/// The snapshot checks: whether the evidence is attached, then its own checks.
#[verifier::opaque]
pub open spec fn snapshot_section(e: Option<RustRaftSnapshotLifecycleEvidence>) -> Seq<Check> {
    seq![Check { present: e is Some, id: "snapshot:evidence_present"@, action: "attach snapshot send/install lifecycle evidence"@ }] + match e {
        Some(r) => seq![
            Check { present: r.sender_lifecycle_present, id: "snapshot:sender_lifecycle"@, action: "prove snapshot sender lifecycle"@ },
            Check { present: r.downloader_lifecycle_present, id: "snapshot:downloader_lifecycle"@, action: "prove snapshot downloader/install lifecycle"@ },
            Check { present: r.retry_backpressure_present, id: "snapshot:retry_backpressure"@, action: "prove snapshot retry/backpressure behavior"@ },
            Check { present: r.chunk_retry_present, id: "snapshot:chunk_retry"@, action: "prove snapshot chunk retry behavior"@ },
            Check { present: r.send_timeout_present, id: "snapshot:send_timeout"@, action: "prove snapshot send timeout behavior"@ },
            Check { present: r.rate_limit_present, id: "snapshot:rate_limit"@, action: "prove snapshot rate limiting"@ },
            Check { present: r.install_progress_present, id: "snapshot:install_progress"@, action: "export snapshot install progress"@ },
            Check { present: r.install_rollback_present, id: "snapshot:install_rollback"@, action: "prove snapshot install rollback"@ },
            Check { present: r.membership_change_present, id: "snapshot:membership_change"@, action: "prove snapshot behavior during membership change"@ },
            Check { present: r.rejoin_after_compacted_log_present, id: "snapshot:rejoin_after_compacted_log"@, action: "prove rejoin after compacted log"@ },
        ],
        None => seq![],
    }
}

fn snapshot_exec(e: &Option<RustRaftSnapshotLifecycleEvidence>) -> (r: Vec<ExecCheck>)
    ensures
        checks_view(r@) == snapshot_section(*e),
{
    reveal(snapshot_section);
    let mut out = vec![ExecCheck::new(e.is_some(), "snapshot:evidence_present", "attach snapshot send/install lifecycle evidence")];
    match e {
        Some(r) => {
            let more = vec![
                ExecCheck::new(r.sender_lifecycle_present, "snapshot:sender_lifecycle", "prove snapshot sender lifecycle"),
                ExecCheck::new(r.downloader_lifecycle_present, "snapshot:downloader_lifecycle", "prove snapshot downloader/install lifecycle"),
                ExecCheck::new(r.retry_backpressure_present, "snapshot:retry_backpressure", "prove snapshot retry/backpressure behavior"),
                ExecCheck::new(r.chunk_retry_present, "snapshot:chunk_retry", "prove snapshot chunk retry behavior"),
                ExecCheck::new(r.send_timeout_present, "snapshot:send_timeout", "prove snapshot send timeout behavior"),
                ExecCheck::new(r.rate_limit_present, "snapshot:rate_limit", "prove snapshot rate limiting"),
                ExecCheck::new(r.install_progress_present, "snapshot:install_progress", "export snapshot install progress"),
                ExecCheck::new(r.install_rollback_present, "snapshot:install_rollback", "prove snapshot install rollback"),
                ExecCheck::new(r.membership_change_present, "snapshot:membership_change", "prove snapshot behavior during membership change"),
                ExecCheck::new(r.rejoin_after_compacted_log_present, "snapshot:rejoin_after_compacted_log", "prove rejoin after compacted log"),
            ];
            assert(checks_view(more@) =~= seq![
                Check { present: r.sender_lifecycle_present, id: "snapshot:sender_lifecycle"@, action: "prove snapshot sender lifecycle"@ },
                Check { present: r.downloader_lifecycle_present, id: "snapshot:downloader_lifecycle"@, action: "prove snapshot downloader/install lifecycle"@ },
                Check { present: r.retry_backpressure_present, id: "snapshot:retry_backpressure"@, action: "prove snapshot retry/backpressure behavior"@ },
                Check { present: r.chunk_retry_present, id: "snapshot:chunk_retry"@, action: "prove snapshot chunk retry behavior"@ },
                Check { present: r.send_timeout_present, id: "snapshot:send_timeout"@, action: "prove snapshot send timeout behavior"@ },
                Check { present: r.rate_limit_present, id: "snapshot:rate_limit"@, action: "prove snapshot rate limiting"@ },
                Check { present: r.install_progress_present, id: "snapshot:install_progress"@, action: "export snapshot install progress"@ },
                Check { present: r.install_rollback_present, id: "snapshot:install_rollback"@, action: "prove snapshot install rollback"@ },
                Check { present: r.membership_change_present, id: "snapshot:membership_change"@, action: "prove snapshot behavior during membership change"@ },
                Check { present: r.rejoin_after_compacted_log_present, id: "snapshot:rejoin_after_compacted_log"@, action: "prove rejoin after compacted log"@ },
            ]);
            append_checks(&mut out, more);
        },
        None => {},
    }
    assert(checks_view(out@) =~= snapshot_section(*e));
    out
}

/// The wal checks: whether the evidence is attached, then its own checks.
#[verifier::opaque]
pub open spec fn wal_section(e: Option<RustRaftWalLifecycleEvidence>) -> Seq<Check> {
    seq![Check { present: e is Some, id: "wal:evidence_present"@, action: "attach WAL segment/range/backpressure evidence"@ }] + match e {
        Some(r) => seq![
            Check { present: r.segment_lifecycle_present, id: "wal:segment_lifecycle"@, action: "prove WAL segment lifecycle"@ },
            Check { present: r.retained_range_present, id: "wal:retained_range"@, action: "prove retained WAL range reporting"@ },
            Check { present: r.sequence_range_present, id: "wal:sequence_range"@, action: "prove WAL sequence range reporting"@ },
            Check { present: r.log_index_range_present, id: "wal:log_index_range"@, action: "prove WAL log-index range reporting"@ },
            Check { present: r.compaction_observed, id: "wal:compaction"@, action: "prove WAL compaction/released segment behavior"@ },
            Check { present: r.slow_fsync_backpressure_observed, id: "wal:slow_fsync_backpressure"@, action: "prove slow fsync backpressure behavior"@ },
        ],
        None => seq![],
    }
}

fn wal_exec(e: &Option<RustRaftWalLifecycleEvidence>) -> (r: Vec<ExecCheck>)
    ensures
        checks_view(r@) == wal_section(*e),
{
    reveal(wal_section);
    let mut out = vec![ExecCheck::new(e.is_some(), "wal:evidence_present", "attach WAL segment/range/backpressure evidence")];
    match e {
        Some(r) => {
            let more = vec![
                ExecCheck::new(r.segment_lifecycle_present, "wal:segment_lifecycle", "prove WAL segment lifecycle"),
                ExecCheck::new(r.retained_range_present, "wal:retained_range", "prove retained WAL range reporting"),
                ExecCheck::new(r.sequence_range_present, "wal:sequence_range", "prove WAL sequence range reporting"),
                ExecCheck::new(r.log_index_range_present, "wal:log_index_range", "prove WAL log-index range reporting"),
                ExecCheck::new(r.compaction_observed, "wal:compaction", "prove WAL compaction/released segment behavior"),
                ExecCheck::new(r.slow_fsync_backpressure_observed, "wal:slow_fsync_backpressure", "prove slow fsync backpressure behavior"),
            ];
            assert(checks_view(more@) =~= seq![
                Check { present: r.segment_lifecycle_present, id: "wal:segment_lifecycle"@, action: "prove WAL segment lifecycle"@ },
                Check { present: r.retained_range_present, id: "wal:retained_range"@, action: "prove retained WAL range reporting"@ },
                Check { present: r.sequence_range_present, id: "wal:sequence_range"@, action: "prove WAL sequence range reporting"@ },
                Check { present: r.log_index_range_present, id: "wal:log_index_range"@, action: "prove WAL log-index range reporting"@ },
                Check { present: r.compaction_observed, id: "wal:compaction"@, action: "prove WAL compaction/released segment behavior"@ },
                Check { present: r.slow_fsync_backpressure_observed, id: "wal:slow_fsync_backpressure"@, action: "prove slow fsync backpressure behavior"@ },
            ]);
            append_checks(&mut out, more);
        },
        None => {},
    }
    assert(checks_view(out@) =~= wal_section(*e));
    out
}

/// Part 1 of `data_node_checks`.
pub open spec fn data_node_checks_part1(r: RustRaftDataNodeProcessRolloutReport) -> Seq<Check> {
    seq![
        Check { present: r.ready, id: "data_node:ready"@, action: "make data-node rollout ready"@ },
        Check { present: r.blockers@.len() == 0, id: "data_node:no_blockers"@, action: "clear data-node rollout blockers"@ },
        Check { present: r.nodes@.len() > 0 && r.spawned_process_count as usize >= r.nodes@.len(), id: "data_node:processes_spawned"@, action: "spawn and observe all data-node RustRaft processes"@ },
        Check { present: r.voters@.len() > 0, id: "data_node:voters_present"@, action: "run data-node RustRaft with voter membership"@ },
        Check { present: r.independent_wal_dirs, id: "data_node:independent_wal_dirs"@, action: "use independent WAL dirs per data-node process"@ },
        Check { present: r.independent_snapshot_dirs, id: "data_node:independent_snapshot_dirs"@, action: "use independent snapshot dirs per data-node process"@ },
        Check { present: r.write_proposed_through_process_api, id: "data_node:process_write_path"@, action: "prove writes enter through the process API"@ },
    ]
}

/// Part 2 of `data_node_checks`.
pub open spec fn data_node_checks_part2(r: RustRaftDataNodeProcessRolloutReport) -> Seq<Check> {
    seq![
        Check { present: r.read_index_responses_observed > 0, id: "data_node:read_index"@, action: "observe data-node read-index responses"@ },
        Check { present: r.leader_transfer_validated, id: "data_node:leader_transfer"@, action: "validate data-node leader transfer"@ },
        Check { present: r.failover_validated, id: "data_node:failover"@, action: "validate data-node failover"@ },
        Check { present: r.membership_change_validated, id: "data_node:membership_change"@, action: "validate data-node membership add/promote/remove"@ },
        Check { present: r.follower_lag_validated, id: "data_node:follower_lag"@, action: "validate data-node follower lag handling"@ },
        Check { present: r.secondary_read_validated, id: "data_node:secondary_read"@, action: "validate data-node secondary read eligibility"@ },
        Check { present: r.recovered_after_restart && r.restart_recovery_validated, id: "data_node:restart_recovery"@, action: "validate data-node restart recovery"@ },
    ]
}

/// Part 3 of `data_node_checks`.
pub open spec fn data_node_checks_part3(r: RustRaftDataNodeProcessRolloutReport) -> Seq<Check> {
    seq![
        Check { present: r.snapshot_install_validated, id: "data_node:snapshot_install"@, action: "validate data-node snapshot install"@ },
        Check { present: r.applied_fence_validated, id: "data_node:apply_fence"@, action: "validate data-node apply fence"@ },
        Check { present: r.multi_process_log_store_validated, id: "data_node:multi_process_log_store"@, action: "validate independent multi-process log stores"@ },
        Check { present: r.operational_semantics.spec_proves_runtime_semantics(), id: "data_node:operational_semantics"@, action: "prove data-node runtime semantics, not only API presence"@ },
    ]
}

/// The data_node rollout's own checks.
pub open spec fn data_node_checks(r: RustRaftDataNodeProcessRolloutReport) -> Seq<Check> {
    data_node_checks_part1(r) + data_node_checks_part2(r) + data_node_checks_part3(r)
}

/// The data_node rollout checks: whether the rollout is attached, its own checks,
/// one failing check per missing semantic and one per blocker.
pub open spec fn data_node_section(e: Option<RustRaftDataNodeProcessRolloutReport>) -> Seq<Check> {
    seq![Check { present: e is Some, id: "data_node:evidence_present"@, action: "attach data-node process rollout evidence"@ }] + match e {
        Some(r) => data_node_checks(r) + failing_checks("data_node:semantics:"@, semantics_missing(r.operational_semantics), "complete data-node operational semantics evidence"@)
            + failing_checks("data_node:blocker:"@, strs(r.blockers@), "clear data-node rollout blocker"@),
        None => seq![],
    }
}

fn data_node_checks_part1_exec(r: &RustRaftDataNodeProcessRolloutReport) -> (out: Vec<ExecCheck>)
    ensures
        checks_view(out@) == data_node_checks_part1(*r),
{
    let out = vec![
        ExecCheck::new(r.ready, "data_node:ready", "make data-node rollout ready"),
        ExecCheck::new(r.blockers.len() == 0, "data_node:no_blockers", "clear data-node rollout blockers"),
        ExecCheck::new(r.nodes.len() > 0 && r.spawned_process_count as usize >= r.nodes.len(), "data_node:processes_spawned", "spawn and observe all data-node RustRaft processes"),
        ExecCheck::new(r.voters.len() > 0, "data_node:voters_present", "run data-node RustRaft with voter membership"),
        ExecCheck::new(r.independent_wal_dirs, "data_node:independent_wal_dirs", "use independent WAL dirs per data-node process"),
        ExecCheck::new(r.independent_snapshot_dirs, "data_node:independent_snapshot_dirs", "use independent snapshot dirs per data-node process"),
        ExecCheck::new(r.write_proposed_through_process_api, "data_node:process_write_path", "prove writes enter through the process API"),
    ];
    proof {
        assert(checks_view(out@) =~= data_node_checks_part1(*r));
    }
    out
}

fn data_node_checks_part2_exec(r: &RustRaftDataNodeProcessRolloutReport) -> (out: Vec<ExecCheck>)
    ensures
        checks_view(out@) == data_node_checks_part2(*r),
{
    let out = vec![
        ExecCheck::new(r.read_index_responses_observed > 0, "data_node:read_index", "observe data-node read-index responses"),
        ExecCheck::new(r.leader_transfer_validated, "data_node:leader_transfer", "validate data-node leader transfer"),
        ExecCheck::new(r.failover_validated, "data_node:failover", "validate data-node failover"),
        ExecCheck::new(r.membership_change_validated, "data_node:membership_change", "validate data-node membership add/promote/remove"),
        ExecCheck::new(r.follower_lag_validated, "data_node:follower_lag", "validate data-node follower lag handling"),
        ExecCheck::new(r.secondary_read_validated, "data_node:secondary_read", "validate data-node secondary read eligibility"),
        ExecCheck::new(r.recovered_after_restart && r.restart_recovery_validated, "data_node:restart_recovery", "validate data-node restart recovery"),
    ];
    proof {
        assert(checks_view(out@) =~= data_node_checks_part2(*r));
    }
    out
}

fn data_node_checks_part3_exec(r: &RustRaftDataNodeProcessRolloutReport) -> (out: Vec<ExecCheck>)
    ensures
        checks_view(out@) == data_node_checks_part3(*r),
{
    let out = vec![
        ExecCheck::new(r.snapshot_install_validated, "data_node:snapshot_install", "validate data-node snapshot install"),
        ExecCheck::new(r.applied_fence_validated, "data_node:apply_fence", "validate data-node apply fence"),
        ExecCheck::new(r.multi_process_log_store_validated, "data_node:multi_process_log_store", "validate independent multi-process log stores"),
        ExecCheck::new(r.operational_semantics.proves_runtime_semantics(), "data_node:operational_semantics", "prove data-node runtime semantics, not only API presence"),
    ];
    proof {
        assert(checks_view(out@) =~= data_node_checks_part3(*r));
    }
    out
}

fn data_node_own_exec(r: &RustRaftDataNodeProcessRolloutReport) -> (out: Vec<ExecCheck>)
    ensures
        checks_view(out@) == data_node_checks(*r),
{
    let mut out = data_node_checks_part1_exec(r);
    append_checks(&mut out, data_node_checks_part2_exec(r));
    append_checks(&mut out, data_node_checks_part3_exec(r));
    out
}

fn data_node_exec(e: &Option<RustRaftDataNodeProcessRolloutReport>) -> (out: Vec<ExecCheck>)
    ensures
        checks_view(out@) == data_node_section(*e),
{
    let mut out = vec![ExecCheck::new(e.is_some(), "data_node:evidence_present", "attach data-node process rollout evidence")];
    match e {
        Some(r) => {
            append_checks(&mut out, data_node_own_exec(r));
            let semantics = r.operational_semantics.missing_requirements();
            append_checks(&mut out, failing_exec("data_node:semantics:", &semantics, "complete data-node operational semantics evidence"));
            append_checks(&mut out, failing_exec("data_node:blocker:", &r.blockers, "clear data-node rollout blocker"));
        },
        None => {},
    }
    assert(checks_view(out@) =~= data_node_section(*e));
    out
}

/// Part 1 of `meta_checks`.
pub open spec fn meta_checks_part1(r: RustRaftMetaProcessRolloutReport) -> Seq<Check> {
    seq![
        Check { present: r.ready, id: "metaserver:ready"@, action: "make metaserver rollout ready"@ },
        Check { present: r.blockers@.len() == 0, id: "metaserver:no_blockers"@, action: "clear metaserver rollout blockers"@ },
        Check { present: r.nodes@.len() > 0 && r.spawned_process_count as usize >= r.nodes@.len(), id: "metaserver:processes_spawned"@, action: "spawn and observe all metaserver RustRaft processes"@ },
        Check { present: r.voters@.len() > 0, id: "metaserver:voters_present"@, action: "run metaserver RustRaft with voter membership"@ },
        Check { present: r.independent_wal_dirs, id: "metaserver:independent_wal_dirs"@, action: "use independent WAL dirs per metaserver process"@ },
        Check { present: r.independent_snapshot_dirs, id: "metaserver:independent_snapshot_dirs"@, action: "use independent snapshot dirs per metaserver process"@ },
        Check { present: r.mutation_proposed_through_process_api, id: "metaserver:process_mutation_path"@, action: "prove metaserver mutations enter through the process API"@ },
    ]
}

/// Part 2 of `meta_checks`.
pub open spec fn meta_checks_part2(r: RustRaftMetaProcessRolloutReport) -> Seq<Check> {
    seq![
        Check { present: r.read_index_responses_observed > 0 && r.read_index_validated, id: "metaserver:read_index"@, action: "validate metaserver read-index responses"@ },
        Check { present: r.applied_raft_mutations > 0, id: "metaserver:applied_mutations"@, action: "observe applied metaserver RustRaft mutations"@ },
        Check { present: r.scheduler_task_replay_validated, id: "metaserver:scheduler_replay"@, action: "validate scheduler task replay from RustRaft log"@ },
        Check { present: r.data_node_membership_results_ready && r.data_node_membership_workflow_report_attached && r.data_node_raft_group_results_observed, id: "metaserver:data_node_membership_workflow"@, action: "validate data-node membership workflow through metaserver RustRaft"@ },
        Check { present: r.failover_validated, id: "metaserver:failover"@, action: "validate metaserver failover"@ },
        Check { present: r.membership_change_validated, id: "metaserver:membership_change"@, action: "validate metaserver membership change"@ },
        Check { present: r.follower_lag_validated, id: "metaserver:follower_lag"@, action: "validate metaserver follower lag handling"@ },
    ]
}

/// Part 3 of `meta_checks`.
pub open spec fn meta_checks_part3(r: RustRaftMetaProcessRolloutReport) -> Seq<Check> {
    seq![
        Check { present: r.secondary_read_validated, id: "metaserver:secondary_read"@, action: "validate metaserver secondary read eligibility"@ },
        Check { present: r.recovered_after_restart, id: "metaserver:restart_recovery"@, action: "validate metaserver restart recovery"@ },
        Check { present: r.snapshot_install_validated, id: "metaserver:snapshot_install"@, action: "validate metaserver snapshot install"@ },
        Check { present: r.multi_process_log_store_validated, id: "metaserver:multi_process_log_store"@, action: "validate independent metaserver log stores"@ },
        Check { present: r.operational_semantics.spec_proves_runtime_semantics(), id: "metaserver:operational_semantics"@, action: "prove metaserver runtime semantics, not only API presence"@ },
    ]
}

/// The meta rollout's own checks.
pub open spec fn meta_checks(r: RustRaftMetaProcessRolloutReport) -> Seq<Check> {
    meta_checks_part1(r) + meta_checks_part2(r) + meta_checks_part3(r)
}

/// The meta rollout checks: whether the rollout is attached, its own checks,
/// one failing check per missing semantic and one per blocker.
pub open spec fn meta_section(e: Option<RustRaftMetaProcessRolloutReport>) -> Seq<Check> {
    seq![Check { present: e is Some, id: "metaserver:evidence_present"@, action: "attach metaserver process rollout evidence"@ }] + match e {
        Some(r) => meta_checks(r) + failing_checks("metaserver:semantics:"@, semantics_missing(r.operational_semantics), "complete metaserver operational semantics evidence"@)
            + failing_checks("metaserver:blocker:"@, strs(r.blockers@), "clear metaserver rollout blocker"@),
        None => seq![],
    }
}

fn meta_checks_part1_exec(r: &RustRaftMetaProcessRolloutReport) -> (out: Vec<ExecCheck>)
    ensures
        checks_view(out@) == meta_checks_part1(*r),
{
    let out = vec![
        ExecCheck::new(r.ready, "metaserver:ready", "make metaserver rollout ready"),
        ExecCheck::new(r.blockers.len() == 0, "metaserver:no_blockers", "clear metaserver rollout blockers"),
        ExecCheck::new(r.nodes.len() > 0 && r.spawned_process_count as usize >= r.nodes.len(), "metaserver:processes_spawned", "spawn and observe all metaserver RustRaft processes"),
        ExecCheck::new(r.voters.len() > 0, "metaserver:voters_present", "run metaserver RustRaft with voter membership"),
        ExecCheck::new(r.independent_wal_dirs, "metaserver:independent_wal_dirs", "use independent WAL dirs per metaserver process"),
        ExecCheck::new(r.independent_snapshot_dirs, "metaserver:independent_snapshot_dirs", "use independent snapshot dirs per metaserver process"),
        ExecCheck::new(r.mutation_proposed_through_process_api, "metaserver:process_mutation_path", "prove metaserver mutations enter through the process API"),
    ];
    proof {
        assert(checks_view(out@) =~= meta_checks_part1(*r));
    }
    out
}

fn meta_checks_part2_exec(r: &RustRaftMetaProcessRolloutReport) -> (out: Vec<ExecCheck>)
    ensures
        checks_view(out@) == meta_checks_part2(*r),
{
    let out = vec![
        ExecCheck::new(r.read_index_responses_observed > 0 && r.read_index_validated, "metaserver:read_index", "validate metaserver read-index responses"),
        ExecCheck::new(r.applied_raft_mutations > 0, "metaserver:applied_mutations", "observe applied metaserver RustRaft mutations"),
        ExecCheck::new(r.scheduler_task_replay_validated, "metaserver:scheduler_replay", "validate scheduler task replay from RustRaft log"),
        ExecCheck::new(r.data_node_membership_results_ready && r.data_node_membership_workflow_report_attached && r.data_node_raft_group_results_observed, "metaserver:data_node_membership_workflow", "validate data-node membership workflow through metaserver RustRaft"),
        ExecCheck::new(r.failover_validated, "metaserver:failover", "validate metaserver failover"),
        ExecCheck::new(r.membership_change_validated, "metaserver:membership_change", "validate metaserver membership change"),
        ExecCheck::new(r.follower_lag_validated, "metaserver:follower_lag", "validate metaserver follower lag handling"),
    ];
    proof {
        assert(checks_view(out@) =~= meta_checks_part2(*r));
    }
    out
}

fn meta_checks_part3_exec(r: &RustRaftMetaProcessRolloutReport) -> (out: Vec<ExecCheck>)
    ensures
        checks_view(out@) == meta_checks_part3(*r),
{
    let out = vec![
        ExecCheck::new(r.secondary_read_validated, "metaserver:secondary_read", "validate metaserver secondary read eligibility"),
        ExecCheck::new(r.recovered_after_restart, "metaserver:restart_recovery", "validate metaserver restart recovery"),
        ExecCheck::new(r.snapshot_install_validated, "metaserver:snapshot_install", "validate metaserver snapshot install"),
        ExecCheck::new(r.multi_process_log_store_validated, "metaserver:multi_process_log_store", "validate independent metaserver log stores"),
        ExecCheck::new(r.operational_semantics.proves_runtime_semantics(), "metaserver:operational_semantics", "prove metaserver runtime semantics, not only API presence"),
    ];
    proof {
        assert(checks_view(out@) =~= meta_checks_part3(*r));
    }
    out
}

fn meta_own_exec(r: &RustRaftMetaProcessRolloutReport) -> (out: Vec<ExecCheck>)
    ensures
        checks_view(out@) == meta_checks(*r),
{
    let mut out = meta_checks_part1_exec(r);
    append_checks(&mut out, meta_checks_part2_exec(r));
    append_checks(&mut out, meta_checks_part3_exec(r));
    out
}

fn meta_exec(e: &Option<RustRaftMetaProcessRolloutReport>) -> (out: Vec<ExecCheck>)
    ensures
        checks_view(out@) == meta_section(*e),
{
    let mut out = vec![ExecCheck::new(e.is_some(), "metaserver:evidence_present", "attach metaserver process rollout evidence")];
    match e {
        Some(r) => {
            append_checks(&mut out, meta_own_exec(r));
            let semantics = r.operational_semantics.missing_requirements();
            append_checks(&mut out, failing_exec("metaserver:semantics:", &semantics, "complete metaserver operational semantics evidence"));
            append_checks(&mut out, failing_exec("metaserver:blocker:", &r.blockers, "clear metaserver rollout blocker"));
        },
        None => {},
    }
    assert(checks_view(out@) =~= meta_section(*e));
    out
}

/// The benchmark checks: whether the evidence is attached, then its own checks.
#[verifier::opaque]
pub open spec fn benchmark_section(e: Option<RustRaftByteRaftBenchmarkEvidence>) -> Seq<Check> {
    seq![Check { present: e is Some, id: "benchmark:evidence_present"@, action: "attach real ByteRaft parity benchmark evidence"@ }] + match e {
        Some(r) => seq![
            Check { present: r.real_byteraft, id: "benchmark:real_byteraft"@, action: "run the baseline on the real ByteRaft harness"@ },
            Check { present: r.rustraft_runtime, id: "benchmark:rustraft_runtime"@, action: "run the candidate on the RustRaft runtime, not the model runner"@ },
            Check { present: r.correctness_passed, id: "benchmark:correctness"@, action: "pass correctness on both engines"@ },
            Check { present: r.performance_within_threshold, id: "benchmark:performance_threshold"@, action: "stay within the configured latency and throughput threshold"@ },
            Check { present: covers_parity_workloads(r.workloads@), id: "benchmark:workloads"@, action: "run every 3-node parity workload"@ },
        ],
        None => seq![],
    }
}

fn benchmark_exec(e: &Option<RustRaftByteRaftBenchmarkEvidence>) -> (r: Vec<ExecCheck>)
    ensures
        checks_view(r@) == benchmark_section(*e),
{
    reveal(benchmark_section);
    let mut out = vec![ExecCheck::new(e.is_some(), "benchmark:evidence_present", "attach real ByteRaft parity benchmark evidence")];
    match e {
        Some(r) => {
            let covered = covers_workloads(&r.workloads);
            let more = vec![
                ExecCheck::new(r.real_byteraft, "benchmark:real_byteraft", "run the baseline on the real ByteRaft harness"),
                ExecCheck::new(r.rustraft_runtime, "benchmark:rustraft_runtime", "run the candidate on the RustRaft runtime, not the model runner"),
                ExecCheck::new(r.correctness_passed, "benchmark:correctness", "pass correctness on both engines"),
                ExecCheck::new(r.performance_within_threshold, "benchmark:performance_threshold", "stay within the configured latency and throughput threshold"),
                ExecCheck::new(covered, "benchmark:workloads", "run every 3-node parity workload"),
            ];
            assert(checks_view(more@) =~= seq![
                Check { present: r.real_byteraft, id: "benchmark:real_byteraft"@, action: "run the baseline on the real ByteRaft harness"@ },
                Check { present: r.rustraft_runtime, id: "benchmark:rustraft_runtime"@, action: "run the candidate on the RustRaft runtime, not the model runner"@ },
                Check { present: r.correctness_passed, id: "benchmark:correctness"@, action: "pass correctness on both engines"@ },
                Check { present: r.performance_within_threshold, id: "benchmark:performance_threshold"@, action: "stay within the configured latency and throughput threshold"@ },
                Check { present: covers_parity_workloads(r.workloads@), id: "benchmark:workloads"@, action: "run every 3-node parity workload"@ },
            ]);
            append_checks(&mut out, more);
        },
        None => {},
    }
    assert(checks_view(out@) =~= benchmark_section(*e));
    out
}

/// The evidence checks of every section, in report order.
pub open spec fn evidence_checks(input: RustRaftProductionReadinessInput) -> Seq<Check> {
    pipeline_section(input.peer_pipeline) + snapshot_section(input.snapshot_lifecycle) + wal_section(
        input.wal_lifecycle,
    ) + data_node_section(input.data_node_rollout) + meta_section(input.metaserver_rollout) + benchmark_section(
        input.benchmark,
    )
}

/// The report lists after the semantic contract: its satisfied and missing
/// requirements under `contract:`, its production blockers, and one action
/// when the contract is not ready.
pub open spec fn contract_lists(readiness: RustRaftReadinessSnapshot) -> ListsModel {
    let cs = requirement_checks(readiness);
    let ready = absent_ids(cs).len() == 0 && absent_actions(cs).len() == 0;
    ListsModel {
        satisfied: prefixed("contract:"@, present_ids(cs)) + (if ready {
            seq!["contract:all_required_semantics"@]
        } else {
            seq![]
        }),
        missing: prefixed("contract:"@, absent_ids(cs)),
        blockers: absent_actions(cs),
        actions: if ready {
            seq![]
        } else {
            seq!["fix RustRaft semantic contract/readiness gaps before production rollout"@]
        },
    }
}

/// Adds the membership report: when it is ready one satisfied id, else its
/// missing ids under `membership:` as missing and as blockers, plus one
/// action; then its satisfied transitions under `membership:`.
pub open spec fn membership_step(m: ListsModel, ts: Seq<RustRaftMembershipTransitionEvidence>) -> ListsModel {
    let miss = membership_report_missing(ts, 6);
    let sat = membership_report_satisfied(ts, 6);
    let ready = miss.len() == 0;
    ListsModel {
        satisfied: m.satisfied + (if ready { seq!["membership:all_required_transitions"@] } else { seq![] })
            + prefixed("membership:"@, sat),
        missing: m.missing + prefixed("membership:"@, miss),
        blockers: m.blockers + prefixed("membership:"@, miss),
        actions: m.actions + (if ready {
            seq![]
        } else {
            seq!["run metaserver and data-node RustRaft failover, scale-up, and scale-down transitions"@]
        }),
    }
}

/// The four lists of the production readiness report.
pub open spec fn production_lists(input: RustRaftProductionReadinessInput) -> ListsModel {
    membership_step(
        apply_checks(contract_lists(input.readiness), evidence_checks(input)),
        input.membership_transitions@,
    )
}

/// The fail-closed production gate. It carries the semantic parity report and
/// the public API contract, and lists what is satisfied, what is missing, the
/// production blockers and the recommended next actions; it is ready exactly
/// when nothing is missing and nothing blocks.
pub fn rustraft_production_readiness_report(
    input: &RustRaftProductionReadinessInput,
) -> (r: RustRaftProductionReadinessReport)
    ensures
        is_parity_report(input.readiness, r.parity),
        is_public_api_contract(r.public_api),
        strs(r.satisfied@) == production_lists(*input).satisfied,
        strs(r.missing@) == production_lists(*input).missing,
        strs(r.production_blockers@) == production_lists(*input).blockers,
        strs(r.recommended_next_actions@) == production_lists(*input).actions,
        r.ready == (r.missing@.len() == 0 && r.production_blockers@.len() == 0),
        r.production_status == (if r.ready {
            RustRaftProductionStatus::ProductionReady
        } else {
            RustRaftProductionStatus::Blocked
        }),
{
    let parity = rustraft_parity_report(&input.readiness);
    let ghost cs = requirement_checks(input.readiness);
    let mut satisfied: Vec<String> = Vec::new();
    let mut missing: Vec<String> = Vec::new();
    let mut actions: Vec<String> = Vec::new();
    proof {
        assert(strs(satisfied@) =~= Seq::<Seq<char>>::empty());
        assert(strs(missing@) =~= Seq::<Seq<char>>::empty());
        assert(strs(actions@) =~= Seq::<Seq<char>>::empty());
    }
    extend_prefixed(&mut satisfied, "contract:", &parity.satisfied);
    extend_prefixed(&mut missing, "contract:", &parity.missing);
    let blockers = clone_strings(&parity.production_blockers);
    if parity.ready {
        push_str(&mut satisfied, s("contract:all_required_semantics"));
    } else {
        push_str(&mut actions, s("fix RustRaft semantic contract/readiness gaps before production rollout"));
    }
    let mut lists = ReportLists { satisfied, missing, blockers, actions };
    proof {
        assert(lists.model().satisfied =~= contract_lists(input.readiness).satisfied);
        assert(lists.model().missing =~= contract_lists(input.readiness).missing);
        assert(lists.model().blockers =~= contract_lists(input.readiness).blockers);
        assert(lists.model().actions =~= contract_lists(input.readiness).actions);
    }
    let mut checks = pipeline_exec(&input.peer_pipeline);
    append_checks(&mut checks, snapshot_exec(&input.snapshot_lifecycle));
    append_checks(&mut checks, wal_exec(&input.wal_lifecycle));
    append_checks(&mut checks, data_node_exec(&input.data_node_rollout));
    append_checks(&mut checks, meta_exec(&input.metaserver_rollout));
    append_checks(&mut checks, benchmark_exec(&input.benchmark));
    proof {
        assert(checks_view(checks@) =~= evidence_checks(*input));
    }
    lists.require_all(checks);
    let ghost after_checks = lists.model();
    let report = rustraft_membership_readiness_report(input.membership_transitions.as_slice());
    let ReportLists { satisfied, missing, blockers, actions } = lists;
    let mut satisfied = satisfied;
    let mut missing = missing;
    let mut blockers = blockers;
    let mut actions = actions;
    if report.ready {
        push_str(&mut satisfied, s("membership:all_required_transitions"));
    } else {
        extend_prefixed(&mut missing, "membership:", &report.missing);
        extend_prefixed(&mut blockers, "membership:", &report.missing);
        push_str(
            &mut actions,
            s("run metaserver and data-node RustRaft failover, scale-up, and scale-down transitions"),
        );
    }
    extend_prefixed(&mut satisfied, "membership:", &report.satisfied);
    proof {
        let miss = membership_report_missing(input.membership_transitions@, 6);
        if report.ready {
            assert(prefixed("membership:"@, miss) =~= Seq::<Seq<char>>::empty());
            assert(strs(missing@) =~= after_checks.missing + prefixed("membership:"@, miss));
            assert(strs(blockers@) =~= after_checks.blockers + prefixed("membership:"@, miss));
            assert(strs(actions@) =~= after_checks.actions + Seq::<Seq<char>>::empty());
        } else {
            assert(strs(actions@) =~= after_checks.actions + seq![
                "run metaserver and data-node RustRaft failover, scale-up, and scale-down transitions"@
            ]);
        }
        assert(strs(satisfied@) =~= production_lists(*input).satisfied);
        assert(strs(missing@) =~= production_lists(*input).missing);
        assert(strs(blockers@) =~= production_lists(*input).blockers);
        assert(strs(actions@) =~= production_lists(*input).actions);
    }
    let ready = missing.len() == 0 && blockers.len() == 0;
    RustRaftProductionReadinessReport {
        parity,
        public_api: rustraft_public_api_contract(),
        ready,
        production_status: if ready {
            RustRaftProductionStatus::ProductionReady
        } else {
            RustRaftProductionStatus::Blocked
        },
        satisfied,
        missing,
        production_blockers: blockers,
        recommended_next_actions: actions,
    }
}

/// The production gate fails closed: when it reports nothing missing, every
/// semantic requirement holds, every evidence section is attached and all of
/// its checks pass (among them the benchmark against the real ByteRaft
/// harness, run by the RustRaft runtime over every parity workload, correct
/// and within the threshold), and every required membership transition is
/// proven.
pub proof fn law_production_ready_requires_all_evidence(input: RustRaftProductionReadinessInput)
    requires
        production_lists(input).missing.len() == 0,
    ensures
        forall|i: int| 0 <= i < requirement_checks(input.readiness).len()
            ==> #[trigger] requirement_checks(input.readiness)[i].present,
        forall|i: int| 0 <= i < evidence_checks(input).len() ==> #[trigger] evidence_checks(input)[i].present,
        input.peer_pipeline is Some,
        input.snapshot_lifecycle is Some,
        input.wal_lifecycle is Some,
        input.data_node_rollout is Some,
        input.metaserver_rollout is Some,
        input.benchmark is Some,
        input.benchmark matches Some(b) && b.real_byteraft && b.rustraft_runtime && b.correctness_passed
            && b.performance_within_threshold && covers_parity_workloads(b.workloads@),
        membership_report_missing(input.membership_transitions@, 6).len() == 0,
{
    let cs = requirement_checks(input.readiness);
    let es = evidence_checks(input);
    let miss = membership_report_missing(input.membership_transitions@, 6);
    assert(prefixed("contract:"@, absent_ids(cs)).len() == absent_ids(cs).len());
    assert(prefixed("membership:"@, miss).len() == miss.len());
    lemma_absent_ids_empty(cs);
    lemma_absent_ids_empty(es);
    reveal(pipeline_section);
    reveal(snapshot_section);
    reveal(wal_section);
    let p = pipeline_section(input.peer_pipeline);
    let sn = snapshot_section(input.snapshot_lifecycle);
    let w = wal_section(input.wal_lifecycle);
    let d = data_node_section(input.data_node_rollout);
    let m = meta_section(input.metaserver_rollout);
    assert(absent_ids(es).len() == 0);
    assert(es[0] == p[0] && es[0].present);
    assert(es[p.len() as int] == sn[0] && es[p.len() as int].present);
    assert(es[(p.len() + sn.len()) as int] == w[0] && es[(p.len() + sn.len()) as int].present);
    assert(es[(p.len() + sn.len() + w.len()) as int] == d[0] && es[(p.len() + sn.len() + w.len()) as int].present);
    assert(es[(p.len() + sn.len() + w.len() + d.len()) as int] == m[0]
        && es[(p.len() + sn.len() + w.len() + d.len()) as int].present);
    reveal(benchmark_section);
    let b = benchmark_section(input.benchmark);
    let base = (p.len() + sn.len() + w.len() + d.len() + m.len()) as int;
    assert(es[base] == b[0] && es[base].present);
    assert(es[base + 1] == b[1] && es[base + 1].present);
    assert(es[base + 2] == b[2] && es[base + 2].present);
    assert(es[base + 3] == b[3] && es[base + 3].present);
    assert(es[base + 4] == b[4] && es[base + 4].present);
    assert(es[base + 5] == b[5] && es[base + 5].present);
}

/// The converse: the readiness report is ready when every semantic requirement holds,
/// every evidence check passes and every membership transition is proven.
pub proof fn law_production_ready_when_all_evidence_holds(input: RustRaftProductionReadinessInput)
    requires
        forall|i: int| 0 <= i < requirement_checks(input.readiness).len()
            ==> #[trigger] requirement_checks(input.readiness)[i].present,
        forall|i: int| 0 <= i < evidence_checks(input).len() ==> #[trigger] evidence_checks(input)[i].present,
        membership_report_missing(input.membership_transitions@, 6).len() == 0,
    ensures
        production_lists(input).missing.len() == 0,
        production_lists(input).blockers.len() == 0,
{
    let cs = requirement_checks(input.readiness);
    let es = evidence_checks(input);
    let miss = membership_report_missing(input.membership_transitions@, 6);
    lemma_absent_ids_empty(cs);
    lemma_absent_ids_empty(es);
    lemma_absent_actions_empty(cs);
    assert(prefixed("contract:"@, absent_ids(cs)).len() == absent_ids(cs).len());
    assert(prefixed("membership:"@, miss).len() == miss.len());
}

proof fn lemma_present_absent_len(cs: Seq<Check>)
    ensures
        present_ids(cs).len() + absent_ids(cs).len() == cs.len(),
    decreases cs.len(),
{
    if cs.len() > 0 {
        lemma_present_absent_len(cs.drop_last());
    }
}

proof fn lemma_failing_ids(prefix: Seq<char>, ids: Seq<Seq<char>>, action: Seq<char>)
    ensures
        absent_ids(failing_checks(prefix, ids, action)) == prefixed(prefix, ids),
        present_ids(failing_checks(prefix, ids, action)) == Seq::<Seq<char>>::empty(),
    decreases ids.len(),
{
    let cs = failing_checks(prefix, ids, action);
    if ids.len() > 0 {
        lemma_failing_ids(prefix, ids.drop_last(), action);
        assert(cs.drop_last() =~= failing_checks(prefix, ids.drop_last(), action));
        assert(prefixed(prefix, ids) =~= prefixed(prefix, ids.drop_last()).push(prefix + ids.last()));
    } else {
        assert(prefixed(prefix, ids) =~= Seq::<Seq<char>>::empty());
    }
}

/// Applying checks to the report lists sends each check to exactly one
/// side: a holding check's id to the satisfied list; a failing one's id to
/// both the missing list and the blockers, in the same order, and its action
/// to the recommended actions.
pub proof fn law_checks_split_between_lists(m: ListsModel, cs: Seq<Check>)
    ensures
        apply_checks(m, cs).satisfied == m.satisfied + present_ids(cs),
        apply_checks(m, cs).missing == m.missing + absent_ids(cs),
        apply_checks(m, cs).blockers == m.blockers + absent_ids(cs),
        apply_checks(m, cs).actions.len() == m.actions.len() + absent_ids(cs).len(),
        present_ids(cs).len() + absent_ids(cs).len() == cs.len(),
{
    lemma_absent_actions_empty(cs);
    lemma_present_absent_len(cs);
}

/// The data-node rollout section: without a rollout only its attachment
/// fails; with one, the attachment and the rollout's eighteen own checks
/// each hold or fail, then every missing operational semantic and every
/// rollout blocker fails under its own id.
pub proof fn law_data_node_rollout_section(e: Option<RustRaftDataNodeProcessRolloutReport>)
    ensures
        e is None ==> absent_ids(data_node_section(e)) == seq!["data_node:evidence_present"@]
            && present_ids(data_node_section(e)) == Seq::<Seq<char>>::empty(),
        e matches Some(r) ==> {
            &&& data_node_checks(r).len() == 18
            &&& present_ids(data_node_section(e)) == seq!["data_node:evidence_present"@] + present_ids(data_node_checks(r))
            &&& absent_ids(data_node_section(e)) == absent_ids(data_node_checks(r)) + prefixed(
                "data_node:semantics:"@,
                semantics_missing(r.operational_semantics),
            ) + prefixed("data_node:blocker:"@, strs(r.blockers@))
        },
{
    let head = seq![Check { present: e is Some, id: "data_node:evidence_present"@, action: "attach data-node process rollout evidence"@ }];
    match e {
        None => {
            assert(data_node_section(e) =~= head);
            lemma_ids_push(Seq::<Check>::empty(), head[0]);
            assert(head =~= Seq::<Check>::empty().push(head[0]));
        },
        Some(r) => {
            let own = data_node_checks(r);
            let sem = failing_checks("data_node:semantics:"@, semantics_missing(r.operational_semantics), "complete data-node operational semantics evidence"@);
            let blk = failing_checks("data_node:blocker:"@, strs(r.blockers@), "clear data-node rollout blocker"@);
            assert(data_node_section(e) =~= head + own + sem + blk);
            lemma_ids_push(Seq::<Check>::empty(), head[0]);
            assert(head =~= Seq::<Check>::empty().push(head[0]));
            lemma_ids_concat(head, own);
            lemma_ids_concat(head + own, sem);
            lemma_ids_concat(head + own + sem, blk);
            lemma_failing_ids("data_node:semantics:"@, semantics_missing(r.operational_semantics), "complete data-node operational semantics evidence"@);
            lemma_failing_ids("data_node:blocker:"@, strs(r.blockers@), "clear data-node rollout blocker"@);
            assert(present_ids(data_node_section(e)) =~= seq!["data_node:evidence_present"@] + present_ids(own));
            assert(absent_ids(head) =~= Seq::<Seq<char>>::empty());
            assert(absent_ids(data_node_section(e)) =~= absent_ids(own) + prefixed(
                "data_node:semantics:"@,
                semantics_missing(r.operational_semantics),
            ) + prefixed("data_node:blocker:"@, strs(r.blockers@)));
        },
    }
}

/// The data-node rollout applied to the report lists `m`: the ids it adds to
/// the missing list are exactly those it adds to the blockers, in the same
/// order, with one recommended action each. Without a rollout only
/// `data_node:evidence_present` is added, to the missing list. With one, the
/// attachment and each of the rollout's eighteen own checks go to exactly one
/// of the satisfied and missing lists, and the missing list then gets one
/// `data_node:semantics:` id per missing operational semantic and one
/// `data_node:blocker:` id per rollout blocker.
pub proof fn law_data_node_rollout_lists(m: ListsModel, e: Option<RustRaftDataNodeProcessRolloutReport>)
    ensures
        ({
            let n = apply_checks(m, data_node_section(e));
            let added = absent_ids(data_node_section(e));
            &&& n.missing == m.missing + added
            &&& n.blockers == m.blockers + added
            &&& n.actions.len() == m.actions.len() + added.len()
            &&& e is None ==> added == seq!["data_node:evidence_present"@] && n.satisfied == m.satisfied
            &&& e matches Some(r) ==> {
                let own = data_node_checks(r);
                &&& own.len() == 18
                &&& present_ids(own).len() + absent_ids(own).len() == 18
                &&& n.satisfied == m.satisfied + seq!["data_node:evidence_present"@] + present_ids(own)
                &&& added == absent_ids(own) + prefixed(
                    "data_node:semantics:"@,
                    semantics_missing(r.operational_semantics),
                ) + prefixed("data_node:blocker:"@, strs(r.blockers@))
            }
        }),
{
    law_checks_split_between_lists(m, data_node_section(e));
    law_data_node_rollout_section(e);
    match e {
        None => {
            assert(m.satisfied + Seq::<Seq<char>>::empty() =~= m.satisfied);
        },
        Some(r) => {
            lemma_present_absent_len(data_node_checks(r));
            assert(m.satisfied + (seq!["data_node:evidence_present"@] + present_ids(data_node_checks(r)))
                =~= m.satisfied + seq!["data_node:evidence_present"@] + present_ids(data_node_checks(r)));
        },
    }
}

/// The metaserver rollout section, in the same shape as the data-node one.
pub proof fn law_meta_rollout_section(e: Option<RustRaftMetaProcessRolloutReport>)
    ensures
        e is None ==> absent_ids(meta_section(e)) == seq!["metaserver:evidence_present"@]
            && present_ids(meta_section(e)) == Seq::<Seq<char>>::empty(),
        e matches Some(r) ==> {
            &&& present_ids(meta_section(e)) == seq!["metaserver:evidence_present"@] + present_ids(meta_checks(r))
            &&& absent_ids(meta_section(e)) == absent_ids(meta_checks(r)) + prefixed(
                "metaserver:semantics:"@,
                semantics_missing(r.operational_semantics),
            ) + prefixed("metaserver:blocker:"@, strs(r.blockers@))
        },
{
    let head = seq![Check { present: e is Some, id: "metaserver:evidence_present"@, action: "attach metaserver process rollout evidence"@ }];
    match e {
        None => {
            assert(meta_section(e) =~= head);
            lemma_ids_push(Seq::<Check>::empty(), head[0]);
            assert(head =~= Seq::<Check>::empty().push(head[0]));
        },
        Some(r) => {
            let own = meta_checks(r);
            let sem = failing_checks("metaserver:semantics:"@, semantics_missing(r.operational_semantics), "complete metaserver operational semantics evidence"@);
            let blk = failing_checks("metaserver:blocker:"@, strs(r.blockers@), "clear metaserver rollout blocker"@);
            assert(meta_section(e) =~= head + own + sem + blk);
            lemma_ids_push(Seq::<Check>::empty(), head[0]);
            assert(head =~= Seq::<Check>::empty().push(head[0]));
            lemma_ids_concat(head, own);
            lemma_ids_concat(head + own, sem);
            lemma_ids_concat(head + own + sem, blk);
            lemma_failing_ids("metaserver:semantics:"@, semantics_missing(r.operational_semantics), "complete metaserver operational semantics evidence"@);
            lemma_failing_ids("metaserver:blocker:"@, strs(r.blockers@), "clear metaserver rollout blocker"@);
            assert(present_ids(meta_section(e)) =~= seq!["metaserver:evidence_present"@] + present_ids(own));
            assert(absent_ids(head) =~= Seq::<Seq<char>>::empty());
            assert(absent_ids(meta_section(e)) =~= absent_ids(own) + prefixed(
                "metaserver:semantics:"@,
                semantics_missing(r.operational_semantics),
            ) + prefixed("metaserver:blocker:"@, strs(r.blockers@)));
        },
    }
}

/// The metaserver rollout applied to the report lists `m`, in the same shape
/// as the data-node one, with nineteen own checks.
pub proof fn law_meta_rollout_lists(m: ListsModel, e: Option<RustRaftMetaProcessRolloutReport>)
    ensures
        ({
            let n = apply_checks(m, meta_section(e));
            let added = absent_ids(meta_section(e));
            &&& n.missing == m.missing + added
            &&& n.blockers == m.blockers + added
            &&& n.actions.len() == m.actions.len() + added.len()
            &&& e is None ==> added == seq!["metaserver:evidence_present"@] && n.satisfied == m.satisfied
            &&& e matches Some(r) ==> {
                let own = meta_checks(r);
                &&& own.len() == 19
                &&& present_ids(own).len() + absent_ids(own).len() == 19
                &&& n.satisfied == m.satisfied + seq!["metaserver:evidence_present"@] + present_ids(own)
                &&& added == absent_ids(own) + prefixed(
                    "metaserver:semantics:"@,
                    semantics_missing(r.operational_semantics),
                ) + prefixed("metaserver:blocker:"@, strs(r.blockers@))
            }
        }),
{
    law_checks_split_between_lists(m, meta_section(e));
    law_meta_rollout_section(e);
    match e {
        None => {
            assert(m.satisfied + Seq::<Seq<char>>::empty() =~= m.satisfied);
        },
        Some(r) => {
            lemma_present_absent_len(meta_checks(r));
            assert(m.satisfied + (seq!["metaserver:evidence_present"@] + present_ids(meta_checks(r)))
                =~= m.satisfied + seq!["metaserver:evidence_present"@] + present_ids(meta_checks(r)));
        },
    }
}

/// Whether `id` is listed on the side its check fell: among the satisfied
/// ids when it holds, among the missing ids and the blockers when not.
pub open spec fn listed_as(l: ListsModel, id: Seq<char>, present: bool) -> bool {
    if present {
        l.satisfied.contains(id)
    } else {
        l.missing.contains(id) && l.blockers.contains(id)
    }
}

proof fn lemma_evidence_check_listed(input: RustRaftProductionReadinessInput, k: int)
    requires
        0 <= k < evidence_checks(input).len(),
    ensures
        listed_as(production_lists(input), evidence_checks(input)[k].id, evidence_checks(input)[k].present),
{
    let cs = evidence_checks(input);
    let c = contract_lists(input.readiness);
    let ts = input.membership_transitions@;
    let miss = membership_report_missing(ts, 6);
    let sat = membership_report_satisfied(ts, 6);
    let ready = miss.len() == 0;
    lemma_check_listed(cs, k);
    let x = cs[k].id;
    if cs[k].present {
        let extra = (if ready { seq!["membership:all_required_transitions"@] } else { Seq::<Seq<char>>::empty() })
            + prefixed("membership:"@, sat);
        lemma_contains_within(c.satisfied, present_ids(cs), extra, x);
        assert(production_lists(input).satisfied =~= c.satisfied + present_ids(cs) + extra);
    } else {
        lemma_contains_within(c.missing, absent_ids(cs), prefixed("membership:"@, miss), x);
        lemma_contains_within(c.blockers, absent_ids(cs), prefixed("membership:"@, miss), x);
        assert(production_lists(input).missing =~= c.missing + absent_ids(cs) + prefixed("membership:"@, miss));
        assert(production_lists(input).blockers =~= c.blockers + absent_ids(cs) + prefixed("membership:"@, miss));
    }
}

/// Attached snapshot lifecycle evidence is checked field by field: the
/// production report lists each `snapshot:` check as satisfied when its own
/// evidence field is set, and as missing and blocking when it is not.
pub proof fn law_snapshot_evidence_checked_field_by_field(input: RustRaftProductionReadinessInput)
    requires
        input.snapshot_lifecycle is Some,
    ensures
        ({
            let e = input.snapshot_lifecycle->0;
            let l = production_lists(input);
            &&& listed_as(l, "snapshot:evidence_present"@, true)
            &&& listed_as(l, "snapshot:sender_lifecycle"@, e.sender_lifecycle_present)
            &&& listed_as(l, "snapshot:downloader_lifecycle"@, e.downloader_lifecycle_present)
            &&& listed_as(l, "snapshot:retry_backpressure"@, e.retry_backpressure_present)
            &&& listed_as(l, "snapshot:chunk_retry"@, e.chunk_retry_present)
            &&& listed_as(l, "snapshot:send_timeout"@, e.send_timeout_present)
            &&& listed_as(l, "snapshot:rate_limit"@, e.rate_limit_present)
            &&& listed_as(l, "snapshot:install_progress"@, e.install_progress_present)
            &&& listed_as(l, "snapshot:install_rollback"@, e.install_rollback_present)
            &&& listed_as(l, "snapshot:membership_change"@, e.membership_change_present)
            &&& listed_as(l, "snapshot:rejoin_after_compacted_log"@, e.rejoin_after_compacted_log_present)
        }),
{
    reveal(pipeline_section);
    reveal(snapshot_section);
    let p = pipeline_section(input.peer_pipeline).len() as int;
    let sn = snapshot_section(input.snapshot_lifecycle);
    let cs = evidence_checks(input);
    assert forall|k: int| 0 <= k < sn.len() implies cs[p + k] == sn[k] by {}
    lemma_evidence_check_listed(input, p);
    lemma_evidence_check_listed(input, p + 1 + 0);
    lemma_evidence_check_listed(input, p + 1 + 1);
    lemma_evidence_check_listed(input, p + 1 + 2);
    lemma_evidence_check_listed(input, p + 1 + 3);
    lemma_evidence_check_listed(input, p + 1 + 4);
    lemma_evidence_check_listed(input, p + 1 + 5);
    lemma_evidence_check_listed(input, p + 1 + 6);
    lemma_evidence_check_listed(input, p + 1 + 7);
    lemma_evidence_check_listed(input, p + 1 + 8);
    lemma_evidence_check_listed(input, p + 1 + 9);
}

/// Attached pipeline evidence is checked field by field, each `pipeline:` check
/// listed as satisfied exactly when its own evidence field is set, else as
/// missing and blocking.
pub proof fn law_pipeline_evidence_checked_field_by_field(input: RustRaftProductionReadinessInput)
    requires
        input.peer_pipeline is Some,
    ensures
        ({
            let e = input.peer_pipeline->0;
            let l = production_lists(input);
            &&& listed_as(l, "pipeline:evidence_present"@, true)
            &&& listed_as(l, "pipeline:per_peer_state"@, e.per_peer_pipeline_state_present)
            &&& listed_as(l, "pipeline:append_backpressure"@, e.append_backpressure_enforced)
            &&& listed_as(l, "pipeline:apply_backpressure"@, e.apply_backpressure_enforced)
            &&& listed_as(l, "pipeline:memory_replicate_bytes"@, e.memory_replicate_bytes_enforced)
            &&& listed_as(l, "pipeline:oversized_log_rejection"@, e.oversized_log_rejection_present)
            &&& listed_as(l, "pipeline:out_of_order_append_handling"@, e.out_of_order_append_handling_present)
            &&& listed_as(l, "pipeline:reorder_queue"@, e.reorder_queue_enabled)
        }),
{
    reveal(pipeline_section);
    reveal(snapshot_section);
    reveal(wal_section);
    reveal(benchmark_section);
    let cs = evidence_checks(input);
    let p = pipeline_section(input.peer_pipeline);
    let sn = snapshot_section(input.snapshot_lifecycle);
    let w = wal_section(input.wal_lifecycle);
    let d = data_node_section(input.data_node_rollout);
    let m = meta_section(input.metaserver_rollout);
    let b = benchmark_section(input.benchmark);
    let e = input.peer_pipeline->0;
    assert forall|k: int| 0 <= k < p.len() implies cs[k] == p[k] by {}
    lemma_evidence_check_listed(input, 0int);
    lemma_evidence_check_listed(input, 1int + 0);
    lemma_evidence_check_listed(input, 1int + 1);
    lemma_evidence_check_listed(input, 1int + 2);
    lemma_evidence_check_listed(input, 1int + 3);
    lemma_evidence_check_listed(input, 1int + 4);
    lemma_evidence_check_listed(input, 1int + 5);
    lemma_evidence_check_listed(input, 1int + 6);
}

/// Attached WAL lifecycle evidence is checked field by field, each `wal:`
/// check listed as satisfied when its own evidence field is set, else as
/// missing and blocking.
pub proof fn law_wal_evidence_checked_field_by_field(input: RustRaftProductionReadinessInput)
    requires
        input.wal_lifecycle is Some,
    ensures
        ({
            let e = input.wal_lifecycle->0;
            let l = production_lists(input);
            &&& listed_as(l, "wal:evidence_present"@, true)
            &&& listed_as(l, "wal:segment_lifecycle"@, e.segment_lifecycle_present)
            &&& listed_as(l, "wal:retained_range"@, e.retained_range_present)
            &&& listed_as(l, "wal:sequence_range"@, e.sequence_range_present)
            &&& listed_as(l, "wal:log_index_range"@, e.log_index_range_present)
            &&& listed_as(l, "wal:compaction"@, e.compaction_observed)
            &&& listed_as(l, "wal:slow_fsync_backpressure"@, e.slow_fsync_backpressure_observed)
        }),
{
    reveal(pipeline_section);
    reveal(snapshot_section);
    reveal(wal_section);
    reveal(benchmark_section);
    let cs = evidence_checks(input);
    let p = pipeline_section(input.peer_pipeline);
    let sn = snapshot_section(input.snapshot_lifecycle);
    let w = wal_section(input.wal_lifecycle);
    let d = data_node_section(input.data_node_rollout);
    let m = meta_section(input.metaserver_rollout);
    let b = benchmark_section(input.benchmark);
    let e = input.wal_lifecycle->0;
    assert forall|k: int| 0 <= k < w.len() implies cs[(p.len() + sn.len()) as int + k] == w[k] by {}
    lemma_evidence_check_listed(input, (p.len() + sn.len()) as int);
    lemma_evidence_check_listed(input, (p.len() + sn.len()) as int + 1 + 0);
    lemma_evidence_check_listed(input, (p.len() + sn.len()) as int + 1 + 1);
    lemma_evidence_check_listed(input, (p.len() + sn.len()) as int + 1 + 2);
    lemma_evidence_check_listed(input, (p.len() + sn.len()) as int + 1 + 3);
    lemma_evidence_check_listed(input, (p.len() + sn.len()) as int + 1 + 4);
    lemma_evidence_check_listed(input, (p.len() + sn.len()) as int + 1 + 5);
}

/// Attached benchmark evidence is checked field by field: a real ByteRaft
/// baseline, the RustRaft runtime, correctness, the performance threshold and
/// every parity workload, each listed as satisfied when it holds, else as
/// missing and blocking.
pub proof fn law_benchmark_evidence_checked_field_by_field(input: RustRaftProductionReadinessInput)
    requires
        input.benchmark is Some,
    ensures
        ({
            let e = input.benchmark->0;
            let l = production_lists(input);
            &&& listed_as(l, "benchmark:evidence_present"@, true)
            &&& listed_as(l, "benchmark:real_byteraft"@, e.real_byteraft)
            &&& listed_as(l, "benchmark:rustraft_runtime"@, e.rustraft_runtime)
            &&& listed_as(l, "benchmark:correctness"@, e.correctness_passed)
            &&& listed_as(l, "benchmark:performance_threshold"@, e.performance_within_threshold)
            &&& listed_as(l, "benchmark:workloads"@, covers_parity_workloads(e.workloads@))
        }),
{
    reveal(pipeline_section);
    reveal(snapshot_section);
    reveal(wal_section);
    reveal(benchmark_section);
    let cs = evidence_checks(input);
    let p = pipeline_section(input.peer_pipeline);
    let sn = snapshot_section(input.snapshot_lifecycle);
    let w = wal_section(input.wal_lifecycle);
    let d = data_node_section(input.data_node_rollout);
    let m = meta_section(input.metaserver_rollout);
    let b = benchmark_section(input.benchmark);
    let e = input.benchmark->0;
    assert forall|k: int| 0 <= k < b.len() implies cs[(p.len() + sn.len() + w.len() + d.len() + m.len()) as int + k] == b[k] by {}
    lemma_evidence_check_listed(input, (p.len() + sn.len() + w.len() + d.len() + m.len()) as int);
    lemma_evidence_check_listed(input, (p.len() + sn.len() + w.len() + d.len() + m.len()) as int + 1 + 0);
    lemma_evidence_check_listed(input, (p.len() + sn.len() + w.len() + d.len() + m.len()) as int + 1 + 1);
    lemma_evidence_check_listed(input, (p.len() + sn.len() + w.len() + d.len() + m.len()) as int + 1 + 2);
    lemma_evidence_check_listed(input, (p.len() + sn.len() + w.len() + d.len() + m.len()) as int + 1 + 3);
    lemma_evidence_check_listed(input, (p.len() + sn.len() + w.len() + d.len() + m.len()) as int + 1 + 4);
}

/// An attached data-node rollout is checked field by field, each
/// `data_node:` check listed as satisfied when its own condition on the
/// rollout holds, else as missing and blocking.
#[verifier::spinoff_prover]
#[verifier::rlimit(80)]
pub proof fn law_data_node_rollout_checked_field_by_field(input: RustRaftProductionReadinessInput)
    requires
        input.data_node_rollout is Some,
    ensures
        ({
            let e = input.data_node_rollout->0;
            let l = production_lists(input);
            &&& listed_as(l, "data_node:evidence_present"@, true)
            &&& listed_as(l, "data_node:ready"@, e.ready)
            &&& listed_as(l, "data_node:no_blockers"@, e.blockers@.len() == 0)
            &&& listed_as(l, "data_node:processes_spawned"@, e.nodes@.len() > 0 && e.spawned_process_count as usize >= e.nodes@.len())
            &&& listed_as(l, "data_node:voters_present"@, e.voters@.len() > 0)
            &&& listed_as(l, "data_node:independent_wal_dirs"@, e.independent_wal_dirs)
            &&& listed_as(l, "data_node:independent_snapshot_dirs"@, e.independent_snapshot_dirs)
            &&& listed_as(l, "data_node:process_write_path"@, e.write_proposed_through_process_api)
            &&& listed_as(l, "data_node:read_index"@, e.read_index_responses_observed > 0)
            &&& listed_as(l, "data_node:leader_transfer"@, e.leader_transfer_validated)
            &&& listed_as(l, "data_node:failover"@, e.failover_validated)
            &&& listed_as(l, "data_node:membership_change"@, e.membership_change_validated)
            &&& listed_as(l, "data_node:follower_lag"@, e.follower_lag_validated)
            &&& listed_as(l, "data_node:secondary_read"@, e.secondary_read_validated)
            &&& listed_as(l, "data_node:restart_recovery"@, e.recovered_after_restart && e.restart_recovery_validated)
            &&& listed_as(l, "data_node:snapshot_install"@, e.snapshot_install_validated)
            &&& listed_as(l, "data_node:apply_fence"@, e.applied_fence_validated)
            &&& listed_as(l, "data_node:multi_process_log_store"@, e.multi_process_log_store_validated)
            &&& listed_as(l, "data_node:operational_semantics"@, e.operational_semantics.spec_proves_runtime_semantics())
        }),
{
    reveal(pipeline_section);
    reveal(snapshot_section);
    reveal(wal_section);
    reveal(benchmark_section);
    let cs = evidence_checks(input);
    let p = pipeline_section(input.peer_pipeline);
    let sn = snapshot_section(input.snapshot_lifecycle);
    let w = wal_section(input.wal_lifecycle);
    let d = data_node_section(input.data_node_rollout);
    let m = meta_section(input.metaserver_rollout);
    let b = benchmark_section(input.benchmark);
    let e = input.data_node_rollout->0;
    assert forall|k: int| 0 <= k < d.len() implies cs[(p.len() + sn.len() + w.len()) as int + k] == d[k] by {}
    assert forall|k: int| 0 <= k < data_node_checks(e).len() implies d[1 + k] == data_node_checks(e)[k] by {}
    lemma_evidence_check_listed(input, (p.len() + sn.len() + w.len()) as int);
    lemma_evidence_check_listed(input, (p.len() + sn.len() + w.len()) as int + 1 + 0);
    lemma_evidence_check_listed(input, (p.len() + sn.len() + w.len()) as int + 1 + 1);
    lemma_evidence_check_listed(input, (p.len() + sn.len() + w.len()) as int + 1 + 2);
    lemma_evidence_check_listed(input, (p.len() + sn.len() + w.len()) as int + 1 + 3);
    lemma_evidence_check_listed(input, (p.len() + sn.len() + w.len()) as int + 1 + 4);
    lemma_evidence_check_listed(input, (p.len() + sn.len() + w.len()) as int + 1 + 5);
    lemma_evidence_check_listed(input, (p.len() + sn.len() + w.len()) as int + 1 + 6);
    lemma_evidence_check_listed(input, (p.len() + sn.len() + w.len()) as int + 1 + 7);
    lemma_evidence_check_listed(input, (p.len() + sn.len() + w.len()) as int + 1 + 8);
    lemma_evidence_check_listed(input, (p.len() + sn.len() + w.len()) as int + 1 + 9);
    lemma_evidence_check_listed(input, (p.len() + sn.len() + w.len()) as int + 1 + 10);
    lemma_evidence_check_listed(input, (p.len() + sn.len() + w.len()) as int + 1 + 11);
    lemma_evidence_check_listed(input, (p.len() + sn.len() + w.len()) as int + 1 + 12);
    lemma_evidence_check_listed(input, (p.len() + sn.len() + w.len()) as int + 1 + 13);
    lemma_evidence_check_listed(input, (p.len() + sn.len() + w.len()) as int + 1 + 14);
    lemma_evidence_check_listed(input, (p.len() + sn.len() + w.len()) as int + 1 + 15);
    lemma_evidence_check_listed(input, (p.len() + sn.len() + w.len()) as int + 1 + 16);
    lemma_evidence_check_listed(input, (p.len() + sn.len() + w.len()) as int + 1 + 17);
}

/// An attached metaserver rollout is checked field by field, each
/// `metaserver:` check listed as satisfied when its own condition on the
/// rollout holds, else as missing and blocking.
#[verifier::spinoff_prover]
#[verifier::rlimit(80)]
pub proof fn law_meta_rollout_checked_field_by_field(input: RustRaftProductionReadinessInput)
    requires
        input.metaserver_rollout is Some,
    ensures
        ({
            let e = input.metaserver_rollout->0;
            let l = production_lists(input);
            &&& listed_as(l, "metaserver:evidence_present"@, true)
            &&& listed_as(l, "metaserver:ready"@, e.ready)
            &&& listed_as(l, "metaserver:no_blockers"@, e.blockers@.len() == 0)
            &&& listed_as(l, "metaserver:processes_spawned"@, e.nodes@.len() > 0 && e.spawned_process_count as usize >= e.nodes@.len())
            &&& listed_as(l, "metaserver:voters_present"@, e.voters@.len() > 0)
            &&& listed_as(l, "metaserver:independent_wal_dirs"@, e.independent_wal_dirs)
            &&& listed_as(l, "metaserver:independent_snapshot_dirs"@, e.independent_snapshot_dirs)
            &&& listed_as(l, "metaserver:process_mutation_path"@, e.mutation_proposed_through_process_api)
            &&& listed_as(l, "metaserver:read_index"@, e.read_index_responses_observed > 0 && e.read_index_validated)
            &&& listed_as(l, "metaserver:applied_mutations"@, e.applied_raft_mutations > 0)
            &&& listed_as(l, "metaserver:scheduler_replay"@, e.scheduler_task_replay_validated)
            &&& listed_as(l, "metaserver:data_node_membership_workflow"@, e.data_node_membership_results_ready && e.data_node_membership_workflow_report_attached && e.data_node_raft_group_results_observed)
            &&& listed_as(l, "metaserver:failover"@, e.failover_validated)
            &&& listed_as(l, "metaserver:membership_change"@, e.membership_change_validated)
            &&& listed_as(l, "metaserver:follower_lag"@, e.follower_lag_validated)
            &&& listed_as(l, "metaserver:secondary_read"@, e.secondary_read_validated)
            &&& listed_as(l, "metaserver:restart_recovery"@, e.recovered_after_restart)
            &&& listed_as(l, "metaserver:snapshot_install"@, e.snapshot_install_validated)
            &&& listed_as(l, "metaserver:multi_process_log_store"@, e.multi_process_log_store_validated)
            &&& listed_as(l, "metaserver:operational_semantics"@, e.operational_semantics.spec_proves_runtime_semantics())
        }),
{
    reveal(pipeline_section);
    reveal(snapshot_section);
    reveal(wal_section);
    reveal(benchmark_section);
    let cs = evidence_checks(input);
    let p = pipeline_section(input.peer_pipeline);
    let sn = snapshot_section(input.snapshot_lifecycle);
    let w = wal_section(input.wal_lifecycle);
    let d = data_node_section(input.data_node_rollout);
    let m = meta_section(input.metaserver_rollout);
    let b = benchmark_section(input.benchmark);
    let e = input.metaserver_rollout->0;
    assert forall|k: int| 0 <= k < m.len() implies cs[(p.len() + sn.len() + w.len() + d.len()) as int + k] == m[k] by {}
    assert forall|k: int| 0 <= k < meta_checks(e).len() implies m[1 + k] == meta_checks(e)[k] by {}
    lemma_evidence_check_listed(input, (p.len() + sn.len() + w.len() + d.len()) as int);
    lemma_evidence_check_listed(input, (p.len() + sn.len() + w.len() + d.len()) as int + 1 + 0);
    lemma_evidence_check_listed(input, (p.len() + sn.len() + w.len() + d.len()) as int + 1 + 1);
    lemma_evidence_check_listed(input, (p.len() + sn.len() + w.len() + d.len()) as int + 1 + 2);
    lemma_evidence_check_listed(input, (p.len() + sn.len() + w.len() + d.len()) as int + 1 + 3);
    lemma_evidence_check_listed(input, (p.len() + sn.len() + w.len() + d.len()) as int + 1 + 4);
    lemma_evidence_check_listed(input, (p.len() + sn.len() + w.len() + d.len()) as int + 1 + 5);
    lemma_evidence_check_listed(input, (p.len() + sn.len() + w.len() + d.len()) as int + 1 + 6);
    lemma_evidence_check_listed(input, (p.len() + sn.len() + w.len() + d.len()) as int + 1 + 7);
    lemma_evidence_check_listed(input, (p.len() + sn.len() + w.len() + d.len()) as int + 1 + 8);
    lemma_evidence_check_listed(input, (p.len() + sn.len() + w.len() + d.len()) as int + 1 + 9);
    lemma_evidence_check_listed(input, (p.len() + sn.len() + w.len() + d.len()) as int + 1 + 10);
    lemma_evidence_check_listed(input, (p.len() + sn.len() + w.len() + d.len()) as int + 1 + 11);
    lemma_evidence_check_listed(input, (p.len() + sn.len() + w.len() + d.len()) as int + 1 + 12);
    lemma_evidence_check_listed(input, (p.len() + sn.len() + w.len() + d.len()) as int + 1 + 13);
    lemma_evidence_check_listed(input, (p.len() + sn.len() + w.len() + d.len()) as int + 1 + 14);
    lemma_evidence_check_listed(input, (p.len() + sn.len() + w.len() + d.len()) as int + 1 + 15);
    lemma_evidence_check_listed(input, (p.len() + sn.len() + w.len() + d.len()) as int + 1 + 16);
    lemma_evidence_check_listed(input, (p.len() + sn.len() + w.len() + d.len()) as int + 1 + 17);
    lemma_evidence_check_listed(input, (p.len() + sn.len() + w.len() + d.len()) as int + 1 + 18);
}

proof fn lemma_absent_actions_empty(cs: Seq<Check>)
    ensures
        absent_actions(cs).len() == absent_ids(cs).len(),
    decreases cs.len(),
{
    if cs.len() > 0 {
        lemma_absent_actions_empty(cs.drop_last());
    }
}

/// Some peer's queue limit is the configured one and its queue reached it.
pub open spec fn shows_append_backpressure(p: RustRaftPeerPipelineStatus, limits: RustRaftPipelineLimits) -> bool {
    p.append_queue_limit == limits.max_inflights_replicate && (p.append_queue_max_depth >= p.append_queue_limit
        || p.append_queue_depth >= p.append_queue_limit)
}

pub open spec fn shows_apply_backpressure(p: RustRaftPeerPipelineStatus, limits: RustRaftPipelineLimits) -> bool {
    p.apply_inflight_limit == limits.max_inflights_apply_task && (p.apply_backpressure_rejections > 0
        || p.apply_queue_max_depth >= p.apply_inflight_limit)
}

pub open spec fn shows_memory_limit(p: RustRaftPeerPipelineStatus, limits: RustRaftPipelineLimits) -> bool {
    p.inflight_bytes_limit == limits.max_memory_replicate_log_bytes && p.memory_backpressure_rejections > 0
}

pub open spec fn shows_out_of_order_handling(p: RustRaftPeerPipelineStatus) -> bool {
    p.out_of_order_append_rejections > 0 || p.reorder_entries_rejected > 0 || p.reorder_entry_timeouts > 0
        || p.reorder_dropped_packages > 0
}

/// Pipeline evidence from the peers' pipeline statuses and the configured
/// limits: each item holds when some peer shows it.
pub fn rustraft_pipeline_evidence(peers: &[RustRaftPeerPipelineStatus], limits: RustRaftPipelineLimits) -> (r:
    RustRaftPipelineEvidence)
    ensures
        r.per_peer_pipeline_state_present == (peers@.len() > 0),
        r.append_backpressure_enforced == exists|j: int|
            0 <= j < peers@.len() && shows_append_backpressure(#[trigger] peers@[j], limits),
        r.apply_backpressure_enforced == exists|j: int|
            0 <= j < peers@.len() && shows_apply_backpressure(#[trigger] peers@[j], limits),
        r.memory_replicate_bytes_enforced == exists|j: int|
            0 <= j < peers@.len() && shows_memory_limit(#[trigger] peers@[j], limits),
        r.oversized_log_rejection_present == exists|j: int|
            0 <= j < peers@.len() && (#[trigger] peers@[j]).oversized_log_rejections > 0,
        r.out_of_order_append_handling_present == exists|j: int|
            0 <= j < peers@.len() && shows_out_of_order_handling(#[trigger] peers@[j]),
        r.reorder_timeout_drop_present == exists|j: int|
            0 <= j < peers@.len() && (#[trigger] peers@[j]).reorder_entry_timeouts > 0
                && peers@[j].reorder_dropped_packages > 0,
        r.stale_term_rejection_present == exists|j: int|
            0 <= j < peers@.len() && (#[trigger] peers@[j]).stale_term_rejections > 0,
        r.reorder_queue_enabled == (limits.enable_reorder_queue && limits.reorder_window_size > 0
            && limits.reorder_timeout_us > 0 && exists|j: int|
            0 <= j < peers@.len() && (#[trigger] peers@[j]).reorder_queue_depth > 0),
{
    let mut append = false;
    let mut apply = false;
    let mut memory = false;
    let mut oversized = false;
    let mut out_of_order = false;
    let mut timeout_drop = false;
    let mut stale = false;
    let mut reorder = false;
    let mut i: usize = 0;
    while i < peers.len()
        invariant
            i <= peers@.len(),
            append == exists|j: int| 0 <= j < i && shows_append_backpressure(#[trigger] peers@[j], limits),
            apply == exists|j: int| 0 <= j < i && shows_apply_backpressure(#[trigger] peers@[j], limits),
            memory == exists|j: int| 0 <= j < i && shows_memory_limit(#[trigger] peers@[j], limits),
            oversized == exists|j: int| 0 <= j < i && (#[trigger] peers@[j]).oversized_log_rejections > 0,
            out_of_order == exists|j: int| 0 <= j < i && shows_out_of_order_handling(#[trigger] peers@[j]),
            timeout_drop == exists|j: int|
                0 <= j < i && (#[trigger] peers@[j]).reorder_entry_timeouts > 0 && peers@[j].reorder_dropped_packages > 0,
            stale == exists|j: int| 0 <= j < i && (#[trigger] peers@[j]).stale_term_rejections > 0,
            reorder == exists|j: int| 0 <= j < i && (#[trigger] peers@[j]).reorder_queue_depth > 0,
        decreases peers@.len() - i,
    {
        let p = &peers[i];
        if p.append_queue_limit == limits.max_inflights_replicate && (p.append_queue_max_depth >= p.append_queue_limit
            || p.append_queue_depth >= p.append_queue_limit) {
            append = true;
        }
        if p.apply_inflight_limit == limits.max_inflights_apply_task && (p.apply_backpressure_rejections > 0
            || p.apply_queue_max_depth >= p.apply_inflight_limit) {
            apply = true;
        }
        if p.inflight_bytes_limit == limits.max_memory_replicate_log_bytes && p.memory_backpressure_rejections > 0 {
            memory = true;
        }
        if p.oversized_log_rejections > 0 {
            oversized = true;
        }
        if p.out_of_order_append_rejections > 0 || p.reorder_entries_rejected > 0 || p.reorder_entry_timeouts > 0
            || p.reorder_dropped_packages > 0 {
            out_of_order = true;
        }
        if p.reorder_entry_timeouts > 0 && p.reorder_dropped_packages > 0 {
            timeout_drop = true;
        }
        if p.stale_term_rejections > 0 {
            stale = true;
        }
        if p.reorder_queue_depth > 0 {
            reorder = true;
        }
        i = i + 1;
    }
    RustRaftPipelineEvidence {
        per_peer_pipeline_state_present: peers.len() > 0,
        append_backpressure_enforced: append,
        apply_backpressure_enforced: apply,
        memory_replicate_bytes_enforced: memory,
        oversized_log_rejection_present: oversized,
        out_of_order_append_handling_present: out_of_order,
        reorder_timeout_drop_present: timeout_drop,
        stale_term_rejection_present: stale,
        reorder_queue_enabled: limits.enable_reorder_queue && limits.reorder_window_size > 0
            && limits.reorder_timeout_us > 0 && reorder,
    }
}

/// Snapshot lifecycle evidence from the peers' pipeline statuses, the send
/// timeout and the in-flight limit: each item holds when some peer shows it.
pub fn rustraft_snapshot_lifecycle_evidence(
    peers: &[RustRaftPeerPipelineStatus],
    send_snapshot_timeout_ms: u64,
    max_inflights_replicate: u64,
) -> (r: RustRaftSnapshotLifecycleEvidence)
    ensures
        r.sender_lifecycle_present == (send_snapshot_timeout_ms > 0 && exists|j: int|
            0 <= j < peers@.len() && ((#[trigger] peers@[j]).snapshot_sending || peers@[j].snapshot_send_attempts > 0)),
        r.downloader_lifecycle_present == exists|j: int|
            0 <= j < peers@.len() && ((#[trigger] peers@[j]).snapshot_installing
                || peers@[j].snapshot_install_total_chunks > 0),
        r.retry_backpressure_present == exists|j: int|
            0 <= j < peers@.len() && ((#[trigger] peers@[j]).snapshot_backpressure_rejections > 0
                || (max_inflights_replicate > 0 && peers@[j].snapshot_send_attempts > max_inflights_replicate)),
        r.chunk_retry_present == exists|j: int|
            0 <= j < peers@.len() && (#[trigger] peers@[j]).snapshot_chunk_retry_count > 0,
        r.send_timeout_present == exists|j: int| 0 <= j < peers@.len() && (#[trigger] peers@[j]).snapshot_send_timeouts > 0,
        r.rate_limit_present == exists|j: int|
            0 <= j < peers@.len() && (#[trigger] peers@[j]).snapshot_rate_limit_rejections > 0,
        r.install_progress_present == exists|j: int|
            0 <= j < peers@.len() && ((#[trigger] peers@[j]).snapshot_installed_index > 0
                || peers@[j].snapshot_install_progress_per_mille > 0),
        r.install_rollback_present == exists|j: int|
            0 <= j < peers@.len() && (#[trigger] peers@[j]).snapshot_install_rolled_back > 0,
        r.membership_change_present == exists|j: int|
            0 <= j < peers@.len() && (#[trigger] peers@[j]).snapshot_during_membership_change,
        r.rejoin_after_compacted_log_present == exists|j: int|
            0 <= j < peers@.len() && (#[trigger] peers@[j]).snapshot_rejoin_after_compacted_log,
{
    let mut sender = false;
    let mut downloader = false;
    let mut retry = false;
    let mut chunk_retry = false;
    let mut timeout = false;
    let mut rate = false;
    let mut progress = false;
    let mut rollback = false;
    let mut membership = false;
    let mut rejoin = false;
    let mut i: usize = 0;
    while i < peers.len()
        invariant
            i <= peers@.len(),
            sender == exists|j: int|
                0 <= j < i && ((#[trigger] peers@[j]).snapshot_sending || peers@[j].snapshot_send_attempts > 0),
            downloader == exists|j: int|
                0 <= j < i && ((#[trigger] peers@[j]).snapshot_installing || peers@[j].snapshot_install_total_chunks > 0),
            retry == exists|j: int|
                0 <= j < i && ((#[trigger] peers@[j]).snapshot_backpressure_rejections > 0 || (max_inflights_replicate
                    > 0 && peers@[j].snapshot_send_attempts > max_inflights_replicate)),
            chunk_retry == exists|j: int| 0 <= j < i && (#[trigger] peers@[j]).snapshot_chunk_retry_count > 0,
            timeout == exists|j: int| 0 <= j < i && (#[trigger] peers@[j]).snapshot_send_timeouts > 0,
            rate == exists|j: int| 0 <= j < i && (#[trigger] peers@[j]).snapshot_rate_limit_rejections > 0,
            progress == exists|j: int|
                0 <= j < i && ((#[trigger] peers@[j]).snapshot_installed_index > 0
                    || peers@[j].snapshot_install_progress_per_mille > 0),
            rollback == exists|j: int| 0 <= j < i && (#[trigger] peers@[j]).snapshot_install_rolled_back > 0,
            membership == exists|j: int| 0 <= j < i && (#[trigger] peers@[j]).snapshot_during_membership_change,
            rejoin == exists|j: int| 0 <= j < i && (#[trigger] peers@[j]).snapshot_rejoin_after_compacted_log,
        decreases peers@.len() - i,
    {
        let p = &peers[i];
        if p.snapshot_sending || p.snapshot_send_attempts > 0 {
            sender = true;
        }
        if p.snapshot_installing || p.snapshot_install_total_chunks > 0 {
            downloader = true;
        }
        if p.snapshot_backpressure_rejections > 0 || (max_inflights_replicate > 0 && p.snapshot_send_attempts
            > max_inflights_replicate) {
            retry = true;
        }
        if p.snapshot_chunk_retry_count > 0 {
            chunk_retry = true;
        }
        if p.snapshot_send_timeouts > 0 {
            timeout = true;
        }
        if p.snapshot_rate_limit_rejections > 0 {
            rate = true;
        }
        if p.snapshot_installed_index > 0 || p.snapshot_install_progress_per_mille > 0 {
            progress = true;
        }
        if p.snapshot_install_rolled_back > 0 {
            rollback = true;
        }
        if p.snapshot_during_membership_change {
            membership = true;
        }
        if p.snapshot_rejoin_after_compacted_log {
            rejoin = true;
        }
        i = i + 1;
    }
    RustRaftSnapshotLifecycleEvidence {
        sender_lifecycle_present: send_snapshot_timeout_ms > 0 && sender,
        downloader_lifecycle_present: downloader,
        retry_backpressure_present: retry,
        chunk_retry_present: chunk_retry,
        send_timeout_present: timeout,
        rate_limit_present: rate,
        install_progress_present: progress,
        install_rollback_present: rollback,
        membership_change_present: membership,
        rejoin_after_compacted_log_present: rejoin,
    }
}

} // verus!
