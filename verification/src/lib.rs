//! RustRaft: Raft-facing contracts, safety decisions, replication pipeline,
//! WAL, snapshot and readiness reporting, with their behaviour proved.
#![allow(unused_imports)]

pub mod text;
pub mod types;
pub mod errors;
pub mod seqs;
pub mod membership;
pub mod safety;
pub mod report;
pub mod readiness;
pub mod transitions;
pub mod production;
pub mod pipeline;
pub mod wal;
pub mod snapshot;
pub mod sorting;
pub mod health;
pub mod node;
pub mod cluster;
pub mod fsm;
pub mod transport;
pub mod benchmark;
pub mod runtime;

pub use text::{join2, str_eq, u64_to_decimal, u64_to_hex16};
pub use types::{AppendEntriesRequest, AppendEntriesResponse, EntryModel, EntryPayload, InstallSnapshotRequest, InstallSnapshotResponse, RaftApplyRequest, RaftApplyResponse, RaftHardState, RaftLogEntry, RaftSnapshot, ReadIndexRequest, ReadIndexResponse, RustRaftAppendEntriesRequest, RustRaftAppendEntriesResponse, RustRaftApplyRequest, RustRaftApplyResponse, RustRaftGenericApplyRequest, RustRaftGenericApplyResponse, RustRaftGenericLogEntry, RustRaftGenericSnapshot, RustRaftGenericSnapshotChunk, RustRaftGroupId, RustRaftHardState, RustRaftInstallSnapshotRequest, RustRaftInstallSnapshotResponse, RustRaftLogEntry, RustRaftLogId, RustRaftLogIndex, RustRaftNodeId, RustRaftPayload, RustRaftPeer, RustRaftPeerStatus, RustRaftProposeOptions, RustRaftReadIndexRequest, RustRaftReadIndexResponse, RustRaftReplicaRole, RustRaftRole, RustRaftSnapshotChunk, RustRaftSnapshotId, RustRaftSnapshotMeta, RustRaftSnapshotPayload, RustRaftStatusSnapshot, RustRaftTerm, RustRaftVoteRequest, RustRaftVoteResponse, SnapshotChunk, SnapshotMetaModel, StatusModel, VoteRequest, VoteResponse, clone_bytes};
pub use errors::{ErrorModel, RaftConfig, RaftConfigError, RaftError, RustRaftConfig, RustRaftError, RustRaftNodeOptions, config_error_to_raft_error, invalid_request, storage_error, transport_error};
pub use seqs::{clone_ids, clone_strings, count_acked, position_of, remove_node, slice_contains};
pub use membership::{JointConsensusMembership, MembershipModel, RaftLearnerCatchUpReport, RaftMembership, RustRaftJointMembership, RustRaftMembership};
pub use safety::{RuntimeDecisionModel, RustRaftAppendSafetyDecision, RustRaftLearnerPromotionDecision, RustRaftReadSafetyDecision, RustRaftReadSafetyOperation, RustRaftReadSafetyRuntimeDecision, RustRaftReadSafetyRuntimeInput, rustraft_append_safety_decision, rustraft_learner_promotion_decision, rustraft_read_safety_decision, rustraft_read_safety_runtime_decision};
pub use report::{Check, ExecCheck, ListsModel, ReportLists, empty_lists, push_str, s};
pub use readiness::{ParityItemModel, RaftCapabilityEvidence, RustRaftByteRaftParityItem, RustRaftByteRaftParityStatus, RustRaftByteRaftParitySurface, RustRaftByteRaftReferencePolicy, RustRaftMetricNames, RustRaftParityContract, RustRaftParityReport, RustRaftProductionStatus, RustRaftPublicApiContract, RustRaftReadinessEvidence, RustRaftReadinessSnapshot, RustRaftRequirementCategory, RustRaftSemanticRequirement, readiness_field_present, rustraft_byteraft_parity_matrix, rustraft_byteraft_parity_surface, rustraft_byteraft_reference_policy, rustraft_capability_evidence, rustraft_metric_names, rustraft_parity_contract, rustraft_parity_report, rustraft_public_api_contract, rustraft_readiness_evidence, rustraft_requirements, strings_of};
pub use transitions::{RustRaftMembershipReadinessReport, RustRaftMembershipScope, RustRaftMembershipTransitionDecision, RustRaftMembershipTransitionEvidence, RustRaftMembershipTransitionKind, extend_prefixed, membership_transition_id, rustraft_membership_readiness_report, rustraft_membership_transition_missing};
pub use production::{RustRaftByteRaftBenchmarkEvidence, RustRaftDataNodeProcessRolloutReport, RustRaftMetaProcessRolloutReport, RustRaftPipelineEvidence, RustRaftProcessNodeEvidence, RustRaftProcessOperationalSemanticsEvidence, RustRaftProductionReadinessInput, RustRaftProductionReadinessReport, RustRaftSnapshotLifecycleEvidence, RustRaftWalLifecycleEvidence, RustRaftWalLifecycleStatus, rustraft_pipeline_evidence, rustraft_production_readiness_report, rustraft_snapshot_lifecycle_evidence, rustraft_wal_lifecycle_evidence};
pub use pipeline::{AppendAdmission, OutOfOrderAdmission, PipelineModel, RaftInflightAppend, RaftPeerPipelineState, RaftReplicationPipeline, RaftSnapshotTransferState, RustRaftPeerPipelineStatus, RustRaftPipelineLimits, TransferModel};
pub use wal::{ExPathBuf, LocalRaftWal, LocalWalModel, PersistentRaftWalOptions, RaftWalRecord, RaftWalRecoveryReport, RaftWalSegment, RustRaftApplySnapshotFence, RustRaftWalRecord, SegmentModel, WalLine, WalRecordModel, WalSegmentScan, rustraft_recover_latest_wal_record, rustraft_validate_apply_snapshot_fence, rustraft_validate_snapshot_floor_log_matching, rustraft_validate_snapshot_install, rustraft_wal_checksum, rustraft_wal_checksum_valid, wal_compaction_targets, wal_lifecycle_status, wal_mark_active_segment, wal_record_index, wal_retain_segments, wal_scan_segment, wal_segment_file_name, wal_segment_from_records, wal_segment_push, wal_should_roll};
pub use snapshot::{ChunkModel, InstallModel, LifecycleModel, LifecycleStatusModel, PersistentRaftSnapshotStore, PersistentRaftSnapshotStoreOptions, RaftSnapshotInstallState, RaftSnapshotLifecycle, RaftSnapshotLifecycleConfig, RaftSnapshotLifecycleStatus, RaftSnapshotSendState, RequestModel, SendModel, checkpoint_snapshot};
pub use sorting::{sort_dedup_strings, string_less};
pub use health::{RaftApplyHealth, RaftClusterStatusReport, RaftHealthStatus, RaftReplicationHealth, RaftRuntimeAdminReport, RaftRuntimeLocalStatusReport, rustraft_apply_health, rustraft_cluster_status_report, rustraft_replication_health, rustraft_runtime_admin_report, rustraft_runtime_local_status_report};
pub use node::{NodeModel, RaftNode};
pub use cluster::{ClusterModel, RaftCluster, RustRaftConsensus};
pub use fsm::{RaftApply, RaftFsmAdapter, RaftFsmApplyOutcome, RaftFsmCheckpoint, RaftFsmReplayReport, RaftStateMachine, RustRaftStateMachine, rustraft_apply_entry};
pub use transport::{AuthenticatedRaftRpc, AuthenticatedRaftTransport, RaftAuthPolicy, RaftTransport, RustRaftStorage, RustRaftTransport, StaticRaftAuthToken};
pub use benchmark::{RustRaftBenchmarkEngine, RustRaftBenchmarkWorkload, RustRaftSameMachineModelRunner, rustraft_benchmark_operation_count, rustraft_byteraft_benchmark_workloads, rustraft_same_machine_correctness_passes, rustraft_synthetic_latency_series};
pub use runtime::{RaftNodeRuntimeCommand, RaftNodeRuntimeState, RaftNodeRuntimeStatus, rustraft_restart_stops_first, rustraft_runtime_peers, rustraft_runtime_step};
