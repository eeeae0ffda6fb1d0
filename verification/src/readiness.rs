//! Semantic requirements, readiness evidence, the parity contract and the
//! ByteRaft parity matrix.
use vstd::prelude::*;
use vstd::string::*;
use crate::report::{Check, ExecCheck, ReportLists, present_ids, absent_ids, absent_actions, checks_view, empty_lists, s, push_str, lemma_check_listed};
use crate::seqs::strs;
use crate::text::str_eq;

verus! {

#[derive(Debug, Clone, Copy, PartialEq, Eq, Structural)]
pub enum RustRaftRequirementCategory {
    Safety,
    Durability,
    Observability,
    Transport,
    Membership,
}

/// The lower-case name of a requirement category.
pub open spec fn category_name(c: RustRaftRequirementCategory) -> Seq<char> {
    match c {
        RustRaftRequirementCategory::Safety => "safety"@,
        RustRaftRequirementCategory::Durability => "durability"@,
        RustRaftRequirementCategory::Observability => "observability"@,
        RustRaftRequirementCategory::Transport => "transport"@,
        RustRaftRequirementCategory::Membership => "membership"@,
    }
}

impl RustRaftRequirementCategory {
    /// The lower-case name of this category.
    pub fn name(&self) -> (r: &'static str)
        ensures
            r@ == category_name(*self),
    {
        match self {
            RustRaftRequirementCategory::Safety => "safety",
            RustRaftRequirementCategory::Durability => "durability",
            RustRaftRequirementCategory::Observability => "observability",
            RustRaftRequirementCategory::Transport => "transport",
            RustRaftRequirementCategory::Membership => "membership",
        }
    }
}

#[derive(Debug, Clone, PartialEq, Eq)]
pub struct RustRaftSemanticRequirement {
    pub id: String,
    pub category: RustRaftRequirementCategory,
    pub readiness_field: String,
    pub required_for_production: bool,
}

#[derive(Debug, Clone, PartialEq, Eq)]
pub struct RustRaftParityContract {
    pub library_name: String,
    pub consensus_backend_boundary: String,
    pub openraft_dependency_removed: bool,
    pub requirements: Vec<RustRaftSemanticRequirement>,
}

#[derive(Debug, Clone, Copy, PartialEq, Eq, Structural)]
pub enum RustRaftProductionStatus {
    ProductionReady,
    Blocked,
}

#[derive(Debug, Clone, PartialEq, Eq)]
pub struct RustRaftByteRaftReferencePolicy {
    pub feature_reference: String,
    pub performance_reference: String,
    pub rust_api_policy: String,
    pub temporalstore_consumption_boundary: String,
}

#[derive(Debug, Clone, Copy, PartialEq, Eq, Structural)]
pub enum RustRaftByteRaftParityStatus {
    Satisfied,
    Gap,
    IntentionalDifference,
}

#[derive(Debug, Clone, PartialEq, Eq)]
pub struct RustRaftByteRaftParityItem {
    pub id: String,
    pub required: bool,
    pub status: RustRaftByteRaftParityStatus,
    pub evidence: Vec<String>,
    pub note: String,
}

#[derive(Debug, Clone, PartialEq, Eq)]
pub struct RustRaftParityReport {
    pub contract: RustRaftParityContract,
    pub byteraft_reference_policy: RustRaftByteRaftReferencePolicy,
    pub ready: bool,
    pub production_status: RustRaftProductionStatus,
    pub satisfied: Vec<String>,
    pub missing: Vec<String>,
    pub production_blockers: Vec<String>,
    pub byteraft_parity_matrix: Vec<RustRaftByteRaftParityItem>,
    pub byteraft_gaps: Vec<String>,
    pub byteraft_intentional_differences: Vec<String>,
}

#[derive(Debug, Clone, PartialEq, Eq)]
pub struct RustRaftReadinessEvidence {
    pub requirement_id: String,
    pub readiness_field: String,
    pub present: bool,
}

/// Which semantic requirements a serving runtime has evidence for.
#[derive(Debug, Clone, Copy, PartialEq, Eq, Structural)]
pub struct RustRaftReadinessSnapshot {
    pub rustraft_leader_write_authority_present: bool,
    pub rustraft_operator_observability_present: bool,
    pub rustraft_rpc_transport_contract_present: bool,
    pub rustraft_log_retention_snapshot_trigger_present: bool,
    pub rustraft_apply_snapshot_fence_present: bool,
    pub raft_storage_apply_fence_present: bool,
    pub rustraft_snapshot_floor_log_matching_present: bool,
    pub rustraft_snapshot_tail_catchup_present: bool,
    pub rustraft_compacted_entry_rejection_present: bool,
    pub rustraft_metaserver_snapshot_floor_election_present: bool,
    pub learner_catchup_promotion_present: bool,
    pub metaserver_membership_workflow_present: bool,
}

/// The requirement table: id, category and readiness field of each requirement.
pub open spec fn requirement_table() -> Seq<(Seq<char>, RustRaftRequirementCategory, Seq<char>)> {
    seq![
        ("leader_write_authority"@, RustRaftRequirementCategory::Safety, "rustraft_leader_write_authority_present"@),
        ("operator_observability"@, RustRaftRequirementCategory::Observability, "rustraft_operator_observability_present"@),
        ("rpc_transport_contract"@, RustRaftRequirementCategory::Transport, "rustraft_rpc_transport_contract_present"@),
        ("snapshot_trigger"@, RustRaftRequirementCategory::Durability, "rustraft_log_retention_snapshot_trigger_present"@),
        ("apply_snapshot_fence"@, RustRaftRequirementCategory::Durability, "rustraft_apply_snapshot_fence_present"@),
        ("storage_apply_fence"@, RustRaftRequirementCategory::Durability, "raft_storage_apply_fence_present"@),
        ("snapshot_floor_log_matching"@, RustRaftRequirementCategory::Durability, "rustraft_snapshot_floor_log_matching_present"@),
        ("snapshot_tail_catchup"@, RustRaftRequirementCategory::Durability, "rustraft_snapshot_tail_catchup_present"@),
        ("compacted_entry_rejection"@, RustRaftRequirementCategory::Safety, "rustraft_compacted_entry_rejection_present"@),
        ("metaserver_snapshot_floor_election"@, RustRaftRequirementCategory::Safety, "rustraft_metaserver_snapshot_floor_election_present"@),
        ("learner_catchup_promotion"@, RustRaftRequirementCategory::Membership, "learner_catchup_promotion_present"@),
        ("metaserver_membership_workflow"@, RustRaftRequirementCategory::Membership, "metaserver_membership_workflow_present"@),
    ]
}

impl RustRaftSemanticRequirement {
    /// Id, category and readiness field.
    pub open spec fn row(self) -> (Seq<char>, RustRaftRequirementCategory, Seq<char>) {
        (self.id@, self.category, self.readiness_field@)
    }
}

fn requirement(id: &str, category: RustRaftRequirementCategory, readiness_field: &str) -> (r: RustRaftSemanticRequirement)
    ensures
        r.row() == (id@, category, readiness_field@),
        r.required_for_production,
{
    RustRaftSemanticRequirement { id: s(id), category, readiness_field: s(readiness_field), required_for_production: true }
}

/// The semantic requirements of the parity contract, all required for production.
pub fn rustraft_requirements() -> (r: Vec<RustRaftSemanticRequirement>)
    ensures
        r@.len() == requirement_table().len(),
        forall|i: int| 0 <= i < r@.len() ==> #[trigger] r@[i].row() == requirement_table()[i]
            && r@[i].required_for_production,
{
    let v = vec![
        requirement("leader_write_authority", RustRaftRequirementCategory::Safety, "rustraft_leader_write_authority_present"),
        requirement("operator_observability", RustRaftRequirementCategory::Observability, "rustraft_operator_observability_present"),
        requirement("rpc_transport_contract", RustRaftRequirementCategory::Transport, "rustraft_rpc_transport_contract_present"),
        requirement("snapshot_trigger", RustRaftRequirementCategory::Durability, "rustraft_log_retention_snapshot_trigger_present"),
        requirement("apply_snapshot_fence", RustRaftRequirementCategory::Durability, "rustraft_apply_snapshot_fence_present"),
        requirement("storage_apply_fence", RustRaftRequirementCategory::Durability, "raft_storage_apply_fence_present"),
        requirement("snapshot_floor_log_matching", RustRaftRequirementCategory::Durability, "rustraft_snapshot_floor_log_matching_present"),
        requirement("snapshot_tail_catchup", RustRaftRequirementCategory::Durability, "rustraft_snapshot_tail_catchup_present"),
        requirement("compacted_entry_rejection", RustRaftRequirementCategory::Safety, "rustraft_compacted_entry_rejection_present"),
        requirement("metaserver_snapshot_floor_election", RustRaftRequirementCategory::Safety, "rustraft_metaserver_snapshot_floor_election_present"),
        requirement("learner_catchup_promotion", RustRaftRequirementCategory::Membership, "learner_catchup_promotion_present"),
        requirement("metaserver_membership_workflow", RustRaftRequirementCategory::Membership, "metaserver_membership_workflow_present"),
    ];
    proof {
        assert(v@.map_values(|x: RustRaftSemanticRequirement| x.row()) =~= requirement_table());
        assert forall|i: int| 0 <= i < v@.len() implies #[trigger] v@[i].row() == requirement_table()[i]
            && v@[i].required_for_production by {
            assert(v@.map_values(|x: RustRaftSemanticRequirement| x.row())[i] == v@[i].row());
        }
    }
    v
}

/// The value of a readiness field by name; an unknown name reads as absent.
pub open spec fn field_value(snapshot: RustRaftReadinessSnapshot, field: Seq<char>) -> bool {
    if field == "rustraft_leader_write_authority_present"@ {
        snapshot.rustraft_leader_write_authority_present
    }     else if field == "rustraft_operator_observability_present"@ {
        snapshot.rustraft_operator_observability_present
    }     else if field == "rustraft_rpc_transport_contract_present"@ {
        snapshot.rustraft_rpc_transport_contract_present
    }     else if field == "rustraft_log_retention_snapshot_trigger_present"@ {
        snapshot.rustraft_log_retention_snapshot_trigger_present
    }     else if field == "rustraft_apply_snapshot_fence_present"@ {
        snapshot.rustraft_apply_snapshot_fence_present
    }     else if field == "raft_storage_apply_fence_present"@ {
        snapshot.raft_storage_apply_fence_present
    }     else if field == "rustraft_snapshot_floor_log_matching_present"@ {
        snapshot.rustraft_snapshot_floor_log_matching_present
    }     else if field == "rustraft_snapshot_tail_catchup_present"@ {
        snapshot.rustraft_snapshot_tail_catchup_present
    }     else if field == "rustraft_compacted_entry_rejection_present"@ {
        snapshot.rustraft_compacted_entry_rejection_present
    }     else if field == "rustraft_metaserver_snapshot_floor_election_present"@ {
        snapshot.rustraft_metaserver_snapshot_floor_election_present
    }     else if field == "learner_catchup_promotion_present"@ {
        snapshot.learner_catchup_promotion_present
    }     else if field == "metaserver_membership_workflow_present"@ {
        snapshot.metaserver_membership_workflow_present
    } else {
        false
    }
}

/// Reads a readiness field by name; an unknown name reads as absent.
pub fn readiness_field_present(snapshot: &RustRaftReadinessSnapshot, field: &str) -> (r: bool)
    ensures
        r == field_value(*snapshot, field@),
{
    if str_eq(field, "rustraft_leader_write_authority_present") {
        return snapshot.rustraft_leader_write_authority_present;
    }
    if str_eq(field, "rustraft_operator_observability_present") {
        return snapshot.rustraft_operator_observability_present;
    }
    if str_eq(field, "rustraft_rpc_transport_contract_present") {
        return snapshot.rustraft_rpc_transport_contract_present;
    }
    if str_eq(field, "rustraft_log_retention_snapshot_trigger_present") {
        return snapshot.rustraft_log_retention_snapshot_trigger_present;
    }
    if str_eq(field, "rustraft_apply_snapshot_fence_present") {
        return snapshot.rustraft_apply_snapshot_fence_present;
    }
    if str_eq(field, "raft_storage_apply_fence_present") {
        return snapshot.raft_storage_apply_fence_present;
    }
    if str_eq(field, "rustraft_snapshot_floor_log_matching_present") {
        return snapshot.rustraft_snapshot_floor_log_matching_present;
    }
    if str_eq(field, "rustraft_snapshot_tail_catchup_present") {
        return snapshot.rustraft_snapshot_tail_catchup_present;
    }
    if str_eq(field, "rustraft_compacted_entry_rejection_present") {
        return snapshot.rustraft_compacted_entry_rejection_present;
    }
    if str_eq(field, "rustraft_metaserver_snapshot_floor_election_present") {
        return snapshot.rustraft_metaserver_snapshot_floor_election_present;
    }
    if str_eq(field, "learner_catchup_promotion_present") {
        return snapshot.learner_catchup_promotion_present;
    }
    if str_eq(field, "metaserver_membership_workflow_present") {
        return snapshot.metaserver_membership_workflow_present;
    }
    false
}

/// The check of each requirement: whether the snapshot's field of that
/// requirement holds, the requirement id, and as its action the blocker id
/// `category:requirement` that production readiness reports when it fails.
pub open spec fn requirement_checks(snapshot: RustRaftReadinessSnapshot) -> Seq<Check> {
    requirement_table().map_values(|r: (Seq<char>, RustRaftRequirementCategory, Seq<char>)| Check {
        present: field_value(snapshot, r.2),
        id: r.0,
        action: category_name(r.1) + ":"@ + r.0,
    })
}

impl RustRaftReadinessEvidence {
    pub open spec fn row(self) -> (Seq<char>, Seq<char>, bool) {
        (self.requirement_id@, self.readiness_field@, self.present)
    }
}

/// One evidence row per requirement, in requirement order.
pub fn rustraft_readiness_evidence(snapshot: &RustRaftReadinessSnapshot) -> (r: Vec<RustRaftReadinessEvidence>)
    ensures
        r@.len() == requirement_table().len(),
        forall|i: int| 0 <= i < r@.len() ==> #[trigger] r@[i].row() == (requirement_table()[i].0,
            requirement_table()[i].2, field_value(*snapshot, requirement_table()[i].2)),
{
    let requirements = rustraft_requirements();
    let mut out: Vec<RustRaftReadinessEvidence> = Vec::new();
    let mut i: usize = 0;
    while i < requirements.len()
        invariant
            i <= requirements.len(),
            requirements@.len() == requirement_table().len(),
            forall|j: int| 0 <= j < requirements@.len() ==> #[trigger] requirements@[j].row() == requirement_table()[j],
            out@.len() == i,
            forall|j: int| 0 <= j < i ==> #[trigger] out@[j].row() == (requirement_table()[j].0,
                requirement_table()[j].2, field_value(*snapshot, requirement_table()[j].2)),
        decreases requirements.len() - i,
    {
        let req = &requirements[i];
        let present = readiness_field_present(snapshot, req.readiness_field.as_str());
        out.push(RustRaftReadinessEvidence {
            requirement_id: req.id.clone(),
            readiness_field: req.readiness_field.clone(),
            present,
        });
        proof {
            assert(requirements@[i as int].row() == requirement_table()[i as int]);
        }
        i = i + 1;
    }
    out
}

/// Whether `r` is the parity contract: the library name, the consensus
/// backend boundary, no OpenRaft dependency, and every requirement of the
/// table, in order, each required for production.
pub open spec fn is_parity_contract(r: RustRaftParityContract) -> bool {
    &&& r.library_name@ == "rustraft"@
    &&& r.consensus_backend_boundary@ == "temporalstore_rust::raft::DataRaftConsensusBackend"@
    &&& r.openraft_dependency_removed
    &&& r.requirements@.len() == requirement_table().len()
    &&& forall|i: int| 0 <= i < r.requirements@.len() ==> #[trigger] r.requirements@[i].row() == requirement_table()[i]
        && r.requirements@[i].required_for_production
}

/// The parity contract: the library, its consumption boundary and its requirements.
pub fn rustraft_parity_contract() -> (r: RustRaftParityContract)
    ensures
        is_parity_contract(r),
{
    RustRaftParityContract {
        library_name: s("rustraft"),
        consensus_backend_boundary: s("temporalstore_rust::raft::DataRaftConsensusBackend"),
        openraft_dependency_removed: true,
        requirements: rustraft_requirements(),
    }
}

/// Whether `r` is the ByteRaft reference policy.
pub open spec fn is_reference_policy(r: RustRaftByteRaftReferencePolicy) -> bool {
    &&& r.feature_reference@ == "ByteRaft is the feature reference for Raft behavior parity."@
    &&& r.performance_reference@ == "ByteRaft is the performance reference; RustRaft parity requires p50/p99 latency and throughput within the configured threshold."@
    &&& r.rust_api_policy@ == "RustRaft may expose idiomatic Rust traits, request/response types, and error types instead of ByteRaft-shaped APIs."@
    &&& r.temporalstore_consumption_boundary@ == "TemporalStore consumption must remain stable through temporalstore_rust::raft::DataRaftConsensusBackend and adapter-owned codecs/apply/storage wiring."@
}

/// The ByteRaft reference policy.
pub fn rustraft_byteraft_reference_policy() -> (r: RustRaftByteRaftReferencePolicy)
    ensures
        is_reference_policy(r),
{
    RustRaftByteRaftReferencePolicy {
        feature_reference: s("ByteRaft is the feature reference for Raft behavior parity."),
        performance_reference: s("ByteRaft is the performance reference; RustRaft parity requires p50/p99 latency and throughput within the configured threshold."),
        rust_api_policy: s("RustRaft may expose idiomatic Rust traits, request/response types, and error types instead of ByteRaft-shaped APIs."),
        temporalstore_consumption_boundary: s("TemporalStore consumption must remain stable through temporalstore_rust::raft::DataRaftConsensusBackend and adapter-owned codecs/apply/storage wiring."),
    }
}

/// One row of the ByteRaft parity matrix, by view.
pub struct ParityItemModel {
    pub id: Seq<char>,
    pub required: bool,
    pub status: RustRaftByteRaftParityStatus,
    pub evidence: Seq<Seq<char>>,
    pub note: Seq<char>,
}

impl RustRaftByteRaftParityItem {
    pub open spec fn model(self) -> ParityItemModel {
        ParityItemModel {
            id: self.id@,
            required: self.required,
            status: self.status,
            evidence: strs(self.evidence@),
            note: self.note@,
        }
    }
}

/// The views of the rows of a parity matrix.
pub open spec fn items_model(v: Seq<RustRaftByteRaftParityItem>) -> Seq<ParityItemModel> {
    v.map_values(|x: RustRaftByteRaftParityItem| x.model())
}

/// `Satisfied` when the evidence holds, else `Gap`.
pub open spec fn parity_status(ready: bool) -> RustRaftByteRaftParityStatus {
    if ready { RustRaftByteRaftParityStatus::Satisfied } else { RustRaftByteRaftParityStatus::Gap }
}

fn status_of(ready: bool) -> (r: RustRaftByteRaftParityStatus)
    ensures
        r == parity_status(ready),
{
    if ready { RustRaftByteRaftParityStatus::Satisfied } else { RustRaftByteRaftParityStatus::Gap }
}

/// The ByteRaft parity matrix for a readiness snapshot.
pub open spec fn parity_matrix_model(snapshot: RustRaftReadinessSnapshot) -> Seq<ParityItemModel> {
    seq![
        ParityItemModel { id: "log_replication"@, required: true, status: parity_status(snapshot.rustraft_leader_write_authority_present && snapshot.rustraft_rpc_transport_contract_present), evidence: seq!["rustraft_leader_write_authority_present"@, "rustraft_rpc_transport_contract_present"@], note: "leader-owned append path and append RPC contract are present"@ },
        ParityItemModel { id: "leader_election"@, required: true, status: parity_status(snapshot.rustraft_leader_write_authority_present && snapshot.rustraft_metaserver_snapshot_floor_election_present), evidence: seq!["rustraft_leader_write_authority_present"@, "rustraft_metaserver_snapshot_floor_election_present"@], note: "leader authority and snapshot-floor election safety are present"@ },
        ParityItemModel { id: "pre_vote"@, required: true, status: parity_status(snapshot.rustraft_rpc_transport_contract_present), evidence: seq!["rustraft_rpc_transport_contract_present"@, "RustRaftVoteRequest.pre_vote"@], note: "pre-vote is represented in the vote RPC contract"@ },
        ParityItemModel { id: "lease_read"@, required: true, status: parity_status(snapshot.rustraft_leader_write_authority_present), evidence: seq!["rustraft_leader_write_authority_present"@, "RustRaftReadIndexRequest.allow_lease_read"@], note: "lease reads are admitted only through leader/read-safety helpers"@ },
        ParityItemModel { id: "read_index"@, required: true, status: parity_status(snapshot.rustraft_operator_observability_present), evidence: seq!["rustraft_operator_observability_present"@, "RustRaftReadIndexRequest"@, "RustRaftReadIndexResponse"@], note: "read-index request/response and metrics are part of the public contract"@ },
        ParityItemModel { id: "membership_changes"@, required: true, status: parity_status(snapshot.metaserver_membership_workflow_present), evidence: seq!["metaserver_membership_workflow_present"@], note: "membership workflow evidence covers add/remove and joint changes"@ },
        ParityItemModel { id: "learner_promotion"@, required: true, status: parity_status(snapshot.learner_catchup_promotion_present), evidence: seq!["learner_catchup_promotion_present"@], note: "learner catch-up and promotion decision helpers are present"@ },
        ParityItemModel { id: "witness_quorum_behavior"@, required: true, status: RustRaftByteRaftParityStatus::Satisfied, evidence: seq!["RustRaftReplicaRole::Witness.participates_in_quorum"@], note: "witnesses count for quorum but are not data-serving leaders"@ },
        ParityItemModel { id: "log_compaction"@, required: true, status: parity_status(snapshot.rustraft_compacted_entry_rejection_present && snapshot.rustraft_log_retention_snapshot_trigger_present), evidence: seq!["rustraft_compacted_entry_rejection_present"@, "rustraft_log_retention_snapshot_trigger_present"@], note: "compacted-entry rejection and snapshot-trigger retention evidence are present"@ },
        ParityItemModel { id: "snapshot_trigger_install"@, required: true, status: parity_status(snapshot.rustraft_log_retention_snapshot_trigger_present && snapshot.rustraft_snapshot_tail_catchup_present && snapshot.rustraft_snapshot_floor_log_matching_present), evidence: seq!["rustraft_log_retention_snapshot_trigger_present"@, "rustraft_snapshot_tail_catchup_present"@, "rustraft_snapshot_floor_log_matching_present"@], note: "snapshot trigger, install/catch-up, and floor matching are present"@ },
        ParityItemModel { id: "restart_recovery"@, required: true, status: parity_status(snapshot.raft_storage_apply_fence_present && snapshot.rustraft_apply_snapshot_fence_present), evidence: seq!["raft_storage_apply_fence_present"@, "rustraft_apply_snapshot_fence_present"@], note: "WAL recovery is guarded by storage and apply/snapshot fences"@ },
        ParityItemModel { id: "leader_transfer"@, required: true, status: RustRaftByteRaftParityStatus::IntentionalDifference, evidence: seq!["RustRaftConsensus::transfer_leader"@], note: "RustRaft exposes the transfer contract; process validation is attached by the consuming runtime"@ },
        ParityItemModel { id: "observability_status"@, required: true, status: parity_status(snapshot.rustraft_operator_observability_present), evidence: seq!["rustraft_operator_observability_present"@, "RustRaftStatusSnapshot"@], note: "status snapshots and metric names are part of the public contract"@ },
    ]
}

fn item1(id: &str, status: RustRaftByteRaftParityStatus, e0: &str, note: &str) -> (r: RustRaftByteRaftParityItem)
    ensures
        r.model() == (ParityItemModel { id: id@, required: true, status, evidence: seq![e0@], note: note@ }),
{
    let mut evidence: Vec<String> = Vec::new();
    proof {
        assert(strs(evidence@) =~= Seq::<Seq<char>>::empty());
    }
    push_str(&mut evidence, s(e0));
    let r = RustRaftByteRaftParityItem { id: s(id), required: true, status, evidence, note: s(note) };
    proof {
        assert(r.model().evidence =~= seq![e0@]);
    }
    r
}

fn item2(id: &str, status: RustRaftByteRaftParityStatus, e0: &str, e1: &str, note: &str) -> (r: RustRaftByteRaftParityItem)
    ensures
        r.model() == (ParityItemModel { id: id@, required: true, status, evidence: seq![e0@, e1@], note: note@ }),
{
    let mut evidence: Vec<String> = Vec::new();
    proof {
        assert(strs(evidence@) =~= Seq::<Seq<char>>::empty());
    }
    push_str(&mut evidence, s(e0));
    push_str(&mut evidence, s(e1));
    let r = RustRaftByteRaftParityItem { id: s(id), required: true, status, evidence, note: s(note) };
    proof {
        assert(r.model().evidence =~= seq![e0@, e1@]);
    }
    r
}

fn item3(id: &str, status: RustRaftByteRaftParityStatus, e0: &str, e1: &str, e2: &str, note: &str) -> (r: RustRaftByteRaftParityItem)
    ensures
        r.model() == (ParityItemModel { id: id@, required: true, status, evidence: seq![e0@, e1@, e2@], note: note@ }),
{
    let mut evidence: Vec<String> = Vec::new();
    proof {
        assert(strs(evidence@) =~= Seq::<Seq<char>>::empty());
    }
    push_str(&mut evidence, s(e0));
    push_str(&mut evidence, s(e1));
    push_str(&mut evidence, s(e2));
    let r = RustRaftByteRaftParityItem { id: s(id), required: true, status, evidence, note: s(note) };
    proof {
        assert(r.model().evidence =~= seq![e0@, e1@, e2@]);
    }
    r
}

/// The ByteRaft parity matrix: each ByteRaft feature, whether the snapshot's
/// evidence covers it, the evidence it rests on and a note.
pub fn rustraft_byteraft_parity_matrix(snapshot: &RustRaftReadinessSnapshot) -> (r: Vec<RustRaftByteRaftParityItem>)
    ensures
        items_model(r@) == parity_matrix_model(*snapshot),
{
    let v = vec![
        item2("log_replication", status_of(snapshot.rustraft_leader_write_authority_present && snapshot.rustraft_rpc_transport_contract_present), "rustraft_leader_write_authority_present", "rustraft_rpc_transport_contract_present", "leader-owned append path and append RPC contract are present"),
        item2("leader_election", status_of(snapshot.rustraft_leader_write_authority_present && snapshot.rustraft_metaserver_snapshot_floor_election_present), "rustraft_leader_write_authority_present", "rustraft_metaserver_snapshot_floor_election_present", "leader authority and snapshot-floor election safety are present"),
        item2("pre_vote", status_of(snapshot.rustraft_rpc_transport_contract_present), "rustraft_rpc_transport_contract_present", "RustRaftVoteRequest.pre_vote", "pre-vote is represented in the vote RPC contract"),
        item2("lease_read", status_of(snapshot.rustraft_leader_write_authority_present), "rustraft_leader_write_authority_present", "RustRaftReadIndexRequest.allow_lease_read", "lease reads are admitted only through leader/read-safety helpers"),
        item3("read_index", status_of(snapshot.rustraft_operator_observability_present), "rustraft_operator_observability_present", "RustRaftReadIndexRequest", "RustRaftReadIndexResponse", "read-index request/response and metrics are part of the public contract"),
        item1("membership_changes", status_of(snapshot.metaserver_membership_workflow_present), "metaserver_membership_workflow_present", "membership workflow evidence covers add/remove and joint changes"),
        item1("learner_promotion", status_of(snapshot.learner_catchup_promotion_present), "learner_catchup_promotion_present", "learner catch-up and promotion decision helpers are present"),
        item1("witness_quorum_behavior", RustRaftByteRaftParityStatus::Satisfied, "RustRaftReplicaRole::Witness.participates_in_quorum", "witnesses count for quorum but are not data-serving leaders"),
        item2("log_compaction", status_of(snapshot.rustraft_compacted_entry_rejection_present && snapshot.rustraft_log_retention_snapshot_trigger_present), "rustraft_compacted_entry_rejection_present", "rustraft_log_retention_snapshot_trigger_present", "compacted-entry rejection and snapshot-trigger retention evidence are present"),
        item3("snapshot_trigger_install", status_of(snapshot.rustraft_log_retention_snapshot_trigger_present && snapshot.rustraft_snapshot_tail_catchup_present && snapshot.rustraft_snapshot_floor_log_matching_present), "rustraft_log_retention_snapshot_trigger_present", "rustraft_snapshot_tail_catchup_present", "rustraft_snapshot_floor_log_matching_present", "snapshot trigger, install/catch-up, and floor matching are present"),
        item2("restart_recovery", status_of(snapshot.raft_storage_apply_fence_present && snapshot.rustraft_apply_snapshot_fence_present), "raft_storage_apply_fence_present", "rustraft_apply_snapshot_fence_present", "WAL recovery is guarded by storage and apply/snapshot fences"),
        item1("leader_transfer", RustRaftByteRaftParityStatus::IntentionalDifference, "RustRaftConsensus::transfer_leader", "RustRaft exposes the transfer contract; process validation is attached by the consuming runtime"),
        item2("observability_status", status_of(snapshot.rustraft_operator_observability_present), "rustraft_operator_observability_present", "RustRaftStatusSnapshot", "status snapshots and metric names are part of the public contract"),
    ];
    proof {
        assert(items_model(v@) =~= parity_matrix_model(*snapshot));
    }
    v
}

} // verus!

verus! {

/// The ids of the matrix rows with the given status, in order.
pub open spec fn ids_with_status(items: Seq<ParityItemModel>, status: RustRaftByteRaftParityStatus) -> Seq<Seq<char>>
    decreases items.len(),
{
    if items.len() == 0 {
        seq![]
    } else if items.last().status == status {
        ids_with_status(items.drop_last(), status).push(items.last().id)
    } else {
        ids_with_status(items.drop_last(), status)
    }
}

fn collect_status_ids(items: &Vec<RustRaftByteRaftParityItem>, status: RustRaftByteRaftParityStatus) -> (r: Vec<String>)
    ensures
        strs(r@) == ids_with_status(items_model(items@), status),
{
    let mut out: Vec<String> = Vec::new();
    let mut i: usize = 0;
    proof {
        assert(items_model(items@).subrange(0, 0) =~= Seq::<ParityItemModel>::empty());
        assert(strs(out@) =~= Seq::<Seq<char>>::empty());
    }
    while i < items.len()
        invariant
            i <= items.len(),
            strs(out@) == ids_with_status(items_model(items@).subrange(0, i as int), status),
        decreases items.len() - i,
    {
        proof {
            assert(items_model(items@).subrange(0, i + 1).drop_last() =~= items_model(items@).subrange(0, i as int));
            assert(items_model(items@)[i as int] == items@[i as int].model());
        }
        if items[i].status == status {
            push_str(&mut out, items[i].id.clone());
        }
        i = i + 1;
    }
    proof {
        assert(items_model(items@).subrange(0, items@.len() as int) =~= items_model(items@));
    }
    out
}

/// Whether `r` is the parity report of `snapshot`: the parity contract and
/// the reference policy; the requirements whose readiness field holds as
/// satisfied, the others as missing with their actions as blockers, in
/// contract order; ready exactly when nothing is missing or blocking, with
/// the matching status; and the ByteRaft parity matrix with its gaps and
/// intentional differences.
pub open spec fn is_parity_report(snapshot: RustRaftReadinessSnapshot, r: RustRaftParityReport) -> bool {
    &&& is_parity_contract(r.contract)
    &&& is_reference_policy(r.byteraft_reference_policy)
    &&& strs(r.satisfied@) == present_ids(requirement_checks(snapshot))
    &&& strs(r.missing@) == absent_ids(requirement_checks(snapshot))
    &&& strs(r.production_blockers@) == absent_actions(requirement_checks(snapshot))
    &&& r.ready == (r.missing@.len() == 0 && r.production_blockers@.len() == 0)
    &&& r.production_status == (if r.ready { RustRaftProductionStatus::ProductionReady } else { RustRaftProductionStatus::Blocked })
    &&& items_model(r.byteraft_parity_matrix@) == parity_matrix_model(snapshot)
    &&& strs(r.byteraft_gaps@) == ids_with_status(parity_matrix_model(snapshot), RustRaftByteRaftParityStatus::Gap)
    &&& strs(r.byteraft_intentional_differences@) == ids_with_status(
        parity_matrix_model(snapshot),
        RustRaftByteRaftParityStatus::IntentionalDifference,
    )
}

/// The parity report of a readiness snapshot: which requirements are
/// satisfied or missing, the production blockers of the missing ones, the
/// ByteRaft matrix with its gaps and intentional differences, and readiness,
/// which holds exactly when nothing is missing.
pub fn rustraft_parity_report(snapshot: &RustRaftReadinessSnapshot) -> (r: RustRaftParityReport)
    ensures
        is_parity_report(*snapshot, r),
{
    let contract = rustraft_parity_contract();
    let evidence = rustraft_readiness_evidence(snapshot);
    let mut checks: Vec<ExecCheck> = Vec::new();
    let mut i: usize = 0;
    while i < evidence.len()
        invariant
            i <= evidence.len(),
            evidence@.len() == requirement_table().len(),
            contract.requirements@.len() == requirement_table().len(),
            forall|j: int| 0 <= j < contract.requirements@.len() ==> #[trigger] contract.requirements@[j].row()
                == requirement_table()[j],
            forall|j: int| 0 <= j < evidence@.len() ==> #[trigger] evidence@[j].row() == (requirement_table()[j].0,
                requirement_table()[j].2, field_value(*snapshot, requirement_table()[j].2)),
            checks_view(checks@) == requirement_checks(*snapshot).subrange(0, i as int),
            checks@.len() == i,
        decreases evidence.len() - i,
    {
        let ev = &evidence[i];
        let req = &contract.requirements[i];
        let blocker = String::from_str(req.category.name()).concat(":").concat(req.id.as_str());
        let ghost old_checks = checks;
        checks.push(ExecCheck { present: ev.present, id: ev.requirement_id.clone(), action: blocker });
        proof {
            assert(contract.requirements@[i as int].row() == requirement_table()[i as int]);
            assert(evidence@[i as int].row() == (requirement_table()[i as int].0, requirement_table()[i as int].2,
                field_value(*snapshot, requirement_table()[i as int].2)));
            let c = checks@[i as int];
            assert(checks@.len() == i + 1);
            assert(c.present == ev.present);
            assert(c.id@ == ev.requirement_id@);
            assert(ev.row() == (requirement_table()[i as int].0, requirement_table()[i as int].2,
                field_value(*snapshot, requirement_table()[i as int].2)));
            let row = requirement_table()[i as int];
            assert(requirement_checks(*snapshot).len() == requirement_table().len());
            assert(requirement_checks(*snapshot)[i as int] == (Check {
                present: field_value(*snapshot, row.2),
                id: row.0,
                action: category_name(row.1) + ":"@ + row.0,
            }));
            assert(c.view().present == field_value(*snapshot, row.2));
            assert(c.view().id == row.0);
            assert(req.category == row.1);
            assert(c.view().action == category_name(row.1) + ":"@ + row.0);
            assert(c.view() == requirement_checks(*snapshot)[i as int]);
            assert(checks_view(checks@) =~= checks_view(old_checks@).push(c.view()));
            assert(checks_view(checks@) =~= requirement_checks(*snapshot).subrange(0, i + 1));
        }
        i = i + 1;
    }
    proof {
        assert(requirement_checks(*snapshot).subrange(0, evidence@.len() as int) =~= requirement_checks(*snapshot));
    }
    let mut lists = empty_lists();
    lists.require_all(checks);
    proof {
        assert(lists.model().satisfied =~= present_ids(requirement_checks(*snapshot)));
        assert(lists.model().missing =~= absent_ids(requirement_checks(*snapshot)));
        assert(lists.model().actions =~= absent_actions(requirement_checks(*snapshot)));
    }
    let byteraft_parity_matrix = rustraft_byteraft_parity_matrix(snapshot);
    let byteraft_gaps = collect_status_ids(&byteraft_parity_matrix, RustRaftByteRaftParityStatus::Gap);
    let byteraft_intentional_differences = collect_status_ids(
        &byteraft_parity_matrix,
        RustRaftByteRaftParityStatus::IntentionalDifference,
    );
    let ReportLists { satisfied, missing, blockers: _, actions: production_blockers } = lists;
    let ready = missing.len() == 0 && production_blockers.len() == 0;
    RustRaftParityReport {
        contract,
        byteraft_reference_policy: rustraft_byteraft_reference_policy(),
        ready,
        production_status: if ready {
            RustRaftProductionStatus::ProductionReady
        } else {
            RustRaftProductionStatus::Blocked
        },
        satisfied,
        missing,
        production_blockers,
        byteraft_parity_matrix,
        byteraft_gaps,
        byteraft_intentional_differences,
    }
}

} // verus!

verus! {

/// The metric names exported by a RustRaft runtime.
#[derive(Debug, Clone, PartialEq, Eq)]
pub struct RustRaftMetricNames {
    pub ready: String,
    pub append_latency_ms: String,
    pub vote_latency_ms: String,
    pub read_index_latency_ms: String,
    pub snapshot_install_latency_ms: String,
    pub peer_append_queue_depth: String,
    pub peer_reorder_queue_depth: String,
    pub peer_snapshot_installed_index: String,
    pub wal_segment_count: String,
}

/// The names of the metrics.
pub fn rustraft_metric_names() -> (r: RustRaftMetricNames)
    ensures
        r.ready@ == "rustraft_ready"@,
        r.append_latency_ms@ == "rustraft_append_latency_ms"@,
        r.vote_latency_ms@ == "rustraft_vote_latency_ms"@,
        r.read_index_latency_ms@ == "rustraft_read_index_latency_ms"@,
        r.snapshot_install_latency_ms@ == "rustraft_snapshot_install_latency_ms"@,
        r.peer_append_queue_depth@ == "rustraft_peer_append_queue_depth"@,
        r.peer_reorder_queue_depth@ == "rustraft_peer_reorder_queue_depth"@,
        r.peer_snapshot_installed_index@ == "rustraft_peer_snapshot_installed_index"@,
        r.wal_segment_count@ == "rustraft_wal_segment_count"@,
{
    RustRaftMetricNames {
        ready: s("rustraft_ready"),
        append_latency_ms: s("rustraft_append_latency_ms"),
        vote_latency_ms: s("rustraft_vote_latency_ms"),
        read_index_latency_ms: s("rustraft_read_index_latency_ms"),
        snapshot_install_latency_ms: s("rustraft_snapshot_install_latency_ms"),
        peer_append_queue_depth: s("rustraft_peer_append_queue_depth"),
        peer_reorder_queue_depth: s("rustraft_peer_reorder_queue_depth"),
        peer_snapshot_installed_index: s("rustraft_peer_snapshot_installed_index"),
        wal_segment_count: s("rustraft_wal_segment_count"),
    }
}

/// The public API surface: storage and transport traits, RPC messages,
/// safety helpers and metric names.
#[derive(Debug, Clone, PartialEq, Eq)]
pub struct RustRaftPublicApiContract {
    pub storage_trait: String,
    pub transport_trait: String,
    pub rpc_messages: Vec<String>,
    pub safety_helpers: Vec<String>,
    pub metrics: RustRaftMetricNames,
}

/// Builds a vector of strings from literals, in order.
pub fn strings_of(items: &[&str]) -> (r: Vec<String>)
    ensures
        strs(r@) == items@.map_values(|x: &str| x@),
{
    let mut out: Vec<String> = Vec::new();
    let mut i: usize = 0;
    while i < items.len()
        invariant
            i <= items.len(),
            strs(out@) == items@.map_values(|x: &str| x@).subrange(0, i as int),
        decreases items.len() - i,
    {
        push_str(&mut out, s(items[i]));
        proof {
            assert(strs(out@) =~= items@.map_values(|x: &str| x@).subrange(0, i + 1));
        }
        i = i + 1;
    }
    proof {
        assert(items@.map_values(|x: &str| x@).subrange(0, items@.len() as int) =~= items@.map_values(|x: &str| x@));
    }
    out
}

/// Whether `r` is the public API contract: the storage and transport traits,
/// the RPC messages and safety helpers in order, and the metric names.
pub open spec fn is_public_api_contract(r: RustRaftPublicApiContract) -> bool {
    &&& r.storage_trait@ == "RustRaftStorage"@
    &&& r.transport_trait@ == "RaftTransport"@
    &&& strs(r.rpc_messages@) == seq!["AppendEntriesRequest"@, "VoteRequest"@, "InstallSnapshotRequest"@, "ReadIndexRequest"@, "AuthenticatedRaftRpc"@]
    &&& strs(r.safety_helpers@) == seq!["rustraft_read_safety_decision"@, "rustraft_append_safety_decision"@, "rustraft_learner_promotion_decision"@]
    &&& r.metrics@ == rustraft_metric_names_model()
}

/// The public API contract.
pub fn rustraft_public_api_contract() -> (r: RustRaftPublicApiContract)
    ensures
        is_public_api_contract(r),
{
    let rpc = strings_of(&["AppendEntriesRequest", "VoteRequest", "InstallSnapshotRequest", "ReadIndexRequest", "AuthenticatedRaftRpc"]);
    let helpers = strings_of(&["rustraft_read_safety_decision", "rustraft_append_safety_decision", "rustraft_learner_promotion_decision"]);
    proof {
        assert(strs(rpc@) =~= seq!["AppendEntriesRequest"@, "VoteRequest"@, "InstallSnapshotRequest"@, "ReadIndexRequest"@, "AuthenticatedRaftRpc"@]);
        assert(strs(helpers@) =~= seq!["rustraft_read_safety_decision"@, "rustraft_append_safety_decision"@, "rustraft_learner_promotion_decision"@]);
    }
    RustRaftPublicApiContract {
        storage_trait: s("RustRaftStorage"),
        transport_trait: s("RaftTransport"),
        rpc_messages: rpc,
        safety_helpers: helpers,
        metrics: rustraft_metric_names(),
    }
}

impl RustRaftMetricNames {
    /// The metric names as character sequences, in field order.
    pub open spec fn view(self) -> Seq<Seq<char>> {
        seq![self.ready@, self.append_latency_ms@, self.vote_latency_ms@, self.read_index_latency_ms@, self.snapshot_install_latency_ms@, self.peer_append_queue_depth@, self.peer_reorder_queue_depth@, self.peer_snapshot_installed_index@, self.wal_segment_count@]
    }
}

/// The metric names, in field order.
pub open spec fn rustraft_metric_names_model() -> Seq<Seq<char>> {
    seq!["rustraft_ready"@, "rustraft_append_latency_ms"@, "rustraft_vote_latency_ms"@, "rustraft_read_index_latency_ms"@, "rustraft_snapshot_install_latency_ms"@, "rustraft_peer_append_queue_depth"@, "rustraft_peer_reorder_queue_depth"@, "rustraft_peer_snapshot_installed_index"@, "rustraft_wal_segment_count"@]
}

/// The ByteRaft-facing API surface grouped by concern.
#[derive(Debug, Clone, PartialEq, Eq)]
pub struct RustRaftByteRaftParitySurface {
    pub node_lifecycle: Vec<String>,
    pub write_api: Vec<String>,
    pub read_api: Vec<String>,
    pub membership_api: Vec<String>,
    pub durability_api: Vec<String>,
    pub observability_api: Vec<String>,
}

/// The API surface that mirrors ByteRaft.
pub fn rustraft_byteraft_parity_surface() -> (r: RustRaftByteRaftParitySurface)
    ensures
        strs(r.node_lifecycle@) == seq!["create"@, "start"@, "restart"@, "stop"@, "shutdown"@],
        strs(r.write_api@) == seq!["propose"@, "propose_options.expected_term"@],
        strs(r.read_api@) == seq!["read_index"@, "lease_read"@],
        strs(r.membership_api@) == seq!["add_node"@, "add_learner"@, "add_witness"@, "promote"@, "remove_node"@, "transfer_leader"@, "campaign"@],
        strs(r.durability_api@) == seq!["wal_hard_state"@, "snapshot_install"@, "snapshot_tail_catchup"@, "apply_snapshot_fence"@],
        strs(r.observability_api@) == seq!["status"@, "local_status"@, "metrics"@, "fatal_events"@],
{
    let node_lifecycle = strings_of(&["create", "start", "restart", "stop", "shutdown"]);
    assert(strs(node_lifecycle@) =~= seq!["create"@, "start"@, "restart"@, "stop"@, "shutdown"@]);
    let write_api = strings_of(&["propose", "propose_options.expected_term"]);
    assert(strs(write_api@) =~= seq!["propose"@, "propose_options.expected_term"@]);
    let read_api = strings_of(&["read_index", "lease_read"]);
    assert(strs(read_api@) =~= seq!["read_index"@, "lease_read"@]);
    let membership_api = strings_of(&["add_node", "add_learner", "add_witness", "promote", "remove_node", "transfer_leader", "campaign"]);
    assert(strs(membership_api@) =~= seq!["add_node"@, "add_learner"@, "add_witness"@, "promote"@, "remove_node"@, "transfer_leader"@, "campaign"@]);
    let durability_api = strings_of(&["wal_hard_state", "snapshot_install", "snapshot_tail_catchup", "apply_snapshot_fence"]);
    assert(strs(durability_api@) =~= seq!["wal_hard_state"@, "snapshot_install"@, "snapshot_tail_catchup"@, "apply_snapshot_fence"@]);
    let observability_api = strings_of(&["status", "local_status", "metrics", "fatal_events"]);
    assert(strs(observability_api@) =~= seq!["status"@, "local_status"@, "metrics"@, "fatal_events"@]);
    RustRaftByteRaftParitySurface { node_lifecycle, write_api, read_api, membership_api, durability_api, observability_api }
}

/// One capability and the evidence behind it.
#[derive(Debug, Clone, PartialEq, Eq)]
pub struct RaftCapabilityEvidence {
    pub capability: String,
    pub present: bool,
    pub evidence: Vec<String>,
    pub source_reference: String,
}

/// One capability per requirement: present as the snapshot reports it, with
/// the readiness field as its evidence.
pub fn rustraft_capability_evidence(readiness: &RustRaftReadinessSnapshot) -> (r: Vec<RaftCapabilityEvidence>)
    ensures
        r@.len() == requirement_table().len(),
        forall|i: int| 0 <= i < r@.len() ==> {
            &&& (#[trigger] r@[i]).capability@ == requirement_table()[i].0
            &&& r@[i].present == field_value(*readiness, requirement_table()[i].2)
            &&& strs(r@[i].evidence@) == seq![requirement_table()[i].2]
            &&& r@[i].source_reference@ == "rustraft_readiness_snapshot"@
        },
{
    let evidence = rustraft_readiness_evidence(readiness);
    let mut out: Vec<RaftCapabilityEvidence> = Vec::new();
    let mut i: usize = 0;
    while i < evidence.len()
        invariant
            i <= evidence.len(),
            evidence@.len() == requirement_table().len(),
            forall|j: int| 0 <= j < evidence@.len() ==> #[trigger] evidence@[j].row() == (requirement_table()[j].0,
                requirement_table()[j].2, field_value(*readiness, requirement_table()[j].2)),
            out@.len() == i,
            forall|j: int| 0 <= j < i ==> {
                &&& (#[trigger] out@[j]).capability@ == requirement_table()[j].0
                &&& out@[j].present == field_value(*readiness, requirement_table()[j].2)
                &&& strs(out@[j].evidence@) == seq![requirement_table()[j].2]
                &&& out@[j].source_reference@ == "rustraft_readiness_snapshot"@
            },
        decreases evidence.len() - i,
    {
        let ev = &evidence[i];
        let mut fields: Vec<String> = Vec::new();
        fields.push(ev.readiness_field.clone());
        proof {
            assert(evidence@[i as int].row() == (requirement_table()[i as int].0, requirement_table()[i as int].2,
                field_value(*readiness, requirement_table()[i as int].2)));
            assert(strs(fields@) =~= seq![requirement_table()[i as int].2]);
        }
        out.push(RaftCapabilityEvidence {
            capability: ev.requirement_id.clone(),
            present: ev.present,
            evidence: fields,
            source_reference: s("rustraft_readiness_snapshot"),
        });
        i = i + 1;
    }
    out
}

} // verus!

verus! {

/// Each readiness field is read by its own name: the value named
/// `"<field>"` is that very field of the snapshot.
pub proof fn law_readiness_fields_read_by_name(snapshot: RustRaftReadinessSnapshot)
    ensures
        field_value(snapshot, "rustraft_leader_write_authority_present"@) == snapshot.rustraft_leader_write_authority_present,
        field_value(snapshot, "rustraft_operator_observability_present"@) == snapshot.rustraft_operator_observability_present,
        field_value(snapshot, "rustraft_rpc_transport_contract_present"@) == snapshot.rustraft_rpc_transport_contract_present,
        field_value(snapshot, "rustraft_log_retention_snapshot_trigger_present"@)
            == snapshot.rustraft_log_retention_snapshot_trigger_present,
        field_value(snapshot, "rustraft_apply_snapshot_fence_present"@) == snapshot.rustraft_apply_snapshot_fence_present,
        field_value(snapshot, "raft_storage_apply_fence_present"@) == snapshot.raft_storage_apply_fence_present,
        field_value(snapshot, "rustraft_snapshot_floor_log_matching_present"@)
            == snapshot.rustraft_snapshot_floor_log_matching_present,
        field_value(snapshot, "rustraft_snapshot_tail_catchup_present"@) == snapshot.rustraft_snapshot_tail_catchup_present,
        field_value(snapshot, "rustraft_compacted_entry_rejection_present"@)
            == snapshot.rustraft_compacted_entry_rejection_present,
        field_value(snapshot, "rustraft_metaserver_snapshot_floor_election_present"@)
            == snapshot.rustraft_metaserver_snapshot_floor_election_present,
        field_value(snapshot, "learner_catchup_promotion_present"@) == snapshot.learner_catchup_promotion_present,
        field_value(snapshot, "metaserver_membership_workflow_present"@) == snapshot.metaserver_membership_workflow_present,
{
    reveal_strlit("rustraft_leader_write_authority_present");
    reveal_strlit("rustraft_operator_observability_present");
    reveal_strlit("rustraft_rpc_transport_contract_present");
    reveal_strlit("rustraft_log_retention_snapshot_trigger_present");
    reveal_strlit("rustraft_apply_snapshot_fence_present");
    reveal_strlit("raft_storage_apply_fence_present");
    reveal_strlit("rustraft_snapshot_floor_log_matching_present");
    reveal_strlit("rustraft_snapshot_tail_catchup_present");
    reveal_strlit("rustraft_compacted_entry_rejection_present");
    reveal_strlit("rustraft_metaserver_snapshot_floor_election_present");
    reveal_strlit("learner_catchup_promotion_present");
    reveal_strlit("metaserver_membership_workflow_present");
    assert("rustraft_operator_observability_present"@[9] != "rustraft_leader_write_authority_present"@[9]);
    assert("rustraft_rpc_transport_contract_present"@[9] != "rustraft_leader_write_authority_present"@[9]);
    assert("rustraft_rpc_transport_contract_present"@[9] != "rustraft_operator_observability_present"@[9]);
    assert("rustraft_log_retention_snapshot_trigger_present"@.len() != "rustraft_leader_write_authority_present"@.len());
    assert("rustraft_log_retention_snapshot_trigger_present"@.len() != "rustraft_operator_observability_present"@.len());
    assert("rustraft_log_retention_snapshot_trigger_present"@.len() != "rustraft_rpc_transport_contract_present"@.len());
    assert("rustraft_apply_snapshot_fence_present"@.len() != "rustraft_leader_write_authority_present"@.len());
    assert("rustraft_apply_snapshot_fence_present"@.len() != "rustraft_operator_observability_present"@.len());
    assert("rustraft_apply_snapshot_fence_present"@.len() != "rustraft_rpc_transport_contract_present"@.len());
    assert("rustraft_apply_snapshot_fence_present"@.len() != "rustraft_log_retention_snapshot_trigger_present"@.len());
    assert("raft_storage_apply_fence_present"@.len() != "rustraft_leader_write_authority_present"@.len());
    assert("raft_storage_apply_fence_present"@.len() != "rustraft_operator_observability_present"@.len());
    assert("raft_storage_apply_fence_present"@.len() != "rustraft_rpc_transport_contract_present"@.len());
    assert("raft_storage_apply_fence_present"@.len() != "rustraft_log_retention_snapshot_trigger_present"@.len());
    assert("raft_storage_apply_fence_present"@.len() != "rustraft_apply_snapshot_fence_present"@.len());
    assert("rustraft_snapshot_floor_log_matching_present"@.len() != "rustraft_leader_write_authority_present"@.len());
    assert("rustraft_snapshot_floor_log_matching_present"@.len() != "rustraft_operator_observability_present"@.len());
    assert("rustraft_snapshot_floor_log_matching_present"@.len() != "rustraft_rpc_transport_contract_present"@.len());
    assert("rustraft_snapshot_floor_log_matching_present"@.len() != "rustraft_log_retention_snapshot_trigger_present"@.len());
    assert("rustraft_snapshot_floor_log_matching_present"@.len() != "rustraft_apply_snapshot_fence_present"@.len());
    assert("rustraft_snapshot_floor_log_matching_present"@.len() != "raft_storage_apply_fence_present"@.len());
    assert("rustraft_snapshot_tail_catchup_present"@.len() != "rustraft_leader_write_authority_present"@.len());
    assert("rustraft_snapshot_tail_catchup_present"@.len() != "rustraft_operator_observability_present"@.len());
    assert("rustraft_snapshot_tail_catchup_present"@.len() != "rustraft_rpc_transport_contract_present"@.len());
    assert("rustraft_snapshot_tail_catchup_present"@.len() != "rustraft_log_retention_snapshot_trigger_present"@.len());
    assert("rustraft_snapshot_tail_catchup_present"@.len() != "rustraft_apply_snapshot_fence_present"@.len());
    assert("rustraft_snapshot_tail_catchup_present"@.len() != "raft_storage_apply_fence_present"@.len());
    assert("rustraft_snapshot_tail_catchup_present"@.len() != "rustraft_snapshot_floor_log_matching_present"@.len());
    assert("rustraft_compacted_entry_rejection_present"@.len() != "rustraft_leader_write_authority_present"@.len());
    assert("rustraft_compacted_entry_rejection_present"@.len() != "rustraft_operator_observability_present"@.len());
    assert("rustraft_compacted_entry_rejection_present"@.len() != "rustraft_rpc_transport_contract_present"@.len());
    assert("rustraft_compacted_entry_rejection_present"@.len() != "rustraft_log_retention_snapshot_trigger_present"@.len());
    assert("rustraft_compacted_entry_rejection_present"@.len() != "rustraft_apply_snapshot_fence_present"@.len());
    assert("rustraft_compacted_entry_rejection_present"@.len() != "raft_storage_apply_fence_present"@.len());
    assert("rustraft_compacted_entry_rejection_present"@.len() != "rustraft_snapshot_floor_log_matching_present"@.len());
    assert("rustraft_compacted_entry_rejection_present"@.len() != "rustraft_snapshot_tail_catchup_present"@.len());
    assert("rustraft_metaserver_snapshot_floor_election_present"@.len() != "rustraft_leader_write_authority_present"@.len());
    assert("rustraft_metaserver_snapshot_floor_election_present"@.len() != "rustraft_operator_observability_present"@.len());
    assert("rustraft_metaserver_snapshot_floor_election_present"@.len() != "rustraft_rpc_transport_contract_present"@.len());
    assert("rustraft_metaserver_snapshot_floor_election_present"@.len() != "rustraft_log_retention_snapshot_trigger_present"@.len());
    assert("rustraft_metaserver_snapshot_floor_election_present"@.len() != "rustraft_apply_snapshot_fence_present"@.len());
    assert("rustraft_metaserver_snapshot_floor_election_present"@.len() != "raft_storage_apply_fence_present"@.len());
    assert("rustraft_metaserver_snapshot_floor_election_present"@.len() != "rustraft_snapshot_floor_log_matching_present"@.len());
    assert("rustraft_metaserver_snapshot_floor_election_present"@.len() != "rustraft_snapshot_tail_catchup_present"@.len());
    assert("rustraft_metaserver_snapshot_floor_election_present"@.len() != "rustraft_compacted_entry_rejection_present"@.len());
    assert("learner_catchup_promotion_present"@.len() != "rustraft_leader_write_authority_present"@.len());
    assert("learner_catchup_promotion_present"@.len() != "rustraft_operator_observability_present"@.len());
    assert("learner_catchup_promotion_present"@.len() != "rustraft_rpc_transport_contract_present"@.len());
    assert("learner_catchup_promotion_present"@.len() != "rustraft_log_retention_snapshot_trigger_present"@.len());
    assert("learner_catchup_promotion_present"@.len() != "rustraft_apply_snapshot_fence_present"@.len());
    assert("learner_catchup_promotion_present"@.len() != "raft_storage_apply_fence_present"@.len());
    assert("learner_catchup_promotion_present"@.len() != "rustraft_snapshot_floor_log_matching_present"@.len());
    assert("learner_catchup_promotion_present"@.len() != "rustraft_snapshot_tail_catchup_present"@.len());
    assert("learner_catchup_promotion_present"@.len() != "rustraft_compacted_entry_rejection_present"@.len());
    assert("learner_catchup_promotion_present"@.len() != "rustraft_metaserver_snapshot_floor_election_present"@.len());
    assert("metaserver_membership_workflow_present"@.len() != "rustraft_leader_write_authority_present"@.len());
    assert("metaserver_membership_workflow_present"@.len() != "rustraft_operator_observability_present"@.len());
    assert("metaserver_membership_workflow_present"@.len() != "rustraft_rpc_transport_contract_present"@.len());
    assert("metaserver_membership_workflow_present"@.len() != "rustraft_log_retention_snapshot_trigger_present"@.len());
    assert("metaserver_membership_workflow_present"@.len() != "rustraft_apply_snapshot_fence_present"@.len());
    assert("metaserver_membership_workflow_present"@.len() != "raft_storage_apply_fence_present"@.len());
    assert("metaserver_membership_workflow_present"@.len() != "rustraft_snapshot_floor_log_matching_present"@.len());
    assert("metaserver_membership_workflow_present"@[0] != "rustraft_snapshot_tail_catchup_present"@[0]);
    assert("metaserver_membership_workflow_present"@.len() != "rustraft_compacted_entry_rejection_present"@.len());
    assert("metaserver_membership_workflow_present"@.len() != "rustraft_metaserver_snapshot_floor_election_present"@.len());
    assert("metaserver_membership_workflow_present"@.len() != "learner_catchup_promotion_present"@.len());
}

} // verus!

verus! {

/// Each requirement of the parity contract is judged by its own readiness
/// field, in contract order: the requirement's check holds exactly when that
/// field is set, and a requirement whose field is unset is listed among the
/// missing ones (a set one among the satisfied ones).
pub proof fn law_requirements_judged_by_own_field(snapshot: RustRaftReadinessSnapshot)
    ensures
        requirement_checks(snapshot).len() == 12,
        requirement_checks(snapshot)[0].id == "leader_write_authority"@ && requirement_checks(snapshot)[0].present == snapshot.rustraft_leader_write_authority_present,
        requirement_checks(snapshot)[1].id == "operator_observability"@ && requirement_checks(snapshot)[1].present == snapshot.rustraft_operator_observability_present,
        requirement_checks(snapshot)[2].id == "rpc_transport_contract"@ && requirement_checks(snapshot)[2].present == snapshot.rustraft_rpc_transport_contract_present,
        requirement_checks(snapshot)[3].id == "snapshot_trigger"@ && requirement_checks(snapshot)[3].present == snapshot.rustraft_log_retention_snapshot_trigger_present,
        requirement_checks(snapshot)[4].id == "apply_snapshot_fence"@ && requirement_checks(snapshot)[4].present == snapshot.rustraft_apply_snapshot_fence_present,
        requirement_checks(snapshot)[5].id == "storage_apply_fence"@ && requirement_checks(snapshot)[5].present == snapshot.raft_storage_apply_fence_present,
        requirement_checks(snapshot)[6].id == "snapshot_floor_log_matching"@ && requirement_checks(snapshot)[6].present == snapshot.rustraft_snapshot_floor_log_matching_present,
        requirement_checks(snapshot)[7].id == "snapshot_tail_catchup"@ && requirement_checks(snapshot)[7].present == snapshot.rustraft_snapshot_tail_catchup_present,
        requirement_checks(snapshot)[8].id == "compacted_entry_rejection"@ && requirement_checks(snapshot)[8].present == snapshot.rustraft_compacted_entry_rejection_present,
        requirement_checks(snapshot)[9].id == "metaserver_snapshot_floor_election"@ && requirement_checks(snapshot)[9].present == snapshot.rustraft_metaserver_snapshot_floor_election_present,
        requirement_checks(snapshot)[10].id == "learner_catchup_promotion"@ && requirement_checks(snapshot)[10].present == snapshot.learner_catchup_promotion_present,
        requirement_checks(snapshot)[11].id == "metaserver_membership_workflow"@ && requirement_checks(snapshot)[11].present == snapshot.metaserver_membership_workflow_present,
        forall|k: int| 0 <= k < 12 ==> (#[trigger] requirement_checks(snapshot)[k]).present ==> present_ids(
            requirement_checks(snapshot),
        ).contains(requirement_checks(snapshot)[k].id),
        forall|k: int| 0 <= k < 12 ==> !(#[trigger] requirement_checks(snapshot)[k]).present ==> absent_ids(
            requirement_checks(snapshot),
        ).contains(requirement_checks(snapshot)[k].id),
{
    law_readiness_fields_read_by_name(snapshot);
    let cs = requirement_checks(snapshot);
    assert forall|k: int| 0 <= k < 12 implies ((#[trigger] cs[k]).present ==> present_ids(cs).contains(cs[k].id))
        && (!cs[k].present ==> absent_ids(cs).contains(cs[k].id)) by {
        lemma_check_listed(cs, k);
    }
}

} // verus!
