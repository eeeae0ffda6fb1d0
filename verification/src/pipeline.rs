//! The per-peer replication pipeline: a bounded append queue, an in-flight
//! window limited in entries and bytes, a reorder queue for appends that
//! arrive ahead of the next index, and the progress of a snapshot transfer.
use vstd::prelude::*;
use std::collections::{BTreeMap, VecDeque};
use crate::errors::{RustRaftError, invalid_request};
use crate::types::{
    EntryModel, RustRaftAppendEntriesResponse, RustRaftLogEntry, RustRaftLogId, RustRaftLogIndex, RustRaftNodeId,
};

verus! {

/// Counters and gauges of one peer's replication pipeline.
#[derive(Debug, Clone, Copy, PartialEq, Eq, Structural)]
pub struct RustRaftPeerPipelineStatus {
    pub peer_id: u64,
    pub match_index: u64,
    pub next_index: u64,
    pub append_requests: u64,
    pub append_accepted: u64,
    pub append_rejected: u64,
    pub inflight_entries: u64,
    pub inflight_bytes: u64,
    pub append_queue_depth: u64,
    pub append_queue_limit: u64,
    pub append_queue_max_depth: u64,
    pub inflight_bytes_limit: u64,
    pub apply_inflight_tasks: u64,
    pub apply_inflight_limit: u64,
    pub apply_queue_depth: u64,
    pub apply_queue_max_depth: u64,
    pub apply_batch_bytes_limit: u64,
    pub apply_backpressure_rejections: u64,
    pub memory_backpressure_rejections: u64,
    pub oversized_log_rejections: u64,
    pub reorder_queue_depth: u64,
    pub out_of_order_append_rejections: u64,
    pub reorder_entries_rejected: u64,
    pub reorder_entry_timeouts: u64,
    pub reorder_dropped_packages: u64,
    pub stale_term_rejections: u64,
    pub snapshot_sending: bool,
    pub snapshot_installing: bool,
    pub snapshot_installed_index: u64,
    pub snapshot_send_attempts: u64,
    pub snapshot_install_total_chunks: u64,
    pub snapshot_install_progress_per_mille: u64,
    pub snapshot_backpressure_rejections: u64,
    pub snapshot_rate_limit_rejections: u64,
    pub snapshot_install_rolled_back: u64,
    pub snapshot_chunk_retry_count: u64,
    pub snapshot_send_timeouts: u64,
    pub snapshot_during_membership_change: bool,
    pub snapshot_rejoin_after_compacted_log: bool,
    pub transfer_leader_target: bool,
    pub transfer_leader_timeouts: u64,
    pub pre_vote_rejections: u64,
    pub election_rejections: u64,
    pub offline_timeout_reached: bool,
    pub offline_timeout_rejections: u64,
}

pub type RaftPeerPipelineState = RustRaftPeerPipelineStatus;

/// Limits of a replication pipeline.
#[derive(Debug, Clone, Copy, PartialEq, Eq, Structural)]
pub struct RustRaftPipelineLimits {
    pub max_inflights_replicate: u64,
    pub max_memory_replicate_log_bytes: u64,
    pub max_inflights_apply_task: u64,
    pub max_apply_batch_bytes: u64,
    pub enable_reorder_queue: bool,
    pub reorder_window_size: u64,
    pub reorder_timeout_us: u64,
}

impl RustRaftPipelineLimits {
    /// The production limits: 256 in-flight appends, 64 MiB of replicated
    /// bytes, 1024 apply tasks, 8 MiB apply batches, and a reorder queue of
    /// 1024 entries with a 5 s timeout.
    pub open spec fn spec_production_default() -> Self {
        RustRaftPipelineLimits {
            max_inflights_replicate: 256,
            max_memory_replicate_log_bytes: 67108864,
            max_inflights_apply_task: 1024,
            max_apply_batch_bytes: 8388608,
            enable_reorder_queue: true,
            reorder_window_size: 1024,
            reorder_timeout_us: 5000000,
        }
    }

    pub fn production_default() -> (r: Self)
        ensures
            r == Self::spec_production_default(),
    {
        RustRaftPipelineLimits {
            max_inflights_replicate: 256,
            max_memory_replicate_log_bytes: 64 * 1024 * 1024,
            max_inflights_apply_task: 1024,
            max_apply_batch_bytes: 8 * 1024 * 1024,
            enable_reorder_queue: true,
            reorder_window_size: 1024,
            reorder_timeout_us: 5_000_000,
        }
    }
}

impl Default for RustRaftPipelineLimits {
    fn default() -> (r: Self)
        ensures
            r == Self::spec_production_default(),
    {
        Self::production_default()
    }
}

impl RustRaftPeerPipelineStatus {
    /// The status of a fresh pipeline: everything zero or false but the
    /// indexes and the limits.
    pub open spec fn initial(peer_id: u64, next_index: u64, limits: RustRaftPipelineLimits) -> Self {
        RustRaftPeerPipelineStatus {
            peer_id,
            match_index: if next_index == 0 { 0 } else { (next_index - 1) as u64 },
            next_index,
            append_requests: 0,
            append_accepted: 0,
            append_rejected: 0,
            inflight_entries: 0,
            inflight_bytes: 0,
            append_queue_depth: 0,
            append_queue_limit: limits.max_inflights_replicate,
            append_queue_max_depth: 0,
            inflight_bytes_limit: limits.max_memory_replicate_log_bytes,
            apply_inflight_tasks: 0,
            apply_inflight_limit: limits.max_inflights_apply_task,
            apply_queue_depth: 0,
            apply_queue_max_depth: 0,
            apply_batch_bytes_limit: limits.max_apply_batch_bytes,
            apply_backpressure_rejections: 0,
            memory_backpressure_rejections: 0,
            oversized_log_rejections: 0,
            reorder_queue_depth: 0,
            out_of_order_append_rejections: 0,
            reorder_entries_rejected: 0,
            reorder_entry_timeouts: 0,
            reorder_dropped_packages: 0,
            stale_term_rejections: 0,
            snapshot_sending: false,
            snapshot_installing: false,
            snapshot_installed_index: 0,
            snapshot_send_attempts: 0,
            snapshot_install_total_chunks: 0,
            snapshot_install_progress_per_mille: 0,
            snapshot_backpressure_rejections: 0,
            snapshot_rate_limit_rejections: 0,
            snapshot_install_rolled_back: 0,
            snapshot_chunk_retry_count: 0,
            snapshot_send_timeouts: 0,
            snapshot_during_membership_change: false,
            snapshot_rejoin_after_compacted_log: false,
            transfer_leader_target: false,
            transfer_leader_timeouts: 0,
            pre_vote_rejections: 0,
            election_rejections: 0,
            offline_timeout_reached: false,
            offline_timeout_rejections: 0,
        }
    }

    pub fn new(peer_id: RustRaftNodeId, next_index: RustRaftLogIndex, limits: RustRaftPipelineLimits) -> (r: Self)
        ensures
            r == Self::initial(peer_id, next_index, limits),
    {
        RustRaftPeerPipelineStatus {
            peer_id,
            match_index: next_index.saturating_sub(1),
            next_index,
            append_requests: 0,
            append_accepted: 0,
            append_rejected: 0,
            inflight_entries: 0,
            inflight_bytes: 0,
            append_queue_depth: 0,
            append_queue_limit: limits.max_inflights_replicate,
            append_queue_max_depth: 0,
            inflight_bytes_limit: limits.max_memory_replicate_log_bytes,
            apply_inflight_tasks: 0,
            apply_inflight_limit: limits.max_inflights_apply_task,
            apply_queue_depth: 0,
            apply_queue_max_depth: 0,
            apply_batch_bytes_limit: limits.max_apply_batch_bytes,
            apply_backpressure_rejections: 0,
            memory_backpressure_rejections: 0,
            oversized_log_rejections: 0,
            reorder_queue_depth: 0,
            out_of_order_append_rejections: 0,
            reorder_entries_rejected: 0,
            reorder_entry_timeouts: 0,
            reorder_dropped_packages: 0,
            stale_term_rejections: 0,
            snapshot_sending: false,
            snapshot_installing: false,
            snapshot_installed_index: 0,
            snapshot_send_attempts: 0,
            snapshot_install_total_chunks: 0,
            snapshot_install_progress_per_mille: 0,
            snapshot_backpressure_rejections: 0,
            snapshot_rate_limit_rejections: 0,
            snapshot_install_rolled_back: 0,
            snapshot_chunk_retry_count: 0,
            snapshot_send_timeouts: 0,
            snapshot_during_membership_change: false,
            snapshot_rejoin_after_compacted_log: false,
            transfer_leader_target: false,
            transfer_leader_timeouts: 0,
            pre_vote_rejections: 0,
            election_rejections: 0,
            offline_timeout_reached: false,
            offline_timeout_rejections: 0,
        }
    }
}

/// A batch of entries sent to a peer and not yet acknowledged.
#[derive(Debug, Clone, Copy, PartialEq, Eq, Structural)]
pub struct RaftInflightAppend {
    pub first_log_id: RustRaftLogId,
    pub last_log_id: RustRaftLogId,
    pub entry_count: u64,
    pub bytes: u64,
}

/// Progress of a snapshot being sent to or installed from a peer.
#[derive(Debug, Clone, PartialEq, Eq)]
pub struct RaftSnapshotTransferState {
    pub snapshot_id: String,
    pub snapshot_index: RustRaftLogIndex,
    pub total_chunks: u64,
    pub acknowledged_chunks: u64,
    pub bytes_sent: u64,
    pub bytes_received: u64,
}

/// A snapshot transfer as plain values.
pub struct TransferModel {
    pub snapshot_id: Seq<char>,
    pub snapshot_index: u64,
    pub total_chunks: u64,
    pub acknowledged_chunks: u64,
    pub bytes_sent: u64,
    pub bytes_received: u64,
}

impl RaftSnapshotTransferState {
    pub open spec fn model(self) -> TransferModel {
        TransferModel {
            snapshot_id: self.snapshot_id@,
            snapshot_index: self.snapshot_index,
            total_chunks: self.total_chunks,
            acknowledged_chunks: self.acknowledged_chunks,
            bytes_sent: self.bytes_sent,
            bytes_received: self.bytes_received,
        }
    }
}

/// The state of a pipeline as plain values.
pub struct PipelineModel {
    pub peer_id: u64,
    pub limits: RustRaftPipelineLimits,
    pub status: RustRaftPeerPipelineStatus,
    pub append_queue: Seq<EntryModel>,
    pub inflight: Seq<RaftInflightAppend>,
    pub reorder: Map<u64, EntryModel>,
    pub transfer: Option<TransferModel>,
}

/// The payload bytes of a sequence of entries.
pub open spec fn payload_bytes(q: Seq<EntryModel>) -> int
    decreases q.len(),
{
    if q.len() == 0 {
        0
    } else {
        payload_bytes(q.drop_last()) + q.last().payload.len()
    }
}

/// The entries counted by a sequence of in-flight batches.
pub open spec fn inflight_entries_total(q: Seq<RaftInflightAppend>) -> int
    decreases q.len(),
{
    if q.len() == 0 {
        0
    } else {
        inflight_entries_total(q.drop_last()) + q.last().entry_count
    }
}

/// The bytes counted by a sequence of in-flight batches.
pub open spec fn inflight_bytes_total(q: Seq<RaftInflightAppend>) -> int
    decreases q.len(),
{
    if q.len() == 0 {
        0
    } else {
        inflight_bytes_total(q.drop_last()) + q.last().bytes
    }
}

impl PipelineModel {
    /// What every operation keeps: the status mirrors the limits and the
    /// queues, the replicated bytes stay within the memory limit, the reorder
    /// queue maps each index to the entry of that index, and a transfer is
    /// active exactly while the peer is sending or installing, never both.
    pub open spec fn wf(self) -> bool {
        &&& self.status.peer_id == self.peer_id
        &&& self.status.append_queue_limit == self.limits.max_inflights_replicate
        &&& self.status.inflight_bytes_limit == self.limits.max_memory_replicate_log_bytes
        &&& self.status.apply_inflight_limit == self.limits.max_inflights_apply_task
        &&& self.status.apply_batch_bytes_limit == self.limits.max_apply_batch_bytes
        &&& self.status.append_queue_depth == self.append_queue.len()
        &&& self.status.reorder_queue_depth == self.reorder.len()
        &&& self.reorder.dom().finite()
        &&& self.status.inflight_entries == inflight_entries_total(self.inflight)
        &&& self.status.inflight_entries <= self.limits.max_inflights_replicate
        &&& self.status.inflight_bytes == inflight_bytes_total(self.inflight)
        &&& self.status.inflight_bytes + payload_bytes(self.append_queue)
            <= self.limits.max_memory_replicate_log_bytes
        &&& forall|k: u64| #[trigger] self.reorder.contains_key(k) ==> self.reorder[k].log_id.index == k && k
            < u64::MAX
        &&& self.status.match_index < u64::MAX
        &&& (self.transfer is Some <==> (self.status.snapshot_sending || self.status.snapshot_installing))
        &&& !(self.status.snapshot_sending && self.status.snapshot_installing)
    }
}

/// Whatever operations ran, the in-flight window holds at most
/// `max_inflights_replicate` entries, and the in-flight and queued payload
/// bytes together stay within `max_memory_replicate_log_bytes`.
pub proof fn law_pipeline_within_limits(m: PipelineModel)
    requires
        m.wf(),
    ensures
        m.status.inflight_entries <= m.limits.max_inflights_replicate,
        m.status.inflight_bytes + payload_bytes(m.append_queue) <= m.limits.max_memory_replicate_log_bytes,
{
}

/// How the pipeline answers an entry offered to its append queue.
pub enum AppendAdmission {
    /// The entry is larger than one apply batch.
    Oversized,
    /// The append queue is at its limit.
    QueueFull,
    /// The entry would exceed the replicated-bytes limit.
    MemoryFull,
    /// The entry is queued.
    Queued,
}

impl PipelineModel {
    /// The answer to an entry offered to the append queue; the checks come
    /// in this order.
    pub open spec fn append_admission(self, entry: EntryModel) -> AppendAdmission {
        let bytes = entry.payload.len();
        if bytes > self.limits.max_apply_batch_bytes {
            AppendAdmission::Oversized
        } else if self.append_queue.len() >= self.status.append_queue_limit {
            AppendAdmission::QueueFull
        } else if self.status.inflight_bytes + payload_bytes(self.append_queue) + bytes
            > self.limits.max_memory_replicate_log_bytes {
            AppendAdmission::MemoryFull
        } else {
            AppendAdmission::Queued
        }
    }

    /// A fresh pipeline for `peer_id` expecting `next_index` next.
    pub open spec fn fresh(peer_id: u64, next_index: u64, limits: RustRaftPipelineLimits) -> Self {
        PipelineModel {
            peer_id,
            limits,
            status: RustRaftPeerPipelineStatus::initial(peer_id, next_index, limits),
            append_queue: seq![],
            inflight: seq![],
            reorder: Map::empty(),
            transfer: None,
        }
    }

    /// The same pipeline with another status.
    pub open spec fn with_status(self, status: RustRaftPeerPipelineStatus) -> Self {
        PipelineModel { status, ..self }
    }
}

/// Payload bytes of a prefix never exceed those of the whole sequence.
pub proof fn lemma_payload_bytes_prefix(q: Seq<EntryModel>, i: int)
    requires
        0 <= i <= q.len(),
    ensures
        0 <= payload_bytes(q.subrange(0, i)) <= payload_bytes(q),
    decreases q.len(),
{
    if q.len() > 0 {
        if i == q.len() {
            assert(q.subrange(0, i) =~= q);
            lemma_payload_bytes_prefix(q.drop_last(), i - 1);
            assert(q.drop_last().subrange(0, i - 1) =~= q.drop_last());
        } else {
            lemma_payload_bytes_prefix(q.drop_last(), i);
            assert(q.drop_last().subrange(0, i) =~= q.subrange(0, i));
        }
    }
}

/// How many entries of the queue one flush takes, given the in-flight entry
/// count and bytes before it: it stops at the in-flight entry limit, at the
/// end of the queue, or before the first entry that would exceed the
/// replicated-bytes limit.
pub open spec fn flush_count(q: Seq<EntryModel>, entries: int, bytes: int, max_entries: int, max_bytes: int) -> nat
    decreases q.len(),
{
    if entries >= max_entries || q.len() == 0 {
        0
    } else if bytes + q[0].payload.len() > max_bytes {
        0
    } else {
        1 + flush_count(q.drop_first(), entries + 1, bytes + q[0].payload.len(), max_entries, max_bytes)
    }
}

proof fn lemma_flush_count_longest(q: Seq<EntryModel>, entries: int, bytes: int, max_entries: int, max_bytes: int)
    requires
        entries <= max_entries,
        bytes <= max_bytes,
    ensures
        ({
            let k = flush_count(q, entries, bytes, max_entries, max_bytes) as int;
            &&& k <= q.len()
            &&& entries + k <= max_entries
            &&& bytes + payload_bytes(q.take(k)) <= max_bytes
            &&& k < q.len() ==> (entries + k >= max_entries || bytes + payload_bytes(q.take(k)) + q[k].payload.len()
                > max_bytes)
        }),
    decreases q.len(),
{
    let k = flush_count(q, entries, bytes, max_entries, max_bytes) as int;
    if entries >= max_entries || q.len() == 0 || bytes + q[0].payload.len() > max_bytes {
        assert(q.take(0) =~= Seq::<EntryModel>::empty());
    } else {
        let rest = q.drop_first();
        lemma_flush_count_longest(rest, entries + 1, bytes + q[0].payload.len(), max_entries, max_bytes);
        let k1 = k - 1;
        assert(q.take(k).len() > 0);
        lemma_payload_bytes_first(q.take(k));
        assert(q.take(k).drop_first() =~= rest.take(k1));
        assert(q.take(k)[0] == q[0]);
        if k < q.len() {
            assert(rest[k1] == q[k]);
        }
    }
}

/// Whether one flush stops before an entry that would exceed the
/// replicated-bytes limit.
pub open spec fn flush_blocked(q: Seq<EntryModel>, entries: int, bytes: int, max_entries: int, max_bytes: int) -> bool
    decreases q.len(),
{
    if entries >= max_entries || q.len() == 0 {
        false
    } else if bytes + q[0].payload.len() > max_bytes {
        true
    } else {
        flush_blocked(q.drop_first(), entries + 1, bytes + q[0].payload.len(), max_entries, max_bytes)
    }
}

/// The in-flight record of one entry sent on its own.
pub open spec fn inflight_of(e: EntryModel) -> RaftInflightAppend {
    RaftInflightAppend { first_log_id: e.log_id, last_log_id: e.log_id, entry_count: 1, bytes: e.payload.len() as u64 }
}

impl PipelineModel {
    /// How many queued entries a flush sends now.
    pub open spec fn flush_size(self) -> nat {
        flush_count(
            self.append_queue,
            self.status.inflight_entries as int,
            self.status.inflight_bytes as int,
            self.limits.max_inflights_replicate as int,
            self.limits.max_memory_replicate_log_bytes as int,
        )
    }

    /// Whether a flush now stops at the replicated-bytes limit.
    pub open spec fn flush_stops_on_memory(self) -> bool {
        flush_blocked(
            self.append_queue,
            self.status.inflight_entries as int,
            self.status.inflight_bytes as int,
            self.limits.max_inflights_replicate as int,
            self.limits.max_memory_replicate_log_bytes as int,
        )
    }
}

/// Payload bytes are never negative.
pub proof fn lemma_payload_bytes_nonneg(q: Seq<EntryModel>)
    ensures
        0 <= payload_bytes(q),
    decreases q.len(),
{
    if q.len() > 0 {
        lemma_payload_bytes_nonneg(q.drop_last());
    }
}

/// The payload bytes of a sequence are those of its first entry plus the rest.
pub proof fn lemma_payload_bytes_first(q: Seq<EntryModel>)
    requires
        q.len() > 0,
    ensures
        payload_bytes(q) == q[0].payload.len() + payload_bytes(q.drop_first()),
    decreases q.len(),
{
    if q.len() > 1 {
        lemma_payload_bytes_first(q.drop_last());
        assert(q.drop_last().drop_first() =~= q.drop_first().drop_last());
    } else {
        assert(q.drop_first() =~= Seq::<EntryModel>::empty());
        assert(q.drop_last() =~= Seq::<EntryModel>::empty());
    }
}

/// How many leading in-flight batches end at or below `match_index`.
pub open spec fn release_count(q: Seq<RaftInflightAppend>, match_index: u64) -> nat
    decreases q.len(),
{
    if q.len() > 0 && q[0].last_log_id.index <= match_index {
        1 + release_count(q.drop_first(), match_index)
    } else {
        0
    }
}

/// `to` is the first index from `from` on that `before` does not hold, and
/// `after` is `before` without the indexes from `from` up to `to`.
pub open spec fn drained(before: Map<u64, EntryModel>, from: u64, after: Map<u64, EntryModel>, to: u64) -> bool {
    &&& from <= to
    &&& forall|x: u64| from <= x < to ==> #[trigger] before.contains_key(x)
    &&& !before.contains_key(to)
    &&& after == before.remove_keys(Set::new(|x: u64| from <= x < to))
}

/// A release never drops more batches than there are.
pub proof fn lemma_release_count_le(q: Seq<RaftInflightAppend>, match_index: u64)
    ensures
        release_count(q, match_index) <= q.len(),
    decreases q.len(),
{
    if q.len() > 0 {
        lemma_release_count_le(q.drop_first(), match_index);
    }
}

/// Dropping leading in-flight batches never raises the totals.
pub proof fn lemma_inflight_bytes_skip(q: Seq<RaftInflightAppend>, k: int)
    requires
        0 <= k <= q.len(),
    ensures
        0 <= inflight_bytes_total(q.skip(k)) <= inflight_bytes_total(q),
        0 <= inflight_entries_total(q.skip(k)) <= inflight_entries_total(q),
    decreases k,
{
    if k == 0 {
        assert(q.skip(0) =~= q);
        lemma_inflight_bytes_nonneg(q);
    } else {
        lemma_inflight_totals_first(q);
        lemma_inflight_bytes_skip(q.drop_first(), k - 1);
        assert(q.drop_first().skip(k - 1) =~= q.skip(k));
    }
}

/// In-flight totals are never negative.
pub proof fn lemma_inflight_bytes_nonneg(q: Seq<RaftInflightAppend>)
    ensures
        0 <= inflight_bytes_total(q),
        0 <= inflight_entries_total(q),
    decreases q.len(),
{
    if q.len() > 0 {
        lemma_inflight_bytes_nonneg(q.drop_last());
    }
}

/// Viewing the entries of a map keeps its keys.
pub proof fn lemma_entry_models_dom(m: Map<u64, RustRaftLogEntry>)
    ensures
        m.map_values(|e: RustRaftLogEntry| e.model()).dom() == m.dom(),
{
    assert(m.map_values(|e: RustRaftLogEntry| e.model()).dom() =~= m.dom());
}

/// The in-flight totals split into the first batch and the rest.
pub proof fn lemma_inflight_totals_first(q: Seq<RaftInflightAppend>)
    requires
        q.len() > 0,
    ensures
        inflight_entries_total(q) == q[0].entry_count + inflight_entries_total(q.drop_first()),
        inflight_bytes_total(q) == q[0].bytes + inflight_bytes_total(q.drop_first()),
        inflight_entries_total(q.drop_first()) >= 0,
        inflight_bytes_total(q.drop_first()) >= 0,
    decreases q.len(),
{
    if q.len() > 1 {
        lemma_inflight_totals_first(q.drop_last());
        assert(q.drop_last().drop_first() =~= q.drop_first().drop_last());
    } else {
        assert(q.drop_first() =~= Seq::<RaftInflightAppend>::empty());
        assert(q.drop_last() =~= Seq::<RaftInflightAppend>::empty());
    }
}

/// How the pipeline answers an entry that may arrive ahead of the next index.
pub enum OutOfOrderAdmission {
    /// The entry is below the next index.
    BelowNext,
    /// The entry is the next one.
    Next,
    /// The entry is ahead and the reorder queue is disabled.
    Disabled,
    /// The entry is ahead and the reorder queue is full.
    WindowFull,
    /// The entry is ahead and waits in the reorder queue.
    Queued,
}

impl PipelineModel {
    /// The answer to an entry received out of order; the checks come in this order.
    pub open spec fn out_of_order_admission(self, entry: EntryModel) -> OutOfOrderAdmission {
        let index = entry.log_id.index;
        if index < self.status.next_index {
            OutOfOrderAdmission::BelowNext
        } else if index == self.status.next_index {
            OutOfOrderAdmission::Next
        } else if !self.limits.enable_reorder_queue {
            OutOfOrderAdmission::Disabled
        } else if self.reorder.len() >= self.limits.reorder_window_size {
            OutOfOrderAdmission::WindowFull
        } else {
            OutOfOrderAdmission::Queued
        }
    }
}

/// An entry offered to the append queue is queued exactly when it fits one
/// apply batch, the queue is below its limit, and the bytes in flight, the
/// bytes queued and the entry's bytes together stay within the
/// replicated-bytes limit. Otherwise the first check it fails, in that
/// order, names the refusal.
pub proof fn law_append_admission(p: PipelineModel, entry: EntryModel)
    ensures
        (p.append_admission(entry) is Queued) <==> (entry.payload.len() <= p.limits.max_apply_batch_bytes
            && p.append_queue.len() < p.status.append_queue_limit && p.status.inflight_bytes + payload_bytes(
            p.append_queue,
        ) + entry.payload.len() <= p.limits.max_memory_replicate_log_bytes),
        (p.append_admission(entry) is Oversized) <==> entry.payload.len() > p.limits.max_apply_batch_bytes,
        (p.append_admission(entry) is QueueFull) <==> (entry.payload.len() <= p.limits.max_apply_batch_bytes
            && p.append_queue.len() >= p.status.append_queue_limit),
{
}

/// An entry received out of order is handled by its index: one below the
/// next expected index is refused as stale, the next one is accepted in
/// place, and one further ahead waits in the reorder queue exactly when the
/// queue is enabled and below its window.
pub proof fn law_out_of_order_admission(p: PipelineModel, entry: EntryModel)
    ensures
        (p.out_of_order_admission(entry) is BelowNext) <==> entry.log_id.index < p.status.next_index,
        (p.out_of_order_admission(entry) is Next) <==> entry.log_id.index == p.status.next_index,
        (p.out_of_order_admission(entry) is Queued) <==> (entry.log_id.index > p.status.next_index
            && p.limits.enable_reorder_queue && p.reorder.len() < p.limits.reorder_window_size),
        (p.out_of_order_admission(entry) is Disabled) <==> (entry.log_id.index > p.status.next_index
            && !p.limits.enable_reorder_queue),
{
}

/// Snapshot progress in thousandths: complete when there are no chunks,
/// else the acknowledged share of the chunks, at most complete.
pub open spec fn progress_per_mille(acknowledged: u64, total: u64) -> u64 {
    if total == 0 {
        1000
    } else if acknowledged * 1000 / (total as int) >= 1000 {
        1000
    } else {
        (acknowledged * 1000 / (total as int)) as u64
    }
}

fn compute_progress(acknowledged: u64, total: u64) -> (r: u64)
    requires
        total != 0 ==> acknowledged * 1000 <= u64::MAX,
    ensures
        r == progress_per_mille(acknowledged, total),
{
    if total == 0 {
        1000
    } else {
        let p = acknowledged * 1000 / total;
        if p >= 1000 {
            1000
        } else {
            p
        }
    }
}

impl PipelineModel {
    /// The pipeline once the transfer `t` is complete: no transfer, neither
    /// sending nor installing, the installed index and the match index raised
    /// to the snapshot's index, progress complete.
    pub open spec fn finished(self, t: TransferModel) -> Self {
        let s = self.status;
        let m = if s.match_index >= t.snapshot_index { s.match_index } else { t.snapshot_index };
        PipelineModel {
            transfer: None,
            status: RustRaftPeerPipelineStatus {
                snapshot_sending: false,
                snapshot_installing: false,
                snapshot_installed_index: if s.snapshot_installed_index >= t.snapshot_index {
                    s.snapshot_installed_index
                } else {
                    t.snapshot_index
                },
                snapshot_install_progress_per_mille: 1000,
                match_index: m,
                next_index: (m + 1) as u64,
                ..s
            },
            ..self
        }
    }

    /// The transfer that a begin call starts.
    pub open spec fn new_transfer(snapshot_id: Seq<char>, snapshot_index: u64, total_chunks: u64) -> TransferModel {
        TransferModel {
            snapshot_id,
            snapshot_index,
            total_chunks,
            acknowledged_chunks: 0,
            bytes_sent: 0,
            bytes_received: 0,
        }
    }
}

/// What `queue_append` does.
pub open spec fn queue_append_post(o: PipelineModel, entry: RustRaftLogEntry, n: PipelineModel, r: Result<(), RustRaftError>) -> bool {
        ({
            let s = o.status;
            match o.append_admission(entry.model()) {
                AppendAdmission::Oversized => {
                    &&& r matches Err(RustRaftError::InvalidRequest(m))
                        && m@ == "append entry exceeds max apply batch bytes"@
                    &&& n == o.with_status(
                        RustRaftPeerPipelineStatus {
                            oversized_log_rejections: (s.oversized_log_rejections + 1) as u64,
                            ..s
                        },
                    )
                },
                AppendAdmission::QueueFull => {
                    &&& r matches Err(RustRaftError::InvalidRequest(m))
                        && m@ == "append queue backpressure limit reached"@
                    &&& n == o.with_status(
                        RustRaftPeerPipelineStatus {
                            apply_backpressure_rejections: (s.apply_backpressure_rejections + 1) as u64,
                            ..s
                        },
                    )
                },
                AppendAdmission::MemoryFull => {
                    &&& r matches Err(RustRaftError::InvalidRequest(m))
                        && m@ == "replication memory backpressure limit reached"@
                    &&& n == o.with_status(
                        RustRaftPeerPipelineStatus {
                            memory_backpressure_rejections: (s.memory_backpressure_rejections + 1) as u64,
                            ..s
                        },
                    )
                },
                AppendAdmission::Queued => {
                    let depth = (o.append_queue.len() + 1) as u64;
                    &&& r is Ok
                    &&& n == PipelineModel {
                        append_queue: o.append_queue.push(entry.model()),
                        status: RustRaftPeerPipelineStatus {
                            append_queue_depth: depth,
                            append_queue_max_depth: if s.append_queue_max_depth >= depth {
                                s.append_queue_max_depth
                            } else {
                                depth
                            },
                            ..s
                        },
                        ..o
                    }
                },
            }
        })
}

/// A flush sends the longest prefix of the append queue that fits the
/// window: with the pipeline within its limits, the entries it sends keep
/// the in-flight count within `max_inflights_replicate` and the in-flight
/// bytes within `max_memory_replicate_log_bytes`, and when it leaves
/// entries queued, the next one would break one of the two limits.
pub proof fn law_flush_takes_longest_prefix(p: PipelineModel)
    requires
        p.status.inflight_entries <= p.limits.max_inflights_replicate,
        p.status.inflight_bytes <= p.limits.max_memory_replicate_log_bytes,
    ensures
        ({
            let k = p.flush_size() as int;
            let sent = p.append_queue.take(k);
            &&& k <= p.append_queue.len()
            &&& p.status.inflight_entries + k <= p.limits.max_inflights_replicate
            &&& p.status.inflight_bytes + payload_bytes(sent) <= p.limits.max_memory_replicate_log_bytes
            &&& k < p.append_queue.len() ==> (p.status.inflight_entries + k >= p.limits.max_inflights_replicate
                || p.status.inflight_bytes + payload_bytes(sent) + p.append_queue[k].payload.len()
                > p.limits.max_memory_replicate_log_bytes)
        }),
{
    lemma_flush_count_longest(
        p.append_queue,
        p.status.inflight_entries as int,
        p.status.inflight_bytes as int,
        p.limits.max_inflights_replicate as int,
        p.limits.max_memory_replicate_log_bytes as int,
    );
}

/// What `flush_append_window` does.
pub open spec fn flush_post(o: PipelineModel, n: PipelineModel, r: Vec<RaftInflightAppend>) -> bool {
        ({
            let o = o;
            let s = o.status;
            let k = o.flush_size() as int;
            let sent = o.append_queue.take(k);
            let flushed = sent.map_values(|e: EntryModel| inflight_of(e));
            &&& r@ == flushed
            &&& n == PipelineModel {
                append_queue: o.append_queue.skip(k),
                inflight: o.inflight + flushed,
                status: RustRaftPeerPipelineStatus {
                    append_requests: (s.append_requests + k) as u64,
                    inflight_entries: (s.inflight_entries + k) as u64,
                    inflight_bytes: (s.inflight_bytes + payload_bytes(sent)) as u64,
                    append_queue_depth: (o.append_queue.len() - k) as u64,
                    memory_backpressure_rejections: if o.flush_stops_on_memory() {
                        (s.memory_backpressure_rejections + 1) as u64
                    } else {
                        s.memory_backpressure_rejections
                    },
                    ..s
                },
                ..o
            }
        })
}

/// What `handle_append_response` does.
pub open spec fn append_response_post(o: PipelineModel, response: RustRaftAppendEntriesResponse, n: PipelineModel, r: Result<(), RustRaftError>) -> bool {
        ({
            let o = o;
            let n = n;
            let s = o.status;
            let stale = if response.term == 0 {
                (s.stale_term_rejections + 1) as u64
            } else {
                s.stale_term_rejections
            };
            if response.success {
                let m1 = if s.match_index >= response.match_index {
                    s.match_index
                } else {
                    response.match_index
                };
                let next0 = (m1 + 1) as u64;
                let inflight = o.inflight.skip(release_count(o.inflight, response.match_index) as int);
                &&& r is Ok
                &&& drained(o.reorder, next0, n.reorder, n.status.next_index)
                &&& n == PipelineModel {
                    inflight,
                    reorder: n.reorder,
                    status: RustRaftPeerPipelineStatus {
                        stale_term_rejections: stale,
                        append_accepted: (s.append_accepted + 1) as u64,
                        match_index: if n.status.next_index > next0 {
                            (n.status.next_index - 1) as u64
                        } else {
                            m1
                        },
                        next_index: n.status.next_index,
                        inflight_entries: inflight_entries_total(inflight) as u64,
                        inflight_bytes: inflight_bytes_total(inflight) as u64,
                        reorder_queue_depth: n.reorder.len() as u64,
                        ..s
                    },
                    ..o
                }
            } else {
                &&& r matches Err(RustRaftError::InvalidRequest(m)) && m@ == "append rejected by peer pipeline"@
                &&& n == o.with_status(
                    RustRaftPeerPipelineStatus {
                        stale_term_rejections: stale,
                        append_rejected: (s.append_rejected + 1) as u64,
                        next_index: match response.rejection_hint {
                            Some(h) => if h == u64::MAX { h } else { (h + 1) as u64 },
                            None => (s.match_index + 1) as u64,
                        },
                        ..s
                    },
                )
            }
        })
}

proof fn lemma_release_count_stops(q: Seq<RaftInflightAppend>, match_index: u64)
    ensures
        forall|i: int| 0 <= i < release_count(q, match_index) ==> (#[trigger] q[i]).last_log_id.index <= match_index,
        release_count(q, match_index) < q.len() ==> q[release_count(q, match_index) as int].last_log_id.index
            > match_index,
    decreases q.len(),
{
    lemma_release_count_le(q, match_index);
    if q.len() > 0 && q[0].last_log_id.index <= match_index {
        lemma_release_count_stops(q.drop_first(), match_index);
        lemma_release_count_le(q.drop_first(), match_index);
        assert forall|i: int| 0 <= i < release_count(q, match_index) implies (#[trigger] q[i]).last_log_id.index
            <= match_index by {
            if i > 0 {
                assert(q[i] == q.drop_first()[i - 1]);
            }
        }
        if release_count(q, match_index) < q.len() {
            assert(q[release_count(q, match_index) as int] == q.drop_first()[release_count(q.drop_first(), match_index) as int]);
        }
    }
}

/// How a pipeline answers a peer's append response. An accepted one counts
/// as accepted; the match index becomes at least the old one and the peer's,
/// moves on through the queued out-of-order entries that follow it, and the
/// next index is the one after it; the in-flight batches that end at or
/// before the peer's match index are released, in order, and no other. A
/// rejected one is refused, counts as rejected, keeps the match index and
/// retries after the peer's hint (or after the match index). Either way a
/// response of term zero counts as a stale term.
pub proof fn law_append_response_outcome(
    o: PipelineModel,
    response: RustRaftAppendEntriesResponse,
    n: PipelineModel,
    r: Result<(), RustRaftError>,
)
    requires
        o.wf(),
        append_response_pre(o, response),
        append_response_post(o, response, n, r),
    ensures
        n.status.stale_term_rejections == if response.term == 0 {
            o.status.stale_term_rejections + 1
        } else {
            o.status.stale_term_rejections as int
        },
        response.success ==> {
            &&& r is Ok
            &&& n.status.append_accepted == o.status.append_accepted + 1
            &&& n.status.match_index >= o.status.match_index
            &&& n.status.match_index >= response.match_index
            &&& n.status.next_index == n.status.match_index + 1
            &&& forall|x: u64|
                (if o.status.match_index >= response.match_index { o.status.match_index } else { response.match_index })
                    < x <= n.status.match_index ==> #[trigger] o.reorder.contains_key(x)
            &&& n.inflight == o.inflight.skip(release_count(o.inflight, response.match_index) as int)
            &&& forall|i: int|
                0 <= i < release_count(o.inflight, response.match_index) ==> (#[trigger] o.inflight[i]).last_log_id.index
                    <= response.match_index
            &&& n.inflight.len() > 0 ==> n.inflight[0].last_log_id.index > response.match_index
        },
        !response.success ==> {
            &&& r is Err
            &&& n.status.append_rejected == o.status.append_rejected + 1
            &&& n.status.match_index == o.status.match_index
            &&& n.status.next_index == match response.rejection_hint {
                Some(h) => if h == u64::MAX { h as int } else { h + 1 },
                None => o.status.match_index + 1,
            }
        },
{
    lemma_release_count_stops(o.inflight, response.match_index);
    lemma_release_count_le(o.inflight, response.match_index);
    if response.success {
        let k = release_count(o.inflight, response.match_index) as int;
        if n.inflight.len() > 0 {
            assert(n.inflight[0] == o.inflight[k]);
        }
    }
}

/// What `receive_out_of_order` does.
pub open spec fn out_of_order_post(o: PipelineModel, entry: RustRaftLogEntry, n: PipelineModel, r: Result<(), RustRaftError>) -> bool {
        ({
            let o = o;
            let n = n;
            let s = o.status;
            let index = entry.log_id.index;
            match o.out_of_order_admission(entry.model()) {
                OutOfOrderAdmission::BelowNext => {
                    &&& r matches Err(RustRaftError::InvalidRequest(m)) && m@ == "append is below peer next index"@
                    &&& n == o.with_status(
                        RustRaftPeerPipelineStatus {
                            out_of_order_append_rejections: (s.out_of_order_append_rejections + 1) as u64,
                            ..s
                        },
                    )
                },
                OutOfOrderAdmission::Next => {
                    let next0 = (index + 1) as u64;
                    &&& r is Ok
                    &&& drained(o.reorder, next0, n.reorder, n.status.next_index)
                    &&& n == PipelineModel {
                        reorder: n.reorder,
                        status: RustRaftPeerPipelineStatus {
                            match_index: if n.status.next_index > next0 {
                                (n.status.next_index - 1) as u64
                            } else {
                                index
                            },
                            next_index: n.status.next_index,
                            reorder_queue_depth: n.reorder.len() as u64,
                            ..s
                        },
                        ..o
                    }
                },
                OutOfOrderAdmission::Disabled => {
                    &&& r matches Err(RustRaftError::InvalidRequest(m))
                        && m@ == "out-of-order append received while reorder queue is disabled"@
                    &&& n == o.with_status(
                        RustRaftPeerPipelineStatus {
                            out_of_order_append_rejections: (s.out_of_order_append_rejections + 1) as u64,
                            ..s
                        },
                    )
                },
                OutOfOrderAdmission::WindowFull => {
                    &&& r matches Err(RustRaftError::InvalidRequest(m)) && m@ == "reorder queue window is full"@
                    &&& n == o.with_status(
                        RustRaftPeerPipelineStatus {
                            reorder_entries_rejected: (s.reorder_entries_rejected + 1) as u64,
                            ..s
                        },
                    )
                },
                OutOfOrderAdmission::Queued => {
                    let reorder = o.reorder.insert(index, entry.model());
                    &&& r is Ok
                    &&& n == PipelineModel {
                        reorder,
                        status: RustRaftPeerPipelineStatus { reorder_queue_depth: reorder.len() as u64, ..s },
                        ..o
                    }
                },
            }
        })
}

/// What `begin_snapshot_send` does.
pub open spec fn begin_send_post(o: PipelineModel, snapshot_id: String, snapshot_index: u64, total_chunks: u64, n: PipelineModel, r: Result<(), RustRaftError>) -> bool {
        ({
            let o = o;
            let s = o.status;
            if s.snapshot_sending || s.snapshot_installing {
                &&& r matches Err(RustRaftError::InvalidRequest(m)) && m@ == "snapshot transfer is already active"@
                &&& n == o.with_status(
                    RustRaftPeerPipelineStatus {
                        snapshot_backpressure_rejections: (s.snapshot_backpressure_rejections + 1) as u64,
                        ..s
                    },
                )
            } else {
                &&& r is Ok
                &&& n == PipelineModel {
                    transfer: Some(PipelineModel::new_transfer(snapshot_id@, snapshot_index, total_chunks)),
                    status: RustRaftPeerPipelineStatus {
                        snapshot_sending: true,
                        snapshot_send_attempts: (s.snapshot_send_attempts + 1) as u64,
                        snapshot_install_total_chunks: total_chunks,
                        snapshot_install_progress_per_mille: 0,
                        ..s
                    },
                    ..o
                }
            }
        })
}

/// What `begin_snapshot_install` does.
pub open spec fn begin_install_post(o: PipelineModel, snapshot_id: String, snapshot_index: u64, total_chunks: u64, n: PipelineModel, r: Result<(), RustRaftError>) -> bool {
        ({
            let o = o;
            let s = o.status;
            if s.snapshot_sending || s.snapshot_installing {
                &&& r matches Err(RustRaftError::InvalidRequest(m)) && m@ == "snapshot transfer is already active"@
                &&& n == o.with_status(
                    RustRaftPeerPipelineStatus {
                        snapshot_backpressure_rejections: (s.snapshot_backpressure_rejections + 1) as u64,
                        ..s
                    },
                )
            } else {
                &&& r is Ok
                &&& n == PipelineModel {
                    transfer: Some(PipelineModel::new_transfer(snapshot_id@, snapshot_index, total_chunks)),
                    status: RustRaftPeerPipelineStatus {
                        snapshot_installing: true,
                        snapshot_install_total_chunks: total_chunks,
                        snapshot_install_progress_per_mille: 0,
                        ..s
                    },
                    ..o
                }
            }
        })
}

/// What `record_snapshot_chunk_sent` does.
pub open spec fn chunk_sent_post(o: PipelineModel, bytes: u64, n: PipelineModel, r: Result<(), RustRaftError>) -> bool {
        match o.transfer {
            None => {
                &&& r matches Err(RustRaftError::InvalidRequest(m)) && m@ == "snapshot send is not active"@
                &&& n == o
            },
            Some(t) => {
                &&& r is Ok
                &&& n == PipelineModel {
                    transfer: Some(TransferModel { bytes_sent: (t.bytes_sent + bytes) as u64, ..t }),
                    ..o
                }
            },
        }
}

/// What `acknowledge_snapshot_chunk` does.
pub open spec fn chunk_acknowledged_post(o: PipelineModel, n: PipelineModel, r: Result<(), RustRaftError>) -> bool {
        match o.transfer {
            None => {
                &&& r matches Err(RustRaftError::InvalidRequest(m)) && m@ == "snapshot transfer is not active"@
                &&& n == o
            },
            Some(t) => {
                let acked = (t.acknowledged_chunks + 1) as u64;
                &&& r is Ok
                &&& if acked >= t.total_chunks {
                    n == o.finished(t)
                } else {
                    n == PipelineModel {
                        transfer: Some(TransferModel { acknowledged_chunks: acked, ..t }),
                        status: RustRaftPeerPipelineStatus {
                            snapshot_install_progress_per_mille: progress_per_mille(acked, t.total_chunks),
                            ..o.status
                        },
                        ..o
                    }
                }
            },
        }
}

/// What `receive_snapshot_chunk` does.
pub open spec fn chunk_received_post(o: PipelineModel, bytes: u64, done: bool, n: PipelineModel, r: Result<(), RustRaftError>) -> bool {
        match o.transfer {
            None => {
                &&& r matches Err(RustRaftError::InvalidRequest(m)) && m@ == "snapshot install is not active"@
                &&& n == o
            },
            Some(t) => {
                let acked = (t.acknowledged_chunks + 1) as u64;
                &&& r is Ok
                &&& if done {
                    n == o.finished(t)
                } else {
                    n == PipelineModel {
                        transfer: Some(TransferModel {
                            acknowledged_chunks: acked,
                            bytes_received: (t.bytes_received + bytes) as u64,
                            ..t
                        }),
                        status: RustRaftPeerPipelineStatus {
                            snapshot_install_progress_per_mille: progress_per_mille(acked, t.total_chunks),
                            ..o.status
                        },
                        ..o
                    }
                }
            },
        }
}

/// What `receive_out_of_order` needs: room in the counter it raises, and an index below the largest.
pub open spec fn out_of_order_pre(o: PipelineModel, entry: RustRaftLogEntry) -> bool {
    &&& (match o.out_of_order_admission(entry.model()) {
        OutOfOrderAdmission::BelowNext => o.status.out_of_order_append_rejections < u64::MAX,
        OutOfOrderAdmission::Next => entry.log_id.index < u64::MAX,
        OutOfOrderAdmission::Disabled => o.status.out_of_order_append_rejections < u64::MAX,
        OutOfOrderAdmission::WindowFull => o.status.reorder_entries_rejected < u64::MAX,
        OutOfOrderAdmission::Queued => entry.log_id.index < u64::MAX,
    })
}

/// What `expire_reorder_queue` does: every waiting entry is dropped and
/// counted as a timed-out entry and a dropped package; `r` is their number.
pub open spec fn expire_post(o: PipelineModel, n: PipelineModel, r: u64) -> bool {
    let s = o.status;
    &&& r == o.reorder.len()
    &&& if r > 0 {
        n == PipelineModel {
            reorder: Map::empty(),
            status: RustRaftPeerPipelineStatus {
                reorder_queue_depth: 0,
                reorder_entry_timeouts: (s.reorder_entry_timeouts + r) as u64,
                reorder_dropped_packages: (s.reorder_dropped_packages + r) as u64,
                ..s
            },
            ..o
        }
    } else {
        n == o
    }
}

/// What `expire_reorder_queue` needs: room in its counters.
pub open spec fn expire_pre(o: PipelineModel) -> bool {
    &&& (o.status.reorder_entry_timeouts + o.reorder.len() <= u64::MAX)
    &&& (o.status.reorder_dropped_packages + o.reorder.len() <= u64::MAX)
}

/// What `begin_snapshot_send` needs: room in the counter it raises.
pub open spec fn begin_send_pre(o: PipelineModel) -> bool {
    &&& (o.status.snapshot_sending || o.status.snapshot_installing
        ==> o.status.snapshot_backpressure_rejections < u64::MAX)
    &&& (!(o.status.snapshot_sending || o.status.snapshot_installing)
        ==> o.status.snapshot_send_attempts < u64::MAX)
}

/// What `begin_snapshot_install` needs: room in the counter it raises.
pub open spec fn begin_install_pre(o: PipelineModel) -> bool {
    &&& (o.status.snapshot_sending || o.status.snapshot_installing
        ==> o.status.snapshot_backpressure_rejections < u64::MAX)
}

/// What `record_snapshot_chunk_sent` needs: room for the bytes.
pub open spec fn chunk_sent_pre(o: PipelineModel, bytes: u64) -> bool {
    &&& (o.transfer matches Some(t) ==> t.bytes_sent + bytes <= u64::MAX)
}

/// What `acknowledge_snapshot_chunk` needs: room for the count, its progress and the completed index.
pub open spec fn chunk_acknowledged_pre(o: PipelineModel) -> bool {
    &&& (o.transfer matches Some(t) ==> {
        &&& t.acknowledged_chunks < u64::MAX
        &&& t.total_chunks != 0 ==> (t.acknowledged_chunks + 1) * 1000 <= u64::MAX
        &&& t.acknowledged_chunks + 1 >= t.total_chunks ==> t.snapshot_index < u64::MAX
    })
}

/// What `receive_snapshot_chunk` needs: room for the bytes, the count, its progress and the completed index.
pub open spec fn chunk_received_pre(o: PipelineModel, bytes: u64, done: bool) -> bool {
    &&& (o.transfer matches Some(t) ==> {
        &&& t.bytes_received + bytes <= u64::MAX
        &&& t.acknowledged_chunks < u64::MAX
        &&& t.total_chunks != 0 ==> (t.acknowledged_chunks + 1) * 1000 <= u64::MAX
        &&& done ==> t.snapshot_index < u64::MAX
    })
}

/// What `queue_append` needs: room in the counter it raises.
pub open spec fn queue_append_pre(o: PipelineModel, entry: RustRaftLogEntry) -> bool {
    &&& (match o.append_admission(entry.model()) {
        AppendAdmission::Oversized => o.status.oversized_log_rejections < u64::MAX,
        AppendAdmission::QueueFull => o.status.apply_backpressure_rejections < u64::MAX,
        AppendAdmission::MemoryFull => o.status.memory_backpressure_rejections < u64::MAX,
        AppendAdmission::Queued => true,
    })
}

/// What `flush_append_window` needs: room in the counters it raises.
pub open spec fn flush_pre(o: PipelineModel) -> bool {
    &&& (o.status.append_requests + o.flush_size() <= u64::MAX)
    &&& (o.flush_stops_on_memory() ==> o.status.memory_backpressure_rejections < u64::MAX)
}

/// What `handle_append_response` needs: room in the counters it raises and a match index below the largest.
pub open spec fn append_response_pre(o: PipelineModel, response: RustRaftAppendEntriesResponse) -> bool {
    &&& (response.term == 0 ==> o.status.stale_term_rejections < u64::MAX)
    &&& (response.success ==> o.status.append_accepted < u64::MAX)
    &&& (response.success ==> response.match_index < u64::MAX)
    &&& (!response.success ==> o.status.append_rejected < u64::MAX)
}

/// The replication pipeline of one peer.
#[derive(Debug, Clone)]
pub struct RaftReplicationPipeline {
    peer_id: RustRaftNodeId,
    limits: RustRaftPipelineLimits,
    status: RustRaftPeerPipelineStatus,
    append_queue: VecDeque<RustRaftLogEntry>,
    inflight: VecDeque<RaftInflightAppend>,
    reorder_queue: BTreeMap<RustRaftLogIndex, RustRaftLogEntry>,
    snapshot_transfer: Option<RaftSnapshotTransferState>,
}

impl View for RaftReplicationPipeline {
    type V = PipelineModel;

    closed spec fn view(&self) -> PipelineModel {
        PipelineModel {
            peer_id: self.peer_id,
            limits: self.limits,
            status: self.status,
            append_queue: self.append_queue@.map_values(|e: RustRaftLogEntry| e.model()),
            inflight: self.inflight@,
            reorder: self.reorder_queue@.map_values(|e: RustRaftLogEntry| e.model()),
            transfer: match self.snapshot_transfer {
                Some(t) => Some(t.model()),
                None => None,
            },
        }
    }
}

impl RaftReplicationPipeline {
    /// The pipeline keeps its invariant.
    pub open spec fn wf(&self) -> bool {
        self@.wf()
    }

    /// A fresh pipeline for `peer_id`, expecting `next_index` next.
    pub fn new(peer_id: RustRaftNodeId, next_index: RustRaftLogIndex, limits: RustRaftPipelineLimits) -> (r: Self)
        ensures
            r.wf(),
            r@ == PipelineModel::fresh(peer_id, next_index, limits),
    {
        let r = RaftReplicationPipeline {
            peer_id,
            limits,
            status: RustRaftPeerPipelineStatus::new(peer_id, next_index, limits),
            append_queue: VecDeque::new(),
            inflight: VecDeque::new(),
            reorder_queue: BTreeMap::new(),
            snapshot_transfer: None,
        };
        proof {
            assert(r@.append_queue =~= Seq::<EntryModel>::empty());
            assert(r@.inflight =~= Seq::<RaftInflightAppend>::empty());
            assert(r@.reorder =~= Map::<u64, EntryModel>::empty());
        }
        r
    }

    pub fn peer_id(&self) -> (r: RustRaftNodeId)
        ensures
            r == self@.peer_id,
    {
        self.peer_id
    }

    pub fn status(&self) -> (r: RustRaftPeerPipelineStatus)
        ensures
            r == self@.status,
    {
        self.status
    }

    /// The payload bytes waiting in the append queue.
    fn queued_bytes(&self) -> (r: u64)
        requires
            self.wf(),
        ensures
            r == payload_bytes(self@.append_queue),
    {
        let ghost q = self@.append_queue;
        let mut sum: u64 = 0;
        let mut i: usize = 0;
        proof {
            lemma_payload_bytes_prefix(q, q.len() as int);
        }
        while i < self.append_queue.len()
            invariant
                self.wf(),
                q == self@.append_queue,
                q.len() == self.append_queue@.len(),
                i <= q.len(),
                sum == payload_bytes(q.subrange(0, i as int)),
            decreases q.len() - i,
        {
            proof {
                lemma_payload_bytes_prefix(q, i + 1);
                assert(q.subrange(0, i + 1).drop_last() =~= q.subrange(0, i as int));
                assert(q[i as int] == self.append_queue@[i as int].model());
            }
            sum = sum + self.append_queue[i].payload.len() as u64;
            i = i + 1;
        }
        proof {
            assert(q.subrange(0, q.len() as int) =~= q);
        }
        sum
    }

    /// Sends queued entries one by one into the in-flight window, while the
    /// window has room and the next entry fits in the replicated-bytes limit;
    /// stopping at that limit counts one memory backpressure rejection.
    /// Returns the in-flight records of the sent entries.
    #[verifier::rlimit(100)]
    #[verifier::spinoff_prover]
    pub fn flush_append_window(&mut self) -> (r: Vec<RaftInflightAppend>)
        requires
            old(self).wf(),
            flush_pre(old(self)@),
        ensures
            final(self).wf(),
            flush_post(old(self)@, final(self)@, r),
    {
        let ghost o = self@;
        let ghost q0 = self@.append_queue;
        let ghost s0 = self.status;
        let ghost me = self.limits.max_inflights_replicate as int;
        let ghost mb = self.limits.max_memory_replicate_log_bytes as int;
        let ghost mut i: int = 0;
        let mut flushed: Vec<RaftInflightAppend> = Vec::new();
        let mut blocked = false;
        let mut done = false;
        proof {
            assert(q0.skip(0) =~= q0);
            assert(q0.take(0) =~= Seq::<EntryModel>::empty());
            lemma_payload_bytes_nonneg(q0);
            assert(o.inflight + Seq::<RaftInflightAppend>::empty() =~= o.inflight);
        }
        while !done
            invariant
                0 <= i <= q0.len(),
                i == 0 || s0.inflight_entries + i <= me,
                self@ == (PipelineModel {
                    append_queue: q0.skip(i),
                    inflight: o.inflight + flushed@,
                    status: RustRaftPeerPipelineStatus {
                        append_requests: (s0.append_requests + i) as u64,
                        inflight_entries: (s0.inflight_entries + i) as u64,
                        inflight_bytes: (s0.inflight_bytes + payload_bytes(q0.take(i))) as u64,
                        ..s0
                    },
                    ..o
                }),
                o.wf(),
                q0 == o.append_queue,
                s0 == o.status,
                me == o.limits.max_inflights_replicate,
                mb == o.limits.max_memory_replicate_log_bytes,
                self.limits == o.limits,
                self.append_queue@.len() == q0.len() - i,
                flushed@ == q0.take(i).map_values(|e: EntryModel| inflight_of(e)),
                self.status.inflight_entries == inflight_entries_total(self.inflight@),
                self.status.inflight_bytes == inflight_bytes_total(self.inflight@),
                s0.inflight_bytes + payload_bytes(q0.take(i)) + payload_bytes(q0.skip(i)) <= mb,
                0 <= payload_bytes(q0.skip(i)),
                s0.append_requests + o.flush_size() <= u64::MAX,
                o.flush_size() == i + flush_count(
                    q0.skip(i), s0.inflight_entries + i, s0.inflight_bytes + payload_bytes(q0.take(i)), me, mb),
                o.flush_stops_on_memory() == flush_blocked(
                    q0.skip(i), s0.inflight_entries + i, s0.inflight_bytes + payload_bytes(q0.take(i)), me, mb),
                done ==> flush_count(
                    q0.skip(i), s0.inflight_entries + i, s0.inflight_bytes + payload_bytes(q0.take(i)), me, mb) == 0,
                done ==> blocked == o.flush_stops_on_memory(),
                !done ==> !blocked,
            decreases self.append_queue@.len() + (if done { 0int } else { 1int }),
        {
            let ghost cur = q0.skip(i);
            let ghost ib = s0.inflight_bytes + payload_bytes(q0.take(i));
            proof {
                lemma_payload_bytes_nonneg(q0.take(i));
                assert(self.status.inflight_bytes == ib);
                assert(self.status.inflight_entries == s0.inflight_entries + i);
                assert(self.status.append_requests == s0.append_requests + i);
            }
            if self.status.inflight_entries >= self.limits.max_inflights_replicate {
                done = true;
            } else {
                match self.append_queue.pop_front() {
                    None => {
                        done = true;
                    },
                    Some(entry) => {
                        proof {
                            assert(entry.model() == cur[0]);
                            lemma_payload_bytes_first(cur);
                        }
                        let bytes = entry.payload.len() as u64;
                        if bytes > self.limits.max_memory_replicate_log_bytes - self.status.inflight_bytes {
                            self.append_queue.push_front(entry);
                            proof {
                                let mq = self.append_queue@.map_values(|x: RustRaftLogEntry| x.model());
                                assert(mq =~= cur);
                            }
                            blocked = true;
                            done = true;
                        } else {
                            let inflight = RaftInflightAppend {
                                first_log_id: entry.log_id,
                                last_log_id: entry.log_id,
                                entry_count: 1,
                                bytes,
                            };
                            let ghost inf_before = self.inflight@;
                            proof {
                                assert(flush_count(cur, s0.inflight_entries + i, ib, me, mb) >= 1);
                                lemma_payload_bytes_nonneg(cur.drop_first());
                            }
                            self.status.append_requests = self.status.append_requests + 1;
                            self.status.inflight_entries = self.status.inflight_entries + 1;
                            self.status.inflight_bytes = self.status.inflight_bytes + bytes;
                            self.inflight.push_back(inflight);
                            flushed.push(inflight);
                            proof {
                                assert(inflight == inflight_of(q0[i]));
                                assert(self.inflight@.drop_last() =~= inf_before);
                                assert(q0.take(i + 1).drop_last() =~= q0.take(i));
                                assert(q0.skip(i + 1) =~= cur.drop_first());
                                assert(q0.take(i + 1).map_values(|e: EntryModel| inflight_of(e))
                                    =~= q0.take(i).map_values(|e: EntryModel| inflight_of(e)).push(inflight));
                                let mq = self.append_queue@.map_values(|x: RustRaftLogEntry| x.model());
                                assert(mq =~= q0.skip(i + 1));
                                assert(o.inflight + flushed@ =~= (o.inflight + q0.take(i).map_values(
                                    |e: EntryModel| inflight_of(e))).push(inflight));
                                i = i + 1;
                            }
                        }
                    },
                }
            }
        }
        if blocked {
            self.status.memory_backpressure_rejections = self.status.memory_backpressure_rejections + 1;
        }
        self.status.append_queue_depth = self.append_queue.len() as u64;
        proof {
            lemma_payload_bytes_prefix(q0, i);
            assert(q0.take(i) =~= q0.subrange(0, i));
        }
        flushed
    }

    /// Drops the leading in-flight batches acknowledged by `match_index`.
    fn release_inflight_through(&mut self, match_index: RustRaftLogIndex)
        requires
            old(self).status.inflight_entries == inflight_entries_total(old(self).inflight@),
            old(self).status.inflight_bytes == inflight_bytes_total(old(self).inflight@),
        ensures
            final(self).inflight@ == old(self).inflight@.skip(release_count(old(self).inflight@, match_index) as int),
            final(self).status == (RustRaftPeerPipelineStatus {
                inflight_entries: inflight_entries_total(final(self).inflight@) as u64,
                inflight_bytes: inflight_bytes_total(final(self).inflight@) as u64,
                ..old(self).status
            }),
            final(self).status.inflight_entries == inflight_entries_total(final(self).inflight@),
            final(self).status.inflight_bytes == inflight_bytes_total(final(self).inflight@),
            final(self).peer_id == old(self).peer_id,
            final(self).limits == old(self).limits,
            final(self).append_queue == old(self).append_queue,
            final(self).reorder_queue == old(self).reorder_queue,
            final(self).snapshot_transfer == old(self).snapshot_transfer,
    {
        let ghost q0 = self.inflight@;
        let ghost mut i: int = 0;
        let mut done = false;
        proof {
            assert(q0.skip(0) =~= q0);
        }
        while !done
            invariant
                0 <= i <= q0.len(),
                self.inflight@ == q0.skip(i),
                release_count(q0, match_index) == i + (if done { 0 } else { release_count(q0.skip(i), match_index) }),
                self.status == (RustRaftPeerPipelineStatus {
                    inflight_entries: self.status.inflight_entries,
                    inflight_bytes: self.status.inflight_bytes,
                    ..old(self).status
                }),
                self.status.inflight_entries == inflight_entries_total(self.inflight@),
                self.status.inflight_bytes == inflight_bytes_total(self.inflight@),
                self.peer_id == old(self).peer_id,
                self.limits == old(self).limits,
                self.append_queue == old(self).append_queue,
                self.reorder_queue == old(self).reorder_queue,
                self.snapshot_transfer == old(self).snapshot_transfer,
            decreases self.inflight@.len() + (if done { 0int } else { 1int }),
        {
            let release = self.inflight.len() > 0 && self.inflight[0].last_log_id.index <= match_index;
            if release {
                let ghost cur = self.inflight@;
                proof {
                    lemma_inflight_totals_first(cur);
                    assert(q0.skip(i + 1) =~= cur.drop_first());
                }
                match self.inflight.pop_front() {
                    Some(inflight) => {
                        self.status.inflight_entries = self.status.inflight_entries - inflight.entry_count;
                        self.status.inflight_bytes = self.status.inflight_bytes - inflight.bytes;
                    },
                    None => {},
                }
                proof {
                    i = i + 1;
                }
            } else {
                done = true;
            }
        }
    }

    /// Moves the next index over the queued entries that follow it without
    /// a gap, removing them from the reorder queue.
    fn drain_reorder_queue(&mut self)
        requires
            old(self)@.reorder.dom().finite(),
            forall|k: u64| #[trigger] old(self)@.reorder.contains_key(k)
                ==> old(self)@.reorder[k].log_id.index == k && k < u64::MAX,
        ensures
            drained(old(self)@.reorder, old(self).status.next_index, final(self)@.reorder, final(self).status.next_index),
            final(self).status == (RustRaftPeerPipelineStatus {
                match_index: if final(self).status.next_index > old(self).status.next_index {
                    (final(self).status.next_index - 1) as u64
                } else {
                    old(self).status.match_index
                },
                next_index: final(self).status.next_index,
                reorder_queue_depth: final(self)@.reorder.len() as u64,
                ..old(self).status
            }),
            final(self)@.reorder.dom().finite(),
            final(self)@.reorder.len() == final(self).status.reorder_queue_depth,
            forall|k: u64| #[trigger] final(self)@.reorder.contains_key(k)
                ==> final(self)@.reorder[k].log_id.index == k && k < u64::MAX,
            final(self).peer_id == old(self).peer_id,
            final(self).limits == old(self).limits,
            final(self).append_queue == old(self).append_queue,
            final(self).inflight == old(self).inflight,
            final(self).snapshot_transfer == old(self).snapshot_transfer,
    {
        let ghost r0 = self@.reorder;
        let ghost from = self.status.next_index;
        let ghost m0 = self.status.match_index;
        let mut done = false;
        proof {
            assert(r0.remove_keys(Set::new(|x: u64| from <= x < from)) =~= r0);
        }
        while !done
            invariant
                r0 == old(self)@.reorder,
                from == old(self).status.next_index,
                m0 == old(self).status.match_index,
                r0.dom().finite(),
                forall|k: u64| #[trigger] r0.contains_key(k) ==> r0[k].log_id.index == k && k < u64::MAX,
                from <= self.status.next_index,
                forall|x: u64| from <= x < self.status.next_index ==> #[trigger] r0.contains_key(x),
                done ==> !r0.contains_key(self.status.next_index),
                self@.reorder == r0.remove_keys(Set::new(|x: u64| from <= x < self.status.next_index)),
                self@.reorder.dom().finite(),
                self.status == (RustRaftPeerPipelineStatus {
                    match_index: if self.status.next_index > from { (self.status.next_index - 1) as u64 } else { m0 },
                    next_index: self.status.next_index,
                    ..old(self).status
                }),
                self.peer_id == old(self).peer_id,
                self.limits == old(self).limits,
                self.append_queue == old(self).append_queue,
                self.inflight == old(self).inflight,
                self.snapshot_transfer == old(self).snapshot_transfer,
            decreases self@.reorder.len() + (if done { 0int } else { 1int }),
        {
            let key = self.status.next_index;
            let ghost before = self@.reorder;
            let ghost ex_before = self.reorder_queue@;
            proof {
                lemma_entry_models_dom(ex_before);
            }
            match self.reorder_queue.remove(&key) {
                Some(entry) => {
                    proof {
                        lemma_entry_models_dom(self.reorder_queue@);
                        assert(ex_before.contains_key(key) && ex_before[key] == entry);
                        assert(self.reorder_queue@ == ex_before.remove(key));
                        assert(before.contains_key(key));
                        assert(before[key] == ex_before[key].model());
                        assert(r0.contains_key(key));
                        assert(before[key] == r0[key]);
                        assert(entry.model() == r0[key]);
                    }
                    self.status.match_index = entry.log_id.index;
                    self.status.next_index = entry.log_id.index + 1;
                    proof {
                        assert(self@.reorder =~= before.remove(key));
                        assert(self@.reorder =~= r0.remove_keys(Set::new(|x: u64| from <= x < self.status.next_index)));
                        assert(self.reorder_queue@.dom().finite());
                        assert(self@.reorder.dom() =~= before.dom().remove(key));
                        assert(self@.reorder.len() == before.len() - 1);
                    }
                },
                None => {
                    proof {
                        assert(!ex_before.contains_key(key));
                        assert(self.reorder_queue@ =~= ex_before);
                        assert(!before.contains_key(key));
                        if r0.contains_key(key) {
                            assert(before.contains_key(key));
                        }
                    }
                    done = true;
                },
            }
        }
        self.status.reorder_queue_depth = self.reorder_queue.len() as u64;
        proof {
            lemma_entry_models_dom(self.reorder_queue@);
        }
    }

    /// Records a peer's answer to an append. A zero term counts as a stale
    /// term. On success the match index moves up to the acknowledged index,
    /// the acknowledged in-flight batches are released and the reorder queue
    /// is drained from the next index; on refusal the next index falls back
    /// to the peer's hint (or the match index) plus one, and the call fails.
    pub fn handle_append_response(&mut self, response: &RustRaftAppendEntriesResponse) -> (r: Result<
        (),
        RustRaftError,
    >)
        requires
            old(self).wf(),
            append_response_pre(old(self)@, *response),
        ensures
            final(self).wf(),
            append_response_post(old(self)@, *response, final(self)@, r),
    {
        proof {
            lemma_entry_models_dom(self.reorder_queue@);
        }
        if response.term == 0 {
            self.status.stale_term_rejections = self.status.stale_term_rejections + 1;
        }
        if response.success {
            self.status.append_accepted = self.status.append_accepted + 1;
            if self.status.match_index < response.match_index {
                self.status.match_index = response.match_index;
            }
            self.status.next_index = self.status.match_index + 1;
            let ghost before_release = self.inflight@;
            self.release_inflight_through(response.match_index);
            proof {
                lemma_release_count_le(before_release, response.match_index);
                lemma_inflight_bytes_skip(before_release, release_count(before_release, response.match_index) as int);
            }
            self.drain_reorder_queue();
            Ok(())
        } else {
            self.status.append_rejected = self.status.append_rejected + 1;
            let base = match response.rejection_hint {
                Some(h) => h,
                None => self.status.match_index,
            };
            self.status.next_index = base.saturating_add(1);
            Err(invalid_request("append rejected by peer pipeline"))
        }
    }

    /// Accepts an entry that may arrive ahead of the next index: the next
    /// entry advances the indexes and drains the reorder queue, an entry
    /// further ahead waits in the reorder queue, and the rest is refused.
    pub fn receive_out_of_order(&mut self, entry: RustRaftLogEntry) -> (r: Result<(), RustRaftError>)
        requires
            old(self).wf(),
            out_of_order_pre(old(self)@, entry),
        ensures
            final(self).wf(),
            out_of_order_post(old(self)@, entry, final(self)@, r),
    {
        proof {
            lemma_entry_models_dom(self.reorder_queue@);
        }
        let index = entry.log_id.index;
        if index < self.status.next_index {
            self.status.out_of_order_append_rejections = self.status.out_of_order_append_rejections + 1;
            return Err(invalid_request("append is below peer next index"));
        }
        if index == self.status.next_index {
            self.status.match_index = index;
            self.status.next_index = index + 1;
            self.drain_reorder_queue();
            return Ok(());
        }
        if !self.limits.enable_reorder_queue {
            self.status.out_of_order_append_rejections = self.status.out_of_order_append_rejections + 1;
            return Err(invalid_request("out-of-order append received while reorder queue is disabled"));
        }
        if self.reorder_queue.len() as u64 >= self.limits.reorder_window_size {
            self.status.reorder_entries_rejected = self.status.reorder_entries_rejected + 1;
            return Err(invalid_request("reorder queue window is full"));
        }
        let ghost before = self.reorder_queue@;
        let ghost e = entry.model();
        self.reorder_queue.insert(index, entry);
        self.status.reorder_queue_depth = self.reorder_queue.len() as u64;
        proof {
            lemma_entry_models_dom(self.reorder_queue@);
            assert(self@.reorder =~= before.map_values(|x: RustRaftLogEntry| x.model()).insert(index, e));
        }
        Ok(())
    }

    /// Drops every entry waiting in the reorder queue, counting each as a
    /// timed-out entry and a dropped package; returns how many were dropped.
    pub fn expire_reorder_queue(&mut self) -> (r: u64)
        requires
            old(self).wf(),
            expire_pre(old(self)@),
        ensures
            final(self).wf(),
            expire_post(old(self)@, final(self)@, r),
    {
        proof {
            lemma_entry_models_dom(self.reorder_queue@);
        }
        let dropped = self.reorder_queue.len() as u64;
        if dropped > 0 {
            self.reorder_queue.clear();
            self.status.reorder_queue_depth = 0;
            self.status.reorder_entry_timeouts = self.status.reorder_entry_timeouts + dropped;
            self.status.reorder_dropped_packages = self.status.reorder_dropped_packages + dropped;
            proof {
                assert(self@.reorder =~= Map::<u64, EntryModel>::empty());
            }
        }
        dropped
    }

    fn finish_snapshot_install(&mut self, transfer: RaftSnapshotTransferState)
        requires
            old(self).snapshot_transfer is None,
            old(self).status.match_index < u64::MAX,
            transfer.snapshot_index < u64::MAX,
        ensures
            final(self)@ == old(self)@.finished(transfer.model()),
    {
        self.status.snapshot_sending = false;
        self.status.snapshot_installing = false;
        if self.status.snapshot_installed_index < transfer.snapshot_index {
            self.status.snapshot_installed_index = transfer.snapshot_index;
        }
        self.status.snapshot_install_progress_per_mille = 1000;
        if self.status.match_index < transfer.snapshot_index {
            self.status.match_index = transfer.snapshot_index;
        }
        self.status.next_index = self.status.match_index + 1;
    }

    /// Starts sending a snapshot; refused, counting a snapshot backpressure
    /// rejection, while another transfer is active.
    pub fn begin_snapshot_send(&mut self, snapshot_id: String, snapshot_index: RustRaftLogIndex, total_chunks: u64) -> (r:
        Result<(), RustRaftError>)
        requires
            old(self).wf(),
            begin_send_pre(old(self)@),
        ensures
            final(self).wf(),
            begin_send_post(old(self)@, snapshot_id, snapshot_index, total_chunks, final(self)@, r),
    {
        if self.status.snapshot_sending || self.status.snapshot_installing {
            self.status.snapshot_backpressure_rejections = self.status.snapshot_backpressure_rejections + 1;
            return Err(invalid_request("snapshot transfer is already active"));
        }
        self.status.snapshot_sending = true;
        self.status.snapshot_send_attempts = self.status.snapshot_send_attempts + 1;
        self.status.snapshot_install_total_chunks = total_chunks;
        self.status.snapshot_install_progress_per_mille = 0;
        self.snapshot_transfer = Some(
            RaftSnapshotTransferState {
                snapshot_id,
                snapshot_index,
                total_chunks,
                acknowledged_chunks: 0,
                bytes_sent: 0,
                bytes_received: 0,
            },
        );
        Ok(())
    }

    /// Starts installing a snapshot from a peer; refused, counting a snapshot
    /// backpressure rejection, while another transfer is active.
    pub fn begin_snapshot_install(&mut self, snapshot_id: String, snapshot_index: RustRaftLogIndex, total_chunks: u64) -> (r:
        Result<(), RustRaftError>)
        requires
            old(self).wf(),
            begin_install_pre(old(self)@),
        ensures
            final(self).wf(),
            begin_install_post(old(self)@, snapshot_id, snapshot_index, total_chunks, final(self)@, r),
    {
        if self.status.snapshot_sending || self.status.snapshot_installing {
            self.status.snapshot_backpressure_rejections = self.status.snapshot_backpressure_rejections + 1;
            return Err(invalid_request("snapshot transfer is already active"));
        }
        self.status.snapshot_installing = true;
        self.status.snapshot_install_total_chunks = total_chunks;
        self.status.snapshot_install_progress_per_mille = 0;
        self.snapshot_transfer = Some(
            RaftSnapshotTransferState {
                snapshot_id,
                snapshot_index,
                total_chunks,
                acknowledged_chunks: 0,
                bytes_sent: 0,
                bytes_received: 0,
            },
        );
        Ok(())
    }

    /// Adds sent bytes to the active transfer.
    pub fn record_snapshot_chunk_sent(&mut self, bytes: u64) -> (r: Result<(), RustRaftError>)
        requires
            old(self).wf(),
            chunk_sent_pre(old(self)@, bytes),
        ensures
            final(self).wf(),
            chunk_sent_post(old(self)@, bytes, final(self)@, r),
    {
        match self.snapshot_transfer.take() {
            None => Err(invalid_request("snapshot send is not active")),
            Some(transfer) => {
                let mut transfer = transfer;
                transfer.bytes_sent = transfer.bytes_sent + bytes;
                self.snapshot_transfer = Some(transfer);
                Ok(())
            },
        }
    }

    /// Counts one acknowledged chunk of the active transfer and updates the
    /// progress; the last chunk completes the transfer.
    pub fn acknowledge_snapshot_chunk(&mut self) -> (r: Result<(), RustRaftError>)
        requires
            old(self).wf(),
            chunk_acknowledged_pre(old(self)@),
        ensures
            final(self).wf(),
            chunk_acknowledged_post(old(self)@, final(self)@, r),
    {
        match self.snapshot_transfer.take() {
            None => Err(invalid_request("snapshot transfer is not active")),
            Some(transfer) => {
                let mut transfer = transfer;
                transfer.acknowledged_chunks = transfer.acknowledged_chunks + 1;
                self.status.snapshot_install_progress_per_mille = compute_progress(
                    transfer.acknowledged_chunks,
                    transfer.total_chunks,
                );
                if transfer.acknowledged_chunks >= transfer.total_chunks {
                    self.finish_snapshot_install(transfer);
                } else {
                    self.snapshot_transfer = Some(transfer);
                }
                Ok(())
            },
        }
    }

    /// Adds received bytes and one chunk to the active transfer and updates
    /// the progress; `done` completes the transfer.
    pub fn receive_snapshot_chunk(&mut self, bytes: u64, done: bool) -> (r: Result<(), RustRaftError>)
        requires
            old(self).wf(),
            chunk_received_pre(old(self)@, bytes, done),
        ensures
            final(self).wf(),
            chunk_received_post(old(self)@, bytes, done, final(self)@, r),
    {
        match self.snapshot_transfer.take() {
            None => Err(invalid_request("snapshot install is not active")),
            Some(transfer) => {
                let mut transfer = transfer;
                transfer.bytes_received = transfer.bytes_received + bytes;
                transfer.acknowledged_chunks = transfer.acknowledged_chunks + 1;
                self.status.snapshot_install_progress_per_mille = compute_progress(
                    transfer.acknowledged_chunks,
                    transfer.total_chunks,
                );
                if done {
                    self.finish_snapshot_install(transfer);
                } else {
                    self.snapshot_transfer = Some(transfer);
                }
                Ok(())
            },
        }
    }

    /// Abandons the active transfer, if any, counting one rollback.
    pub fn rollback_snapshot_install(&mut self)
        requires
            old(self).wf(),
            old(self)@.status.snapshot_install_rolled_back < u64::MAX,
        ensures
            final(self).wf(),
            final(self)@ == (PipelineModel {
                transfer: None,
                status: RustRaftPeerPipelineStatus {
                    snapshot_sending: false,
                    snapshot_installing: false,
                    snapshot_install_rolled_back: (old(self)@.status.snapshot_install_rolled_back + 1) as u64,
                    ..old(self)@.status
                },
                ..old(self)@
            }),
    {
        self.snapshot_transfer = None;
        self.status.snapshot_sending = false;
        self.status.snapshot_installing = false;
        self.status.snapshot_install_rolled_back = self.status.snapshot_install_rolled_back + 1;
    }

    /// Records that the peer rejoined through a snapshot after its log was compacted.
    pub fn mark_snapshot_rejoin_after_compacted_log(&mut self)
        requires
            old(self).wf(),
        ensures
            final(self).wf(),
            final(self)@ == old(self)@.with_status(
                RustRaftPeerPipelineStatus { snapshot_rejoin_after_compacted_log: true, ..old(self)@.status },
            ),
    {
        self.status.snapshot_rejoin_after_compacted_log = true;
    }

    /// Offers an entry to the append queue. It is refused, and the matching
    /// rejection counter raised, when it is larger than one apply batch, when
    /// the queue is full, or when it would exceed the replicated-bytes limit.
    pub fn queue_append(&mut self, entry: RustRaftLogEntry) -> (r: Result<(), RustRaftError>)
        requires
            old(self).wf(),
            queue_append_pre(old(self)@, entry),
        ensures
            final(self).wf(),
            queue_append_post(old(self)@, entry, final(self)@, r),
    {
        let bytes = entry.payload.len() as u64;
        if bytes > self.limits.max_apply_batch_bytes {
            self.status.oversized_log_rejections = self.status.oversized_log_rejections + 1;
            return Err(invalid_request("append entry exceeds max apply batch bytes"));
        }
        if self.append_queue.len() as u64 >= self.status.append_queue_limit {
            self.status.apply_backpressure_rejections = self.status.apply_backpressure_rejections + 1;
            return Err(invalid_request("append queue backpressure limit reached"));
        }
        let queued = self.queued_bytes();
        if bytes > self.limits.max_memory_replicate_log_bytes - (self.status.inflight_bytes + queued) {
            self.status.memory_backpressure_rejections = self.status.memory_backpressure_rejections + 1;
            return Err(invalid_request("replication memory backpressure limit reached"));
        }
        let ghost q0 = self.append_queue@;
        let ghost e = entry.model();
        self.append_queue.push_back(entry);
        self.status.append_queue_depth = self.append_queue.len() as u64;
        if self.status.append_queue_max_depth < self.status.append_queue_depth {
            self.status.append_queue_max_depth = self.status.append_queue_depth;
        }
        proof {
            let mq = q0.map_values(|x: RustRaftLogEntry| x.model());
            assert(self@.append_queue =~= mq.push(e));
            assert(mq.push(e).drop_last() =~= mq);
        }
        Ok(())
    }
}

/// Below 2^62.
fn below_limit(x: u64) -> (r: bool)
    ensures
        r == crate::cluster::small(x),
{
    x < 0x4000_0000_0000_0000
}

impl RaftReplicationPipeline {
    /// Whether every counter, index and transfer figure has room.
    pub fn has_headroom(&self) -> (r: bool)
        ensures
            r == crate::cluster::pipeline_headroom(self@),
    {
        let s = &self.status;
        let counters = below_limit(s.match_index) && below_limit(s.next_index) && below_limit(s.append_requests)
            && below_limit(s.append_accepted) && below_limit(s.append_rejected) && below_limit(
            s.apply_backpressure_rejections,
        ) && below_limit(s.memory_backpressure_rejections) && below_limit(s.oversized_log_rejections)
            && below_limit(s.out_of_order_append_rejections) && below_limit(s.reorder_entries_rejected)
            && below_limit(s.reorder_entry_timeouts) && below_limit(s.reorder_dropped_packages) && below_limit(
            s.stale_term_rejections,
        ) && below_limit(s.snapshot_send_attempts) && below_limit(s.snapshot_backpressure_rejections)
            && below_limit(s.snapshot_install_rolled_back);
        let transfer = match &self.snapshot_transfer {
            None => true,
            Some(t) => below_limit(t.snapshot_index) && t.acknowledged_chunks < 0x1_0000_0000 && below_limit(
                t.bytes_sent,
            ) && below_limit(t.bytes_received),
        };
        counters && transfer
    }
}

} // verus!
