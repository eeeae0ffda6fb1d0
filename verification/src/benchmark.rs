//! The same-machine benchmark model: the engines compared, the workloads
//! run, and the integer parts of a modelled run (operation counts, the
//! synthetic latency series and the correctness gate).
use vstd::prelude::*;

verus! {

/// The engine a benchmark sample was taken from.
#[derive(Debug, Clone, Copy, PartialEq, Eq, Structural, PartialOrd, Ord, Hash)]
pub enum RustRaftBenchmarkEngine {
    ByteRaft,
    RustRaft,
}

/// A benchmark workload.
#[derive(Debug, Clone, Copy, PartialEq, Eq, Structural, PartialOrd, Ord, Hash)]
pub enum RustRaftBenchmarkWorkload {
    SingleKeyWrites,
    BatchedWrites,
    ReplicationBatching,
    WalFsync,
    ReadIndexReads,
    LeaseReads,
    SnapshotInstallCatchup,
    SnapshotStreaming,
    LeaderTransferUnderLoad,
}

/// The identifier of a workload.
pub open spec fn workload_id(w: RustRaftBenchmarkWorkload) -> Seq<char> {
    match w {
        RustRaftBenchmarkWorkload::SingleKeyWrites => "single_key_writes"@,
        RustRaftBenchmarkWorkload::BatchedWrites => "batched_writes"@,
        RustRaftBenchmarkWorkload::ReplicationBatching => "replication_batching"@,
        RustRaftBenchmarkWorkload::WalFsync => "wal_fsync"@,
        RustRaftBenchmarkWorkload::ReadIndexReads => "read_index_reads"@,
        RustRaftBenchmarkWorkload::LeaseReads => "lease_reads"@,
        RustRaftBenchmarkWorkload::SnapshotInstallCatchup => "snapshot_install_catchup"@,
        RustRaftBenchmarkWorkload::SnapshotStreaming => "snapshot_streaming"@,
        RustRaftBenchmarkWorkload::LeaderTransferUnderLoad => "leader_transfer_under_load"@,
    }
}

impl RustRaftBenchmarkWorkload {
    /// The workload's identifier.
    pub fn id(self) -> (r: &'static str)
        ensures
            r@ == workload_id(self),
    {
        match self {
            RustRaftBenchmarkWorkload::SingleKeyWrites => "single_key_writes",
            RustRaftBenchmarkWorkload::BatchedWrites => "batched_writes",
            RustRaftBenchmarkWorkload::ReplicationBatching => "replication_batching",
            RustRaftBenchmarkWorkload::WalFsync => "wal_fsync",
            RustRaftBenchmarkWorkload::ReadIndexReads => "read_index_reads",
            RustRaftBenchmarkWorkload::LeaseReads => "lease_reads",
            RustRaftBenchmarkWorkload::SnapshotInstallCatchup => "snapshot_install_catchup",
            RustRaftBenchmarkWorkload::SnapshotStreaming => "snapshot_streaming",
            RustRaftBenchmarkWorkload::LeaderTransferUnderLoad => "leader_transfer_under_load",
        }
    }
}

/// Every workload the parity benchmark runs, in order.
pub open spec fn parity_workloads() -> Seq<RustRaftBenchmarkWorkload> {
    seq![
        RustRaftBenchmarkWorkload::SingleKeyWrites,
        RustRaftBenchmarkWorkload::BatchedWrites,
        RustRaftBenchmarkWorkload::ReplicationBatching,
        RustRaftBenchmarkWorkload::WalFsync,
        RustRaftBenchmarkWorkload::ReadIndexReads,
        RustRaftBenchmarkWorkload::LeaseReads,
        RustRaftBenchmarkWorkload::SnapshotInstallCatchup,
        RustRaftBenchmarkWorkload::SnapshotStreaming,
        RustRaftBenchmarkWorkload::LeaderTransferUnderLoad,
    ]
}

/// The workloads of the parity benchmark.
pub fn rustraft_byteraft_benchmark_workloads() -> (r: Vec<RustRaftBenchmarkWorkload>)
    ensures
        r@ == parity_workloads(),
{
    let r = vec![
        RustRaftBenchmarkWorkload::SingleKeyWrites,
        RustRaftBenchmarkWorkload::BatchedWrites,
        RustRaftBenchmarkWorkload::ReplicationBatching,
        RustRaftBenchmarkWorkload::WalFsync,
        RustRaftBenchmarkWorkload::ReadIndexReads,
        RustRaftBenchmarkWorkload::LeaseReads,
        RustRaftBenchmarkWorkload::SnapshotInstallCatchup,
        RustRaftBenchmarkWorkload::SnapshotStreaming,
        RustRaftBenchmarkWorkload::LeaderTransferUnderLoad,
    ];
    proof {
        assert(r@ =~= parity_workloads());
    }
    r
}

/// A benchmark runner that models both engines on the same machine.
#[derive(Debug, Clone, Copy)]
pub struct RustRaftSameMachineModelRunner {
    engine: RustRaftBenchmarkEngine,
}

impl RustRaftSameMachineModelRunner {
    /// The engine the runner models.
    pub closed spec fn modelled(self) -> RustRaftBenchmarkEngine {
        self.engine
    }

    /// A runner modelling the reference engine.
    pub fn byteraft_baseline() -> (r: Self)
        ensures
            r.modelled() == RustRaftBenchmarkEngine::ByteRaft,
    {
        RustRaftSameMachineModelRunner { engine: RustRaftBenchmarkEngine::ByteRaft }
    }

    /// A runner modelling this engine.
    pub fn rustraft_candidate() -> (r: Self)
        ensures
            r.modelled() == RustRaftBenchmarkEngine::RustRaft,
    {
        RustRaftSameMachineModelRunner { engine: RustRaftBenchmarkEngine::RustRaft }
    }

    /// The engine the runner models.
    pub fn engine(&self) -> (r: RustRaftBenchmarkEngine)
        ensures
            r == self.modelled(),
    {
        self.engine
    }
}

/// How many operations a workload performs: a batch per iteration for
/// batched writes (saturating), one per iteration otherwise.
pub open spec fn operation_count(workload: RustRaftBenchmarkWorkload, iterations: usize, batch_size: usize) -> int {
    if workload == RustRaftBenchmarkWorkload::BatchedWrites {
        if iterations * batch_size > usize::MAX { usize::MAX as int } else { iterations * batch_size }
    } else {
        iterations as int
    }
}

/// The operation count of a workload.
pub fn rustraft_benchmark_operation_count(workload: RustRaftBenchmarkWorkload, iterations: usize, batch_size: usize) -> (r:
    usize)
    ensures
        r == operation_count(workload, iterations, batch_size),
{
    match workload {
        RustRaftBenchmarkWorkload::BatchedWrites => match iterations.checked_mul(batch_size) {
            Some(v) => v,
            None => usize::MAX,
        },
        _ => iterations,
    }
}

/// The modelled base latency of a workload, in microseconds.
pub open spec fn base_latency(workload: RustRaftBenchmarkWorkload) -> int {
    match workload {
        RustRaftBenchmarkWorkload::SingleKeyWrites => 900,
        RustRaftBenchmarkWorkload::BatchedWrites => 1600,
        RustRaftBenchmarkWorkload::ReplicationBatching => 1400,
        RustRaftBenchmarkWorkload::WalFsync => 2200,
        RustRaftBenchmarkWorkload::ReadIndexReads => 320,
        RustRaftBenchmarkWorkload::LeaseReads => 120,
        RustRaftBenchmarkWorkload::SnapshotInstallCatchup => 8000,
        RustRaftBenchmarkWorkload::SnapshotStreaming => 9000,
        RustRaftBenchmarkWorkload::LeaderTransferUnderLoad => 4500,
    }
}

/// The modelled slowdown of an engine, in percent.
pub open spec fn engine_multiplier(engine: RustRaftBenchmarkEngine) -> int {
    match engine {
        RustRaftBenchmarkEngine::ByteRaft => 100,
        RustRaftBenchmarkEngine::RustRaft => 108,
    }
}

/// The modelled latency of iteration `index`: the base latency plus a
/// jitter of `3 * (37 * index mod 17)`, scaled by the engine's multiplier.
pub open spec fn synthetic_latency(engine: RustRaftBenchmarkEngine, workload: RustRaftBenchmarkWorkload, index: int) -> int {
    (base_latency(workload) + ((index * 37) % 17) * 3) * engine_multiplier(engine) / 100
}

/// The modelled latencies of a run of `iterations` iterations (at least one).
pub fn rustraft_synthetic_latency_series(
    engine: RustRaftBenchmarkEngine,
    workload: RustRaftBenchmarkWorkload,
    iterations: usize,
) -> (r: Vec<u64>)
    requires
        iterations * 37 <= u64::MAX,
    ensures
        r@.len() == if iterations > 1 { iterations as int } else { 1 },
        forall|i: int| 0 <= i < r@.len() ==> #[trigger] r@[i] == synthetic_latency(engine, workload, i),
{
    let base: u64 = match workload {
        RustRaftBenchmarkWorkload::SingleKeyWrites => 900,
        RustRaftBenchmarkWorkload::BatchedWrites => 1600,
        RustRaftBenchmarkWorkload::ReplicationBatching => 1400,
        RustRaftBenchmarkWorkload::WalFsync => 2200,
        RustRaftBenchmarkWorkload::ReadIndexReads => 320,
        RustRaftBenchmarkWorkload::LeaseReads => 120,
        RustRaftBenchmarkWorkload::SnapshotInstallCatchup => 8000,
        RustRaftBenchmarkWorkload::SnapshotStreaming => 9000,
        RustRaftBenchmarkWorkload::LeaderTransferUnderLoad => 4500,
    };
    let multiplier: u64 = match engine {
        RustRaftBenchmarkEngine::ByteRaft => 100,
        RustRaftBenchmarkEngine::RustRaft => 108,
    };
    let n: usize = if iterations > 1 { iterations } else { 1 };
    let mut out: Vec<u64> = Vec::new();
    let mut index: usize = 0;
    while index < n
        invariant
            index <= n,
            n * 37 <= u64::MAX,
            n == if iterations > 1 { iterations as int } else { 1 },
            base == base_latency(workload),
            multiplier == engine_multiplier(engine),
            out@.len() == index,
            forall|i: int| 0 <= i < index ==> #[trigger] out@[i] == synthetic_latency(engine, workload, i),
        decreases n - index,
    {
        let i = index as u64;
        let jitter: u64 = ((i * 37) % 17) * 3;
        out.push((base + jitter) * multiplier / 100);
        index = index + 1;
    }
    out
}

/// Whether a modelled run counts as correct: three nodes, at least one
/// iteration, and batches of more than one entry for batched writes.
pub open spec fn model_correct(workload: RustRaftBenchmarkWorkload, node_count: usize, iterations: usize, batch_size: usize) -> bool {
    &&& node_count == 3
    &&& iterations > 0
    &&& (workload != RustRaftBenchmarkWorkload::BatchedWrites || batch_size > 1)
}

/// The correctness gate of a modelled run.
pub fn rustraft_same_machine_correctness_passes(
    workload: RustRaftBenchmarkWorkload,
    node_count: usize,
    iterations: usize,
    batch_size: usize,
) -> (r: bool)
    ensures
        r == model_correct(workload, node_count, iterations, batch_size),
{
    let three_nodes = node_count == 3;
    let iterations_present = iterations > 0;
    let batch_valid = workload != RustRaftBenchmarkWorkload::BatchedWrites || batch_size > 1;
    three_nodes && iterations_present && batch_valid
}

} // verus!
