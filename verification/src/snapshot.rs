//! Snapshot chunking, chunk-by-chunk installation, and the send/install
//! lifecycle with per-tick throttling, bounded retries and rollback.
use vstd::prelude::*;
use vstd::string::*;
use std::path::PathBuf;
use crate::errors::{RustRaftError, invalid_request, transport_error};
use crate::text::{decimal_chars, u64_to_decimal};
use crate::types::{
    RaftSnapshot, RustRaftGroupId, RustRaftGenericSnapshot, RustRaftInstallSnapshotRequest,
    RustRaftInstallSnapshotResponse, RustRaftLogIndex, RustRaftNodeId, RustRaftSnapshotChunk, RustRaftSnapshotMeta,
    RustRaftTerm, SnapshotMetaModel, clone_bytes,
};

verus! {

/// A snapshot chunk as plain values.
pub struct ChunkModel {
    pub meta: SnapshotMetaModel,
    pub offset: u64,
    pub data: Seq<u8>,
    pub done: bool,
}

impl RustRaftSnapshotChunk {
    pub open spec fn model(self) -> ChunkModel {
        ChunkModel { meta: self.meta.model(), offset: self.offset, data: self.data@, done: self.done }
    }

    /// A copy of the chunk.
    pub fn duplicate(&self) -> (r: Self)
        ensures
            r.model() == self.model(),
    {
        RustRaftSnapshotChunk {
            meta: self.meta.duplicate(),
            offset: self.offset,
            data: clone_bytes(&self.data),
            done: self.done,
        }
    }
}

/// The models of a sequence of chunks.
pub open spec fn chunk_models(cs: Seq<RustRaftSnapshotChunk>) -> Seq<ChunkModel> {
    cs.map_values(|c: RustRaftSnapshotChunk| c.model())
}

/// The chunks of `payload` from `offset` on: each holds up to `chunk_size`
/// bytes at its offset, and the one that reaches the end is marked done.
pub open spec fn chunks_from(meta: SnapshotMetaModel, payload: Seq<u8>, offset: nat, chunk_size: nat) -> Seq<ChunkModel>
    decreases payload.len() - offset,
    when chunk_size > 0
{
    if offset >= payload.len() {
        seq![]
    } else {
        let end = if offset + chunk_size >= payload.len() { payload.len() } else { offset + chunk_size };
        seq![ChunkModel { meta, offset: offset as u64, data: payload.subrange(offset as int, end as int), done: end == payload.len() }]
            + chunks_from(meta, payload, end, chunk_size)
    }
}

/// The chunks of a snapshot: those of its payload, or a single empty chunk
/// marked done when the payload is empty.
pub open spec fn snapshot_chunks(meta: SnapshotMetaModel, payload: Seq<u8>, chunk_size: nat) -> Seq<ChunkModel> {
    if payload.len() == 0 {
        seq![ChunkModel { meta, offset: 0, data: seq![], done: true }]
    } else {
        chunks_from(meta, payload, 0, chunk_size)
    }
}

fn copy_range(v: &Vec<u8>, start: usize, end: usize) -> (r: Vec<u8>)
    requires
        start <= end <= v@.len(),
    ensures
        r@ == v@.subrange(start as int, end as int),
{
    let mut out: Vec<u8> = Vec::new();
    let mut i: usize = start;
    while i < end
        invariant
            start <= i <= end,
            end <= v@.len(),
            out@ == v@.subrange(start as int, i as int),
        decreases end - i,
    {
        out.push(v[i]);
        proof {
            assert(out@ =~= v@.subrange(start as int, i + 1));
        }
        i = i + 1;
    }
    out
}

/// Splits a snapshot into chunks of at most `chunk_size` bytes; refused when
/// `chunk_size` is zero.
pub fn checkpoint_snapshot(snapshot: &RaftSnapshot, chunk_size: u64) -> (r: Result<Vec<RustRaftSnapshotChunk>, RustRaftError>)
    ensures
        chunk_size == 0 ==> (r matches Err(RustRaftError::InvalidRequest(m))
            && m@ == "snapshot chunk_size must be greater than zero"@),
        chunk_size > 0 ==> (r matches Ok(cs) && chunk_models(cs@) == snapshot_chunks(
            snapshot.meta.model(),
            snapshot.payload@,
            chunk_size as nat,
        )),
{
    if chunk_size == 0 {
        return Err(invalid_request("snapshot chunk_size must be greater than zero"));
    }
    let ghost meta = snapshot.meta.model();
    let ghost p = snapshot.payload@;
    let ghost cs = chunk_size as nat;
    let len = snapshot.payload.len();
    let mut chunks: Vec<RustRaftSnapshotChunk> = Vec::new();
    let mut offset: usize = 0;
    proof {
        assert(chunk_models(chunks@) + chunks_from(meta, p, 0, cs) =~= chunks_from(meta, p, 0, cs));
    }
    while offset < len
        invariant
            len == p.len(),
            p == snapshot.payload@,
            meta == snapshot.meta.model(),
            cs == chunk_size as nat,
            cs > 0,
            offset <= len,
            chunk_models(chunks@) + chunks_from(meta, p, offset as nat, cs) == chunks_from(meta, p, 0, cs),
        decreases len - offset,
    {
        let end: usize = if (len - offset) as u64 <= chunk_size {
            len
        } else {
            offset + chunk_size as usize
        };
        let chunk = RustRaftSnapshotChunk {
            meta: snapshot.meta.duplicate(),
            offset: offset as u64,
            data: copy_range(&snapshot.payload, offset, end),
            done: end == len,
        };
        let ghost before = chunk_models(chunks@);
        chunks.push(chunk);
        proof {
            assert(chunk_models(chunks@) =~= before.push(chunk.model()));
            assert(chunks_from(meta, p, offset as nat, cs) == seq![chunk.model()] + chunks_from(meta, p, end as nat, cs));
            assert(before.push(chunk.model()) + chunks_from(meta, p, end as nat, cs) =~= before + (seq![chunk.model()]
                + chunks_from(meta, p, end as nat, cs)));
        }
        offset = end;
    }
    proof {
        assert(chunk_models(chunks@) + Seq::<ChunkModel>::empty() =~= chunk_models(chunks@));
    }
    if chunks.len() == 0 {
        let chunk = RustRaftSnapshotChunk {
            meta: snapshot.meta.duplicate(),
            offset: 0,
            data: Vec::new(),
            done: true,
        };
        chunks.push(chunk);
        proof {
            assert(chunk.model().data =~= Seq::<u8>::empty());
            assert(chunk_models(chunks@) =~= seq![chunk.model()]);
        }
    }
    Ok(chunks)
}

/// A snapshot being received chunk by chunk.
#[derive(Debug, Clone, PartialEq, Eq)]
pub struct RaftSnapshotInstallState {
    pub meta: RustRaftSnapshotMeta,
    pub bytes: Vec<u8>,
    pub next_offset: u64,
    pub complete: bool,
}

/// An install in progress as plain values.
pub struct InstallModel {
    pub meta: SnapshotMetaModel,
    pub bytes: Seq<u8>,
    pub next_offset: u64,
    pub complete: bool,
}

impl RaftSnapshotInstallState {
    pub open spec fn model(self) -> InstallModel {
        InstallModel { meta: self.meta.model(), bytes: self.bytes@, next_offset: self.next_offset, complete: self.complete }
    }

    /// An empty install of the snapshot described by `meta`.
    pub fn new(meta: RustRaftSnapshotMeta) -> (r: Self)
        ensures
            r.model() == (InstallModel { meta: meta.model(), bytes: seq![], next_offset: 0, complete: false }),
    {
        let r = RaftSnapshotInstallState { meta, bytes: Vec::new(), next_offset: 0, complete: false };
        proof {
            assert(r.model().bytes =~= Seq::<u8>::empty());
        }
        r
    }

    /// Appends the next chunk: it must describe the same snapshot and start at
    /// the next offset; its `done` flag tells whether the install is complete.
    pub fn install_chunk(&mut self, chunk: RustRaftSnapshotChunk) -> (r: Result<(), RustRaftError>)
        requires
            chunk.meta.model() == old(self).meta.model() && chunk.offset == old(self).next_offset
                ==> old(self).next_offset + chunk.data@.len() <= u64::MAX,
        ensures
            chunk.meta.model() != old(self).meta.model() ==> (r matches Err(RustRaftError::InvalidRequest(m))
                && m@ == "snapshot chunk metadata changed during install"@ && *final(self) == *old(self)),
            chunk.meta.model() == old(self).meta.model() && chunk.offset != old(self).next_offset ==> (r matches Err(
                RustRaftError::InvalidRequest(m),
            ) && m@ == "snapshot chunk offset "@ + decimal_chars(chunk.offset as nat)
                + " does not match next offset "@ + decimal_chars(old(self).next_offset as nat)
                && *final(self) == *old(self)),
            chunk.meta.model() == old(self).meta.model() && chunk.offset == old(self).next_offset ==> (r is Ok
                && final(self).model() == (InstallModel {
                next_offset: (old(self).next_offset + chunk.data@.len()) as u64,
                bytes: old(self).bytes@ + chunk.data@,
                complete: chunk.done,
                ..old(self).model()
            })),
    {
        if !chunk.meta.equals(&self.meta) {
            proof {
                if chunk.meta.model() == self.meta.model() {
                    assert(chunk.meta.same_as(self.meta));
                }
            }
            return Err(invalid_request("snapshot chunk metadata changed during install"));
        }
        if chunk.offset != self.next_offset {
            let msg = String::from_str("snapshot chunk offset ");
            let msg = msg.concat(u64_to_decimal(chunk.offset).as_str());
            let msg = msg.concat(" does not match next offset ");
            let msg = msg.concat(u64_to_decimal(self.next_offset).as_str());
            return Err(RustRaftError::InvalidRequest(msg));
        }
        let ghost before = self.bytes@;
        self.next_offset = self.next_offset + chunk.data.len() as u64;
        self.bytes.extend_from_slice(chunk.data.as_slice());
        self.complete = chunk.done;
        proof {
            assert(self.bytes@ =~= before + chunk.data@);
        }
        Ok(())
    }

    /// The received snapshot; refused until a chunk marked done was installed.
    pub fn finish(self, group_id: RustRaftGroupId) -> (r: Result<RaftSnapshot, RustRaftError>)
        ensures
            !self.complete ==> (r matches Err(RustRaftError::InvalidRequest(m)) && m@ == "snapshot install is incomplete"@),
            self.complete ==> (r matches Ok(s) && s.group_id == group_id && s.meta == self.meta && s.payload == self.bytes),
    {
        if !self.complete {
            return Err(invalid_request("snapshot install is incomplete"));
        }
        Ok(RustRaftGenericSnapshot { group_id, meta: self.meta, payload: self.bytes })
    }
}

/// Installing the chunks of a snapshot in order, from an empty install of
/// its metadata, succeeds chunk by chunk and reassembles exactly its payload,
/// ending complete.
pub open spec fn installs_to(st: InstallModel, chunks: Seq<ChunkModel>, payload: Seq<u8>) -> bool
    decreases chunks.len(),
{
    if chunks.len() == 0 {
        st.bytes == payload && st.complete
    } else {
        let c = chunks[0];
        &&& c.meta == st.meta
        &&& c.offset == st.next_offset
        &&& installs_to(
            InstallModel {
                next_offset: (st.next_offset + c.data.len()) as u64,
                bytes: st.bytes + c.data,
                complete: c.done,
                ..st
            },
            chunks.drop_first(),
            payload,
        )
    }
}

proof fn lemma_chunks_from_install(meta: SnapshotMetaModel, payload: Seq<u8>, offset: nat, chunk_size: nat)
    requires
        chunk_size > 0,
        0 < offset < payload.len() || offset == 0 && payload.len() > 0,
        payload.len() <= u64::MAX,
    ensures
        installs_to(
            InstallModel {
                meta,
                bytes: payload.subrange(0, offset as int),
                next_offset: offset as u64,
                complete: false,
            },
            chunks_from(meta, payload, offset, chunk_size),
            payload,
        ),
    decreases payload.len() - offset,
{
    let end = if offset + chunk_size >= payload.len() { payload.len() } else { offset + chunk_size };
    let c = ChunkModel { meta, offset: offset as u64, data: payload.subrange(offset as int, end as int), done: end == payload.len() };
    let rest = chunks_from(meta, payload, end, chunk_size);
    let chunks = chunks_from(meta, payload, offset, chunk_size);
    assert(chunks == seq![c] + rest);
    assert(chunks[0] == c);
    assert(chunks.drop_first() =~= rest);
    let st = InstallModel { meta, bytes: payload.subrange(0, offset as int), next_offset: offset as u64, complete: false };
    let st2 = InstallModel {
        next_offset: (st.next_offset + c.data.len()) as u64,
        bytes: st.bytes + c.data,
        complete: c.done,
        ..st
    };
    assert(st.bytes + c.data =~= payload.subrange(0, end as int));
    assert(st2 == InstallModel { meta, bytes: payload.subrange(0, end as int), next_offset: end as u64, complete: c.done });
    if end < payload.len() {
        lemma_chunks_from_install(meta, payload, end, chunk_size);
        assert(installs_to(st2, rest, payload));
    } else {
        assert(rest =~= Seq::<ChunkModel>::empty());
        assert(payload.subrange(0, end as int) =~= payload);
        assert(installs_to(st2, rest, payload));
    }
    assert(installs_to(st, chunks, payload));
}

/// Round trip: the chunks a checkpoint produces, installed in order into an
/// empty install of the same snapshot, rebuild its payload exactly and
/// complete the install.
pub proof fn law_checkpoint_chunks_reinstall(meta: SnapshotMetaModel, payload: Seq<u8>, chunk_size: nat)
    requires
        chunk_size > 0,
        payload.len() <= u64::MAX,
    ensures
        installs_to(
            InstallModel { meta, bytes: seq![], next_offset: 0, complete: false },
            snapshot_chunks(meta, payload, chunk_size),
            payload,
        ),
{
    let st = InstallModel { meta, bytes: seq![], next_offset: 0, complete: false };
    if payload.len() == 0 {
        let c = ChunkModel { meta, offset: 0, data: seq![], done: true };
        let chunks = seq![c];
        assert(chunks.drop_first() =~= Seq::<ChunkModel>::empty());
        let st2 = InstallModel { next_offset: (st.next_offset + c.data.len()) as u64, bytes: st.bytes + c.data, complete: c.done, ..st };
        assert(st2.bytes =~= payload);
        assert(installs_to(st2, chunks.drop_first(), payload));
        assert(installs_to(st, chunks, payload));
    } else {
        lemma_chunks_from_install(meta, payload, 0, chunk_size);
        assert(payload.subrange(0, 0) =~= Seq::<u8>::empty());
        assert(st == InstallModel { meta, bytes: payload.subrange(0, 0), next_offset: 0, complete: false });
    }
}

/// The shape of a run of chunks cut from `payload` at `start`: each holds
/// `meta`, the first starts at `start`, each starts where the one before it
/// ends and holds the payload's bytes there, between one and `chunk_size` of
/// them, only the last is marked done, and it ends at the payload's end.
pub open spec fn chunks_shaped(
    cs: Seq<ChunkModel>,
    meta: SnapshotMetaModel,
    payload: Seq<u8>,
    start: nat,
    chunk_size: nat,
) -> bool {
    &&& cs.len() > 0
    &&& cs[0].offset == start
    &&& forall|i: int| 0 <= i < cs.len() ==> (#[trigger] cs[i]).meta == meta
    &&& forall|i: int| 0 <= i < cs.len() - 1 ==> cs[i + 1].offset == (#[trigger] cs[i]).offset + cs[i].data.len()
    &&& forall|i: int| 0 <= i < cs.len() ==> 1 <= (#[trigger] cs[i]).data.len() <= chunk_size
    &&& forall|i: int| 0 <= i < cs.len() ==> (#[trigger] cs[i]).data == payload.subrange(
        cs[i].offset as int,
        cs[i].offset + cs[i].data.len(),
    )
    &&& forall|i: int| 0 <= i < cs.len() ==> ((#[trigger] cs[i]).done <==> i == cs.len() - 1)
    &&& cs.last().offset + cs.last().data.len() == payload.len()
}

proof fn lemma_chunks_from_shaped(meta: SnapshotMetaModel, payload: Seq<u8>, offset: nat, chunk_size: nat)
    requires
        chunk_size > 0,
        offset < payload.len(),
        payload.len() <= u64::MAX,
    ensures
        chunks_shaped(chunks_from(meta, payload, offset, chunk_size), meta, payload, offset, chunk_size),
    decreases payload.len() - offset,
{
    let cs = chunks_from(meta, payload, offset, chunk_size);
    let end: nat = if offset + chunk_size >= payload.len() { payload.len() } else { offset + chunk_size };
    let c = ChunkModel { meta, offset: offset as u64, data: payload.subrange(offset as int, end as int), done: end == payload.len() };
    let rest = chunks_from(meta, payload, end, chunk_size);
    assert(cs == seq![c] + rest);
    if end == payload.len() {
        assert(rest =~= Seq::<ChunkModel>::empty());
        assert(cs =~= seq![c]);
    } else {
        lemma_chunks_from_shaped(meta, payload, end, chunk_size);
        assert forall|i: int| 0 <= i < cs.len() - 1 implies cs[i + 1].offset == (#[trigger] cs[i]).offset + cs[i].data.len() by {
            if i > 0 {
                assert(cs[i] == rest[i - 1] && cs[i + 1] == rest[i]);
            }
        }
        assert forall|i: int| 0 <= i < cs.len() implies ((#[trigger] cs[i]).done <==> i == cs.len() - 1) by {
            if i > 0 {
                assert(cs[i] == rest[i - 1]);
            }
        }
        assert forall|i: int| 0 <= i < cs.len() implies (#[trigger] cs[i]).meta == meta && 1 <= cs[i].data.len() <= chunk_size
            && cs[i].data == payload.subrange(cs[i].offset as int, cs[i].offset + cs[i].data.len()) by {
            if i > 0 {
                assert(cs[i] == rest[i - 1]);
            }
        }
        assert(cs.last() == rest.last());
    }
}

/// The chunks of a snapshot, for a non-zero chunk size: an empty payload
/// gives one empty chunk, marked done, at offset zero; any other payload
/// gives chunks of the snapshot's metadata that start at offset zero, each
/// where the one before ends, each holding between one and `chunk_size` of
/// the payload's bytes at its offset, only the last marked done and ending
/// at the payload's end.
pub proof fn law_snapshot_chunks_shape(meta: SnapshotMetaModel, payload: Seq<u8>, chunk_size: nat)
    requires
        chunk_size > 0,
        payload.len() <= u64::MAX,
    ensures
        payload.len() == 0 ==> snapshot_chunks(meta, payload, chunk_size) == seq![
            ChunkModel { meta, offset: 0, data: seq![], done: true },
        ],
        payload.len() > 0 ==> chunks_shaped(snapshot_chunks(meta, payload, chunk_size), meta, payload, 0, chunk_size),
{
    if payload.len() > 0 {
        lemma_chunks_from_shaped(meta, payload, 0, chunk_size);
    }
}

/// Limits of the snapshot send lifecycle.
#[derive(Debug, Clone, Copy, PartialEq, Eq, Structural)]
pub struct RaftSnapshotLifecycleConfig {
    pub chunk_size: u64,
    pub max_chunks_per_tick: u64,
    pub max_bytes_per_tick: u64,
    pub max_retry_attempts: u64,
}

impl RaftSnapshotLifecycleConfig {
    /// 64 KiB chunks, at most 16 chunks and 4 MiB per tick, 3 retries.
    pub open spec fn spec_default() -> Self {
        RaftSnapshotLifecycleConfig {
            chunk_size: 65536,
            max_chunks_per_tick: 16,
            max_bytes_per_tick: 4194304,
            max_retry_attempts: 3,
        }
    }

    /// The first zero limit, if any: chunk size, chunks per tick, bytes per tick.
    pub open spec fn config_error(self) -> Option<Seq<char>> {
        if self.chunk_size == 0 {
            Some("snapshot chunk_size must be greater than zero"@)
        } else if self.max_chunks_per_tick == 0 {
            Some("snapshot max_chunks_per_tick must be greater than zero"@)
        } else if self.max_bytes_per_tick == 0 {
            Some("snapshot max_bytes_per_tick must be greater than zero"@)
        } else {
            None
        }
    }

    /// Refuses zero chunk size, chunks per tick or bytes per tick.
    pub fn validate(&self) -> (r: Result<(), RustRaftError>)
        ensures
            match self.config_error() {
                None => r is Ok,
                Some(m) => r matches Err(RustRaftError::InvalidRequest(s)) && s@ == m,
            },
    {
        if self.chunk_size == 0 {
            return Err(invalid_request("snapshot chunk_size must be greater than zero"));
        }
        if self.max_chunks_per_tick == 0 {
            return Err(invalid_request("snapshot max_chunks_per_tick must be greater than zero"));
        }
        if self.max_bytes_per_tick == 0 {
            return Err(invalid_request("snapshot max_bytes_per_tick must be greater than zero"));
        }
        Ok(())
    }
}

impl Default for RaftSnapshotLifecycleConfig {
    fn default() -> (r: Self)
        ensures
            r == Self::spec_default(),
    {
        RaftSnapshotLifecycleConfig {
            chunk_size: 64 * 1024,
            max_chunks_per_tick: 16,
            max_bytes_per_tick: 4 * 1024 * 1024,
            max_retry_attempts: 3,
        }
    }
}

/// Options of the file-backed snapshot store.
#[derive(Debug, Clone, PartialEq, Eq)]
pub struct PersistentRaftSnapshotStoreOptions {
    pub dir: PathBuf,
    pub chunk_size: u64,
}

impl PersistentRaftSnapshotStoreOptions {
    /// Options for `dir` with 64 KiB chunks.
    pub fn new(dir: PathBuf) -> (r: Self)
        ensures
            r.dir == dir,
            r.chunk_size == 65536,
    {
        PersistentRaftSnapshotStoreOptions { dir, chunk_size: 64 * 1024 }
    }
}

/// A snapshot store over a directory; the reading and writing of its files
/// is done by its caller.
#[derive(Debug, Clone)]
pub struct PersistentRaftSnapshotStore {
    options: PersistentRaftSnapshotStoreOptions,
}

impl PersistentRaftSnapshotStore {
    pub closed spec fn chunk_size(&self) -> u64 {
        self.options.chunk_size
    }

    /// A store with these options; refused when the chunk size is zero.
    pub fn with_options(options: PersistentRaftSnapshotStoreOptions) -> (r: Result<Self, RustRaftError>)
        ensures
            options.chunk_size == 0 ==> (r matches Err(RustRaftError::InvalidRequest(m))
                && m@ == "snapshot store chunk_size must be greater than zero"@),
            options.chunk_size > 0 ==> (r matches Ok(s) && s.chunk_size() == options.chunk_size),
    {
        if options.chunk_size == 0 {
            return Err(invalid_request("snapshot store chunk_size must be greater than zero"));
        }
        Ok(PersistentRaftSnapshotStore { options })
    }

    /// The options of the store.
    pub fn options(&self) -> (r: &PersistentRaftSnapshotStoreOptions)
        ensures
            r.chunk_size == self.chunk_size(),
    {
        &self.options
    }

    /// The chunks of a stored snapshot, cut at the store's chunk size.
    pub fn checkpoint_chunks(&self, snapshot: &RaftSnapshot) -> (r: Result<Vec<RustRaftSnapshotChunk>, RustRaftError>)
        ensures
            self.chunk_size() == 0 ==> (r matches Err(RustRaftError::InvalidRequest(m))
                && m@ == "snapshot chunk_size must be greater than zero"@),
            self.chunk_size() > 0 ==> (r matches Ok(cs) && chunk_models(cs@) == snapshot_chunks(
                snapshot.meta.model(),
                snapshot.payload@,
                self.chunk_size() as nat,
            )),
    {
        checkpoint_snapshot(snapshot, self.options.chunk_size)
    }

    /// The name of a snapshot's file in the store's directory.
    pub fn snapshot_file_name(snapshot_id: &str) -> (r: String)
        ensures
            r@ == snapshot_id@ + ".snapshot"@,
    {
        String::from_str(snapshot_id).concat(".snapshot")
    }
}

/// What the snapshot lifecycle reports.
#[derive(Debug, Clone, PartialEq, Eq)]
pub struct RaftSnapshotLifecycleStatus {
    pub snapshot_id: Option<String>,
    pub sending: bool,
    pub installing: bool,
    pub total_chunks: u64,
    pub sent_chunks: u64,
    pub received_chunks: u64,
    pub retry_count: u64,
    pub throttled_ticks: u64,
    pub rolled_back: u64,
    pub completed: bool,
    pub installed_index: RustRaftLogIndex,
}

/// A lifecycle status as plain values.
pub struct LifecycleStatusModel {
    pub snapshot_id: Option<Seq<char>>,
    pub sending: bool,
    pub installing: bool,
    pub total_chunks: u64,
    pub sent_chunks: u64,
    pub received_chunks: u64,
    pub retry_count: u64,
    pub throttled_ticks: u64,
    pub rolled_back: u64,
    pub completed: bool,
    pub installed_index: u64,
}

impl RaftSnapshotLifecycleStatus {
    pub open spec fn model(self) -> LifecycleStatusModel {
        LifecycleStatusModel {
            snapshot_id: match self.snapshot_id {
                Some(s) => Some(s@),
                None => None,
            },
            sending: self.sending,
            installing: self.installing,
            total_chunks: self.total_chunks,
            sent_chunks: self.sent_chunks,
            received_chunks: self.received_chunks,
            retry_count: self.retry_count,
            throttled_ticks: self.throttled_ticks,
            rolled_back: self.rolled_back,
            completed: self.completed,
            installed_index: self.installed_index,
        }
    }

    /// A copy of the status.
    pub fn duplicate(&self) -> (r: Self)
        ensures
            r.model() == self.model(),
    {
        RaftSnapshotLifecycleStatus {
            snapshot_id: match &self.snapshot_id {
                Some(s) => Some(s.clone()),
                None => None,
            },
            sending: self.sending,
            installing: self.installing,
            total_chunks: self.total_chunks,
            sent_chunks: self.sent_chunks,
            received_chunks: self.received_chunks,
            retry_count: self.retry_count,
            throttled_ticks: self.throttled_ticks,
            rolled_back: self.rolled_back,
            completed: self.completed,
            installed_index: self.installed_index,
        }
    }
}

/// A snapshot being sent to a peer.
#[derive(Debug, Clone, PartialEq, Eq)]
pub struct RaftSnapshotSendState {
    pub group_id: RustRaftGroupId,
    pub term: RustRaftTerm,
    pub leader_id: RustRaftNodeId,
    pub chunks: Vec<RustRaftSnapshotChunk>,
    pub next_chunk: usize,
    pub accepted_chunks: u64,
    pub retry_count: u64,
}

/// A send in progress as plain values.
pub struct SendModel {
    pub group_id: u64,
    pub term: u64,
    pub leader_id: u64,
    pub chunks: Seq<ChunkModel>,
    pub next_chunk: int,
    pub accepted_chunks: u64,
    pub retry_count: u64,
}

impl RaftSnapshotSendState {
    pub open spec fn model(self) -> SendModel {
        SendModel {
            group_id: self.group_id,
            term: self.term,
            leader_id: self.leader_id,
            chunks: chunk_models(self.chunks@),
            next_chunk: self.next_chunk as int,
            accepted_chunks: self.accepted_chunks,
            retry_count: self.retry_count,
        }
    }
}

/// An install-snapshot request as plain values.
pub struct RequestModel {
    pub group_id: u64,
    pub term: u64,
    pub leader_id: u64,
    pub chunk: ChunkModel,
}

impl RustRaftInstallSnapshotRequest {
    pub open spec fn model(self) -> RequestModel {
        RequestModel { group_id: self.group_id, term: self.term, leader_id: self.leader_id, chunk: self.chunk.model() }
    }
}

/// The lifecycle as plain values.
pub struct LifecycleModel {
    pub config: RaftSnapshotLifecycleConfig,
    pub sender: Option<SendModel>,
    pub installer: Option<InstallModel>,
    pub status: LifecycleStatusModel,
}

impl LifecycleModel {
    /// The configuration is valid and a send never points past its chunks.
    pub open spec fn wf(self) -> bool {
        &&& self.config.config_error() is None
        &&& self.sender matches Some(s) ==> 0 <= s.next_chunk <= s.chunks.len()
    }
}

/// How many chunks one poll sends from `next`, after `taken` chunks and
/// `bytes` bytes in this tick, and whether it stops at the byte limit: it
/// sends while chunks remain and fewer than `max_chunks` were sent, always
/// sending a first chunk, and stops before a further chunk that would exceed
/// `max_bytes`.
pub open spec fn poll_take(chunks: Seq<ChunkModel>, next: int, taken: int, bytes: int, max_chunks: int, max_bytes: int) -> (
    nat,
    bool,
)
    decreases chunks.len() - next,
{
    if next < 0 || next >= chunks.len() || taken >= max_chunks {
        (0, false)
    } else if taken > 0 && bytes + chunks[next].data.len() > max_bytes {
        (0, true)
    } else {
        let r = poll_take(chunks, next + 1, taken + 1, bytes + chunks[next].data.len(), max_chunks, max_bytes);
        ((r.0 + 1) as nat, r.1)
    }
}

/// The position of the first chunk at or after `offset`, or the number of chunks.
pub open spec fn first_chunk_at(chunks: Seq<ChunkModel>, offset: u64) -> int
    decreases chunks.len(),
{
    if chunks.len() == 0 {
        0
    } else if chunks[0].offset >= offset {
        0
    } else {
        1 + first_chunk_at(chunks.drop_first(), offset)
    }
}

/// Sends a snapshot chunk by chunk with per-tick throttling and bounded
/// retries, and installs one received chunk by chunk.
#[derive(Debug, Clone)]
pub struct RaftSnapshotLifecycle {
    config: RaftSnapshotLifecycleConfig,
    sender: Option<RaftSnapshotSendState>,
    installer: Option<RaftSnapshotInstallState>,
    status: RaftSnapshotLifecycleStatus,
}

impl View for RaftSnapshotLifecycle {
    type V = LifecycleModel;

    closed spec fn view(&self) -> LifecycleModel {
        LifecycleModel {
            config: self.config,
            sender: match self.sender {
                Some(s) => Some(s.model()),
                None => None,
            },
            installer: match self.installer {
                Some(i) => Some(i.model()),
                None => None,
            },
            status: self.status.model(),
        }
    }
}

/// What `install_request` needs: room in the chunk count and, for a chunk
/// that continues the install, in the offset.
pub open spec fn install_request_pre(o: LifecycleModel, request: RustRaftInstallSnapshotRequest) -> bool {
    let (inst, st) = RaftSnapshotLifecycle::install_start(o, request.model());
    &&& st.received_chunks < u64::MAX
    &&& request.chunk.meta.model() == inst.meta && request.chunk.offset == inst.next_offset
        ==> inst.next_offset + request.chunk.data@.len() <= u64::MAX
}

/// What `install_request` does: `n` and `r` are the lifecycle and the
/// result after `request` is handed to the lifecycle `o`.
pub open spec fn install_request_post(
    o: LifecycleModel,
    request: RustRaftInstallSnapshotRequest,
    n: LifecycleModel,
    r: Result<Option<RaftSnapshot>, RustRaftError>,
) -> bool {
    let c = request.model().chunk;
    let (inst, st) = RaftSnapshotLifecycle::install_start(o, request.model());
    if c.meta != inst.meta {
        &&& r matches Err(RustRaftError::InvalidRequest(m))
            && m@ == "snapshot chunk metadata changed during install"@
        &&& n == LifecycleModel { installer: Some(inst), status: st, ..o }
    } else if c.offset != inst.next_offset {
        &&& r matches Err(RustRaftError::InvalidRequest(m)) && m@ == "snapshot chunk offset "@
            + decimal_chars(c.offset as nat) + " does not match next offset "@ + decimal_chars(
            inst.next_offset as nat,
        )
        &&& n == LifecycleModel { installer: Some(inst), status: st, ..o }
    } else {
        let received = (st.received_chunks + 1) as u64;
        let st1 = LifecycleStatusModel {
            received_chunks: received,
            total_chunks: if st.total_chunks >= received { st.total_chunks } else { received },
            ..st
        };
        let inst1 = InstallModel {
            next_offset: (inst.next_offset + c.data.len()) as u64,
            bytes: inst.bytes + c.data,
            complete: c.done,
            ..inst
        };
        if c.done {
            &&& r matches Ok(Some(snap)) && snap.group_id == request.group_id && snap.meta.model()
                == inst.meta && snap.payload@ == inst1.bytes
            &&& n == LifecycleModel {
                installer: None,
                status: LifecycleStatusModel {
                    installing: false,
                    completed: true,
                    installed_index: inst.meta.last_log_id.index,
                    ..st1
                },
                ..o
            }
        } else {
            &&& r matches Ok(None)
            &&& n == LifecycleModel { installer: Some(inst1), status: st1, ..o }
        }
    }
}

impl RaftSnapshotLifecycle {
    pub closed spec fn wf(&self) -> bool {
        self@.wf()
    }

    /// An idle lifecycle; refused when the configuration is invalid.
    pub fn new(config: RaftSnapshotLifecycleConfig) -> (r: Result<Self, RustRaftError>)
        ensures
            match config.config_error() {
                Some(m) => r matches Err(RustRaftError::InvalidRequest(s)) && s@ == m,
                None => r matches Ok(l) && l.wf() && l@ == (LifecycleModel {
                    config,
                    sender: None,
                    installer: None,
                    status: LifecycleStatusModel {
                        snapshot_id: None,
                        sending: false,
                        installing: false,
                        total_chunks: 0,
                        sent_chunks: 0,
                        received_chunks: 0,
                        retry_count: 0,
                        throttled_ticks: 0,
                        rolled_back: 0,
                        completed: false,
                        installed_index: 0,
                    },
                }),
            },
    {
        match config.validate() {
            Err(e) => Err(e),
            Ok(()) => Ok(
                RaftSnapshotLifecycle {
                    config,
                    sender: None,
                    installer: None,
                    status: RaftSnapshotLifecycleStatus {
                        snapshot_id: None,
                        sending: false,
                        installing: false,
                        total_chunks: 0,
                        sent_chunks: 0,
                        received_chunks: 0,
                        retry_count: 0,
                        throttled_ticks: 0,
                        rolled_back: 0,
                        completed: false,
                        installed_index: 0,
                    },
                },
            ),
        }
    }

    /// Splits a snapshot into chunks of at most `chunk_size` bytes.
    pub fn checkpoint(snapshot: &RaftSnapshot, chunk_size: u64) -> (r: Result<Vec<RustRaftSnapshotChunk>, RustRaftError>)
        ensures
            chunk_size == 0 ==> (r matches Err(RustRaftError::InvalidRequest(m))
                && m@ == "snapshot chunk_size must be greater than zero"@),
            chunk_size > 0 ==> (r matches Ok(cs) && chunk_models(cs@) == snapshot_chunks(
                snapshot.meta.model(),
                snapshot.payload@,
                chunk_size as nat,
            )),
    {
        checkpoint_snapshot(snapshot, chunk_size)
    }

    /// Starts sending `snapshot`; refused while a send or an install is active.
    pub fn begin_send(&mut self, snapshot: &RaftSnapshot, term: RustRaftTerm, leader_id: RustRaftNodeId) -> (r: Result<
        (),
        RustRaftError,
    >)
        requires
            old(self).wf(),
        ensures
            final(self).wf(),
            ({
                let o = old(self)@;
                if o.sender is Some || o.installer is Some {
                    &&& r matches Err(RustRaftError::InvalidRequest(m)) && m@ == "snapshot lifecycle is already active"@
                    &&& final(self)@ == o
                } else {
                    let chunks = snapshot_chunks(snapshot.meta.model(), snapshot.payload@, o.config.chunk_size as nat);
                    &&& r is Ok
                    &&& final(self)@ == LifecycleModel {
                        sender: Some(
                            SendModel {
                                group_id: snapshot.group_id,
                                term,
                                leader_id,
                                chunks,
                                next_chunk: 0,
                                accepted_chunks: 0,
                                retry_count: 0,
                            },
                        ),
                        status: LifecycleStatusModel {
                            snapshot_id: Some(snapshot.meta.snapshot_id@),
                            sending: true,
                            installing: false,
                            total_chunks: chunks.len() as u64,
                            sent_chunks: 0,
                            received_chunks: 0,
                            retry_count: 0,
                            throttled_ticks: 0,
                            rolled_back: o.status.rolled_back,
                            completed: false,
                            installed_index: 0,
                        },
                        ..o
                    }
                }
            }),
    {
        if self.sender.is_some() || self.installer.is_some() {
            return Err(invalid_request("snapshot lifecycle is already active"));
        }
        let chunks = match checkpoint_snapshot(snapshot, self.config.chunk_size) {
            Ok(c) => c,
            Err(e) => {
                return Err(e);
            },
        };
        self.status = RaftSnapshotLifecycleStatus {
            snapshot_id: Some(snapshot.meta.snapshot_id.clone()),
            sending: true,
            installing: false,
            total_chunks: chunks.len() as u64,
            sent_chunks: 0,
            received_chunks: 0,
            retry_count: 0,
            throttled_ticks: 0,
            rolled_back: self.status.rolled_back,
            completed: false,
            installed_index: 0,
        };
        self.sender = Some(
            RaftSnapshotSendState {
                group_id: snapshot.group_id,
                term,
                leader_id,
                chunks,
                next_chunk: 0,
                accepted_chunks: 0,
                retry_count: 0,
            },
        );
        Ok(())
    }

    /// Sends the next chunks of the active send for this tick: while chunks
    /// remain and fewer than `max_chunks_per_tick` were sent, always sending a
    /// first chunk and stopping (a throttled tick) before one that would
    /// exceed `max_bytes_per_tick`; chunks left over count another throttled
    /// tick.
    pub fn poll_send_requests(&mut self) -> (r: Result<Vec<RustRaftInstallSnapshotRequest>, RustRaftError>)
        requires
            old(self).wf(),
            old(self)@.sender matches Some(s) ==> ({
                let p = poll_take(
                    s.chunks,
                    s.next_chunk,
                    0,
                    0,
                    old(self)@.config.max_chunks_per_tick as int,
                    old(self)@.config.max_bytes_per_tick as int,
                );
                &&& old(self)@.status.sent_chunks + p.0 <= u64::MAX
                &&& old(self)@.status.throttled_ticks + 2 <= u64::MAX
            }),
        ensures
            final(self).wf(),
            match old(self)@.sender {
                None => {
                    &&& r matches Err(RustRaftError::InvalidRequest(m)) && m@ == "snapshot send is not active"@
                    &&& final(self)@ == old(self)@
                },
                Some(s) => {
                    let o = old(self)@;
                    let p = poll_take(
                        s.chunks,
                        s.next_chunk,
                        0,
                        0,
                        o.config.max_chunks_per_tick as int,
                        o.config.max_bytes_per_tick as int,
                    );
                    let next = s.next_chunk + p.0;
                    &&& r matches Ok(reqs) && reqs@.len() == p.0 && forall|i: int|
                        0 <= i < p.0 ==> #[trigger] reqs@[i].model() == (RequestModel {
                            group_id: s.group_id,
                            term: s.term,
                            leader_id: s.leader_id,
                            chunk: s.chunks[s.next_chunk + i],
                        })
                    &&& final(self)@ == LifecycleModel {
                        sender: Some(SendModel { next_chunk: next, ..s }),
                        status: LifecycleStatusModel {
                            sent_chunks: (o.status.sent_chunks + p.0) as u64,
                            throttled_ticks: (o.status.throttled_ticks + (if p.1 { 1int } else { 0int }) + (if next
                                < s.chunks.len() { 1int } else { 0int })) as u64,
                            ..o.status
                        },
                        ..o
                    }
                },
            },
    {
        let mut sender = match self.sender.take() {
            None => {
                return Err(invalid_request("snapshot send is not active"));
            },
            Some(s) => s,
        };
        let ghost s0 = sender.model();
        let ghost st0 = self.status.model();
        let ghost mc = self.config.max_chunks_per_tick as int;
        let ghost mb = self.config.max_bytes_per_tick as int;
        let mut requests: Vec<RustRaftInstallSnapshotRequest> = Vec::new();
        let mut bytes: u64 = 0;
        let mut stopped = false;
        while !stopped && sender.next_chunk < sender.chunks.len() && (requests.len() as u64)
            < self.config.max_chunks_per_tick
            invariant
                mc == self.config.max_chunks_per_tick,
                mb == self.config.max_bytes_per_tick,
                self@.sender is None,
                self.config == old(self)@.config,
                self.installer == old(self).installer,
                sender.model() == (SendModel { next_chunk: s0.next_chunk + requests@.len(), ..s0 }),
                0 <= s0.next_chunk,
                s0.next_chunk + requests@.len() <= s0.chunks.len(),
                poll_take(s0.chunks, s0.next_chunk, 0, 0, mc, mb).0 == requests@.len() + (if stopped {
                    0
                } else {
                    poll_take(s0.chunks, sender.next_chunk as int, requests@.len() as int, bytes as int, mc, mb).0
                }),
                poll_take(s0.chunks, s0.next_chunk, 0, 0, mc, mb).1 == (if stopped {
                    true
                } else {
                    poll_take(s0.chunks, sender.next_chunk as int, requests@.len() as int, bytes as int, mc, mb).1
                }),
                requests@.len() == 0 ==> bytes == 0,
                st0.sent_chunks + poll_take(s0.chunks, s0.next_chunk, 0, 0, mc, mb).0 <= u64::MAX,
                st0.throttled_ticks + 2 <= u64::MAX,
                self.status.model() == (LifecycleStatusModel {
                    sent_chunks: (st0.sent_chunks + requests@.len()) as u64,
                    throttled_ticks: (st0.throttled_ticks + (if stopped { 1int } else { 0int })) as u64,
                    ..st0
                }),
                forall|i: int|
                    0 <= i < requests@.len() ==> #[trigger] requests@[i].model() == (RequestModel {
                        group_id: s0.group_id,
                        term: s0.term,
                        leader_id: s0.leader_id,
                        chunk: s0.chunks[s0.next_chunk + i],
                    }),
            decreases s0.chunks.len() - sender.next_chunk + (if stopped { 0int } else { 1int }),
        {
            let next = sender.next_chunk;
            let len = sender.chunks[next].data.len() as u64;
            proof {
                assert(s0.chunks[next as int] == sender.chunks@[next as int].model());
            }
            if requests.len() > 0 && (bytes > self.config.max_bytes_per_tick || len > self.config.max_bytes_per_tick
                - bytes) {
                self.status.throttled_ticks = self.status.throttled_ticks + 1;
                stopped = true;
            } else {
                bytes = bytes + len;
                let chunk = sender.chunks[next].duplicate();
                sender.next_chunk = next + 1;
                self.status.sent_chunks = self.status.sent_chunks + 1;
                let ghost before = requests@;
                requests.push(
                    RustRaftInstallSnapshotRequest {
                        group_id: sender.group_id,
                        term: sender.term,
                        leader_id: sender.leader_id,
                        chunk,
                    },
                );
                proof {
                    assert(forall|i: int| 0 <= i < before.len() ==> requests@[i] == before[i]);
                }
            }
        }
        if sender.next_chunk < sender.chunks.len() {
            self.status.throttled_ticks = self.status.throttled_ticks + 1;
        }
        self.sender = Some(sender);
        Ok(requests)
    }

    /// Records a peer's answer to a sent chunk. Without an active send an
    /// acceptance is ignored and a refusal fails. An acceptance counts one
    /// accepted chunk; the last one completes the send. A refusal counts a
    /// retry; past the retry budget the send is abandoned and the call fails,
    /// else the send resumes at the first chunk at or after the peer's next
    /// offset.
    pub fn record_send_response(&mut self, response: &RustRaftInstallSnapshotResponse) -> (r: Result<(), RustRaftError>)
        requires
            old(self).wf(),
            old(self)@.sender matches Some(s) ==> (response.accepted ==> s.accepted_chunks < u64::MAX),
            old(self)@.sender matches Some(s) ==> (!response.accepted ==> s.retry_count < u64::MAX
                && old(self)@.status.retry_count < u64::MAX),
        ensures
            final(self).wf(),
            ({
                let o = old(self)@;
                match o.sender {
                    None => if response.accepted {
                        r is Ok && final(self)@ == o
                    } else {
                        &&& r matches Err(RustRaftError::InvalidRequest(m)) && m@ == "snapshot send is not active"@
                        &&& final(self)@ == o
                    },
                    Some(s) => if response.accepted {
                        let accepted = (s.accepted_chunks + 1) as u64;
                        &&& r is Ok
                        &&& if accepted >= s.chunks.len() {
                            final(self)@ == LifecycleModel {
                                sender: None,
                                status: LifecycleStatusModel { sending: false, completed: true, ..o.status },
                                ..o
                            }
                        } else {
                            final(self)@ == LifecycleModel {
                                sender: Some(SendModel { accepted_chunks: accepted, ..s }),
                                ..o
                            }
                        }
                    } else {
                        let retries = (s.retry_count + 1) as u64;
                        let status = LifecycleStatusModel { retry_count: (o.status.retry_count + 1) as u64, ..o.status };
                        if retries > o.config.max_retry_attempts {
                            &&& r matches Err(RustRaftError::Transport(m)) && m@ == "snapshot send retry budget exhausted"@
                            &&& final(self)@ == LifecycleModel {
                                sender: None,
                                status: LifecycleStatusModel { sending: false, ..status },
                                ..o
                            }
                        } else {
                            &&& r is Ok
                            &&& final(self)@ == LifecycleModel {
                                sender: Some(
                                    SendModel {
                                        retry_count: retries,
                                        next_chunk: first_chunk_at(s.chunks, response.next_offset),
                                        ..s
                                    },
                                ),
                                status,
                                ..o
                            }
                        }
                    },
                }
            }),
    {
        let mut sender = match self.sender.take() {
            None => {
                if response.accepted {
                    return Ok(());
                }
                return Err(invalid_request("snapshot send is not active"));
            },
            Some(s) => s,
        };
        if response.accepted {
            sender.accepted_chunks = sender.accepted_chunks + 1;
            if sender.accepted_chunks >= sender.chunks.len() as u64 {
                self.status.sending = false;
                self.status.completed = true;
            } else {
                self.sender = Some(sender);
            }
            return Ok(());
        }
        sender.retry_count = sender.retry_count + 1;
        self.status.retry_count = self.status.retry_count + 1;
        if sender.retry_count > self.config.max_retry_attempts {
            self.status.sending = false;
            return Err(transport_error("snapshot send retry budget exhausted"));
        }
        let ghost cs = chunk_models(sender.chunks@);
        let mut i: usize = 0;
        proof {
            assert(cs.skip(0) =~= cs);
        }
        while i < sender.chunks.len() && sender.chunks[i].offset < response.next_offset
            invariant
                cs == chunk_models(sender.chunks@),
                i <= cs.len(),
                first_chunk_at(cs, response.next_offset) == i + first_chunk_at(cs.skip(i as int), response.next_offset),
            decreases cs.len() - i,
        {
            proof {
                assert(cs.skip(i as int)[0] == cs[i as int]);
                assert(cs.skip(i as int).drop_first() =~= cs.skip(i + 1));
            }
            i = i + 1;
        }
        proof {
            if i < cs.len() {
                assert(cs.skip(i as int)[0] == cs[i as int]);
            }
        }
        sender.next_chunk = i;
        self.sender = Some(sender);
        Ok(())
    }

    /// Counts a timed-out send as a retry; past the retry budget the send is
    /// abandoned and the call fails.
    pub fn record_send_timeout(&mut self) -> (r: Result<(), RustRaftError>)
        requires
            old(self).wf(),
            old(self)@.sender matches Some(s) ==> s.retry_count < u64::MAX && old(self)@.status.retry_count < u64::MAX,
        ensures
            final(self).wf(),
            ({
                let o = old(self)@;
                match o.sender {
                    None => {
                        &&& r matches Err(RustRaftError::InvalidRequest(m)) && m@ == "snapshot send is not active"@
                        &&& final(self)@ == o
                    },
                    Some(s) => {
                        let retries = (s.retry_count + 1) as u64;
                        let status = LifecycleStatusModel { retry_count: (o.status.retry_count + 1) as u64, ..o.status };
                        if retries > o.config.max_retry_attempts {
                            &&& r matches Err(RustRaftError::Transport(m))
                                && m@ == "snapshot send timeout retry budget exhausted"@
                            &&& final(self)@ == LifecycleModel {
                                sender: None,
                                status: LifecycleStatusModel { sending: false, ..status },
                                ..o
                            }
                        } else {
                            &&& r is Ok
                            &&& final(self)@ == LifecycleModel {
                                sender: Some(SendModel { retry_count: retries, ..s }),
                                status,
                                ..o
                            }
                        }
                    },
                }
            }),
    {
        let mut sender = match self.sender.take() {
            None => {
                return Err(invalid_request("snapshot send is not active"));
            },
            Some(s) => s,
        };
        sender.retry_count = sender.retry_count + 1;
        self.status.retry_count = self.status.retry_count + 1;
        if sender.retry_count > self.config.max_retry_attempts {
            self.status.sending = false;
            return Err(transport_error("snapshot send timeout retry budget exhausted"));
        }
        self.sender = Some(sender);
        Ok(())
    }

    /// The install and status a request starts from: the current install,
    /// or, when none is active, a fresh install of the request's snapshot with
    /// the status switched to installing it.
    pub open spec fn install_start(o: LifecycleModel, request: RequestModel) -> (InstallModel, LifecycleStatusModel) {
        match o.installer {
            Some(i) => (i, o.status),
            None => (
                InstallModel { meta: request.chunk.meta, bytes: seq![], next_offset: 0, complete: false },
                LifecycleStatusModel {
                    snapshot_id: Some(request.chunk.meta.snapshot_id),
                    installing: true,
                    sending: false,
                    completed: false,
                    received_chunks: 0,
                    total_chunks: 0,
                    ..o.status
                },
            ),
        }
    }

    /// Installs one received chunk, starting an install when none is
    /// active. A chunk of another snapshot or at another offset is refused
    /// (the install stays open). The chunk marked done completes the install
    /// and yields the snapshot, stamped with the request's group.
    pub fn install_request(&mut self, request: RustRaftInstallSnapshotRequest) -> (r: Result<
        Option<RaftSnapshot>,
        RustRaftError,
    >)
        requires
            old(self).wf(),
            install_request_pre(old(self)@, request),
        ensures
            final(self).wf(),
            install_request_post(old(self)@, request, final(self)@, r),
    {
        let mut installer = match self.installer.take() {
            Some(i) => i,
            None => {
                self.status.snapshot_id = Some(request.chunk.meta.snapshot_id.clone());
                self.status.installing = true;
                self.status.sending = false;
                self.status.completed = false;
                self.status.received_chunks = 0;
                self.status.total_chunks = 0;
                RaftSnapshotInstallState::new(request.chunk.meta.duplicate())
            },
        };
        let group_id = request.group_id;
        let ghost inst0 = installer.model();
        match installer.install_chunk(request.chunk) {
            Err(e) => {
                self.installer = Some(installer);
                return Err(e);
            },
            Ok(()) => {},
        }
        self.status.received_chunks = self.status.received_chunks + 1;
        if self.status.total_chunks < self.status.received_chunks {
            self.status.total_chunks = self.status.received_chunks;
        }
        if installer.complete {
            let installed_index = installer.meta.last_log_id.index;
            match installer.finish(group_id) {
                Ok(snapshot) => {
                    self.status.installing = false;
                    self.status.completed = true;
                    self.status.installed_index = installed_index;
                    Ok(Some(snapshot))
                },
                Err(e) => Err(e),
            }
        } else {
            self.installer = Some(installer);
            Ok(None)
        }
    }

    /// A copy of the status.
    pub fn status(&self) -> (r: RaftSnapshotLifecycleStatus)
        ensures
            r.model() == self@.status,
    {
        self.status.duplicate()
    }

    /// Abandons an install in progress, counting one rollback.
    pub fn rollback_install(&mut self)
        requires
            old(self).wf(),
            old(self)@.status.rolled_back < u64::MAX,
        ensures
            final(self).wf(),
            final(self)@ == (LifecycleModel {
                installer: None,
                status: LifecycleStatusModel {
                    installing: false,
                    rolled_back: (old(self)@.status.rolled_back + 1) as u64,
                    ..old(self)@.status
                },
                ..old(self)@
            }),
    {
        self.installer = None;
        self.status.installing = false;
        self.status.rolled_back = self.status.rolled_back + 1;
    }
}

} // verus!
