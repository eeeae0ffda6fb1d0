//! Write-ahead log records: their checksum, the apply/snapshot fence they
//! carry, recovery of the latest trustworthy record, and an in-memory
//! segmented WAL.
use vstd::prelude::*;
use vstd::string::*;
use crate::errors::{RustRaftError, invalid_request, storage_error};
use crate::membership::{MembershipModel, RustRaftMembership};
use crate::production::RustRaftWalLifecycleStatus;
use crate::text::{decimal_chars, hex16_chars, u64_to_decimal, u64_to_hex16};
use std::path::PathBuf;
use crate::types::{
    EntryModel, RaftSnapshot, RustRaftGroupId, RustRaftHardState, RustRaftLogEntry, RustRaftLogId, RustRaftLogIndex,
    RustRaftNodeId, RustRaftSnapshotMeta, SnapshotMetaModel,
};

verus! {

/// What a node has applied, committed and installed, persisted with each record.
#[derive(Debug, Clone, Copy, PartialEq, Eq, Structural)]
pub struct RustRaftApplySnapshotFence {
    pub applied_index: RustRaftLogIndex,
    pub commit_index: RustRaftLogIndex,
    pub installed_snapshot_index: RustRaftLogIndex,
    pub first_retained_log_index: RustRaftLogIndex,
}

/// One durable record of a node's Raft state.
#[derive(Debug, Clone, PartialEq, Eq)]
pub struct RustRaftWalRecord {
    pub group_id: RustRaftGroupId,
    pub node_id: RustRaftNodeId,
    pub hard_state: RustRaftHardState,
    pub membership: RustRaftMembership,
    pub entries: Vec<RustRaftLogEntry>,
    pub installed_snapshot: Option<RustRaftSnapshotMeta>,
    pub apply_snapshot_fence: RustRaftApplySnapshotFence,
    pub checksum: String,
}

pub type RaftWalRecord = RustRaftWalRecord;

/// A WAL record as plain values.
pub struct WalRecordModel {
    pub group_id: u64,
    pub node_id: u64,
    pub hard_state: RustRaftHardState,
    pub membership: MembershipModel,
    pub entries: Seq<EntryModel>,
    pub installed_snapshot: Option<SnapshotMetaModel>,
    pub fence: RustRaftApplySnapshotFence,
    pub checksum: Seq<char>,
}

impl RustRaftWalRecord {
    pub open spec fn model(self) -> WalRecordModel {
        WalRecordModel {
            group_id: self.group_id,
            node_id: self.node_id,
            hard_state: self.hard_state,
            membership: self.membership.model(),
            entries: self.entries@.map_values(|e: RustRaftLogEntry| e.model()),
            installed_snapshot: match self.installed_snapshot {
                Some(s) => Some(s.model()),
                None => None,
            },
            fence: self.apply_snapshot_fence,
            checksum: self.checksum@,
        }
    }

    /// A copy of the record.
    pub fn duplicate(&self) -> (r: Self)
        ensures
            r.model() == self.model(),
    {
        let mut entries: Vec<RustRaftLogEntry> = Vec::new();
        let mut i: usize = 0;
        while i < self.entries.len()
            invariant
                i <= self.entries.len(),
                entries@.len() == i,
                forall|j: int| 0 <= j < i ==> #[trigger] entries@[j].model() == self.entries@[j].model(),
            decreases self.entries.len() - i,
        {
            entries.push(self.entries[i].duplicate());
            i = i + 1;
        }
        let r = RustRaftWalRecord {
            group_id: self.group_id,
            node_id: self.node_id,
            hard_state: self.hard_state,
            membership: self.membership.duplicate(),
            entries,
            installed_snapshot: match &self.installed_snapshot {
                Some(s) => Some(s.duplicate()),
                None => None,
            },
            apply_snapshot_fence: self.apply_snapshot_fence,
            checksum: self.checksum.clone(),
        };
        proof {
            assert(r.model().entries =~= self.model().entries);
        }
        r
    }
}

/// The 64-bit FNV-1a offset basis.
pub open spec fn fnv_offset() -> u64 {
    14695981039346656037
}

/// The 64-bit FNV prime.
pub open spec fn fnv_prime() -> u64 {
    1099511628211
}

/// One FNV-1a step over a byte.
pub open spec fn fnv_byte(h: u64, b: u64) -> u64 {
    (h ^ b).wrapping_mul(fnv_prime())
}

/// FNV-1a over the `n` lowest bytes of `v`, least significant first.
pub open spec fn fnv_word(h: u64, v: u64, n: nat) -> u64
    decreases n,
{
    if n == 0 {
        h
    } else {
        fnv_byte(fnv_word(h, v, (n - 1) as nat), (v >> (8 * (n - 1)) as u64) & 0xff)
    }
}

/// FNV-1a over the little-endian bytes of each word in turn.
pub open spec fn fnv_words(ws: Seq<u64>) -> u64
    decreases ws.len(),
{
    if ws.len() == 0 {
        fnv_offset()
    } else {
        fnv_word(fnv_words(ws.drop_last()), ws.last(), 8)
    }
}

/// The words an entry contributes to a checksum: term, index, payload length.
pub open spec fn entries_words(es: Seq<EntryModel>) -> Seq<u64>
    decreases es.len(),
{
    if es.len() == 0 {
        seq![]
    } else {
        entries_words(es.drop_last()) + seq![
            es.last().log_id.term,
            es.last().log_id.index,
            es.last().payload.len() as u64,
        ]
    }
}

/// The words a record's checksum covers, in order: group, node, term, vote
/// (zero when none), the committed log id when there is one, each entry's
/// term, index and payload length, the installed snapshot's last log id when
/// there is one, and the four indexes of the fence. The membership, the
/// payload bytes and the checksum itself are not covered.
pub open spec fn checksum_words(r: WalRecordModel) -> Seq<u64> {
    seq![
        r.group_id,
        r.node_id,
        r.hard_state.current_term,
        match r.hard_state.voted_for {
            Some(v) => v,
            None => 0,
        },
    ] + match r.hard_state.committed {
        Some(c) => seq![c.term, c.index],
        None => seq![],
    } + entries_words(r.entries) + match r.installed_snapshot {
        Some(s) => seq![s.last_log_id.term, s.last_log_id.index],
        None => seq![],
    } + seq![
        r.fence.applied_index,
        r.fence.commit_index,
        r.fence.installed_snapshot_index,
        r.fence.first_retained_log_index,
    ]
}

/// The checksum of a record: FNV-1a of its covered words, as 16 hexadecimal digits.
pub open spec fn wal_checksum(r: WalRecordModel) -> Seq<char> {
    hex16_chars(fnv_words(checksum_words(r)))
}

/// A record whose stored checksum is the one computed from its contents.
pub open spec fn checksum_ok(r: WalRecordModel) -> bool {
    r.checksum == wal_checksum(r)
}

struct Fnv {
    hash: u64,
    words: Ghost<Seq<u64>>,
}

impl Fnv {
    spec fn inv(self) -> bool {
        self.hash == fnv_words(self.words@)
    }

    fn new() -> (r: Self)
        ensures
            r.inv(),
            r.words@ == Seq::<u64>::empty(),
    {
        Fnv { hash: 14_695_981_039_346_656_037u64, words: Ghost(Seq::empty()) }
    }

    fn mix(&mut self, value: u64)
        requires
            old(self).inv(),
        ensures
            final(self).inv(),
            final(self).words@ == old(self).words@.push(value),
    {
        let ghost start = self.hash;
        let mut i: u64 = 0;
        while i < 8
            invariant
                i <= 8,
                self.hash == fnv_word(start, value, i as nat),
                start == fnv_words(old(self).words@),
                self.words@ == old(self).words@,
            decreases 8 - i,
        {
            let byte = (value >> (8 * i)) & 0xff;
            self.hash = (self.hash ^ byte).wrapping_mul(1_099_511_628_211u64);
            i = i + 1;
        }
        proof {
            let w = self.words@.push(value);
            assert(w.drop_last() =~= self.words@);
            self.words = Ghost(w);
        }
    }

    fn mix_entries(&mut self, entries: &Vec<RustRaftLogEntry>)
        requires
            old(self).inv(),
        ensures
            final(self).inv(),
            final(self).words@ == old(self).words@ + entries_words(
                entries@.map_values(|e: RustRaftLogEntry| e.model()),
            ),
    {
        let ghost es = entries@.map_values(|e: RustRaftLogEntry| e.model());
        let mut i: usize = 0;
        proof {
            assert(es.subrange(0, 0) =~= Seq::<EntryModel>::empty());
            assert(old(self).words@ + Seq::<u64>::empty() =~= old(self).words@);
        }
        while i < entries.len()
            invariant
                self.inv(),
                i <= entries.len(),
                es == entries@.map_values(|e: RustRaftLogEntry| e.model()),
                self.words@ == old(self).words@ + entries_words(es.subrange(0, i as int)),
            decreases entries.len() - i,
        {
            let e = &entries[i];
            self.mix(e.log_id.term);
            self.mix(e.log_id.index);
            self.mix(e.payload.len() as u64);
            proof {
                assert(es.subrange(0, i + 1).drop_last() =~= es.subrange(0, i as int));
                assert(es[i as int] == e.model());
                assert(self.words@ =~= old(self).words@ + entries_words(es.subrange(0, i + 1)));
            }
            i = i + 1;
        }
        proof {
            assert(es.subrange(0, entries@.len() as int) =~= es);
        }
    }
}

/// The checksum of a record, computed from its contents.
#[verifier::spinoff_prover]
#[verifier::rlimit(50)]
pub fn rustraft_wal_checksum(record: &RustRaftWalRecord) -> (r: String)
    ensures
        r@ == wal_checksum(record.model()),
{
    let mut h = Fnv::new();
    h.mix(record.group_id);
    h.mix(record.node_id);
    h.mix(record.hard_state.current_term);
    h.mix(
        match record.hard_state.voted_for {
            Some(v) => v,
            None => 0,
        },
    );
    let ghost head = h.words@;
    match record.hard_state.committed {
        Some(c) => {
            h.mix(c.term);
            h.mix(c.index);
        },
        None => {},
    }
    let ghost with_commit = h.words@;
    h.mix_entries(&record.entries);
    let ghost with_entries = h.words@;
    match &record.installed_snapshot {
        Some(s) => {
            h.mix(s.last_log_id.term);
            h.mix(s.last_log_id.index);
        },
        None => {},
    }
    let ghost with_snapshot = h.words@;
    h.mix(record.apply_snapshot_fence.applied_index);
    h.mix(record.apply_snapshot_fence.commit_index);
    h.mix(record.apply_snapshot_fence.installed_snapshot_index);
    h.mix(record.apply_snapshot_fence.first_retained_log_index);
    proof {
        let m = record.model();
        assert(head =~= seq![
            m.group_id,
            m.node_id,
            m.hard_state.current_term,
            match m.hard_state.voted_for {
                Some(v) => v,
                None => 0,
            },
        ]);
        assert(with_commit =~= head + match m.hard_state.committed {
            Some(c) => seq![c.term, c.index],
            None => Seq::<u64>::empty(),
        });
        assert(with_snapshot =~= with_entries + match m.installed_snapshot {
            Some(s) => seq![s.last_log_id.term, s.last_log_id.index],
            None => Seq::<u64>::empty(),
        });
        assert(h.words@ =~= checksum_words(m));
    }
    u64_to_hex16(h.hash)
}

/// Whether a record's stored checksum is the one computed from its contents.
pub fn rustraft_wal_checksum_valid(record: &RustRaftWalRecord) -> (r: bool)
    ensures
        r == checksum_ok(record.model()),
{
    let expected = rustraft_wal_checksum(record);
    record.checksum == expected
}

/// The committed index a record carries, zero when none.
pub open spec fn committed_index(r: WalRecordModel) -> u64 {
    match r.hard_state.committed {
        Some(c) => c.index,
        None => 0,
    }
}

/// The first problem of a record's apply/snapshot fence, if any: applied
/// beyond committed, a commit index other than the hard state's, an installed
/// snapshot index other than the snapshot's, or retained log entries at or
/// below the installed snapshot.
pub open spec fn fence_error(r: WalRecordModel) -> Option<Seq<char>> {
    let committed = committed_index(r);
    if r.fence.applied_index > committed {
        Some("apply snapshot fence is ahead of committed index"@)
    } else if r.fence.commit_index != committed {
        Some("apply snapshot fence commit index does not match hard state"@)
    } else {
        match r.installed_snapshot {
            Some(s) => if r.fence.installed_snapshot_index != s.last_log_id.index {
                Some("apply snapshot fence does not match installed snapshot"@)
            } else if r.fence.first_retained_log_index > 0 && r.fence.first_retained_log_index
                <= s.last_log_id.index {
                Some("first retained log index overlaps installed snapshot"@)
            } else {
                None
            },
            None => None,
        }
    }
}

/// Checks a record's apply/snapshot fence against its hard state and
/// installed snapshot.
pub fn rustraft_validate_apply_snapshot_fence(record: &RustRaftWalRecord) -> (r: Result<(), RustRaftError>)
    ensures
        match fence_error(record.model()) {
            None => r is Ok,
            Some(m) => r matches Err(RustRaftError::Storage(s)) && s@ == m,
        },
{
    let fence = &record.apply_snapshot_fence;
    let committed_index = match record.hard_state.committed {
        Some(c) => c.index,
        None => 0,
    };
    if fence.applied_index > committed_index {
        return Err(storage_error("apply snapshot fence is ahead of committed index"));
    }
    if fence.commit_index != committed_index {
        return Err(storage_error("apply snapshot fence commit index does not match hard state"));
    }
    match &record.installed_snapshot {
        Some(snapshot) => {
            if fence.installed_snapshot_index != snapshot.last_log_id.index {
                return Err(storage_error("apply snapshot fence does not match installed snapshot"));
            }
            if fence.first_retained_log_index > 0 && fence.first_retained_log_index <= snapshot.last_log_id.index {
                return Err(storage_error("first retained log index overlaps installed snapshot"));
            }
        },
        None => {},
    }
    Ok(())
}

/// The first problem of a snapshot floor against the retained log, if any:
/// retained entries at or below the floor, a previous log id below the floor,
/// or one at the floor with another term.
pub open spec fn floor_error(snapshot_last: RustRaftLogId, first_retained: u64, prev: Option<RustRaftLogId>) -> Option<
    Seq<char>,
> {
    if first_retained > 0 && first_retained <= snapshot_last.index {
        Some("first retained log index overlaps snapshot floor"@)
    } else {
        match prev {
            Some(p) => if p.index < snapshot_last.index {
                Some("previous log id is below snapshot floor"@)
            } else if p.index == snapshot_last.index && p.term != snapshot_last.term {
                Some("snapshot floor term does not match previous log id"@)
            } else {
                None
            },
            None => None,
        }
    }
}

/// Checks that the retained log and the previous log id agree with a snapshot floor.
pub fn rustraft_validate_snapshot_floor_log_matching(
    snapshot: &RustRaftSnapshotMeta,
    first_retained_log_index: RustRaftLogIndex,
    prev_log_id: Option<&RustRaftLogId>,
) -> (r: Result<(), RustRaftError>)
    ensures
        match floor_error(
            snapshot.last_log_id,
            first_retained_log_index,
            match prev_log_id {
                Some(p) => Some(*p),
                None => None,
            },
        ) {
            None => r is Ok,
            Some(m) => r matches Err(RustRaftError::Storage(s)) && s@ == m,
        },
{
    if first_retained_log_index > 0 && first_retained_log_index <= snapshot.last_log_id.index {
        return Err(storage_error("first retained log index overlaps snapshot floor"));
    }
    match prev_log_id {
        Some(prev) => {
            if prev.index < snapshot.last_log_id.index {
                return Err(storage_error("previous log id is below snapshot floor"));
            }
            if prev.index == snapshot.last_log_id.index && prev.term != snapshot.last_log_id.term {
                return Err(storage_error("snapshot floor term does not match previous log id"));
            }
        },
        None => {},
    }
    Ok(())
}

/// The first problem of installing a snapshot under a fence, if any.
pub open spec fn install_error(snapshot_last: RustRaftLogId, fence: RustRaftApplySnapshotFence) -> Option<Seq<char>> {
    if fence.installed_snapshot_index != snapshot_last.index {
        Some("snapshot install fence does not match snapshot last log index"@)
    } else {
        floor_error(snapshot_last, fence.first_retained_log_index, Some(snapshot_last))
    }
}

/// Checks that a fence records exactly the snapshot being installed and that
/// its retained log starts above the snapshot.
pub fn rustraft_validate_snapshot_install(snapshot: &RaftSnapshot, fence: &RustRaftApplySnapshotFence) -> (r: Result<
    (),
    RustRaftError,
>)
    ensures
        match install_error(snapshot.meta.last_log_id, *fence) {
            None => r is Ok,
            Some(m) => r matches Err(RustRaftError::Storage(s)) && s@ == m,
        },
{
    if fence.installed_snapshot_index != snapshot.meta.last_log_id.index {
        return Err(storage_error("snapshot install fence does not match snapshot last log index"));
    }
    rustraft_validate_snapshot_floor_log_matching(
        &snapshot.meta,
        fence.first_retained_log_index,
        Some(&snapshot.meta.last_log_id),
    )
}

/// How many leading records carry a valid checksum.
pub open spec fn valid_prefix_len(rs: Seq<WalRecordModel>) -> nat
    decreases rs.len(),
{
    if rs.len() == 0 || !checksum_ok(rs[0]) {
        0
    } else {
        1 + valid_prefix_len(rs.drop_first())
    }
}

/// Among the records with a sound fence, the position of the last one with
/// the greatest committed index, if any.
pub open spec fn latest_position(rs: Seq<WalRecordModel>) -> Option<int>
    decreases rs.len(),
{
    if rs.len() == 0 {
        None
    } else {
        let i = rs.len() - 1;
        let best = latest_position(rs.drop_last());
        if fence_error(rs[i]) is Some {
            best
        } else {
            match best {
                None => Some(i),
                Some(j) => if committed_index(rs[i]) >= committed_index(rs[j]) {
                    Some(i)
                } else {
                    Some(j)
                },
            }
        }
    }
}

/// The record recovery picks: within the leading records with valid
/// checksums, the last one with the greatest committed index among those
/// whose fence is sound.
pub open spec fn recovered_position(rs: Seq<WalRecordModel>) -> Option<int> {
    latest_position(rs.take(valid_prefix_len(rs) as int))
}

pub proof fn lemma_latest_position_in_range(rs: Seq<WalRecordModel>)
    ensures
        latest_position(rs) matches Some(i) ==> 0 <= i < rs.len(),
    decreases rs.len(),
{
    if rs.len() > 0 {
        lemma_latest_position_in_range(rs.drop_last());
    }
}

proof fn lemma_latest_position_newest(rs: Seq<WalRecordModel>)
    ensures
        latest_position(rs) is None <==> forall|j: int| 0 <= j < rs.len() ==> (#[trigger] fence_error(rs[j])) is Some,
        latest_position(rs) matches Some(i) ==> {
            &&& 0 <= i < rs.len()
            &&& fence_error(rs[i]) is None
            &&& forall|j: int| 0 <= j < rs.len() && (#[trigger] fence_error(rs[j])) is None ==> committed_index(rs[j])
                <= committed_index(rs[i])
            &&& forall|j: int| i < j < rs.len() && (#[trigger] fence_error(rs[j])) is None ==> committed_index(rs[j])
                < committed_index(rs[i])
        },
    decreases rs.len(),
{
    if rs.len() > 0 {
        let init = rs.drop_last();
        lemma_latest_position_newest(init);
        assert forall|j: int| 0 <= j < init.len() implies init[j] == rs[j] by {}
    }
}

/// Recovery picks the newest sound record: among the leading records whose
/// checksums hold, it fails exactly when no record has a sound fence, and
/// otherwise picks one with a sound fence whose committed index is the
/// greatest, the last such one.
pub proof fn law_recovery_picks_newest_sound_record(rs: Seq<WalRecordModel>)
    ensures
        ({
            let p = rs.take(valid_prefix_len(rs) as int);
            &&& forall|j: int| 0 <= j < p.len() ==> checksum_ok(#[trigger] p[j])
            &&& valid_prefix_len(rs) < rs.len() ==> !checksum_ok(rs[valid_prefix_len(rs) as int])
            &&& recovered_position(rs) is None <==> forall|j: int| 0 <= j < p.len() ==> (#[trigger] fence_error(p[j])) is Some
            &&& recovered_position(rs) matches Some(i) ==> {
                &&& 0 <= i < p.len()
                &&& fence_error(p[i]) is None
                &&& forall|j: int| 0 <= j < p.len() && (#[trigger] fence_error(p[j])) is None ==> committed_index(p[j])
                    <= committed_index(p[i])
                &&& forall|j: int| i < j < p.len() && (#[trigger] fence_error(p[j])) is None ==> committed_index(p[j])
                    < committed_index(p[i])
            }
        }),
{
    lemma_valid_prefix_len_le(rs);
    lemma_valid_prefix_checksums(rs);
    lemma_latest_position_newest(rs.take(valid_prefix_len(rs) as int));
}

proof fn lemma_valid_prefix_checksums(rs: Seq<WalRecordModel>)
    ensures
        forall|j: int| 0 <= j < valid_prefix_len(rs) ==> checksum_ok(#[trigger] rs[j]),
        valid_prefix_len(rs) < rs.len() ==> !checksum_ok(rs[valid_prefix_len(rs) as int]),
    decreases rs.len(),
{
    if rs.len() > 0 && checksum_ok(rs[0]) {
        let rest = rs.drop_first();
        lemma_valid_prefix_checksums(rest);
        lemma_valid_prefix_len_le(rest);
        assert forall|j: int| 0 <= j < valid_prefix_len(rs) implies checksum_ok(#[trigger] rs[j]) by {
            if j > 0 {
                assert(rs[j] == rest[j - 1]);
            }
        }
        if valid_prefix_len(rs) < rs.len() {
            assert(rs[valid_prefix_len(rs) as int] == rest[valid_prefix_len(rest) as int]);
        }
    }
}

pub proof fn lemma_valid_prefix_len_le(rs: Seq<WalRecordModel>)
    ensures
        valid_prefix_len(rs) <= rs.len(),
    decreases rs.len(),
{
    if rs.len() > 0 {
        lemma_valid_prefix_len_le(rs.drop_first());
    }
}

/// The models of a slice of records.
pub open spec fn record_models(rs: Seq<RustRaftWalRecord>) -> Seq<WalRecordModel> {
    rs.map_values(|r: RustRaftWalRecord| r.model())
}

/// Recovers the latest trustworthy record: reading stops at the first record
/// with a bad checksum, records with an unsound fence are skipped, and of the
/// rest the last one with the greatest committed index is returned.
pub fn rustraft_recover_latest_wal_record(records: &[RustRaftWalRecord]) -> (r: Result<
    RustRaftWalRecord,
    RustRaftError,
>)
    ensures
        match recovered_position(record_models(records@)) {
            None => r matches Err(RustRaftError::Storage(s)) && s@ == "no valid WAL record survived recovery"@,
            Some(i) => r matches Ok(rec) && rec.model() == record_models(records@)[i],
        },
{
    let ghost ms = record_models(records@);
    let ghost n = valid_prefix_len(ms);
    let mut best: Option<usize> = None;
    let mut i: usize = 0;
    let mut stop = false;
    proof {
        lemma_valid_prefix_len_le(ms);
        assert(ms.skip(0) =~= ms);
        assert(ms.take(0) =~= Seq::<WalRecordModel>::empty());
    }
    while !stop && i < records.len()
        invariant
            ms == record_models(records@),
            n == valid_prefix_len(ms),
            i <= records.len(),
            stop ==> i == n,
            !stop ==> n == i + valid_prefix_len(ms.skip(i as int)),
            match best {
                None => latest_position(ms.take(i as int)) is None,
                Some(b) => latest_position(ms.take(i as int)) == Some(b as int),
            },
        decreases records.len() - i + (if stop { 0int } else { 1int }),
    {
        let rec = &records[i];
        proof {
            assert(ms[i as int] == rec.model());
            assert(ms.skip(i as int)[0] == ms[i as int]);
            assert(ms.skip(i as int).drop_first() =~= ms.skip(i + 1));
        }
        if !rustraft_wal_checksum_valid(rec) {
            stop = true;
        } else {
            let sound = rustraft_validate_apply_snapshot_fence(rec).is_ok();
            let key = match rec.hard_state.committed {
                Some(c) => c.index,
                None => 0,
            };
            proof {
                assert(ms.take(i + 1).drop_last() =~= ms.take(i as int));
                lemma_latest_position_in_range(ms.take(i as int));
            }
            if sound {
                best = match best {
                    None => Some(i),
                    Some(b) => {
                        let bkey = match records[b].hard_state.committed {
                            Some(c) => c.index,
                            None => 0,
                        };
                        proof {
                            assert(ms[b as int] == records@[b as int].model());
                            assert(ms.take(i as int)[b as int] == ms[b as int]);
                        }
                        if key >= bkey {
                            Some(i)
                        } else {
                            Some(b)
                        }
                    },
                };
            }
            i = i + 1;
        }
    }
    proof {
        if !stop {
            assert(ms.skip(i as int) =~= Seq::<WalRecordModel>::empty());
        }
    }
    match best {
        None => Err(storage_error("no valid WAL record survived recovery")),
        Some(b) => {
            proof {
                lemma_latest_position_in_range(ms.take(i as int));
                assert(ms.take(i as int)[b as int] == ms[b as int]);
            }
            Ok(records[b].duplicate())
        },
    }
}

/// The log index a record is filed under: its committed index, else the
/// index of its last entry, else zero.
pub open spec fn record_index(r: WalRecordModel) -> u64 {
    match r.hard_state.committed {
        Some(c) => c.index,
        None => if r.entries.len() > 0 {
            r.entries.last().log_id.index
        } else {
            0
        },
    }
}

pub fn wal_record_index(record: &RustRaftWalRecord) -> (r: RustRaftLogIndex)
    ensures
        r == record_index(record.model()),
{
    match record.hard_state.committed {
        Some(c) => c.index,
        None => if record.entries.len() > 0 {
            record.entries[record.entries.len() - 1].log_id.index
        } else {
            0
        },
    }
}

/// A run of WAL records; only the last segment is open for appends.
#[derive(Debug, Clone, PartialEq, Eq)]
pub struct RaftWalSegment {
    pub segment_id: u64,
    pub first_index: RustRaftLogIndex,
    pub last_index: RustRaftLogIndex,
    pub records: Vec<RaftWalRecord>,
    pub sealed: bool,
}

/// A segment as plain values.
pub struct SegmentModel {
    pub segment_id: u64,
    pub first_index: u64,
    pub last_index: u64,
    pub records: Seq<WalRecordModel>,
    pub sealed: bool,
}

impl RaftWalSegment {
    pub open spec fn model(self) -> SegmentModel {
        SegmentModel {
            segment_id: self.segment_id,
            first_index: self.first_index,
            last_index: self.last_index,
            records: record_models(self.records@),
            sealed: self.sealed,
        }
    }
}

/// A segment after `r` is added to it: the record at the end, the segment's
/// last index the record's index, and its first index too when it was empty.
pub open spec fn segment_with_record(seg: SegmentModel, r: WalRecordModel) -> SegmentModel {
    let index = record_index(r);
    SegmentModel {
        first_index: if seg.records.len() == 0 { index } else { seg.first_index },
        last_index: index,
        records: seg.records.push(r),
        ..seg
    }
}

/// Adds `record` to the end of `segment`, updating its index range.
pub fn wal_segment_push(segment: &mut RaftWalSegment, record: RaftWalRecord)
    ensures
        final(segment).model() == segment_with_record(old(segment).model(), record.model()),
{
    let index = wal_record_index(&record);
    if segment.records.len() == 0 {
        segment.first_index = index;
    }
    segment.last_index = index;
    let ghost recs_before = segment.records@;
    let ghost rm = record.model();
    segment.records.push(record);
    proof {
        assert(record_models(segment.records@) =~= record_models(recs_before).push(rm));
    }
}

/// An open, empty segment.
pub open spec fn empty_segment(segment_id: u64) -> SegmentModel {
    SegmentModel { segment_id, first_index: 0, last_index: 0, records: seq![], sealed: false }
}

/// The models of a sequence of segments.
pub open spec fn segment_models(s: Seq<RaftWalSegment>) -> Seq<SegmentModel> {
    s.map_values(|x: RaftWalSegment| x.model())
}

/// The records of the segments, in order.
pub open spec fn all_records(segments: Seq<SegmentModel>) -> Seq<WalRecordModel>
    decreases segments.len(),
{
    if segments.len() == 0 {
        seq![]
    } else {
        all_records(segments.drop_last()) + segments.last().records
    }
}

/// An in-memory WAL as plain values.
pub struct LocalWalModel {
    pub max_records_per_segment: usize,
    pub segments: Seq<SegmentModel>,
    pub next_segment_id: u64,
}

/// A record with its checksum recomputed from its contents.
pub open spec fn sealed_record(r: WalRecordModel) -> WalRecordModel {
    WalRecordModel { checksum: wal_checksum(r), ..r }
}

impl LocalWalModel {
    /// A fresh WAL: one open, empty segment with id zero.
    pub open spec fn fresh(max_records_per_segment: usize) -> Self {
        LocalWalModel { max_records_per_segment, segments: seq![empty_segment(0)], next_segment_id: 1 }
    }

    /// Whether the next append opens a new segment: there is none, or the
    /// last one is full.
    pub open spec fn rolls(self) -> bool {
        self.segments.len() == 0 || self.segments.last().records.len() >= self.max_records_per_segment
    }

    /// The WAL after appending `r` (whose checksum is already set): when it
    /// rolls, the last segment is sealed and a new one opened under the next
    /// id; then `r` goes to the last segment, which is filed from the index
    /// of its first record to that of its last.
    pub open spec fn appended(self, r: WalRecordModel) -> Self {
        let segs = if self.rolls() {
            (if self.segments.len() > 0 {
                self.segments.update(
                    self.segments.len() - 1,
                    SegmentModel { sealed: true, ..self.segments.last() },
                )
            } else {
                self.segments
            }).push(empty_segment(self.next_segment_id))
        } else {
            self.segments
        };
        LocalWalModel {
            segments: segs.update(segs.len() - 1, segment_with_record(segs.last(), r)),
            next_segment_id: if self.rolls() { (self.next_segment_id + 1) as u64 } else { self.next_segment_id },
            ..self
        }
    }

    /// The WAL after appending each record in turn.
    /// The WAL with its last record's checksum overwritten.
    pub open spec fn with_corrupt_tail(self) -> Self {
        let last = self.segments.last();
        let rec = last.records.last();
        LocalWalModel {
            segments: self.segments.update(
                self.segments.len() - 1,
                SegmentModel {
                    records: last.records.update(last.records.len() - 1, WalRecordModel { checksum: "corrupt-tail"@, ..rec }),
                    ..last
                },
            ),
            ..self
        }
    }

    pub open spec fn appended_all(self, rs: Seq<WalRecordModel>) -> Self
        decreases rs.len(),
    {
        if rs.len() == 0 {
            self
        } else {
            self.appended_all(rs.drop_last()).appended(sealed_record(rs.last()))
        }
    }
}

/// How many records remain once the trailing records with a bad checksum are dropped.
pub open spec fn trimmed_len(rs: Seq<WalRecordModel>) -> nat
    decreases rs.len(),
{
    if rs.len() == 0 {
        0
    } else if checksum_ok(rs.last()) {
        rs.len()
    } else {
        trimmed_len(rs.drop_last())
    }
}

/// What a recovery found.
#[derive(Debug, Clone, PartialEq, Eq)]
pub struct RaftWalRecoveryReport {
    pub recovered: Option<RaftWalRecord>,
    pub truncated_corrupt_tail: bool,
    pub surviving_records: usize,
    pub removed_records: usize,
}

/// An in-memory WAL split into segments of at most `max_records_per_segment` records.
#[derive(Debug, Clone)]
pub struct LocalRaftWal {
    pub max_records_per_segment: usize,
    segments: Vec<RaftWalSegment>,
    next_segment_id: u64,
}

impl View for LocalRaftWal {
    type V = LocalWalModel;

    closed spec fn view(&self) -> LocalWalModel {
        LocalWalModel {
            max_records_per_segment: self.max_records_per_segment,
            segments: segment_models(self.segments@),
            next_segment_id: self.next_segment_id,
        }
    }
}

fn empty_segment_exec(segment_id: u64) -> (r: RaftWalSegment)
    ensures
        r.model() == empty_segment(segment_id),
{
    let r = RaftWalSegment { segment_id, first_index: 0, last_index: 0, records: Vec::new(), sealed: false };
    proof {
        assert(r.model().records =~= Seq::<WalRecordModel>::empty());
    }
    r
}

impl LocalRaftWal {
    /// A WAL with one open, empty segment; refused when segments could hold no record.
    pub fn new(max_records_per_segment: usize) -> (r: Result<Self, RustRaftError>)
        ensures
            max_records_per_segment == 0 ==> (r matches Err(RustRaftError::InvalidRequest(m))
                && m@ == "max_records_per_segment must be greater than zero"@),
            max_records_per_segment > 0 ==> (r matches Ok(w) && w@ == LocalWalModel::fresh(max_records_per_segment)),
    {
        if max_records_per_segment == 0 {
            return Err(invalid_request("max_records_per_segment must be greater than zero"));
        }
        let w = LocalRaftWal { max_records_per_segment, segments: vec![empty_segment_exec(0)], next_segment_id: 1 };
        proof {
            assert(w@.segments =~= seq![empty_segment(0)]);
        }
        Ok(w)
    }

    /// Appends a record after setting its checksum; returns the checksum.
    pub fn append(&mut self, record: RustRaftWalRecord) -> (r: Result<String, RustRaftError>)
        requires
            old(self)@.rolls() ==> old(self)@.next_segment_id < u64::MAX,
        ensures
            r matches Ok(c) && c@ == wal_checksum(record.model()),
            final(self)@ == old(self)@.appended(sealed_record(record.model())),
    {
        let ghost o = self@;
        let ghost orig = record.model();
        let mut record = record;
        let checksum = rustraft_wal_checksum(&record);
        record.checksum = checksum.clone();
        proof {
            assert(record.model().entries =~= orig.entries);
            assert(record.model() == sealed_record(orig));
        }
        let n = self.segments.len();
        let rolls = n == 0 || self.segments[n - 1].records.len() >= self.max_records_per_segment;
        if rolls {
            if n > 0 {
                let mut last = self.segments.pop().unwrap();
                last.sealed = true;
                self.segments.push(last);
                proof {
                    assert(segment_models(self.segments@) =~= o.segments.update(
                        o.segments.len() - 1,
                        SegmentModel { sealed: true, ..o.segments.last() },
                    ));
                }
            }
            let ghost before_push = self.segments@;
            self.segments.push(empty_segment_exec(self.next_segment_id));
            proof {
                assert(segment_models(self.segments@) =~= segment_models(before_push).push(
                    empty_segment(o.next_segment_id),
                ));
            }
            self.next_segment_id = self.next_segment_id + 1;
        }
        let ghost segs = segment_models(self.segments@);
        let mut last = self.segments.pop().unwrap();
        proof {
            assert(last.model() == segs.last());
        }
        wal_segment_push(&mut last, record);
        let ghost popped = self.segments@;
        self.segments.push(last);
        proof {
            assert(segment_models(self.segments@) =~= segs.update(segs.len() - 1, last.model()));
        }
        Ok(checksum)
    }

    /// The segments, oldest first.
    pub fn segments(&self) -> (r: &[RaftWalSegment])
        ensures
            segment_models(r@) == self@.segments,
    {
        self.segments.as_slice()
    }

    /// Copies of every record, oldest first.
    pub fn records(&self) -> (r: Vec<RaftWalRecord>)
        ensures
            record_models(r@) == all_records(self@.segments),
    {
        let ghost segs = self@.segments;
        let mut out: Vec<RaftWalRecord> = Vec::new();
        let mut i: usize = 0;
        proof {
            assert(segs.take(0) =~= Seq::<SegmentModel>::empty());
            assert(record_models(out@) =~= Seq::<WalRecordModel>::empty());
        }
        while i < self.segments.len()
            invariant
                segs == self@.segments,
                segs.len() == self.segments@.len(),
                i <= segs.len(),
                record_models(out@) == all_records(segs.take(i as int)),
            decreases segs.len() - i,
        {
            let seg = &self.segments[i];
            let ghost before = record_models(out@);
            let mut j: usize = 0;
            proof {
                assert(seg.model() == segs[i as int]);
                assert(before + seg.model().records.take(0) =~= before);
            }
            while j < seg.records.len()
                invariant
                    j <= seg.records@.len(),
                    record_models(out@) == before + seg.model().records.take(j as int),
                decreases seg.records@.len() - j,
            {
                let ghost prev = out@;
                out.push(seg.records[j].duplicate());
                proof {
                    assert(record_models(out@) =~= record_models(prev).push(seg.records@[j as int].model()));
                    assert(seg.model().records.take(j + 1) =~= seg.model().records.take(j as int).push(
                        seg.records@[j as int].model(),
                    ));
                    assert(record_models(out@) =~= before + seg.model().records.take(j + 1));
                }
                j = j + 1;
            }
            proof {
                assert(seg.model().records.take(seg.records@.len() as int) =~= seg.model().records);
                assert(segs.take(i + 1).drop_last() =~= segs.take(i as int));
            }
            i = i + 1;
        }
        proof {
            assert(segs.take(segs.len() as int) =~= segs);
        }
        out
    }

    /// Rebuilds the WAL from scratch by appending the records in order.
    fn rebuild_from_records(&mut self, records: Vec<RaftWalRecord>) -> (r: Result<(), RustRaftError>)
        ensures
            old(self)@.max_records_per_segment == 0 ==> (r matches Err(RustRaftError::InvalidRequest(m))
                && m@ == "max_records_per_segment must be greater than zero"@ && final(self)@ == old(self)@),
            old(self)@.max_records_per_segment > 0 ==> (r is Ok && final(self)@ == LocalWalModel::fresh(
                old(self)@.max_records_per_segment,
            ).appended_all(record_models(records@))),
    {
        let max_records_per_segment = self.max_records_per_segment;
        let fresh = LocalRaftWal::new(max_records_per_segment);
        match fresh {
            Err(e) => Err(e),
            Ok(w) => {
                *self = w;
                let ghost rs = record_models(records@);
                let mut i: usize = 0;
                proof {
                    assert(rs.take(0) =~= Seq::<WalRecordModel>::empty());
                }
                while i < records.len()
                    invariant
                        max_records_per_segment > 0,
                        rs == record_models(records@),
                        i <= records@.len(),
                        self@ == LocalWalModel::fresh(max_records_per_segment).appended_all(rs.take(i as int)),
                        (i == 0 && self@.next_segment_id == 1) || (i >= 1 && self@.next_segment_id <= i),
                    decreases records@.len() - i,
                {
                    proof {
                        if i == 0 {
                            assert(self@.segments.last() == empty_segment(0));
                        }
                        assert(rs.take(i + 1).drop_last() =~= rs.take(i as int));
                    }
                    let record = records[i].duplicate();
                    let _ = self.append(record);
                    i = i + 1;
                }
                proof {
                    assert(rs.take(records@.len() as int) =~= rs);
                }
                Ok(())
            },
        }
    }

    /// Drops the trailing records whose checksum is bad, rebuilding the WAL
    /// from the survivors when any was dropped, and reports the latest
    /// trustworthy record among them.
    pub fn recover(&mut self) -> (r: Result<RaftWalRecoveryReport, RustRaftError>)
        ensures
            ({
                let o = old(self)@;
                let all = all_records(o.segments);
                let k = trimmed_len(all);
                let kept = all.take(k as int);
                let truncated = k != all.len();
                if truncated && o.max_records_per_segment == 0 {
                    &&& r matches Err(RustRaftError::InvalidRequest(m))
                        && m@ == "max_records_per_segment must be greater than zero"@
                    &&& final(self)@ == o
                } else {
                    &&& r matches Ok(rep) && {
                        &&& rep.truncated_corrupt_tail == truncated
                        &&& rep.surviving_records == k
                        &&& rep.removed_records == all.len() - k
                        &&& match recovered_position(kept) {
                            None => rep.recovered is None,
                            Some(i) => rep.recovered matches Some(x) && x.model() == kept[i],
                        }
                    }
                    &&& final(self)@ == if truncated {
                        LocalWalModel::fresh(o.max_records_per_segment).appended_all(kept)
                    } else {
                        o
                    }
                }
            }),
    {
        let ghost all = all_records(self@.segments);
        let mut records = self.records();
        let original_len = records.len();
        proof {
            assert(all.take(all.len() as int) =~= all);
        }
        while records.len() > 0 && !rustraft_wal_checksum_valid(&records[records.len() - 1])
            invariant
                record_models(records@) == all.take(records@.len() as int),
                records@.len() <= all.len(),
                trimmed_len(all) == trimmed_len(record_models(records@)),
                original_len == all.len(),
            decreases records@.len(),
        {
            let ghost before = record_models(records@);
            proof {
                assert(before.last() == records@[records@.len() - 1].model());
                assert(!checksum_ok(before.last()));
            }
            records.pop();
            proof {
                assert(record_models(records@) =~= before.drop_last());
                assert(all.take(records@.len() as int) =~= before.drop_last());
            }
        }
        proof {
            let ms = record_models(records@);
            if ms.len() > 0 {
                assert(checksum_ok(ms.last()));
            }
        }
        let recovered = rustraft_recover_latest_wal_record(records.as_slice()).ok();
        let surviving = records.len();
        let truncated = surviving != original_len;
        if truncated {
            match self.rebuild_from_records(records) {
                Err(e) => {
                    return Err(e);
                },
                Ok(()) => {},
            }
        }
        Ok(RaftWalRecoveryReport {
            recovered,
            truncated_corrupt_tail: truncated,
            surviving_records: surviving,
            removed_records: original_len - surviving,
        })
    }

    /// Overwrites the checksum of the last record of the last segment, for
    /// exercising recovery; fails when that segment holds no record.
    pub fn corrupt_tail_for_test(&mut self) -> (r: Result<(), RustRaftError>)
        ensures
            ({
                let o = old(self)@;
                if o.segments.len() == 0 || o.segments.last().records.len() == 0 {
                    &&& r matches Err(RustRaftError::Storage(m)) && m@ == "WAL has no tail record"@
                    &&& final(self)@ == o
                } else {
                    &&& r is Ok
                    &&& final(self)@ == o.with_corrupt_tail()
                }
            }),
    {
        let n = self.segments.len();
        if n == 0 || self.segments[n - 1].records.len() == 0 {
            return Err(storage_error("WAL has no tail record"));
        }
        let ghost o = self@;
        let mut last = self.segments.pop().unwrap();
        let mut rec = last.records.pop().unwrap();
        let ghost rm = rec.model();
        rec.checksum = String::from_str("corrupt-tail");
        proof {
            assert(rec.model() == (WalRecordModel { checksum: "corrupt-tail"@, ..rm }));
        }
        let ghost recs = last.records@;
        last.records.push(rec);
        proof {
            assert(record_models(last.records@) =~= o.segments.last().records.update(
                o.segments.last().records.len() - 1,
                WalRecordModel { checksum: "corrupt-tail"@, ..rm },
            ));
        }
        self.segments.push(last);
        proof {
            assert(self@.segments =~= o.segments.update(o.segments.len() - 1, last.model()));
        }
        Ok(())
    }
}

proof fn lemma_all_records_update_last(segs: Seq<SegmentModel>, s: SegmentModel)
    requires
        segs.len() > 0,
    ensures
        all_records(segs.update(segs.len() - 1, s)) == all_records(segs.drop_last()) + s.records,
{
    assert(segs.update(segs.len() - 1, s).drop_last() =~= segs.drop_last());
}

proof fn lemma_all_records_push_empty(segs: Seq<SegmentModel>, id: u64)
    ensures
        all_records(segs.push(empty_segment(id))) == all_records(segs),
{
    assert(segs.push(empty_segment(id)).drop_last() =~= segs);
    assert(all_records(segs) + Seq::<WalRecordModel>::empty() =~= all_records(segs));
}

/// Appending adds exactly the appended record at the end of the WAL's records.
pub proof fn lemma_appended_records(w: LocalWalModel, r: WalRecordModel)
    ensures
        all_records(w.appended(r).segments) == all_records(w.segments).push(r),
{
    let segs = w.segments;
    if w.rolls() {
        let sealed = if segs.len() > 0 {
            segs.update(segs.len() - 1, SegmentModel { sealed: true, ..segs.last() })
        } else {
            segs
        };
        if segs.len() > 0 {
            lemma_all_records_update_last(segs, SegmentModel { sealed: true, ..segs.last() });
            assert(all_records(segs) == all_records(segs.drop_last()) + segs.last().records);
        }
        assert(all_records(sealed) == all_records(segs));
        let segs1 = sealed.push(empty_segment(w.next_segment_id));
        lemma_all_records_push_empty(sealed, w.next_segment_id);
        let last = segs1.last();
        let index = record_index(r);
        let new_last = SegmentModel {
            first_index: if last.records.len() == 0 { index } else { last.first_index },
            last_index: index,
            records: last.records.push(r),
            ..last
        };
        lemma_all_records_update_last(segs1, new_last);
        assert(segs1.drop_last() =~= sealed);
        assert(last.records =~= Seq::<WalRecordModel>::empty());
        assert(all_records(sealed) + seq![r] =~= all_records(sealed).push(r));
    } else {
        let last = segs.last();
        let index = record_index(r);
        let new_last = SegmentModel {
            first_index: if last.records.len() == 0 { index } else { last.first_index },
            last_index: index,
            records: last.records.push(r),
            ..last
        };
        lemma_all_records_update_last(segs, new_last);
        assert(all_records(segs.drop_last()) + last.records.push(r) =~= (all_records(segs.drop_last())
            + last.records).push(r));
    }
}

/// A record sealed by an append carries a valid checksum.
pub proof fn law_sealed_record_checksum_valid(r: WalRecordModel)
    ensures
        checksum_ok(sealed_record(r)),
{
    assert(checksum_words(sealed_record(r)) =~= checksum_words(r));
}

/// The records of a WAL written only by appends are exactly the appended
/// records, each sealed with its checksum.
pub proof fn lemma_appended_all_records(max_records_per_segment: usize, rs: Seq<WalRecordModel>)
    ensures
        all_records(LocalWalModel::fresh(max_records_per_segment).appended_all(rs).segments)
            == rs.map_values(|x: WalRecordModel| sealed_record(x)),
    decreases rs.len(),
{
    let f = LocalWalModel::fresh(max_records_per_segment);
    if rs.len() == 0 {
        assert(f.segments.drop_last() =~= Seq::<SegmentModel>::empty());
        assert(all_records(f.segments.drop_last()) == Seq::<WalRecordModel>::empty());
        assert(f.segments.last() == empty_segment(0));
        assert(all_records(f.segments) == all_records(f.segments.drop_last()) + f.segments.last().records);
        assert(all_records(f.segments) =~= Seq::<WalRecordModel>::empty());
        assert(rs.map_values(|x: WalRecordModel| sealed_record(x)) =~= Seq::<WalRecordModel>::empty());
    } else {
        lemma_appended_all_records(max_records_per_segment, rs.drop_last());
        let w = f.appended_all(rs.drop_last());
        lemma_appended_records(w, sealed_record(rs.last()));
        assert(rs.map_values(|x: WalRecordModel| sealed_record(x)) =~= rs.drop_last().map_values(
            |x: WalRecordModel| sealed_record(x),
        ).push(sealed_record(rs.last())));
    }
}

/// Recovery of a WAL written only by appends drops nothing: every appended
/// record survives the trimming of corrupt trailing records.
pub proof fn law_appends_survive_recovery(max_records_per_segment: usize, rs: Seq<WalRecordModel>)
    ensures
        trimmed_len(all_records(LocalWalModel::fresh(max_records_per_segment).appended_all(rs).segments))
            == rs.len(),
{
    lemma_appended_all_records(max_records_per_segment, rs);
    let all = all_records(LocalWalModel::fresh(max_records_per_segment).appended_all(rs).segments);
    if rs.len() > 0 {
        assert(all.last() == sealed_record(rs.last()));
        law_sealed_record_checksum_valid(rs.last());
    }
}

/// The shape every WAL keeps: segments hold at most the configured number of
/// records, every segment but the last is sealed, the last is open, segment
/// ids strictly increase, and the next id is beyond them all.
pub open spec fn wal_shaped(w: LocalWalModel) -> bool {
    &&& w.max_records_per_segment > 0
    &&& w.segments.len() > 0
    &&& forall|i: int| 0 <= i < w.segments.len() ==> (#[trigger] w.segments[i]).records.len() <= w.max_records_per_segment
    &&& forall|i: int| 0 <= i < w.segments.len() - 1 ==> (#[trigger] w.segments[i]).sealed
    &&& !w.segments.last().sealed
    &&& forall|i: int, j: int|
        0 <= i < j < w.segments.len() ==> (#[trigger] w.segments[i]).segment_id < (#[trigger] w.segments[j]).segment_id
    &&& w.segments.last().segment_id < w.next_segment_id
}

proof fn lemma_appended_shaped(w: LocalWalModel, r: WalRecordModel)
    requires
        wal_shaped(w),
        w.rolls() ==> w.next_segment_id < u64::MAX,
    ensures
        wal_shaped(w.appended(r)),
        w.appended(r).next_segment_id <= w.next_segment_id + 1,
        w.appended(r).segments.last().last_index == record_index(r),
{
    let segs = w.segments;
    let n = w.appended(r);
    if w.rolls() {
        let sealed = segs.update(segs.len() - 1, SegmentModel { sealed: true, ..segs.last() });
        let segs1 = sealed.push(empty_segment(w.next_segment_id));
        assert(n.segments == segs1.update(segs1.len() - 1, segment_with_record(segs1.last(), r)));
        assert forall|i: int, j: int| 0 <= i < j < n.segments.len() implies (#[trigger] n.segments[i]).segment_id
            < (#[trigger] n.segments[j]).segment_id by {
            if j == n.segments.len() - 1 {
                assert(segs[i].segment_id <= segs.last().segment_id);
            }
        }
        assert forall|i: int| 0 <= i < n.segments.len() implies (#[trigger] n.segments[i]).records.len()
            <= n.max_records_per_segment by {
            if i < segs.len() {
                assert(n.segments[i].records == segs[i].records);
            }
        }
    } else {
        assert(n.segments == segs.update(segs.len() - 1, segment_with_record(segs.last(), r)));
        assert forall|i: int, j: int| 0 <= i < j < n.segments.len() implies (#[trigger] n.segments[i]).segment_id
            < (#[trigger] n.segments[j]).segment_id by {
            assert(n.segments[i].segment_id == segs[i].segment_id);
            assert(n.segments[j].segment_id == segs[j].segment_id);
        }
        assert forall|i: int| 0 <= i < n.segments.len() implies (#[trigger] n.segments[i]).records.len()
            <= n.max_records_per_segment by {
            if i < segs.len() - 1 {
                assert(n.segments[i] == segs[i]);
            }
        }
    }
}

/// A WAL written only by appends holds exactly the appended records, each
/// sealed with its checksum, in order, and keeps its shape: at most the configured
/// number of records per segment, only the last segment open, segment ids
/// strictly increasing; and its last segment ends at the index of the last
/// record appended.
pub proof fn law_appended_wal_shape(max_records_per_segment: usize, rs: Seq<WalRecordModel>)
    requires
        max_records_per_segment > 0,
        rs.len() + 1 < u64::MAX,
    ensures
        wal_shaped(LocalWalModel::fresh(max_records_per_segment).appended_all(rs)),
        LocalWalModel::fresh(max_records_per_segment).appended_all(rs).next_segment_id <= rs.len() + 1,
        rs.len() > 0 ==> LocalWalModel::fresh(max_records_per_segment).appended_all(rs).segments.last().last_index
            == record_index(sealed_record(rs.last())),
        all_records(LocalWalModel::fresh(max_records_per_segment).appended_all(rs).segments)
            == rs.map_values(|x: WalRecordModel| sealed_record(x)),
    decreases rs.len(),
{
    lemma_appended_all_records(max_records_per_segment, rs);
    let f = LocalWalModel::fresh(max_records_per_segment);
    if rs.len() > 0 {
        law_appended_wal_shape(max_records_per_segment, rs.drop_last());
        let w = f.appended_all(rs.drop_last());
        lemma_appended_shaped(w, sealed_record(rs.last()));
    }
}

proof fn lemma_appended_last_nonempty(w: LocalWalModel, r: WalRecordModel)
    ensures
        w.appended(r).segments.len() > 0,
        w.appended(r).segments.last().records.len() > 0,
        w.appended(r).segments.last().records.last() == r,
{
}

proof fn lemma_corrupt_records(w: LocalWalModel)
    requires
        w.segments.len() > 0,
        w.segments.last().records.len() > 0,
    ensures
        ({
            let all = all_records(w.segments);
            let bad = WalRecordModel { checksum: "corrupt-tail"@, ..w.segments.last().records.last() };
            &&& all.len() > 0
            &&& all_records(w.with_corrupt_tail().segments) == all.update(all.len() - 1, bad)
            &&& !checksum_ok(bad)
        }),
{
    let last = w.segments.last();
    let bad = WalRecordModel { checksum: "corrupt-tail"@, ..last.records.last() };
    let new_last = SegmentModel { records: last.records.update(last.records.len() - 1, bad), ..last };
    lemma_all_records_update_last(w.segments, new_last);
    let all = all_records(w.segments);
    assert(all == all_records(w.segments.drop_last()) + last.records);
    assert(all_records(w.with_corrupt_tail().segments) =~= all.update(all.len() - 1, bad));
    reveal_strlit("corrupt-tail");
    assert(wal_checksum(bad).len() == 16);
}

proof fn lemma_trim_drops_bad_last(all: Seq<WalRecordModel>, bad: WalRecordModel)
    requires
        all.len() > 0,
        !checksum_ok(bad),
        all.len() > 1 ==> checksum_ok(all[all.len() - 2]),
    ensures
        trimmed_len(all.update(all.len() - 1, bad)) == all.len() - 1,
        all.update(all.len() - 1, bad).take(all.len() - 1) == all.take(all.len() - 1),
{
    let c = all.update(all.len() - 1, bad);
    assert(c.drop_last() =~= all.take(all.len() - 1));
    assert(c.take(all.len() - 1) =~= all.take(all.len() - 1));
    assert(c.last() == bad);
    assert(trimmed_len(c) == trimmed_len(c.drop_last()));
    let d = c.drop_last();
    if all.len() > 1 {
        assert(d.last() == all[all.len() - 2]);
        assert(checksum_ok(d.last()));
        assert(trimmed_len(d) == d.len());
    } else {
        assert(d.len() == 0);
    }
}

proof fn lemma_sealed_fixed(rs: Seq<WalRecordModel>, k: int)
    requires
        0 <= k <= rs.len(),
    ensures
        ({
            let kept = rs.map_values(|x: WalRecordModel| sealed_record(x)).take(k);
            kept.map_values(|x: WalRecordModel| sealed_record(x)) == kept
        }),
{
    let kept = rs.map_values(|x: WalRecordModel| sealed_record(x)).take(k);
    assert forall|j: int| 0 <= j < kept.len() implies #[trigger] sealed_record(kept[j]) == kept[j] by {
        assert(kept[j] == sealed_record(rs[j]));
        assert(checksum_words(sealed_record(rs[j])) =~= checksum_words(rs[j]));
    }
    assert(kept.map_values(|x: WalRecordModel| sealed_record(x)) =~= kept);
}

/// Recovery after a corrupted tail: in a WAL written only by appends whose
/// last record's checksum was overwritten, exactly that record fails the
/// checksum trim, every earlier record survives unchanged, and the WAL
/// rebuilt from the survivors holds exactly them. Without the corruption
/// nothing is trimmed.
pub proof fn law_recovery_drops_corrupt_tail(max_records_per_segment: usize, rs: Seq<WalRecordModel>)
    requires
        max_records_per_segment > 0,
        rs.len() > 0,
        rs.len() + 1 < u64::MAX,
    ensures
        ({
            let w = LocalWalModel::fresh(max_records_per_segment).appended_all(rs);
            let all = all_records(w.segments);
            let corrupted = all_records(w.with_corrupt_tail().segments);
            let n = rs.len() as int;
            &&& w.segments.len() > 0 && w.segments.last().records.len() > 0
            &&& trimmed_len(all) == n
            &&& corrupted.len() == n
            &&& trimmed_len(corrupted) == n - 1
            &&& corrupted.take(n - 1) == all.take(n - 1)
            &&& all_records(LocalWalModel::fresh(max_records_per_segment).appended_all(corrupted.take(n - 1)).segments)
                == all.take(n - 1)
        }),
{
    let f = LocalWalModel::fresh(max_records_per_segment);
    let w = f.appended_all(rs);
    let n = rs.len() as int;
    lemma_appended_last_nonempty(f.appended_all(rs.drop_last()), sealed_record(rs.last()));
    law_appends_survive_recovery(max_records_per_segment, rs);
    lemma_appended_all_records(max_records_per_segment, rs);
    let all = all_records(w.segments);
    let sealed = rs.map_values(|x: WalRecordModel| sealed_record(x));
    assert(all == sealed);
    lemma_corrupt_records(w);
    let bad = WalRecordModel { checksum: "corrupt-tail"@, ..w.segments.last().records.last() };
    if n > 1 {
        assert(all[n - 2] == sealed_record(rs[n - 2]));
        law_sealed_record_checksum_valid(rs[n - 2]);
    }
    lemma_trim_drops_bad_last(all, bad);
    lemma_sealed_fixed(rs, n - 1);
    lemma_appended_all_records(max_records_per_segment, all.take(n - 1));
}

#[verifier::external_type_specification]
#[verifier::external_body]
pub struct ExPathBuf(PathBuf);

/// `PathBuf::clone` from std: a copy of the path; nothing is stated of it.
pub assume_specification[ <PathBuf as Clone>::clone ](p: &PathBuf) -> PathBuf;

/// Options of the file-backed WAL.
#[derive(Debug, Clone, PartialEq, Eq)]
pub struct PersistentRaftWalOptions {
    pub dir: PathBuf,
    pub max_records_per_segment: usize,
    pub max_segment_bytes: u64,
    pub min_keep_segments: usize,
    pub fsync_on_append: bool,
}

impl PersistentRaftWalOptions {
    /// Options for `dir` with segments of at most 10 000 records and 64 MiB,
    /// at least two segments kept, and an fsync on every append.
    pub fn new(dir: PathBuf) -> (r: Self)
        ensures
            r.dir == dir,
            r.max_records_per_segment == 10000,
            r.max_segment_bytes == 67108864,
            r.min_keep_segments == 2,
            r.fsync_on_append,
    {
        PersistentRaftWalOptions {
            dir,
            max_records_per_segment: 10_000,
            max_segment_bytes: 64 * 1024 * 1024,
            min_keep_segments: 2,
            fsync_on_append: true,
        }
    }

    /// Refuses zero limits, in this order: records per segment, segment
    /// bytes, kept segments.
    pub fn validate(&self) -> (r: Result<(), RustRaftError>)
        ensures
            self.max_records_per_segment == 0 ==> (r matches Err(RustRaftError::InvalidRequest(m))
                && m@ == "max_records_per_segment must be greater than zero"@),
            self.max_records_per_segment > 0 && self.max_segment_bytes == 0 ==> (r matches Err(
                RustRaftError::InvalidRequest(m),
            ) && m@ == "max_segment_bytes must be greater than zero"@),
            self.max_records_per_segment > 0 && self.max_segment_bytes > 0 && self.min_keep_segments == 0 ==> (
            r matches Err(RustRaftError::InvalidRequest(m)) && m@ == "min_keep_segments must be greater than zero"@),
            self.max_records_per_segment > 0 && self.max_segment_bytes > 0 && self.min_keep_segments > 0 ==> r is Ok,
    {
        if self.max_records_per_segment == 0 {
            return Err(invalid_request("max_records_per_segment must be greater than zero"));
        }
        if self.max_segment_bytes == 0 {
            return Err(invalid_request("max_segment_bytes must be greater than zero"));
        }
        if self.min_keep_segments == 0 {
            return Err(invalid_request("min_keep_segments must be greater than zero"));
        }
        Ok(())
    }
}

/// `s` left-padded with zeros to `width` characters.
pub open spec fn zero_padded(s: Seq<char>, width: nat) -> Seq<char> {
    if s.len() >= width {
        s
    } else {
        Seq::new((width - s.len()) as nat, |i: int| '0') + s
    }
}

/// The file name of a WAL segment: its id in decimal, zero padded to 20
/// digits, then `.wal`.
pub open spec fn segment_file_name(segment_id: u64) -> Seq<char> {
    zero_padded(decimal_chars(segment_id as nat), 20) + ".wal"@
}

pub fn wal_segment_file_name(segment_id: u64) -> (r: String)
    ensures
        r@ == segment_file_name(segment_id),
{
    let digits = u64_to_decimal(segment_id);
    let len = digits.as_str().unicode_len();
    let mut out = String::new();
    let mut i: usize = len;
    proof {
        reveal_strlit("0");
        assert(out@ =~= Seq::new((i - len) as nat, |j: int| '0'));
    }
    while i < 20
        invariant
            len == digits@.len(),
            len <= i <= 20 || (len > 20 && i == len),
            out@ == Seq::new((i - len) as nat, |j: int| '0'),
        decreases 20 - i,
    {
        out = out.concat("0");
        proof {
            reveal_strlit("0");
            assert("0"@ =~= seq!['0']);
            assert(out@ =~= Seq::new((i + 1 - len) as nat, |j: int| '0'));
        }
        i = i + 1;
    }
    let out = out.concat(digits.as_str());
    let out = out.concat(".wal");
    proof {
        if len >= 20 {
            assert(out@ =~= decimal_chars(segment_id as nat) + ".wal"@);
        } else {
            assert(out@ =~= Seq::new((20 - len) as nat, |j: int| '0') + decimal_chars(segment_id as nat) + ".wal"@);
        }
    }
    out
}

/// Whether an append must roll to a new segment first: the active segment is
/// full of records, or it holds some and the record would push it past the
/// byte limit.
pub open spec fn should_roll(active_records: nat, max_records: nat, active_len: nat, record_bytes: nat, max_bytes: nat) -> bool {
    active_records >= max_records || (active_records > 0 && active_len + record_bytes > max_bytes)
}

/// A segment rolls before the next record when it already holds the
/// configured number of records, or when it holds some record and the new
/// one would take it beyond its byte limit; an empty segment takes any
/// record, and a segment below both limits takes the record.
pub proof fn law_segment_roll_rule(active_records: nat, max_records: nat, active_len: nat, record_bytes: nat, max_bytes: nat)
    ensures
        active_records >= max_records ==> should_roll(active_records, max_records, active_len, record_bytes, max_bytes),
        active_records > 0 && active_len + record_bytes > max_bytes ==> should_roll(
            active_records,
            max_records,
            active_len,
            record_bytes,
            max_bytes,
        ),
        active_records < max_records && (active_records == 0 || active_len + record_bytes <= max_bytes) ==> !should_roll(
            active_records,
            max_records,
            active_len,
            record_bytes,
            max_bytes,
        ),
{
}

pub fn wal_should_roll(
    active_records: usize,
    max_records_per_segment: usize,
    active_len: u64,
    record_bytes: u64,
    max_segment_bytes: u64,
) -> (r: bool)
    ensures
        r == should_roll(
            active_records as nat,
            max_records_per_segment as nat,
            active_len as nat,
            record_bytes as nat,
            max_segment_bytes as nat,
        ),
{
    active_records >= max_records_per_segment || (active_records > 0 && (active_len > max_segment_bytes
        || record_bytes > max_segment_bytes - active_len))
}

/// The ids of the segments, among the oldest `count`, whose last index is
/// set and at most `log_index`.
pub open spec fn compactable_ids(segs: Seq<SegmentModel>, log_index: u64) -> Seq<u64>
    decreases segs.len(),
{
    if segs.len() == 0 {
        seq![]
    } else {
        let s = segs.last();
        compactable_ids(segs.drop_last(), log_index) + if s.last_index > 0 && s.last_index <= log_index {
            seq![s.segment_id]
        } else {
            seq![]
        }
    }
}

/// The segments compaction through `log_index` releases: none while at most
/// `min_keep_segments` remain, else those of the oldest segments beyond the
/// kept ones that end at or below `log_index`.
pub open spec fn compaction_targets(segs: Seq<SegmentModel>, min_keep_segments: nat, log_index: u64) -> Seq<u64> {
    if segs.len() <= min_keep_segments {
        seq![]
    } else {
        compactable_ids(segs.take(segs.len() - min_keep_segments), log_index)
    }
}

proof fn lemma_compactable_ids_members(segs: Seq<SegmentModel>, log_index: u64)
    ensures
        forall|i: int|
            0 <= i < segs.len() && (#[trigger] segs[i]).last_index > 0 && segs[i].last_index <= log_index
                ==> compactable_ids(segs, log_index).contains(segs[i].segment_id),
        forall|id: u64| #[trigger] compactable_ids(segs, log_index).contains(id) ==> exists|i: int|
            0 <= i < segs.len() && (#[trigger] segs[i]).segment_id == id && segs[i].last_index > 0 && segs[i].last_index
                <= log_index,
    decreases segs.len(),
{
    if segs.len() > 0 {
        let init = segs.drop_last();
        let s = segs.last();
        lemma_compactable_ids_members(init, log_index);
        let before = compactable_ids(init, log_index);
        let tail = if s.last_index > 0 && s.last_index <= log_index { seq![s.segment_id] } else { Seq::<u64>::empty() };
        assert(compactable_ids(segs, log_index) == before + tail);
        assert forall|i: int|
            0 <= i < segs.len() && (#[trigger] segs[i]).last_index > 0 && segs[i].last_index <= log_index
                implies compactable_ids(segs, log_index).contains(segs[i].segment_id) by {
            if i < segs.len() - 1 {
                assert(init[i] == segs[i]);
                let w = choose|w: int| 0 <= w < before.len() && before[w] == segs[i].segment_id;
                assert((before + tail)[w] == segs[i].segment_id);
            } else {
                assert((before + tail)[before.len() as int] == segs[i].segment_id);
            }
        }
        assert forall|id: u64| #[trigger] compactable_ids(segs, log_index).contains(id) implies exists|i: int|
            0 <= i < segs.len() && (#[trigger] segs[i]).segment_id == id && segs[i].last_index > 0 && segs[i].last_index
                <= log_index by {
            let w = choose|w: int| 0 <= w < (before + tail).len() && (before + tail)[w] == id;
            if w < before.len() {
                assert(before[w] == id);
                assert(before.contains(id));
                let i = choose|i: int| 0 <= i < init.len() && (#[trigger] init[i]).segment_id == id && init[i].last_index > 0
                    && init[i].last_index <= log_index;
                assert(segs[i] == init[i]);
            } else {
                assert(segs[segs.len() - 1] == s);
            }
        }
    }
}

/// Compaction through `log_index` releases exactly the right segments: none
/// while at most `min_keep_segments` remain; otherwise every segment among
/// the oldest ones beyond the kept ones that ends at a non-zero index at or
/// below `log_index` is listed, and only such segments are.
pub proof fn law_compaction_releases_covered_segments(segs: Seq<SegmentModel>, min_keep_segments: nat, log_index: u64)
    ensures
        segs.len() <= min_keep_segments ==> compaction_targets(segs, min_keep_segments, log_index).len() == 0,
        forall|i: int|
            0 <= i < segs.len() - min_keep_segments && (#[trigger] segs[i]).last_index > 0 && segs[i].last_index
                <= log_index ==> compaction_targets(segs, min_keep_segments, log_index).contains(segs[i].segment_id),
        forall|id: u64| #[trigger] compaction_targets(segs, min_keep_segments, log_index).contains(id) ==> exists|i: int|
            0 <= i < segs.len() - min_keep_segments && (#[trigger] segs[i]).segment_id == id && segs[i].last_index > 0
                && segs[i].last_index <= log_index,
{
    if segs.len() > min_keep_segments {
        let older = segs.take(segs.len() - min_keep_segments);
        lemma_compactable_ids_members(older, log_index);
        assert forall|i: int|
            0 <= i < segs.len() - min_keep_segments && (#[trigger] segs[i]).last_index > 0 && segs[i].last_index
                <= log_index implies compaction_targets(segs, min_keep_segments, log_index).contains(segs[i].segment_id) by {
            assert(older[i] == segs[i]);
        }
        assert forall|id: u64| #[trigger] compaction_targets(segs, min_keep_segments, log_index).contains(id) implies exists|i: int|
            0 <= i < segs.len() - min_keep_segments && (#[trigger] segs[i]).segment_id == id && segs[i].last_index > 0
                && segs[i].last_index <= log_index by {
            let i = choose|i: int| 0 <= i < older.len() && (#[trigger] older[i]).segment_id == id && older[i].last_index > 0
                && older[i].last_index <= log_index;
            assert(older[i] == segs[i]);
        }
    }
}

pub fn wal_compaction_targets(segments: &[RaftWalSegment], min_keep_segments: usize, log_index: u64) -> (r: Vec<u64>)
    ensures
        r@ == compaction_targets(segment_models(segments@), min_keep_segments as nat, log_index),
{
    let ghost segs = segment_models(segments@);
    let mut out: Vec<u64> = Vec::new();
    if segments.len() <= min_keep_segments {
        proof {
            assert(out@ =~= Seq::<u64>::empty());
        }
        return out;
    }
    let count = segments.len() - min_keep_segments;
    let mut i: usize = 0;
    proof {
        assert(segs.take(count as int).take(0) =~= Seq::<SegmentModel>::empty());
    }
    while i < count
        invariant
            segs == segment_models(segments@),
            count <= segments@.len(),
            i <= count,
            out@ == compactable_ids(segs.take(count as int).take(i as int), log_index),
        decreases count - i,
    {
        let s = &segments[i];
        proof {
            let pre = segs.take(count as int);
            assert(pre.take(i + 1).drop_last() =~= pre.take(i as int));
            assert(pre.take(i + 1).last() == s.model());
        }
        if s.last_index > 0 && s.last_index <= log_index {
            out.push(s.segment_id);
        }
        proof {
            let pre = segs.take(count as int);
            assert(out@ =~= compactable_ids(pre.take(i + 1), log_index));
        }
        i = i + 1;
    }
    proof {
        assert(segs.take(count as int).take(count as int) =~= segs.take(count as int));
    }
    out
}

/// The segments whose id is not listed, in order.
pub open spec fn retained_segments(segs: Seq<SegmentModel>, removed: Seq<u64>) -> Seq<SegmentModel>
    decreases segs.len(),
{
    if segs.len() == 0 {
        seq![]
    } else {
        retained_segments(segs.drop_last(), removed) + if removed.contains(segs.last().segment_id) {
            seq![]
        } else {
            seq![segs.last()]
        }
    }
}

/// Retaining keeps exactly the segments whose id is not listed, in their
/// order: every unlisted segment stays, and every kept segment was there
/// and is unlisted.
pub proof fn law_retain_keeps_unlisted(segs: Seq<SegmentModel>, removed: Seq<u64>)
    ensures
        forall|i: int| 0 <= i < segs.len() && !removed.contains((#[trigger] segs[i]).segment_id) ==> retained_segments(
            segs,
            removed,
        ).contains(segs[i]),
        forall|k: int| 0 <= k < retained_segments(segs, removed).len() ==> segs.contains(
            #[trigger] retained_segments(segs, removed)[k],
        ) && !removed.contains(retained_segments(segs, removed)[k].segment_id),
    decreases segs.len(),
{
    if segs.len() > 0 {
        let init = segs.drop_last();
        law_retain_keeps_unlisted(init, removed);
        let before = retained_segments(init, removed);
        let tail = if removed.contains(segs.last().segment_id) { Seq::<SegmentModel>::empty() } else { seq![segs.last()] };
        let all = retained_segments(segs, removed);
        assert(all == before + tail);
        assert forall|i: int| 0 <= i < segs.len() && !removed.contains((#[trigger] segs[i]).segment_id) implies all.contains(
            segs[i],
        ) by {
            if i < segs.len() - 1 {
                assert(init[i] == segs[i]);
                let w = choose|w: int| 0 <= w < before.len() && before[w] == segs[i];
                assert(all[w] == segs[i]);
            } else {
                assert(all[before.len() as int] == segs[i]);
            }
        }
        assert forall|k: int| 0 <= k < all.len() implies segs.contains(#[trigger] all[k]) && !removed.contains(
            all[k].segment_id,
        ) by {
            if k < before.len() {
                assert(all[k] == before[k]);
                let w = choose|w: int| 0 <= w < init.len() && init[w] == before[k];
                assert(segs[w] == init[w]);
            } else {
                assert(all[k] == segs.last());
                assert(segs[segs.len() - 1] == segs.last());
            }
        }
    }
}

/// Keeps the segments whose id is not listed.
pub fn wal_retain_segments(segments: &mut Vec<RaftWalSegment>, removed: &[u64])
    ensures
        segment_models(final(segments)@) == retained_segments(segment_models(old(segments)@), removed@),
{
    let ghost segs = segment_models(segments@);
    let mut kept: Vec<RaftWalSegment> = Vec::new();
    let mut rest: Vec<RaftWalSegment> = Vec::new();
    std::mem::swap(&mut rest, segments);
    let mut i: usize = 0;
    let n = rest.len();
    proof {
        assert(segs == segment_models(rest@));
        assert(segs.take(0) =~= Seq::<SegmentModel>::empty());
        assert(segment_models(kept@) =~= Seq::<SegmentModel>::empty());
    }
    while i < n
        invariant
            n == segs.len(),
            i <= n,
            rest@.len() == n - i,
            forall|j: int| 0 <= j < n - i ==> #[trigger] rest@[j].model() == segs[i + j],
            segment_models(kept@) == retained_segments(segs.take(i as int), removed@),
        decreases n - i,
    {
        let s = rest.remove(0);
        proof {
            assert(s.model() == segs[i as int]);
            assert(segs.take(i + 1).drop_last() =~= segs.take(i as int));
            assert(segs.take(i + 1).last() == segs[i as int]);
        }
        let ghost before = kept@;
        if !crate::seqs::slice_contains(removed, s.segment_id) {
            kept.push(s);
        }
        proof {
            assert(segment_models(kept@) =~= retained_segments(segs.take(i + 1), removed@));
        }
        i = i + 1;
    }
    proof {
        assert(segs.take(n as int) =~= segs);
    }
    *segments = kept;
}

/// Marks every segment but the one with the last segment's id as sealed.
pub fn wal_mark_active_segment(segments: &mut Vec<RaftWalSegment>)
    ensures
        final(segments)@.len() == old(segments)@.len(),
        forall|i: int| 0 <= i < old(segments)@.len() ==> #[trigger] segment_models(final(segments)@)[i] == (
        SegmentModel {
            sealed: old(segments)@[i].segment_id != old(segments)@.last().segment_id,
            ..old(segments)@[i].model()
        }),
{
    let n = segments.len();
    if n == 0 {
        return;
    }
    let active_id = segments[n - 1].segment_id;
    let ghost orig = segments@;
    let mut i: usize = 0;
    while i < n
        invariant
            n == orig.len(),
            n > 0,
            active_id == orig.last().segment_id,
            segments@.len() == n,
            i <= n,
            forall|j: int| 0 <= j < i ==> #[trigger] segments@[j].model() == (SegmentModel {
                sealed: orig[j].segment_id != active_id,
                ..orig[j].model()
            }),
            forall|j: int| i <= j < n ==> #[trigger] segments@[j] == orig[j],
        decreases n - i,
    {
        let mut s = segments.remove(i);
        s.sealed = s.segment_id != active_id;
        segments.insert(i, s);
        i = i + 1;
    }
}

/// A segment holding `records`, filed from the index of its first record to
/// that of its last (zero when it is empty).
pub fn wal_segment_from_records(segment_id: u64, records: Vec<RaftWalRecord>, sealed: bool) -> (r: RaftWalSegment)
    ensures
        r.model() == (SegmentModel {
            segment_id,
            first_index: if records@.len() > 0 { record_index(records@[0].model()) } else { 0 },
            last_index: if records@.len() > 0 { record_index(records@.last().model()) } else { 0 },
            records: record_models(records@),
            sealed,
        }),
{
    let n = records.len();
    let first_index = if n > 0 { wal_record_index(&records[0]) } else { 0 };
    let last_index = if n > 0 { wal_record_index(&records[n - 1]) } else { 0 };
    RaftWalSegment { segment_id, first_index, last_index, records, sealed }
}

/// One line of a segment file, as decoded.
#[derive(Debug, Clone)]
pub enum WalLine {
    Blank,
    Record(RaftWalRecord),
    Unreadable,
}

/// What scanning a segment file's lines keeps.
#[derive(Debug, Clone)]
pub struct WalSegmentScan {
    pub records: Vec<RaftWalRecord>,
    pub valid_end_offset: u64,
    pub truncated: bool,
}

/// Scans the decoded lines of a segment file, each with its length in bytes
/// without the newline. Blank lines are skipped; the scan stops at the first
/// unreadable line or record with a bad checksum, which marks the file as
/// truncated; the valid end offset is the byte offset after the last line
/// kept (each line counting one more byte for its newline).
pub open spec fn scan_lines(lines: Seq<(u64, WalLine)>) -> (Seq<RaftWalRecord>, int, bool)
    decreases lines.len(),
{
    if lines.len() == 0 {
        (seq![], 0, false)
    } else {
        let (len, line) = lines[0];
        let rest = scan_lines(lines.drop_first());
        match line {
            WalLine::Blank => (rest.0, len + 1 + rest.1, rest.2),
            WalLine::Unreadable => (seq![], 0, true),
            WalLine::Record(r) => if checksum_ok(r.model()) {
                (seq![r] + rest.0, len + 1 + rest.1, rest.2)
            } else {
                (seq![], 0, true)
            },
        }
    }
}

/// The bytes of lines with their newlines.
pub open spec fn line_bytes(lines: Seq<(u64, WalLine)>) -> int
    decreases lines.len(),
{
    if lines.len() == 0 {
        0
    } else {
        line_bytes(lines.drop_last()) + lines.last().0 + 1
    }
}

proof fn lemma_line_bytes_prefix(lines: Seq<(u64, WalLine)>, i: int)
    requires
        0 <= i <= lines.len(),
    ensures
        0 <= line_bytes(lines.take(i)) <= line_bytes(lines),
    decreases lines.len(),
{
    if lines.len() > 0 {
        if i == lines.len() {
            assert(lines.take(i) =~= lines);
            lemma_line_bytes_prefix(lines.drop_last(), i - 1);
            assert(lines.drop_last().take(i - 1) =~= lines.drop_last());
        } else {
            lemma_line_bytes_prefix(lines.drop_last(), i);
            assert(lines.drop_last().take(i) =~= lines.take(i));
        }
    }
}

pub fn wal_scan_segment(lines: Vec<(u64, WalLine)>) -> (r: WalSegmentScan)
    requires
        line_bytes(lines@) <= u64::MAX,
    ensures
        r.records@ == scan_lines(lines@).0,
        r.valid_end_offset == scan_lines(lines@).1,
        r.truncated == scan_lines(lines@).2,
{
    let ghost all = lines@;
    let mut records: Vec<RaftWalRecord> = Vec::new();
    let mut offset: u64 = 0;
    let mut truncated = false;
    let mut rest = lines;
    let mut i: usize = 0;
    let n = rest.len();
    proof {
        assert(all.skip(0) =~= all);
        assert(all.take(0) =~= Seq::<(u64, WalLine)>::empty());
        assert(records@ + scan_lines(all).0 =~= scan_lines(all).0);
    }
    while i < n && !truncated
        invariant
            n == all.len(),
            line_bytes(all) <= u64::MAX,
            i <= n,
            rest@.len() == n - i,
            forall|j: int| 0 <= j < n - i ==> #[trigger] rest@[j] == all[i + j],
            !truncated ==> offset == line_bytes(all.take(i as int)),
            !truncated ==> scan_lines(all) == (
                records@ + scan_lines(all.skip(i as int)).0,
                offset + scan_lines(all.skip(i as int)).1,
                scan_lines(all.skip(i as int)).2,
            ),
            truncated ==> scan_lines(all) == (records@, offset as int, true),
        decreases n - i,
    {
        let (len, line) = rest.remove(0);
        let ghost rem = all.skip(i as int);
        let ghost after = scan_lines(all.skip(i + 1));
        proof {
            assert((len, line) == all[i as int]);
            assert(rem[0] == all[i as int]);
            assert(rem.drop_first() =~= all.skip(i + 1));
            lemma_line_bytes_prefix(all, i + 1);
            assert(all.take(i + 1).drop_last() =~= all.take(i as int));
        }
        match line {
            WalLine::Blank => {
                offset = offset + len + 1;
            },
            WalLine::Unreadable => {
                truncated = true;
            },
            WalLine::Record(record) => {
                if rustraft_wal_checksum_valid(&record) {
                    offset = offset + len + 1;
                    let ghost before = records@;
                    records.push(record);
                    proof {
                        assert(before + (seq![record] + after.0) =~= records@ + after.0);
                    }
                } else {
                    truncated = true;
                }
            },
        }
        proof {
            if truncated {
                assert(records@ + Seq::<RaftWalRecord>::empty() =~= records@);
            }
        }
        i = i + 1;
    }
    proof {
        if !truncated {
            assert(all.skip(n as int) =~= Seq::<(u64, WalLine)>::empty());
            assert(records@ + Seq::<RaftWalRecord>::empty() =~= records@);
        }
    }
    WalSegmentScan { records, valid_end_offset: offset, truncated }
}

/// The sum of a sequence of byte counts.
pub open spec fn sum_bytes(s: Seq<u64>) -> int
    decreases s.len(),
{
    if s.len() == 0 {
        0
    } else {
        sum_bytes(s.drop_last()) + s.last()
    }
}

proof fn lemma_sum_bytes_prefix(s: Seq<u64>, i: int)
    requires
        0 <= i <= s.len(),
    ensures
        0 <= sum_bytes(s.take(i)) <= sum_bytes(s),
    decreases s.len(),
{
    if s.len() > 0 {
        if i == s.len() {
            assert(s.take(i) =~= s);
            lemma_sum_bytes_prefix(s.drop_last(), i - 1);
            assert(s.drop_last().take(i - 1) =~= s.drop_last());
        } else {
            lemma_sum_bytes_prefix(s.drop_last(), i);
            assert(s.drop_last().take(i) =~= s.take(i));
        }
    }
}

proof fn lemma_all_records_prefix(segs: Seq<SegmentModel>, i: int)
    requires
        0 <= i <= segs.len(),
    ensures
        all_records(segs.take(i)).len() <= all_records(segs).len(),
    decreases segs.len(),
{
    if segs.len() > 0 {
        if i == segs.len() {
            assert(segs.take(i) =~= segs);
        } else {
            lemma_all_records_prefix(segs.drop_last(), i);
            assert(segs.drop_last().take(i) =~= segs.take(i));
        }
    }
}

/// The lifecycle status of a WAL with these segments, the byte size of each
/// segment's file, and this many released segments. The sequence range is
/// the range of segment ids.
pub open spec fn lifecycle_status(segs: Seq<SegmentModel>, bytes: Seq<u64>, released: u64) -> RustRaftWalLifecycleStatus {
    let n = segs.len();
    let first_id = if n > 0 { segs[0].segment_id } else { 0 };
    let last_id = if n > 0 { segs.last().segment_id } else { 0 };
    RustRaftWalLifecycleStatus {
        segment_count: n as u64,
        active_segment_id: last_id,
        first_retained_segment_id: first_id,
        last_retained_segment_id: last_id,
        total_bytes: sum_bytes(bytes) as u64,
        active_segment_bytes: if n > 0 { bytes.last() } else { 0 },
        total_records: all_records(segs).len() as u64,
        first_sequence: first_id,
        last_sequence: last_id,
        first_log_index: if n > 0 { segs[0].first_index } else { 0 },
        last_log_index: if n > 0 { segs.last().last_index } else { 0 },
        released_segment_count: released,
        slow_fsync_backpressure_observed: false,
    }
}

pub fn wal_lifecycle_status(segments: &[RaftWalSegment], segment_bytes: &[u64], released_segment_count: u64) -> (r:
    RustRaftWalLifecycleStatus)
    requires
        segment_bytes@.len() == segments@.len(),
        sum_bytes(segment_bytes@) <= u64::MAX,
        all_records(segment_models(segments@)).len() <= u64::MAX,
    ensures
        r == lifecycle_status(segment_models(segments@), segment_bytes@, released_segment_count),
{
    let ghost segs = segment_models(segments@);
    let n = segments.len();
    let mut total_bytes: u64 = 0;
    let mut total_records: u64 = 0;
    let mut i: usize = 0;
    proof {
        assert(segment_bytes@.take(0) =~= Seq::<u64>::empty());
        assert(segs.take(0) =~= Seq::<SegmentModel>::empty());
    }
    while i < n
        invariant
            n == segments@.len(),
            n == segment_bytes@.len(),
            segs == segment_models(segments@),
            sum_bytes(segment_bytes@) <= u64::MAX,
            all_records(segs).len() <= u64::MAX,
            i <= n,
            total_bytes == sum_bytes(segment_bytes@.take(i as int)),
            total_records == all_records(segs.take(i as int)).len(),
        decreases n - i,
    {
        proof {
            lemma_sum_bytes_prefix(segment_bytes@, i + 1);
            assert(segment_bytes@.take(i + 1).drop_last() =~= segment_bytes@.take(i as int));
            lemma_all_records_prefix(segs, i + 1);
            assert(segs.take(i + 1).drop_last() =~= segs.take(i as int));
            assert(segs.take(i + 1).last() == segments@[i as int].model());
        }
        total_bytes = total_bytes + segment_bytes[i];
        total_records = total_records + segments[i].records.len() as u64;
        i = i + 1;
    }
    proof {
        assert(segment_bytes@.take(n as int) =~= segment_bytes@);
        assert(segs.take(n as int) =~= segs);
    }
    let first_id = if n > 0 { segments[0].segment_id } else { 0 };
    let last_id = if n > 0 { segments[n - 1].segment_id } else { 0 };
    RustRaftWalLifecycleStatus {
        segment_count: n as u64,
        active_segment_id: last_id,
        first_retained_segment_id: first_id,
        last_retained_segment_id: last_id,
        total_bytes,
        active_segment_bytes: if n > 0 { segment_bytes[n - 1] } else { 0 },
        total_records,
        first_sequence: first_id,
        last_sequence: last_id,
        first_log_index: if n > 0 { segments[0].first_index } else { 0 },
        last_log_index: if n > 0 { segments[n - 1].last_index } else { 0 },
        released_segment_count,
        slow_fsync_backpressure_observed: false,
    }
}

} // verus!
