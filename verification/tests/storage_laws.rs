use rustraft::{
    checkpoint_snapshot, rustraft_recover_latest_wal_record, rustraft_wal_checksum, rustraft_wal_checksum_valid,
    u64_to_decimal, u64_to_hex16, LocalRaftWal, RaftSnapshot, RaftSnapshotInstallState, RaftWalRecord,
    RustRaftApplySnapshotFence, RustRaftError, RustRaftHardState, RustRaftLogEntry, RustRaftLogId, RustRaftMembership,
    RustRaftSnapshotMeta, RaftWalSegment, wal_segment_push,
};

fn record(commit: u64) -> RaftWalRecord {
    RaftWalRecord {
        group_id: 3,
        node_id: 2,
        hard_state: RustRaftHardState {
            current_term: 4,
            voted_for: Some(1),
            committed: Some(RustRaftLogId { term: 4, index: commit }),
        },
        membership: RustRaftMembership { group_id: 3, voters: vec![1, 2, 3], learners: vec![], witnesses: vec![], epoch: 4 },
        entries: vec![RustRaftLogEntry { log_id: RustRaftLogId { term: 4, index: commit }, payload: b"abc".to_vec() }],
        installed_snapshot: None,
        apply_snapshot_fence: RustRaftApplySnapshotFence {
            applied_index: commit,
            commit_index: commit,
            installed_snapshot_index: 0,
            first_retained_log_index: 0,
        },
        checksum: String::new(),
    }
}

fn fnv(words: &[u64]) -> u64 {
    let mut hash: u64 = 14_695_981_039_346_656_037;
    for word in words {
        for byte in word.to_le_bytes() {
            hash ^= byte as u64;
            hash = hash.wrapping_mul(1_099_511_628_211);
        }
    }
    hash
}

#[test]
fn checksum_is_fnv1a_over_the_covered_fields_in_hex() {
    let r = record(7);
    let expected = fnv(&[3, 2, 4, 1, 4, 7, 4, 7, 3, 7, 7, 0, 0]);
    assert_eq!(rustraft_wal_checksum(&r), format!("{expected:016x}"));
    let mut sealed = r.clone();
    sealed.checksum = rustraft_wal_checksum(&r);
    assert!(rustraft_wal_checksum_valid(&sealed));
    sealed.entries[0].log_id.index = 8;
    assert!(!rustraft_wal_checksum_valid(&sealed));
}

#[test]
fn number_formatting_matches_decimal_and_padded_hex() {
    assert_eq!(u64_to_decimal(0), "0");
    assert_eq!(u64_to_decimal(18_446_744_073_709_551_615), "18446744073709551615");
    assert_eq!(u64_to_hex16(255), "00000000000000ff");
    assert_eq!(u64_to_hex16(u64::MAX), "ffffffffffffffff");
}

#[test]
fn appended_records_survive_recovery() {
    let mut wal = LocalRaftWal::new(2).expect("wal");
    for commit in 1..=5 {
        wal.append(record(commit)).expect("append");
    }
    assert_eq!(wal.segments().len(), 3);
    let report = wal.recover().expect("recover");
    assert_eq!(report.surviving_records, 5);
    assert_eq!(report.removed_records, 0);
    assert!(!report.truncated_corrupt_tail);
    assert_eq!(report.recovered.expect("latest").hard_state.committed, Some(RustRaftLogId { term: 4, index: 5 }));
    assert_eq!(wal.records().len(), 5);
}

#[test]
fn recovery_cuts_a_corrupt_tail() {
    let mut wal = LocalRaftWal::new(10).expect("wal");
    wal.append(record(1)).expect("append");
    wal.append(record(2)).expect("append");
    wal.corrupt_tail_for_test().expect("corrupt");
    let report = wal.recover().expect("recover");
    assert!(report.truncated_corrupt_tail);
    assert_eq!(report.surviving_records, 1);
    assert_eq!(report.removed_records, 1);
    assert!(matches!(LocalRaftWal::new(0), Err(RustRaftError::InvalidRequest(_))));
}

#[test]
fn recovery_without_a_valid_record_is_a_storage_error() {
    assert_eq!(
        rustraft_recover_latest_wal_record(&[record(1)]).unwrap_err(),
        RustRaftError::Storage("no valid WAL record survived recovery".to_string())
    );
}

#[test]
fn checkpoint_chunks_reinstall_the_same_snapshot() {
    let snapshot = RaftSnapshot {
        group_id: 8,
        meta: RustRaftSnapshotMeta {
            snapshot_id: "snap-9".to_string(),
            last_log_id: RustRaftLogId { term: 2, index: 9 },
            membership: vec![1, 2],
        },
        payload: b"0123456789".to_vec(),
    };
    let chunks = checkpoint_snapshot(&snapshot, 4).expect("chunks");
    assert_eq!(chunks.len(), 3);
    assert_eq!(chunks[2].offset, 8);
    assert!(chunks[2].done && !chunks[1].done);
    let mut install = RaftSnapshotInstallState::new(snapshot.meta.clone());
    for chunk in chunks {
        install.install_chunk(chunk).expect("chunk");
    }
    assert_eq!(install.finish(8).expect("finish"), snapshot);
    assert!(matches!(checkpoint_snapshot(&snapshot, 0), Err(RustRaftError::InvalidRequest(_))));
}

#[test]
fn install_refuses_chunks_out_of_order() {
    let meta = RustRaftSnapshotMeta {
        snapshot_id: "s".to_string(),
        last_log_id: RustRaftLogId { term: 1, index: 1 },
        membership: vec![1],
    };
    let mut install = RaftSnapshotInstallState::new(meta.clone());
    let refused = install.install_chunk(rustraft::RustRaftSnapshotChunk { meta, offset: 3, data: vec![1], done: true });
    assert_eq!(
        refused,
        Err(RustRaftError::InvalidRequest("snapshot chunk offset 3 does not match next offset 0".to_string()))
    );
    assert_eq!(
        install.finish(1).unwrap_err(),
        RustRaftError::InvalidRequest("snapshot install is incomplete".to_string())
    );
}

#[test]
fn segment_push_tracks_first_and_last_index() {
    let mut segment = RaftWalSegment { segment_id: 7, first_index: 0, last_index: 0, records: vec![], sealed: false };
    wal_segment_push(&mut segment, record(5));
    assert_eq!((segment.first_index, segment.last_index, segment.records.len()), (5, 5, 1));
    wal_segment_push(&mut segment, record(9));
    assert_eq!((segment.first_index, segment.last_index, segment.records.len()), (5, 9, 2));
    assert_eq!(segment.segment_id, 7);
    assert!(!segment.sealed);
}
