//! One replica of a Raft group as the in-process cluster engine keeps it:
//! its roles, hard state, log, installed snapshot and indexes.
use vstd::prelude::*;
use crate::types::{
    EntryModel, RustRaftHardState, RustRaftLogEntry, RustRaftLogId, RustRaftLogIndex, RustRaftNodeId,
    RustRaftReplicaRole, RustRaftRole, RustRaftSnapshotMeta, SnapshotMetaModel,
};

verus! {

/// A replica as plain values.
pub struct NodeModel {
    pub id: u64,
    pub replica_role: RustRaftReplicaRole,
    pub raft_role: RustRaftRole,
    pub hard_state: RustRaftHardState,
    pub log: Seq<EntryModel>,
    pub installed_snapshot: Option<SnapshotMetaModel>,
    pub commit_index: u64,
    pub applied_index: u64,
    pub healthy: bool,
}

/// The models of a sequence of entries.
pub open spec fn entry_models(v: Seq<RustRaftLogEntry>) -> Seq<EntryModel> {
    v.map_values(|e: RustRaftLogEntry| e.model())
}

/// The position of the first entry with index `index`, if any.
pub open spec fn index_position(log: Seq<EntryModel>, index: u64) -> Option<int>
    decreases log.len(),
{
    if log.len() == 0 {
        None
    } else if log[0].log_id.index == index {
        Some(0)
    } else {
        match index_position(log.drop_first(), index) {
            Some(p) => Some(p + 1),
            None => None,
        }
    }
}

/// The entries whose index is above `index`, in order.
pub open spec fn entries_above(log: Seq<EntryModel>, index: u64) -> Seq<EntryModel>
    decreases log.len(),
{
    if log.len() == 0 {
        seq![]
    } else {
        entries_above(log.drop_last(), index) + if log.last().log_id.index > index {
            seq![log.last()]
        } else {
            seq![]
        }
    }
}

impl NodeModel {
    /// A fresh replica: a follower, or a learner when it joins as one.
    pub open spec fn fresh(id: u64, replica_role: RustRaftReplicaRole) -> Self {
        NodeModel {
            id,
            replica_role,
            raft_role: if replica_role == RustRaftReplicaRole::Learner {
                RustRaftRole::Learner
            } else {
                RustRaftRole::Follower
            },
            hard_state: RustRaftHardState { current_term: 0, voted_for: None, committed: None },
            log: seq![],
            installed_snapshot: None,
            commit_index: 0,
            applied_index: 0,
            healthy: true,
        }
    }

    /// The highest index the replica holds: its last entry's or its
    /// snapshot's, whichever is higher.
    pub open spec fn match_index(self) -> u64 {
        let l = if self.log.len() > 0 { self.log.last().log_id.index } else { 0 };
        let s = match self.installed_snapshot {
            Some(m) => m.last_log_id.index,
            None => 0,
        };
        if l >= s { l } else { s }
    }

    /// The replica after appending `e`: an entry at the same index and every
    /// entry after it are dropped first.
    pub open spec fn appended(self, e: EntryModel) -> Self {
        NodeModel {
            log: match index_position(self.log, e.log_id.index) {
                Some(p) => self.log.take(p).push(e),
                None => self.log.push(e),
            },
            ..self
        }
    }

    /// The replica after learning the commit index `c`: it commits up to `c`
    /// but not beyond what it holds, applies what it commits when it serves
    /// data, and records the commit in its hard state.
    pub open spec fn committed_to(self, c: u64) -> Self {
        let m = self.match_index();
        let bounded = if c <= m { c } else { m };
        let commit = if self.commit_index >= bounded { self.commit_index } else { bounded };
        NodeModel {
            commit_index: commit,
            applied_index: if self.replica_role.spec_can_serve_data() && commit > self.applied_index {
                commit
            } else {
                self.applied_index
            },
            hard_state: RustRaftHardState {
                committed: if commit > 0 {
                    Some(RustRaftLogId { term: self.hard_state.current_term, index: commit })
                } else {
                    None
                },
                ..self.hard_state
            },
            ..self
        }
    }

    /// The replica after installing a snapshot: the entries it covers are
    /// dropped, and the replica commits (and, serving data, applies) up to it.
    pub open spec fn with_snapshot(self, meta: SnapshotMetaModel) -> Self {
        let si = meta.last_log_id.index;
        let commit = if self.commit_index >= si { self.commit_index } else { si };
        NodeModel {
            installed_snapshot: Some(meta),
            log: entries_above(self.log, si),
            commit_index: commit,
            applied_index: if self.replica_role.spec_can_serve_data() && si > self.applied_index {
                si
            } else {
                self.applied_index
            },
            hard_state: RustRaftHardState {
                committed: Some(RustRaftLogId { term: self.hard_state.current_term, index: commit }),
                ..self.hard_state
            },
            ..self
        }
    }
}

/// One replica.
#[derive(Debug, Clone)]
pub struct RaftNode {
    pub id: RustRaftNodeId,
    pub replica_role: RustRaftReplicaRole,
    pub raft_role: RustRaftRole,
    pub hard_state: RustRaftHardState,
    pub log: Vec<RustRaftLogEntry>,
    pub installed_snapshot: Option<RustRaftSnapshotMeta>,
    pub commit_index: RustRaftLogIndex,
    pub applied_index: RustRaftLogIndex,
    pub healthy: bool,
}

pub proof fn lemma_index_position_bounds(log: Seq<EntryModel>, index: u64)
    ensures
        index_position(log, index) matches Some(p) ==> 0 <= p < log.len() && log[p].log_id.index == index
            && forall|j: int| 0 <= j < p ==> (#[trigger] log[j]).log_id.index != index,
        index_position(log, index) is None ==> forall|j: int| 0 <= j < log.len() ==> (#[trigger] log[j]).log_id.index
            != index,
    decreases log.len(),
{
    if log.len() > 0 {
        lemma_index_position_bounds(log.drop_first(), index);
        assert forall|j: int| 0 < j < log.len() implies log[j] == log.drop_first()[j - 1] by {}
    }
}

impl RaftNode {
    pub open spec fn model(self) -> NodeModel {
        NodeModel {
            id: self.id,
            replica_role: self.replica_role,
            raft_role: self.raft_role,
            hard_state: self.hard_state,
            log: entry_models(self.log@),
            installed_snapshot: match self.installed_snapshot {
                Some(s) => Some(s.model()),
                None => None,
            },
            commit_index: self.commit_index,
            applied_index: self.applied_index,
            healthy: self.healthy,
        }
    }

    pub fn new(id: RustRaftNodeId, replica_role: RustRaftReplicaRole) -> (r: Self)
        ensures
            r.model() == NodeModel::fresh(id, replica_role),
    {
        let r = RaftNode {
            id,
            replica_role,
            raft_role: if replica_role == RustRaftReplicaRole::Learner {
                RustRaftRole::Learner
            } else {
                RustRaftRole::Follower
            },
            hard_state: RustRaftHardState { current_term: 0, voted_for: None, committed: None },
            log: Vec::new(),
            installed_snapshot: None,
            commit_index: 0,
            applied_index: 0,
            healthy: true,
        };
        proof {
            assert(r.model().log =~= Seq::<EntryModel>::empty());
        }
        r
    }

    pub fn match_index(&self) -> (r: RustRaftLogIndex)
        ensures
            r == self.model().match_index(),
    {
        let n = self.log.len();
        let l = if n > 0 { self.log[n - 1].log_id.index } else { 0 };
        let s = match &self.installed_snapshot {
            Some(m) => m.last_log_id.index,
            None => 0,
        };
        proof {
            if n > 0 {
                assert(self.model().log.last() == self.log@[n - 1].model());
            }
        }
        if l >= s { l } else { s }
    }

    pub fn append_entry(&mut self, entry: RustRaftLogEntry)
        ensures
            final(self).model() == old(self).model().appended(entry.model()),
    {
        let ghost log0 = entry_models(self.log@);
        let mut i: usize = 0;
        let mut found = false;
        proof {
            lemma_index_position_bounds(log0, entry.log_id.index);
        }
        while i < self.log.len() && !found
            invariant
                log0 == entry_models(self.log@),
                i <= self.log@.len(),
                forall|j: int| 0 <= j < i ==> (#[trigger] log0[j]).log_id.index != entry.log_id.index,
                found ==> i < self.log@.len() && log0[i as int].log_id.index == entry.log_id.index,
            decreases self.log@.len() - i + (if found { 0int } else { 1int }),
        {
            proof {
                assert(log0[i as int] == self.log@[i as int].model());
            }
            if self.log[i].log_id.index == entry.log_id.index {
                found = true;
            } else {
                i = i + 1;
            }
        }
        let ghost e = entry.model();
        if found {
            self.log.truncate(i);
            proof {
                assert(index_position(log0, entry.log_id.index) == Some(i as int));
                assert(entry_models(self.log@) =~= log0.take(i as int));
            }
        } else {
            proof {
                assert(index_position(log0, entry.log_id.index) is None);
            }
        }
        let ghost before = entry_models(self.log@);
        self.log.push(entry);
        proof {
            assert(entry_models(self.log@) =~= before.push(e));
        }
    }

    pub fn advance_commit(&mut self, commit_index: RustRaftLogIndex)
        ensures
            final(self).model() == old(self).model().committed_to(commit_index),
    {
        let m = self.match_index();
        let bounded = if commit_index <= m { commit_index } else { m };
        if self.commit_index < bounded {
            self.commit_index = bounded;
        }
        if self.replica_role.can_serve_data() && self.commit_index > self.applied_index {
            self.applied_index = self.commit_index;
        }
        self.hard_state.committed = if self.commit_index > 0 {
            Some(RustRaftLogId { term: self.hard_state.current_term, index: self.commit_index })
        } else {
            None
        };
    }

    /// Keeps the entries above `index`; returns how many were dropped.
    pub fn compact_log_through(&mut self, index: RustRaftLogIndex) -> (removed: u64)
        ensures
            entry_models(final(self).log@) == entries_above(entry_models(old(self).log@), index),
            removed == old(self).log@.len() - final(self).log@.len(),
            final(self).model() == (NodeModel {
                log: entries_above(old(self).model().log, index),
                ..old(self).model()
            }),
    {
        let ghost log0 = entry_models(self.log@);
        let mut kept: Vec<RustRaftLogEntry> = Vec::new();
        let mut i: usize = 0;
        proof {
            assert(log0.take(0) =~= Seq::<EntryModel>::empty());
            assert(entry_models(kept@) =~= Seq::<EntryModel>::empty());
        }
        while i < self.log.len()
            invariant
                log0 == entry_models(self.log@),
                i <= self.log@.len(),
                entry_models(kept@) == entries_above(log0.take(i as int), index),
                kept@.len() <= i,
            decreases self.log@.len() - i,
        {
            proof {
                assert(log0.take(i + 1).drop_last() =~= log0.take(i as int));
                assert(log0.take(i + 1).last() == self.log@[i as int].model());
                lemma_entries_above_len(log0.take(i as int), index);
            }
            if self.log[i].log_id.index > index {
                let ghost before = entry_models(kept@);
                kept.push(self.log[i].duplicate());
                proof {
                    assert(entry_models(kept@) =~= before.push(self.log@[i as int].model()));
                    assert(entry_models(kept@) =~= entries_above(log0.take(i + 1), index));
                }
            } else {
                proof {
                    assert(entry_models(kept@) =~= entries_above(log0.take(i + 1), index));
                }
            }
            i = i + 1;
        }
        proof {
            assert(log0.take(self.log@.len() as int) =~= log0);
        }
        let before_len = self.log.len();
        let after_len = kept.len();
        self.log = kept;
        (before_len - after_len) as u64
    }

    pub fn install_snapshot(&mut self, meta: RustRaftSnapshotMeta)
        ensures
            final(self).model() == old(self).model().with_snapshot(meta.model()),
    {
        let snapshot_index = meta.last_log_id.index;
        self.installed_snapshot = Some(meta);
        let _ = self.compact_log_through(snapshot_index);
        if self.commit_index < snapshot_index {
            self.commit_index = snapshot_index;
        }
        if self.replica_role.can_serve_data() && snapshot_index > self.applied_index {
            self.applied_index = snapshot_index;
        }
        self.hard_state.committed = Some(RustRaftLogId { term: self.hard_state.current_term, index: self.commit_index });
    }

    /// A copy of the replica.
    pub fn duplicate(&self) -> (r: Self)
        ensures
            r.model() == self.model(),
    {
        let mut log: Vec<RustRaftLogEntry> = Vec::new();
        let mut i: usize = 0;
        while i < self.log.len()
            invariant
                i <= self.log@.len(),
                log@.len() == i,
                forall|j: int| 0 <= j < i ==> #[trigger] log@[j].model() == self.log@[j].model(),
            decreases self.log@.len() - i,
        {
            log.push(self.log[i].duplicate());
            i = i + 1;
        }
        let r = RaftNode {
            id: self.id,
            replica_role: self.replica_role,
            raft_role: self.raft_role,
            hard_state: self.hard_state,
            log,
            installed_snapshot: match &self.installed_snapshot {
                Some(s) => Some(s.duplicate()),
                None => None,
            },
            commit_index: self.commit_index,
            applied_index: self.applied_index,
            healthy: self.healthy,
        };
        proof {
            assert(r.model().log =~= self.model().log);
        }
        r
    }
}

/// Keeping entries never adds any.
pub proof fn lemma_entries_above_len(log: Seq<EntryModel>, index: u64)
    ensures
        entries_above(log, index).len() <= log.len(),
    decreases log.len(),
{
    if log.len() > 0 {
        lemma_entries_above_len(log.drop_last(), index);
    }
}

/// Every entry has an index below the largest.
pub open spec fn below_max(log: Seq<EntryModel>) -> bool {
    forall|j: int| 0 <= j < log.len() ==> (#[trigger] log[j]).log_id.index < u64::MAX
}

/// Keeping some entries keeps their indexes below the largest.
pub proof fn lemma_entries_above_below_max(log: Seq<EntryModel>, index: u64)
    requires
        below_max(log),
    ensures
        below_max(entries_above(log, index)),
    decreases log.len(),
{
    if log.len() > 0 {
        lemma_entries_above_below_max(log.drop_last(), index);
        let r = entries_above(log, index);
        let p = entries_above(log.drop_last(), index);
        assert forall|j: int| 0 <= j < r.len() implies (#[trigger] r[j]).log_id.index < u64::MAX by {
            if j < p.len() {
                assert(r[j] == p[j]);
            } else {
                assert(r[j] == log.last());
            }
        }
    }
}

impl NodeModel {
    /// Every index the replica holds is below the largest.
    pub open spec fn indexes_below_max(self) -> bool {
        &&& below_max(self.log)
        &&& self.installed_snapshot matches Some(m) ==> m.last_log_id.index < u64::MAX
    }
}

/// Appending an entry below the largest index keeps every index below it.
pub proof fn lemma_appended_below_max(n: NodeModel, e: EntryModel)
    requires
        n.indexes_below_max(),
        e.log_id.index < u64::MAX,
    ensures
        n.appended(e).indexes_below_max(),
        n.appended(e).match_index() < u64::MAX,
        n.appended(e).id == n.id,
{
    lemma_index_position_bounds(n.log, e.log_id.index);
    let l = n.appended(e).log;
    assert forall|j: int| 0 <= j < l.len() implies (#[trigger] l[j]).log_id.index < u64::MAX by {
        if j < l.len() - 1 {
            assert(l[j] == n.log[j]);
        }
    }
}

/// Appending entries below the largest index keeps every index below it.
pub proof fn lemma_appended_all_below_max(n: NodeModel, es: Seq<EntryModel>)
    requires
        n.indexes_below_max(),
        below_max(es),
    ensures
        appended_all(n, es).indexes_below_max(),
        appended_all(n, es).match_index() < u64::MAX,
        appended_all(n, es).id == n.id,
        appended_all(n, es).installed_snapshot == n.installed_snapshot,
    decreases es.len(),
{
    if es.len() > 0 {
        lemma_appended_all_below_max(n, es.drop_last());
        assert(es.last() == es[es.len() - 1]);
        lemma_appended_below_max(appended_all(n, es.drop_last()), es.last());
    } else {
        lemma_match_below_max(n);
    }
}

/// A replica whose indexes are all below the largest has a match index below it.
pub proof fn lemma_match_below_max(n: NodeModel)
    requires
        n.indexes_below_max(),
    ensures
        n.match_index() < u64::MAX,
{
    if n.log.len() > 0 {
        assert(n.log.last() == n.log[n.log.len() - 1]);
    }
}

/// Replica `n` after appending each of `es` in turn.
pub open spec fn appended_all(n: NodeModel, es: Seq<EntryModel>) -> NodeModel
    decreases es.len(),
{
    if es.len() == 0 {
        n
    } else {
        appended_all(n, es.drop_last()).appended(es.last())
    }
}

} // verus!
