//! Applying committed entries to a state machine: the traits a state machine
//! implements, and an adapter that applies each log id at most once, replays
//! duplicates idempotently, refuses conflicting replays, and checkpoints.
use vstd::prelude::*;
use vstd::string::*;
use std::collections::BTreeMap;
use std::marker::PhantomData;
use crate::errors::{RustRaftError, invalid_request};
use crate::text::{decimal_chars, u64_to_decimal};
use vstd::std_specs::btree::{increasing_seq, spec_btree_map_iter};
use vstd::std_specs::iter::IteratorSpec;
use crate::types::{
    RustRaftApplyRequest, RustRaftApplyResponse, RustRaftGenericApplyRequest, RustRaftGenericApplyResponse,
    RustRaftGenericLogEntry, RustRaftGroupId, RustRaftLogId, RustRaftLogIndex, RustRaftSnapshotChunk, RustRaftTerm,
    EntryPayload,
};

verus! {

broadcast use vstd::std_specs::btree::group_btree_axioms;

/// A state machine that applies requests of group `G` carrying payloads `P`.
pub trait RaftApply<G = RustRaftGroupId, P = EntryPayload>: Sized {
    type Response;

    /// Whether the state machine, in state `self`, may answer `request` with
    /// `result` and be left in state `next`. Unless a state machine narrows
    /// it, any outcome is allowed.
    closed spec fn applies(
        &self,
        request: RustRaftGenericApplyRequest<G, P>,
        next: Self,
        result: Result<RustRaftGenericApplyResponse<Self::Response>, RustRaftError>,
    ) -> bool {
        true
    }

    /// Applies `request`: the answer and the state it leaves are one of the
    /// outcomes `applies` allows.
    fn apply(&mut self, request: RustRaftGenericApplyRequest<G, P>) -> (r: Result<
        RustRaftGenericApplyResponse<Self::Response>,
        RustRaftError,
    >)
        ensures
            old(self).applies(request, *final(self), r),
    ;
}

/// A state machine that can also snapshot itself and install a snapshot.
pub trait RaftStateMachine<G = RustRaftGroupId, P = EntryPayload>: RaftApply<G, P> {
    type Snapshot;

    /// Whether the state machine may answer a snapshot request for
    /// `group_id` with `result`. Unless a state machine narrows it, any
    /// answer is allowed.
    closed spec fn snapshots(&self, group_id: G, result: Result<Self::Snapshot, RustRaftError>) -> bool {
        true
    }

    /// Whether installing `snapshot` may answer `result` and leave the state
    /// machine in state `next`. Unless a state machine narrows it, any
    /// outcome is allowed.
    closed spec fn installs(&self, snapshot: Self::Snapshot, next: Self, result: Result<(), RustRaftError>) -> bool {
        true
    }

    /// A snapshot of the state machine for `group_id`.
    fn snapshot(&self, group_id: G) -> (r: Result<Self::Snapshot, RustRaftError>)
        ensures
            self.snapshots(group_id, r),
    ;

    /// Installs `snapshot`.
    fn install_snapshot(&mut self, snapshot: Self::Snapshot) -> (r: Result<(), RustRaftError>)
        ensures
            old(self).installs(snapshot, *final(self), r),
    ;
}

/// Applies one entry: the state machine receives the group id with the
/// entry's log id and payload, and its answer is returned as it is.
pub fn rustraft_apply_entry<S, G, P>(state_machine: &mut S, group_id: G, entry: RustRaftGenericLogEntry<P>) -> (r: Result<
    RustRaftGenericApplyResponse<S::Response>,
    RustRaftError,
>) where S: RaftApply<G, P>
    ensures
        old(state_machine).applies(
            RustRaftGenericApplyRequest { group_id, log_id: entry.log_id, payload: entry.payload },
            *final(state_machine),
            r,
        ),
{
    state_machine.apply(RustRaftGenericApplyRequest { group_id, log_id: entry.log_id, payload: entry.payload })
}

/// What the adapter answers for one entry.
#[derive(Debug, Clone, PartialEq, Eq)]
pub struct RaftFsmApplyOutcome<R> {
    pub response: RustRaftGenericApplyResponse<R>,
    pub applied: bool,
    pub replayed: bool,
    pub reason: String,
}

/// What a replay of several entries did.
#[derive(Debug, Clone, Copy, PartialEq, Eq, Structural)]
pub struct RaftFsmReplayReport {
    pub attempted: u64,
    pub applied: u64,
    pub skipped_replay: u64,
    pub last_applied: RustRaftLogIndex,
    pub idempotent: bool,
}

/// A checkpoint of the adapter: the log ids it applied, in increasing order
/// of index, its last applied index, and the state machine's snapshot.
#[derive(Debug, Clone, PartialEq, Eq)]
pub struct RaftFsmCheckpoint<G, S> {
    pub group_id: G,
    pub last_applied: RustRaftLogIndex,
    pub applied_log_ids: Vec<RustRaftLogId>,
    pub snapshot: S,
}

/// The message of a replay whose term differs from the applied one.
pub open spec fn conflict_message(index: u64, existing: u64, replay: u64) -> Seq<char> {
    "FSM replay conflict at index "@ + decimal_chars(index as nat) + ": existing term "@ + decimal_chars(
        existing as nat,
    ) + ", replay term "@ + decimal_chars(replay as nat)
}

/// The message of a replay whose answer was not kept.
pub open spec fn missing_response_message(index: u64) -> Seq<char> {
    "FSM replay response missing for applied index "@ + decimal_chars(index as nat)
}

/// The log ids of a sequence of entries.
pub open spec fn entry_log_ids<P>(entries: Seq<RustRaftGenericLogEntry<P>>) -> Seq<RustRaftLogId> {
    entries.map_values(|e: RustRaftGenericLogEntry<P>| e.log_id)
}

/// The index-to-term map after applying `ids` in order to `m`: an index
/// already present keeps its term, a new one is recorded.
pub open spec fn applied_after(m: Map<u64, u64>, ids: Seq<RustRaftLogId>) -> Map<u64, u64>
    decreases ids.len(),
{
    if ids.len() == 0 {
        m
    } else {
        let before = applied_after(m, ids.drop_last());
        if before.contains_key(ids.last().index) {
            before
        } else {
            before.insert(ids.last().index, ids.last().term)
        }
    }
}

/// The indexes whose answers are kept once the applied map has gone from
/// `start` to `now`: those kept before, and every index applied since.
pub open spec fn answered_after(answered: Set<u64>, start: Map<u64, u64>, now: Map<u64, u64>) -> Set<u64> {
    answered.union(now.dom().difference(start.dom()))
}

/// A replay from the applied map `terms` and kept answers `answered` stops
/// at entry `k` of `ids` with `r`: the entries before `k` went through, and
/// entry `k` either repeats an applied index with another term (a conflict),
/// repeats an applied log id whose answer is not kept, or is new and the
/// state machine refused it.
pub open spec fn replay_stops_at<T>(
    terms: Map<u64, u64>,
    answered: Set<u64>,
    ids: Seq<RustRaftLogId>,
    k: int,
    r: Result<T, RustRaftError>,
) -> bool {
    let before = applied_after(terms, ids.take(k));
    let id = ids[k];
    &&& 0 <= k < ids.len()
    &&& if before.contains_key(id.index) {
        if before[id.index] != id.term {
            r matches Err(RustRaftError::InvalidRequest(m)) && m@ == conflict_message(id.index, before[id.index], id.term)
        } else {
            &&& !answered_after(answered, terms, before).contains(id.index)
            &&& r matches Err(RustRaftError::Storage(m)) && m@ == missing_response_message(id.index)
        }
    } else {
        r is Err
    }
}

/// The map from index to term that a sequence of log ids describes, later
/// ids replacing earlier ones at the same index.
pub open spec fn log_ids_map(ids: Seq<RustRaftLogId>) -> Map<u64, u64>
    decreases ids.len(),
{
    if ids.len() == 0 {
        Map::empty()
    } else {
        log_ids_map(ids.drop_last()).insert(ids.last().index, ids.last().term)
    }
}

/// A state machine behind an adapter that remembers which log ids it applied
/// and what the state machine answered.
#[derive(Debug)]
pub struct RaftFsmAdapter<S, G = RustRaftGroupId, P = EntryPayload> where S: RaftStateMachine<G, P> {
    group_id: G,
    state_machine: S,
    applied: BTreeMap<RustRaftLogIndex, RustRaftTerm>,
    responses: BTreeMap<RustRaftLogIndex, RustRaftGenericApplyResponse<S::Response>>,
    last_applied: RustRaftLogIndex,
    payload: PhantomData<P>,
}

impl<S, G, P> RaftFsmAdapter<S, G, P> where S: RaftStateMachine<G, P> {
    /// The term applied at each index.
    pub closed spec fn applied_terms(&self) -> Map<u64, u64> {
        self.applied@
    }

    /// The answers the adapter keeps, by index.
    pub closed spec fn kept(&self) -> Map<u64, RustRaftGenericApplyResponse<S::Response>> {
        self.responses@
    }

    /// The indexes whose answer the adapter keeps.
    pub open spec fn answered(&self) -> Set<u64> {
        self.kept().dom()
    }

    /// The highest index the state machine reported applied.
    pub closed spec fn last_applied_index(&self) -> u64 {
        self.last_applied
    }

    /// The group the adapter applies for.
    pub closed spec fn group(&self) -> G {
        self.group_id
    }

    /// The state machine.
    pub closed spec fn machine(&self) -> S {
        self.state_machine
    }

    /// An adapter that has applied nothing.
    pub fn new(group_id: G, state_machine: S) -> (r: Self)
        ensures
            r.applied_terms() == Map::<u64, u64>::empty(),
            r.kept() == Map::<u64, RustRaftGenericApplyResponse<S::Response>>::empty(),
            r.last_applied_index() == 0,
            r.group() == group_id,
            r.machine() == state_machine,
    {
        RaftFsmAdapter {
            group_id,
            state_machine,
            applied: BTreeMap::new(),
            responses: BTreeMap::new(),
            last_applied: 0,
            payload: PhantomData,
        }
    }

    /// The highest index the state machine reported applied.
    pub fn last_applied(&self) -> (r: RustRaftLogIndex)
        ensures
            r == self.last_applied_index(),
    {
        self.last_applied
    }

    /// How many log ids the adapter has applied.
    pub fn applied_log_count(&self) -> (r: usize)
        ensures
            r == self.applied_terms().len(),
    {
        self.applied.len()
    }

    /// The state machine.
    pub fn inner(&self) -> (r: &S)
        ensures
            *r == self.machine(),
    {
        &self.state_machine
    }
}

/// What the adapter does with the state machine's `answer` to a new entry
/// at `index` with `term`, going from `o` to `n` and returning `r`: an
/// error comes back with nothing recorded; an answer comes back as it is,
/// with the log id recorded, a copy of the answer kept, and the last applied
/// index raised to the answer's.
pub open spec fn fresh_apply<S, G, P>(
    o: RaftFsmAdapter<S, G, P>,
    n: RaftFsmAdapter<S, G, P>,
    index: u64,
    term: u64,
    answer: Result<RustRaftGenericApplyResponse<S::Response>, RustRaftError>,
    r: Result<RaftFsmApplyOutcome<S::Response>, RustRaftError>,
) -> bool where S: RaftStateMachine<G, P>, S::Response: Clone {
    match answer {
        Err(e) => {
            &&& r == Err::<RaftFsmApplyOutcome<S::Response>, RustRaftError>(e)
            &&& n.applied_terms() == o.applied_terms()
            &&& n.kept() == o.kept()
            &&& n.last_applied_index() == o.last_applied_index()
        },
        Ok(response) => {
            &&& r matches Ok(out) && out.applied && !out.replayed && out.reason@ == "applied_new_log_id"@ && out.response
                == response
            &&& n.applied_terms() == o.applied_terms().insert(index, term)
            &&& n.kept().contains_key(index)
            &&& n.kept() == o.kept().insert(index, n.kept()[index])
            &&& n.kept()[index].applied_index == response.applied_index
            &&& cloned(response.response, n.kept()[index].response)
            &&& n.last_applied_index() == if o.last_applied_index() >= response.applied_index {
                o.last_applied_index()
            } else {
                response.applied_index
            }
        },
    }
}

fn conflict_error(index: u64, existing: u64, replay: u64) -> (e: RustRaftError)
    ensures
        e matches RustRaftError::InvalidRequest(m) && m@ == conflict_message(index, existing, replay),
{
    RustRaftError::InvalidRequest(
        String::from_str("FSM replay conflict at index ").concat(u64_to_decimal(index).as_str()).concat(
            ": existing term ",
        ).concat(u64_to_decimal(existing).as_str()).concat(", replay term ").concat(u64_to_decimal(replay).as_str()),
    )
}

fn missing_response_error(index: u64) -> (e: RustRaftError)
    ensures
        e matches RustRaftError::Storage(m) && m@ == missing_response_message(index),
{
    RustRaftError::Storage(
        String::from_str("FSM replay response missing for applied index ").concat(u64_to_decimal(index).as_str()),
    )
}

impl<S, G, P> RaftFsmAdapter<S, G, P> where S: RaftStateMachine<G, P>, G: Clone, S::Response: Clone {
    /// Applies `entry` at most once per log id. A log id already applied is
    /// replayed: a copy of the kept answer comes back, marked replayed, and
    /// nothing changes; a replay at an applied index with another term is
    /// refused, as is one whose answer was not kept. A new entry goes to the
    /// state machine as a request carrying (a copy of) the adapter's group id
    /// and the entry's log id and payload; when the state machine answers,
    /// that answer comes back, the log id is recorded with a copy of it, and
    /// the last applied index becomes the larger of the two; when it fails,
    /// its error comes back and nothing is recorded.
    pub fn apply_entry(&mut self, entry: RustRaftGenericLogEntry<P>) -> (r: Result<RaftFsmApplyOutcome<S::Response>, RustRaftError>)
        ensures
            final(self).group() == old(self).group(),
            ({
                let index = entry.log_id.index;
                let term = entry.log_id.term;
                let o = *old(self);
                let n = *final(self);
                if o.applied_terms().contains_key(index) {
                    &&& n.applied_terms() == o.applied_terms()
                    &&& n.kept() == o.kept()
                    &&& n.last_applied_index() == o.last_applied_index()
                    &&& n.machine() == o.machine()
                    &&& if o.applied_terms()[index] != term {
                        r matches Err(RustRaftError::InvalidRequest(m)) && m@ == conflict_message(
                            index,
                            o.applied_terms()[index],
                            term,
                        )
                    } else if !o.answered().contains(index) {
                        r matches Err(RustRaftError::Storage(m)) && m@ == missing_response_message(index)
                    } else {
                        r matches Ok(out) && !out.applied && out.replayed && out.reason@
                            == "duplicate_log_id_replayed_idempotently"@ && out.response.applied_index
                            == o.kept()[index].applied_index && cloned(o.kept()[index].response, out.response.response)
                    }
                } else {
                    exists|
                        request: RustRaftGenericApplyRequest<G, P>,
                        answer: Result<RustRaftGenericApplyResponse<S::Response>, RustRaftError>,
                    |
                        #[trigger] o.machine().applies(request, n.machine(), answer) && cloned(o.group(), request.group_id)
                            && request.log_id == entry.log_id && request.payload == entry.payload && fresh_apply(
                            o,
                            n,
                            index,
                            term,
                            answer,
                            r,
                        )
                }
            }),
    {
        let index = entry.log_id.index;
        match self.applied.get(&index) {
            Some(existing) => {
                let existing = *existing;
                if existing != entry.log_id.term {
                    return Err(conflict_error(index, existing, entry.log_id.term));
                }
                let response = match self.responses.get(&index) {
                    None => {
                        return Err(missing_response_error(index));
                    },
                    Some(kept) => RustRaftGenericApplyResponse {
                        applied_index: kept.applied_index,
                        response: kept.response.clone(),
                    },
                };
                return Ok(
                    RaftFsmApplyOutcome {
                        response,
                        applied: false,
                        replayed: true,
                        reason: String::from_str("duplicate_log_id_replayed_idempotently"),
                    },
                );
            },
            None => {},
        }
        let term = entry.log_id.term;
        let group_id = self.group_id.clone();
        let request = RustRaftGenericApplyRequest { group_id, log_id: entry.log_id, payload: entry.payload };
        let ghost request_sent = request;
        let ghost machine_before = self.state_machine;
        let answer = self.state_machine.apply(request);
        let ghost answer_seen = answer;
        proof {
            assert(cloned(old(self).group(), request_sent.group_id));
        }
        let response = match answer {
            Err(e) => {
                proof {
                    assert(fresh_apply(*old(self), *self, index, term, answer_seen, Err(e)));
                    assert(machine_before == old(self).machine());
                    assert(old(self).machine().applies(request_sent, self.machine(), answer_seen));
                }
                return Err(e);
            },
            Ok(response) => response,
        };
        if self.last_applied < response.applied_index {
            self.last_applied = response.applied_index;
        }
        self.applied.insert(index, term);
        let copy = RustRaftGenericApplyResponse {
            applied_index: response.applied_index,
            response: response.response.clone(),
        };
        self.responses.insert(index, copy);
        proof {
            assert(machine_before == old(self).machine());
            assert(old(self).machine().applies(request_sent, self.machine(), answer_seen));
        }
        Ok(
            RaftFsmApplyOutcome {
                response,
                applied: true,
                replayed: false,
                reason: String::from_str("applied_new_log_id"),
            },
        )
    }

    /// Applies `entries` in order through `apply_entry`, stopping at the
    /// first error; reports how many were attempted, applied and replayed,
    /// and the last applied index at the end. When all succeed, every entry's
    /// log id is recorded, the new ones in order after the ones applied
    /// before, and the applied count is the number of new indexes. A failure
    /// names the entry it stopped at; what the entries before it recorded
    /// stays.
    pub fn replay_entries(&mut self, entries: Vec<RustRaftGenericLogEntry<P>>) -> (r: Result<RaftFsmReplayReport, RustRaftError>)
        ensures
            final(self).group() == old(self).group(),
            r matches Ok(rep) ==> {
                let ids = entry_log_ids(entries@);
                &&& rep.attempted == entries@.len()
                &&& final(self).applied_terms() == applied_after(old(self).applied_terms(), ids)
                &&& forall|i: int|
                    0 <= i < ids.len() ==> final(self).applied_terms().contains_key(#[trigger] ids[i].index)
                        && final(self).applied_terms()[ids[i].index] == ids[i].term
                &&& rep.applied == final(self).applied_terms().len() - old(self).applied_terms().len()
                &&& rep.applied + rep.skipped_replay == rep.attempted
                &&& rep.last_applied == final(self).last_applied_index()
                &&& rep.idempotent
            },
            final(self).answered() == answered_after(
                old(self).answered(),
                old(self).applied_terms(),
                final(self).applied_terms(),
            ),
            r is Err ==> exists|k: int|
                #[trigger] replay_stops_at(
                    old(self).applied_terms(),
                    old(self).answered(),
                    entry_log_ids(entries@),
                    k,
                    r,
                ) && final(self).applied_terms() == applied_after(
                    old(self).applied_terms(),
                    entry_log_ids(entries@).take(k),
                ),
    {
        let ghost all = entries@;
        let ghost ids = entry_log_ids(all);
        let ghost start = self.applied_terms();
        let ghost start_answered = self.answered();
        let mut pending = entries;
        let total = pending.len();
        let mut report = RaftFsmReplayReport {
            attempted: 0,
            applied: 0,
            skipped_replay: 0,
            last_applied: self.last_applied,
            idempotent: true,
        };
        proof {
            assert(ids.take(0) =~= Seq::<RustRaftLogId>::empty());
            assert(all.skip(0) =~= all);
            assert(answered_after(start_answered, start, start) =~= start_answered);
        }
        while pending.len() > 0
            invariant
                self.group() == old(self).group(),
                start == old(self).applied_terms(),
                ids == entry_log_ids(all),
                total == all.len(),
                report.attempted + pending@.len() == total,
                all == entries@,
                pending@ == all.skip(report.attempted as int),
                self.applied_terms().dom().finite(),
                start.dom().finite(),
                self.applied_terms() == applied_after(start, ids.take(report.attempted as int)),
                start_answered == old(self).answered(),
                start.dom().subset_of(self.applied_terms().dom()),
                self.answered() == answered_after(start_answered, start, self.applied_terms()),
                forall|i: int|
                    0 <= i < report.attempted ==> self.applied_terms().contains_key(#[trigger] ids[i].index)
                        && self.applied_terms()[ids[i].index] == ids[i].term,
                report.applied == self.applied_terms().len() - start.len(),
                report.applied + report.skipped_replay == report.attempted,
                report.idempotent,
            decreases pending@.len(),
        {
            let ghost k = report.attempted as int;
            let ghost before = self.applied_terms();
            let ghost before_answered = self.answered();
            let entry = pending.remove(0);
            proof {
                assert(entry == all[k]);
                assert(pending@ =~= all.skip(k + 1));
                assert(ids.take(k + 1).drop_last() =~= ids.take(k));
                assert(ids.take(k + 1).last() == ids[k]);
                assert(ids[k] == entry.log_id);
            }
            report.attempted = report.attempted + 1;
            let outcome = match self.apply_entry(entry) {
                Err(e) => {
                    proof {
                        let r = Err::<RaftFsmReplayReport, RustRaftError>(e);
                        assert(self.applied_terms() == before);
                        assert(replay_stops_at(start, start_answered, ids, k, r));
                    }
                    return Err(e);
                },
                Ok(outcome) => outcome,
            };
            proof {
                if before.contains_key(entry.log_id.index) {
                    assert(self.applied_terms() == before);
                } else {
                    assert(self.applied_terms() == before.insert(entry.log_id.index, entry.log_id.term));
                    assert(self.applied_terms().len() == before.len() + 1);
                    assert(!start.dom().contains(entry.log_id.index));
                    assert(self.answered() =~= answered_after(start_answered, start, self.applied_terms()));
                }
                assert forall|i: int| 0 <= i < k + 1 implies self.applied_terms().contains_key(
                    #[trigger] ids[i].index,
                ) && self.applied_terms()[ids[i].index] == ids[i].term by {
                    if i < k {
                        assert(before.contains_key(ids[i].index));
                    }
                }
            }
            if outcome.applied {
                report.applied = report.applied + 1;
            }
            if outcome.replayed {
                report.skipped_replay = report.skipped_replay + 1;
            }
        }
        proof {
            assert(ids.take(total as int) =~= ids);
        }
        report.last_applied = self.last_applied;
        Ok(report)
    }
}

/// The log ids of an index-to-term map, in increasing order of index.
pub open spec fn sorted_log_ids(ids: Seq<RustRaftLogId>, m: Map<u64, u64>) -> bool {
    &&& ids.len() == m.dom().len()
    &&& forall|i: int| 0 <= i < ids.len() ==> m.contains_key(#[trigger] ids[i].index) && m[ids[i].index] == ids[i].term
    &&& forall|i: int, j: int| 0 <= i < j < ids.len() ==> #[trigger] ids[i].index < #[trigger] ids[j].index
}

impl<S, G, P> RaftFsmAdapter<S, G, P> where S: RaftStateMachine<G, P>, G: Clone {
    /// A checkpoint: the applied log ids in increasing order of index, the
    /// last applied index, and the state machine's snapshot; fails when the
    /// state machine cannot snapshot.
    pub fn checkpoint(&self) -> (r: Result<RaftFsmCheckpoint<G, S::Snapshot>, RustRaftError>)
        ensures
            r matches Ok(cp) ==> cp.last_applied == self.last_applied_index() && sorted_log_ids(
                cp.applied_log_ids@,
                self.applied_terms(),
            ) && cloned(self.group(), cp.group_id),
            exists|group_id: G, answer: Result<S::Snapshot, RustRaftError>|
                #[trigger] self.machine().snapshots(group_id, answer) && cloned(self.group(), group_id) && match answer {
                    Ok(snapshot) => r matches Ok(cp) && cp.snapshot == snapshot,
                    Err(e) => r == Err::<RaftFsmCheckpoint<G, S::Snapshot>, RustRaftError>(e),
                },
    {
        let mut ids: Vec<RustRaftLogId> = Vec::new();
        let ghost v = IteratorSpec::remaining(&spec_btree_map_iter(&self.applied));
        let entries = self.applied.iter();
        proof {
            assert(increasing_seq(v.map_values(|kv: (&u64, &u64)| *kv.0)));
        }
        for kv in it: entries
            invariant
                it.seq() == v,
                ids@.len() == it.index(),
                forall|i: int| 0 <= i < ids@.len() ==> #[trigger] ids@[i] == (RustRaftLogId {
                    term: *v[i].1,
                    index: *v[i].0,
                }),
        {
            let (index, term) = kv;
            ids.push(RustRaftLogId { term: *term, index: *index });
        }
        proof {
            let keys = v.map_values(|kv: (&u64, &u64)| *kv.0);
            assert(increasing_seq(keys));
            assert forall|i: int, j: int| 0 <= i < j < ids@.len() implies #[trigger] ids@[i].index < #[trigger] ids@[j].index by {
                assert(keys[i] == *v[i].0);
                assert(keys[j] == *v[j].0);
                assert(vstd::std_specs::cmp::OrdSpec::cmp_spec(&keys[i], &keys[j]) is Less);
            }
        }
        let asked = self.group_id.clone();
        let ghost asked_for = asked;
        let answer = self.state_machine.snapshot(asked);
        let ghost answer_seen = answer;
        let snapshot = match answer {
            Err(e) => {
                proof {
                    assert(self.machine().snapshots(asked_for, answer_seen));
                }
                return Err(e);
            },
            Ok(snapshot) => snapshot,
        };
        proof {
            assert(self.machine().snapshots(asked_for, answer_seen));
        }
        Ok(
            RaftFsmCheckpoint {
                group_id: self.group_id.clone(),
                last_applied: self.last_applied,
                applied_log_ids: ids,
                snapshot,
            },
        )
    }

    /// Restores a checkpoint: the state machine installs its snapshot (a
    /// failure comes back and changes nothing else), then the adapter takes
    /// its last applied index and log ids, and forgets every kept answer.
    pub fn install_checkpoint(&mut self, checkpoint: RaftFsmCheckpoint<G, S::Snapshot>) -> (r: Result<(), RustRaftError>)
        ensures
            final(self).group() == old(self).group(),
            r is Err ==> final(self).applied_terms() == old(self).applied_terms() && final(self).answered() == old(
                self,
            ).answered() && final(self).last_applied_index() == old(self).last_applied_index(),
            r is Ok ==> final(self).applied_terms() == log_ids_map(checkpoint.applied_log_ids@) && final(self).answered()
                == Set::<u64>::empty() && final(self).last_applied_index() == checkpoint.last_applied,
            old(self).machine().installs(checkpoint.snapshot, final(self).machine(), r),
    {
        let ghost snapshot_given = checkpoint.snapshot;
        let installed = self.state_machine.install_snapshot(checkpoint.snapshot);
        let ghost machine_after = self.state_machine;
        let ghost installed_seen = installed;
        match installed {
            Err(e) => {
                return Err(e);
            },
            Ok(u) => {
                proof {
                    assert(installed_seen == Ok::<(), RustRaftError>(u));
                }
            },
        }
        self.last_applied = checkpoint.last_applied;
        let ids = checkpoint.applied_log_ids;
        let mut applied: BTreeMap<RustRaftLogIndex, RustRaftTerm> = BTreeMap::new();
        let mut i: usize = 0;
        while i < ids.len()
            invariant
                i <= ids@.len(),
                applied@ == log_ids_map(ids@.take(i as int)),
                installed_seen == Ok::<(), RustRaftError>(()),
                machine_after == self.state_machine,
                old(self).machine().installs(snapshot_given, machine_after, installed_seen),
            decreases ids@.len() - i,
        {
            proof {
                assert(ids@.take(i + 1).drop_last() =~= ids@.take(i as int));
            }
            applied.insert(ids[i].index, ids[i].term);
            i = i + 1;
        }
        proof {
            assert(ids@.take(ids@.len() as int) =~= ids@);
        }
        self.applied = applied;
        self.responses.clear();
        proof {
            assert(self.machine() == machine_after);
            assert(installed_seen == Ok::<(), RustRaftError>(()));
            assert(old(self).machine().installs(snapshot_given, self.machine(), installed_seen));
        }
        Ok(())
    }
}

impl<S, G, P> RaftFsmAdapter<S, G, P> where S: RaftStateMachine<G, P> {
    /// The state machine, to change it in place; the adapter's records stay.
    pub fn inner_mut(&mut self) -> (r: &mut S)
        ensures
            *r == old(self).machine(),
            final(self).machine() == *final(r),
            final(self).applied_terms() == old(self).applied_terms(),
            final(self).answered() == old(self).answered(),
            final(self).last_applied_index() == old(self).last_applied_index(),
            final(self).group() == old(self).group(),
    {
        &mut self.state_machine
    }
}

/// A state machine over raw byte payloads of the default group type.
pub trait RustRaftStateMachine: Sized {
    /// Whether the state machine, in state `self`, may answer `request` with
    /// `result` and be left in state `next`. Unless a state machine narrows
    /// it, any outcome is allowed.
    closed spec fn answers(
        &self,
        request: RustRaftApplyRequest,
        next: Self,
        result: Result<RustRaftApplyResponse, RustRaftError>,
    ) -> bool {
        true
    }

    /// Applies `request`: the answer and the state it leaves are one of the
    /// outcomes `answers` allows.
    fn apply(&mut self, request: RustRaftApplyRequest) -> (r: Result<RustRaftApplyResponse, RustRaftError>)
        ensures
            old(self).answers(request, *final(self), r),
    ;

    fn snapshot(&self) -> Result<RustRaftSnapshotChunk, RustRaftError>;

    fn install_snapshot(&mut self, chunk: RustRaftSnapshotChunk) -> Result<(), RustRaftError>;
}

/// The raw request a generic request of the default types stands for.
pub open spec fn raw_request(request: RustRaftGenericApplyRequest<RustRaftGroupId, EntryPayload>) -> RustRaftApplyRequest {
    RustRaftApplyRequest { group_id: request.group_id, log_id: request.log_id, payload: request.payload }
}

/// The generic answer a raw answer stands for.
pub open spec fn generic_answer(raw: Result<RustRaftApplyResponse, RustRaftError>) -> Result<
    RustRaftGenericApplyResponse<EntryPayload>,
    RustRaftError,
> {
    match raw {
        Ok(response) => Ok(
            RustRaftGenericApplyResponse { applied_index: response.applied_index, response: response.response },
        ),
        Err(e) => Err(e),
    }
}

impl<T> RaftApply<RustRaftGroupId, EntryPayload> for T where T: RustRaftStateMachine {
    type Response = EntryPayload;

    /// The raw state machine answers the same request, and its answer is
    /// passed on unchanged.
    open spec fn applies(
        &self,
        request: RustRaftGenericApplyRequest<RustRaftGroupId, EntryPayload>,
        next: Self,
        result: Result<RustRaftGenericApplyResponse<EntryPayload>, RustRaftError>,
    ) -> bool {
        exists|raw: Result<RustRaftApplyResponse, RustRaftError>|
            #[trigger] RustRaftStateMachine::answers(self, raw_request(request), next, raw) && result == generic_answer(raw)
    }

    /// Hands the request on unchanged and returns the state machine's answer.
    fn apply(&mut self, request: RustRaftGenericApplyRequest<RustRaftGroupId, EntryPayload>) -> (r: Result<
        RustRaftGenericApplyResponse<EntryPayload>,
        RustRaftError,
    >) {
        let ghost before = *self;
        let ghost generic = request;
        let answer = RustRaftStateMachine::apply(
            self,
            RustRaftApplyRequest { group_id: request.group_id, log_id: request.log_id, payload: request.payload },
        );
        proof {
            assert(RustRaftStateMachine::answers(&before, raw_request(generic), *self, answer));
        }
        match answer {
            Err(e) => Err(e),
            Ok(response) => Ok(RustRaftGenericApplyResponse { applied_index: response.applied_index, response: response.response }),
        }
    }
}


} // verus!
