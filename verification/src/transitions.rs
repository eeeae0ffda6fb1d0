//! Evidence that membership transitions (failover, scale-up, scale-down) of
//! the metaserver and data-node groups were carried out safely.
use vstd::prelude::*;
use vstd::string::*;
use crate::membership::majority_of;
use crate::report::{Check, ExecCheck, ReportLists, absent_ids, checks_view, empty_lists, lemma_absent_ids_empty, s, push_str};
use crate::seqs::{strs, clone_strings};
use crate::text::{decimal_chars, u64_to_decimal};

verus! {

#[derive(Debug, Clone, Copy, PartialEq, Eq, Structural, Hash)]
pub enum RustRaftMembershipScope {
    Metaserver,
    DataNode,
}

#[derive(Debug, Clone, Copy, PartialEq, Eq, Structural, Hash)]
pub enum RustRaftMembershipTransitionKind {
    Failover,
    ScaleUp,
    ScaleDown,
}

#[derive(Debug, Clone, PartialEq, Eq)]
pub struct RustRaftMembershipTransitionEvidence {
    pub scope: RustRaftMembershipScope,
    pub transition: RustRaftMembershipTransitionKind,
    pub before_voters: Vec<u64>,
    pub after_voters: Vec<u64>,
    pub before_learners: Vec<u64>,
    pub after_learners: Vec<u64>,
    pub leader_before: Option<u64>,
    pub leader_after: Option<u64>,
    pub failed_or_removed_nodes: Vec<u64>,
    pub added_nodes: Vec<u64>,
    pub caught_up_nodes: Vec<u64>,
    pub commit_index_before: u64,
    pub commit_index_after: u64,
    pub applied_index_after: u64,
    pub joint_consensus_used: bool,
    pub old_majority_preserved: bool,
    pub new_majority_reached: bool,
    pub stale_leader_rejected: bool,
    pub read_index_validated_after: bool,
    pub write_validated_after: bool,
    pub snapshot_floor_preserved: bool,
    pub secondary_replication_visible: bool,
    pub scheduler_generation_advanced: bool,
    pub blockers: Vec<String>,
}

#[derive(Debug, Clone, PartialEq, Eq)]
pub struct RustRaftMembershipTransitionDecision {
    pub scope: RustRaftMembershipScope,
    pub transition: RustRaftMembershipTransitionKind,
    pub ready: bool,
    pub missing: Vec<String>,
}

#[derive(Debug, Clone, PartialEq, Eq)]
pub struct RustRaftMembershipReadinessReport {
    pub ready: bool,
    pub satisfied: Vec<String>,
    pub missing: Vec<String>,
    pub decisions: Vec<RustRaftMembershipTransitionDecision>,
}

/// Each string of `v` with `prefix` in front.
pub open spec fn prefixed(prefix: Seq<char>, v: Seq<Seq<char>>) -> Seq<Seq<char>> {
    v.map_values(|x: Seq<char>| prefix + x)
}

/// Appends each string of `items` with `prefix` in front.
pub fn extend_prefixed(out: &mut Vec<String>, prefix: &str, items: &Vec<String>)
    ensures
        strs(final(out)@) == strs(old(out)@) + prefixed(prefix@, strs(items@)),
{
    let ghost start = strs(out@);
    let mut i: usize = 0;
    while i < items.len()
        invariant
            i <= items.len(),
            strs(out@) == start + prefixed(prefix@, strs(items@)).subrange(0, i as int),
        decreases items.len() - i,
    {
        push_str(out, String::from_str(prefix).concat(items[i].as_str()));
        proof {
            assert(strs(out@) =~= start + prefixed(prefix@, strs(items@)).subrange(0, i + 1));
        }
        i = i + 1;
    }
    proof {
        assert(prefixed(prefix@, strs(items@)).subrange(0, items@.len() as int) =~= prefixed(prefix@, strs(items@)));
    }
}

/// The checks every transition must pass, in the order they are reported.
#[verifier::opaque]
pub open spec fn common_checks(e: RustRaftMembershipTransitionEvidence) -> Seq<Check> {
    let before_majority = majority_of(e.before_voters@.len());
    let after_majority = majority_of(e.after_voters@.len());
    seq![
        Check { present: e.before_voters@.len() >= 3, id: "before_voter_quorum_size"@, action: seq![] },
        Check { present: e.after_voters@.len() >= 3, id: "after_voter_quorum_size"@, action: seq![] },
        Check { present: e.commit_index_after >= e.commit_index_before, id: "monotonic_commit_index"@, action: seq![] },
        Check { present: e.applied_index_after >= e.commit_index_after, id: "apply_catches_commit"@, action: seq![] },
        Check { present: e.old_majority_preserved, id: "old_majority_preserved_"@ + decimal_chars(before_majority), action: seq![] },
        Check { present: e.new_majority_reached, id: "new_majority_reached_"@ + decimal_chars(after_majority), action: seq![] },
        Check { present: e.stale_leader_rejected, id: "stale_leader_rejected"@, action: seq![] },
        Check { present: e.read_index_validated_after, id: "read_index_after_transition"@, action: seq![] },
        Check { present: e.write_validated_after, id: "write_after_transition"@, action: seq![] },
        Check { present: e.snapshot_floor_preserved, id: "snapshot_floor_preserved"@, action: seq![] },
        Check { present: e.secondary_replication_visible, id: "secondary_replication_visible"@, action: seq![] },
        Check {
            present: !(e.scope is Metaserver) || e.scheduler_generation_advanced,
            id: "scheduler_generation_advanced"@,
            action: seq![],
        },
    ]
}

/// The checks specific to the kind of transition.
#[verifier::opaque]
pub open spec fn kind_checks(e: RustRaftMembershipTransitionEvidence) -> Seq<Check> {
    match e.transition {
        RustRaftMembershipTransitionKind::Failover => seq![
            Check { present: e.leader_before is Some && e.leader_after is Some, id: "leader_before_after_present"@, action: seq![] },
            Check { present: e.leader_before != e.leader_after, id: "leader_changed_after_failover"@, action: seq![] },
            Check { present: e.failed_or_removed_nodes@.len() > 0, id: "failed_node_recorded"@, action: seq![] },
        ],
        RustRaftMembershipTransitionKind::ScaleUp => seq![
            Check { present: e.joint_consensus_used, id: "joint_consensus_used"@, action: seq![] },
            Check { present: e.added_nodes@.len() > 0, id: "added_node_recorded"@, action: seq![] },
            Check { present: e.after_voters@.len() > e.before_voters@.len(), id: "voter_count_increased"@, action: seq![] },
            Check { present: e.caught_up_nodes@.len() > 0, id: "learner_catchup_observed"@, action: seq![] },
        ],
        RustRaftMembershipTransitionKind::ScaleDown => seq![
            Check { present: e.joint_consensus_used, id: "joint_consensus_used"@, action: seq![] },
            Check { present: e.failed_or_removed_nodes@.len() > 0, id: "removed_node_recorded"@, action: seq![] },
            Check { present: e.after_voters@.len() < e.before_voters@.len(), id: "voter_count_decreased"@, action: seq![] },
        ],
    }
}

/// The transition's own checks, in the order they are reported.
pub open spec fn transition_checks(e: RustRaftMembershipTransitionEvidence) -> Seq<Check> {
    common_checks(e) + kind_checks(e)
}

/// What a transition still lacks: its failed checks, then its blockers.
pub open spec fn transition_missing(e: RustRaftMembershipTransitionEvidence) -> Seq<Seq<char>> {
    absent_ids(transition_checks(e)) + prefixed("blocker:"@, strs(e.blockers@))
}

fn check(present: bool, id: String) -> (r: ExecCheck)
    ensures
        r.view() == (Check { present, id: id@, action: seq![] }),
{
    let r = ExecCheck { present, id, action: String::new() };
    r
}

#[verifier::rlimit(60)]
fn common_exec(e: &RustRaftMembershipTransitionEvidence) -> (r: Vec<ExecCheck>)
    ensures
        checks_view(r@) == common_checks(*e),
{
    let before_majority = e.before_voters.len() / 2 + 1;
    let after_majority = e.after_voters.len() / 2 + 1;
    let r = vec![
        check(e.before_voters.len() >= 3, s("before_voter_quorum_size")),
        check(e.after_voters.len() >= 3, s("after_voter_quorum_size")),
        check(e.commit_index_after >= e.commit_index_before, s("monotonic_commit_index")),
        check(e.applied_index_after >= e.commit_index_after, s("apply_catches_commit")),
        check(e.old_majority_preserved, s("old_majority_preserved_").concat(u64_to_decimal(before_majority as u64).as_str())),
        check(e.new_majority_reached, s("new_majority_reached_").concat(u64_to_decimal(after_majority as u64).as_str())),
        check(e.stale_leader_rejected, s("stale_leader_rejected")),
        check(e.read_index_validated_after, s("read_index_after_transition")),
        check(e.write_validated_after, s("write_after_transition")),
        check(e.snapshot_floor_preserved, s("snapshot_floor_preserved")),
        check(e.secondary_replication_visible, s("secondary_replication_visible")),
        check(
            !matches!(e.scope, RustRaftMembershipScope::Metaserver) || e.scheduler_generation_advanced,
            s("scheduler_generation_advanced"),
        ),
    ];
    proof {
        reveal(common_checks);
        assert(checks_view(r@) =~= common_checks(*e));
    }
    r
}

fn kind_exec(e: &RustRaftMembershipTransitionEvidence) -> (r: Vec<ExecCheck>)
    ensures
        checks_view(r@) == kind_checks(*e),
{
    reveal(kind_checks);
    match e.transition {
        RustRaftMembershipTransitionKind::Failover => {
            let r = vec![
                check(e.leader_before.is_some() && e.leader_after.is_some(), s("leader_before_after_present")),
                check(e.leader_before != e.leader_after, s("leader_changed_after_failover")),
                check(e.failed_or_removed_nodes.len() > 0, s("failed_node_recorded")),
            ];
            assert(checks_view(r@) =~= kind_checks(*e));
            r
        },
        RustRaftMembershipTransitionKind::ScaleUp => {
            let r = vec![
                check(e.joint_consensus_used, s("joint_consensus_used")),
                check(e.added_nodes.len() > 0, s("added_node_recorded")),
                check(e.after_voters.len() > e.before_voters.len(), s("voter_count_increased")),
                check(e.caught_up_nodes.len() > 0, s("learner_catchup_observed")),
            ];
            assert(checks_view(r@) =~= kind_checks(*e));
            r
        },
        RustRaftMembershipTransitionKind::ScaleDown => {
            let r = vec![
                check(e.joint_consensus_used, s("joint_consensus_used")),
                check(e.failed_or_removed_nodes.len() > 0, s("removed_node_recorded")),
                check(e.after_voters.len() < e.before_voters.len(), s("voter_count_decreased")),
            ];
            assert(checks_view(r@) =~= kind_checks(*e));
            r
        },
    }
}

/// The requirements a membership transition fails, as ids; blockers are
/// reported as `blocker:<blocker>`.
pub fn rustraft_membership_transition_missing(evidence: &RustRaftMembershipTransitionEvidence) -> (r: Vec<String>)
    ensures
        strs(r@) == transition_missing(*evidence),
{
    let mut checks = common_exec(evidence);
    let mut kind = kind_exec(evidence);
    let ghost common = checks_view(checks@);
    let ghost kind_view = checks_view(kind@);
    checks.append(&mut kind);
    proof {
        assert(checks_view(checks@) =~= common + kind_view);
    }
    let mut lists = empty_lists();
    lists.require_all(checks);
    let ReportLists { satisfied: _, missing, blockers: _, actions: _ } = lists;
    let mut missing = missing;
    proof {
        assert(strs(missing@) =~= absent_ids(transition_checks(*evidence)));
    }
    extend_prefixed(&mut missing, "blocker:", &evidence.blockers);
    missing
}

/// The id of a scope and transition, such as `datanode:scaleup`.
pub open spec fn transition_id(scope: RustRaftMembershipScope, kind: RustRaftMembershipTransitionKind) -> Seq<char> {
    (match scope {
        RustRaftMembershipScope::Metaserver => "metaserver:"@,
        RustRaftMembershipScope::DataNode => "datanode:"@,
    }) + (match kind {
        RustRaftMembershipTransitionKind::Failover => "failover"@,
        RustRaftMembershipTransitionKind::ScaleUp => "scaleup"@,
        RustRaftMembershipTransitionKind::ScaleDown => "scaledown"@,
    })
}

/// Renders the id of a scope and transition.
pub fn membership_transition_id(scope: RustRaftMembershipScope, kind: RustRaftMembershipTransitionKind) -> (r: String)
    ensures
        r@ == transition_id(scope, kind),
{
    let a = match scope {
        RustRaftMembershipScope::Metaserver => "metaserver:",
        RustRaftMembershipScope::DataNode => "datanode:",
    };
    let b = match kind {
        RustRaftMembershipTransitionKind::Failover => "failover",
        RustRaftMembershipTransitionKind::ScaleUp => "scaleup",
        RustRaftMembershipTransitionKind::ScaleDown => "scaledown",
    };
    String::from_str(a).concat(b)
}

/// The transitions that must be proven, in order: failover, scale-up and
/// scale-down for the metaserver, then the same for the data nodes.
pub open spec fn required_at(k: int) -> (RustRaftMembershipScope, RustRaftMembershipTransitionKind) {
    (
        if k < 3 { RustRaftMembershipScope::Metaserver } else { RustRaftMembershipScope::DataNode },
        if k % 3 == 0 {
            RustRaftMembershipTransitionKind::Failover
        } else if k % 3 == 1 {
            RustRaftMembershipTransitionKind::ScaleUp
        } else {
            RustRaftMembershipTransitionKind::ScaleDown
        },
    )
}

fn required_pair(k: usize) -> (r: (RustRaftMembershipScope, RustRaftMembershipTransitionKind))
    requires
        k < 6,
    ensures
        r == required_at(k as int),
{
    let scope = if k < 3 { RustRaftMembershipScope::Metaserver } else { RustRaftMembershipScope::DataNode };
    let kind = if k % 3 == 0 {
        RustRaftMembershipTransitionKind::Failover
    } else if k % 3 == 1 {
        RustRaftMembershipTransitionKind::ScaleUp
    } else {
        RustRaftMembershipTransitionKind::ScaleDown
    };
    (scope, kind)
}

/// Whether some evidence covers the given scope and transition.
pub open spec fn has_transition(
    ts: Seq<RustRaftMembershipTransitionEvidence>,
    scope: RustRaftMembershipScope,
    kind: RustRaftMembershipTransitionKind,
) -> bool {
    exists|i: int| 0 <= i < ts.len() && ts[i].scope == scope && ts[i].transition == kind
}

/// The first evidence covering the given scope and transition.
pub open spec fn first_transition(
    ts: Seq<RustRaftMembershipTransitionEvidence>,
    scope: RustRaftMembershipScope,
    kind: RustRaftMembershipTransitionKind,
) -> RustRaftMembershipTransitionEvidence {
    ts[choose|i: int| 0 <= i < ts.len() && ts[i].scope == scope && ts[i].transition == kind
        && forall|j: int| 0 <= j < i ==> !(ts[j].scope == scope && ts[j].transition == kind)]
}

/// What one required transition lacks: `evidence_present` when no evidence
/// covers it, else the failed requirements of its first evidence.
#[verifier::opaque]
pub open spec fn required_missing(
    ts: Seq<RustRaftMembershipTransitionEvidence>,
    scope: RustRaftMembershipScope,
    kind: RustRaftMembershipTransitionKind,
) -> Seq<Seq<char>> {
    if !has_transition(ts, scope, kind) {
        seq!["evidence_present"@]
    } else {
        transition_missing(first_transition(ts, scope, kind))
    }
}

/// The report's missing list: each required transition's missing ids,
/// prefixed by the transition id, in the required order.
#[verifier::opaque]
pub open spec fn membership_report_missing(ts: Seq<RustRaftMembershipTransitionEvidence>, k: int) -> Seq<Seq<char>>
    decreases k,
{
    if k <= 0 {
        seq![]
    } else {
        membership_report_missing(ts, k - 1) + prefixed(
            transition_id(required_at(k - 1).0, required_at(k - 1).1) + ":"@,
            required_missing(ts, required_at(k - 1).0, required_at(k - 1).1),
        )
    }
}

/// The report's satisfied list: the ids of the required transitions with
/// nothing missing, in the required order.
#[verifier::opaque]
pub open spec fn membership_report_satisfied(ts: Seq<RustRaftMembershipTransitionEvidence>, k: int) -> Seq<Seq<char>>
    decreases k,
{
    if k <= 0 {
        seq![]
    } else {
        if required_missing(ts, required_at(k - 1).0, required_at(k - 1).1).len() == 0 {
            membership_report_satisfied(ts, k - 1).push(transition_id(required_at(k - 1).0, required_at(k - 1).1))
        } else {
            membership_report_satisfied(ts, k - 1)
        }
    }
}

fn find_transition(
    transitions: &[RustRaftMembershipTransitionEvidence],
    scope: RustRaftMembershipScope,
    kind: RustRaftMembershipTransitionKind,
) -> (r: Option<usize>)
    ensures
        r is None <==> !has_transition(transitions@, scope, kind),
        r matches Some(p) ==> p < transitions@.len() && transitions@[p as int] == first_transition(transitions@, scope, kind),
{
    let mut i: usize = 0;
    while i < transitions.len()
        invariant
            i <= transitions.len(),
            forall|j: int| 0 <= j < i ==> !(transitions@[j].scope == scope && transitions@[j].transition == kind),
        decreases transitions.len() - i,
    {
        if transitions[i].scope == scope && transitions[i].transition == kind {
            proof {
                let ts = transitions@;
                let q = choose|q: int| 0 <= q < ts.len() && ts[q].scope == scope && ts[q].transition == kind
                    && forall|j: int| 0 <= j < q ==> !(ts[j].scope == scope && ts[j].transition == kind);
                assert(0 <= q < ts.len() && ts[q].scope == scope && ts[q].transition == kind
                    && forall|j: int| 0 <= j < q ==> !(ts[j].scope == scope && ts[j].transition == kind));
                if q < i {
                } else if i < q {
                    assert(!(ts[i as int].scope == scope && ts[i as int].transition == kind));
                }
                assert(q == i);
            }
            return Some(i);
        }
        i = i + 1;
    }
    None
}

impl RustRaftMembershipTransitionDecision {
    pub open spec fn row(self) -> (RustRaftMembershipScope, RustRaftMembershipTransitionKind, bool, Seq<Seq<char>>) {
        (self.scope, self.transition, self.ready, strs(self.missing@))
    }
}

/// Checks that failover, scale-up and scale-down were proven for both the
/// metaserver and the data nodes. The report is ready exactly when nothing
/// is missing; each required transition gets one decision, in order.
pub fn rustraft_membership_readiness_report(
    transitions: &[RustRaftMembershipTransitionEvidence],
) -> (r: RustRaftMembershipReadinessReport)
    ensures
        strs(r.missing@) == membership_report_missing(transitions@, 6),
        strs(r.satisfied@) == membership_report_satisfied(transitions@, 6),
        r.ready == (r.missing@.len() == 0),
        r.decisions@.len() == 6,
        forall|k: int| 0 <= k < 6 ==> (#[trigger] r.decisions@[k]).row() == (required_at(k).0, required_at(k).1,
            required_missing(transitions@, required_at(k).0, required_at(k).1).len() == 0,
            required_missing(transitions@, required_at(k).0, required_at(k).1)),
{
    let mut satisfied: Vec<String> = Vec::new();
    let mut missing: Vec<String> = Vec::new();
    let mut decisions: Vec<RustRaftMembershipTransitionDecision> = Vec::new();
    proof {
        assert(strs(satisfied@) =~= Seq::<Seq<char>>::empty());
        assert(strs(missing@) =~= Seq::<Seq<char>>::empty());
        reveal(membership_report_missing);
        reveal(membership_report_satisfied);
    }
    let mut k: usize = 0;
    while k < 6
        invariant
            k <= 6,
            strs(missing@) == membership_report_missing(transitions@, k as int),
            strs(satisfied@) == membership_report_satisfied(transitions@, k as int),
            decisions@.len() == k,
            forall|j: int| 0 <= j < k ==> (#[trigger] decisions@[j]).row() == (required_at(j).0, required_at(j).1,
                required_missing(transitions@, required_at(j).0, required_at(j).1).len() == 0,
                required_missing(transitions@, required_at(j).0, required_at(j).1)),
        decreases 6 - k,
    {
        let (scope, kind) = required_pair(k);
        proof {
            lemma_report_step(transitions@, k as int);
        }
        let id = membership_transition_id(scope, kind);
        let prefix = id.clone().concat(":");
        let item_missing = required_item_missing(transitions, scope, kind);
        extend_prefixed(&mut missing, prefix.as_str(), &item_missing);
        let ready = item_missing.len() == 0;
        if ready {
            push_str(&mut satisfied, id);
        }
        decisions.push(RustRaftMembershipTransitionDecision { scope, transition: kind, ready, missing: item_missing });
        k = k + 1;
    }
    let ready = missing.len() == 0;
    RustRaftMembershipReadinessReport { ready, satisfied, missing, decisions }
}

fn required_item_missing(
    transitions: &[RustRaftMembershipTransitionEvidence],
    scope: RustRaftMembershipScope,
    kind: RustRaftMembershipTransitionKind,
) -> (r: Vec<String>)
    ensures
        strs(r@) == required_missing(transitions@, scope, kind),
{
    reveal(required_missing);
    match find_transition(transitions, scope, kind) {
        None => {
            let mut m: Vec<String> = Vec::new();
            push_str(&mut m, s("evidence_present"));
            proof {
                assert(strs(m@) =~= seq!["evidence_present"@]);
            }
            m
        },
        Some(p) => rustraft_membership_transition_missing(&transitions[p]),
    }
}

proof fn lemma_report_step(ts: Seq<RustRaftMembershipTransitionEvidence>, k: int)
    requires
        0 <= k,
    ensures
        membership_report_missing(ts, k + 1) == membership_report_missing(ts, k) + prefixed(
            transition_id(required_at(k).0, required_at(k).1) + ":"@,
            required_missing(ts, required_at(k).0, required_at(k).1),
        ),
        membership_report_satisfied(ts, k + 1) == if required_missing(ts, required_at(k).0, required_at(k).1).len() == 0 {
            membership_report_satisfied(ts, k).push(transition_id(required_at(k).0, required_at(k).1))
        } else {
            membership_report_satisfied(ts, k)
        },
{
    reveal(membership_report_missing);
    reveal(membership_report_satisfied);
}

/// The membership report is ready exactly when every required transition has
/// evidence whose checks all hold and that carries no blockers.
pub proof fn law_membership_ready_needs_every_transition(ts: Seq<RustRaftMembershipTransitionEvidence>)
    requires
        membership_report_missing(ts, 6).len() == 0,
    ensures
        forall|k: int| 0 <= k < 6 ==> has_transition(ts, #[trigger] required_at(k).0, required_at(k).1)
            && transition_missing(first_transition(ts, required_at(k).0, required_at(k).1)).len() == 0,
{
    assert forall|k: int| 0 <= k < 6 implies has_transition(ts, #[trigger] required_at(k).0, required_at(k).1)
        && transition_missing(first_transition(ts, required_at(k).0, required_at(k).1)).len() == 0 by {
        lemma_report_missing_contains(ts, 6, k);
        reveal(required_missing);
    }
}

proof fn lemma_report_missing_contains(ts: Seq<RustRaftMembershipTransitionEvidence>, n: int, k: int)
    requires
        0 <= k < n <= 6,
    ensures
        membership_report_missing(ts, n).len() >= required_missing(ts, required_at(k).0, required_at(k).1).len(),
    decreases n,
{
    let part = prefixed(
        transition_id(required_at(n - 1).0, required_at(n - 1).1) + ":"@,
        required_missing(ts, required_at(n - 1).0, required_at(n - 1).1),
    );
    assert(part.len() == required_missing(ts, required_at(n - 1).0, required_at(n - 1).1).len());
    lemma_report_step(ts, n - 1);
    if k < n - 1 {
        lemma_report_missing_contains(ts, n - 1, k);
    }
}

proof fn lemma_report_lists_hold(ts: Seq<RustRaftMembershipTransitionEvidence>, n: int, k: int)
    requires
        0 <= k < n <= 6,
    ensures
        forall|j: int|
            0 <= j < required_missing(ts, required_at(k).0, required_at(k).1).len() ==> membership_report_missing(
                ts,
                n,
            ).contains(
                transition_id(required_at(k).0, required_at(k).1) + ":"@ + #[trigger] required_missing(
                    ts,
                    required_at(k).0,
                    required_at(k).1,
                )[j],
            ),
        required_missing(ts, required_at(k).0, required_at(k).1).len() == 0 ==> membership_report_satisfied(
            ts,
            n,
        ).contains(transition_id(required_at(k).0, required_at(k).1)),
    decreases n,
{
    let item = required_missing(ts, required_at(k).0, required_at(k).1);
    let id = transition_id(required_at(k).0, required_at(k).1);
    lemma_report_step(ts, n - 1);
    let before = membership_report_missing(ts, n - 1);
    let part = prefixed(
        transition_id(required_at(n - 1).0, required_at(n - 1).1) + ":"@,
        required_missing(ts, required_at(n - 1).0, required_at(n - 1).1),
    );
    if k < n - 1 {
        lemma_report_lists_hold(ts, n - 1, k);
        assert forall|j: int| 0 <= j < item.len() implies membership_report_missing(ts, n).contains(
            id + ":"@ + #[trigger] item[j],
        ) by {
            let w = choose|w: int| 0 <= w < before.len() && before[w] == id + ":"@ + item[j];
            assert((before + part)[w] == before[w]);
        }
        if item.len() == 0 {
            let sat = membership_report_satisfied(ts, n - 1);
            let w = choose|w: int| 0 <= w < sat.len() && sat[w] == id;
            if required_missing(ts, required_at(n - 1).0, required_at(n - 1).1).len() == 0 {
                assert(sat.push(transition_id(required_at(n - 1).0, required_at(n - 1).1))[w] == id);
            }
        }
    } else {
        assert forall|j: int| 0 <= j < item.len() implies membership_report_missing(ts, n).contains(
            id + ":"@ + #[trigger] item[j],
        ) by {
            assert((before + part)[before.len() + j] == part[j]);
        }
        if item.len() == 0 {
            let sat = membership_report_satisfied(ts, n - 1);
            assert(sat.push(id)[sat.len() as int] == id);
        }
    }
}

/// The membership report names each failure: a required transition with no
/// evidence puts `<scope>:<kind>:evidence_present` among the missing ids (so
/// the report is not ready), every failed requirement of its first evidence
/// appears under its transition id, and a transition with nothing missing
/// is listed as satisfied.
pub proof fn law_membership_report_names_failures(ts: Seq<RustRaftMembershipTransitionEvidence>, k: int)
    requires
        0 <= k < 6,
    ensures
        !has_transition(ts, required_at(k).0, required_at(k).1) ==> membership_report_missing(ts, 6).contains(
            transition_id(required_at(k).0, required_at(k).1) + ":evidence_present"@,
        ) && membership_report_missing(ts, 6).len() > 0,
        has_transition(ts, required_at(k).0, required_at(k).1) ==> forall|j: int|
            0 <= j < transition_missing(first_transition(ts, required_at(k).0, required_at(k).1)).len()
                ==> membership_report_missing(ts, 6).contains(
                transition_id(required_at(k).0, required_at(k).1) + ":"@ + #[trigger] transition_missing(
                    first_transition(ts, required_at(k).0, required_at(k).1),
                )[j],
            ),
        required_missing(ts, required_at(k).0, required_at(k).1).len() == 0 ==> membership_report_satisfied(
            ts,
            6,
        ).contains(transition_id(required_at(k).0, required_at(k).1)),
{
    reveal(required_missing);
    lemma_report_lists_hold(ts, 6, k);
    let id = transition_id(required_at(k).0, required_at(k).1);
    if !has_transition(ts, required_at(k).0, required_at(k).1) {
        let item = required_missing(ts, required_at(k).0, required_at(k).1);
        assert(item[0] == "evidence_present"@);
        reveal_strlit(":");
        reveal_strlit("evidence_present");
        reveal_strlit(":evidence_present");
        assert(":"@ + "evidence_present"@ =~= ":evidence_present"@);
        assert(id + ":"@ + item[0] =~= id + ":evidence_present"@);
    }
}

} // verus!

verus! {

/// A membership transition lacks nothing exactly when its evidence shows a
/// safe transition: quorums of at least three voters before and after, a
/// commit index that never went back and that the applied index reached,
/// the old and new majorities held, a stale leader rejected, reads and writes
/// validated afterwards, the snapshot floor kept, secondaries visible, the
/// scheduler generation advanced for the metaserver, the conditions of its
/// kind, and no blocker.
pub proof fn law_transition_clear_iff_safe(e: RustRaftMembershipTransitionEvidence)
    ensures
        transition_missing(e).len() == 0 <==> {
            &&& e.before_voters@.len() >= 3
            &&& e.after_voters@.len() >= 3
            &&& e.commit_index_after >= e.commit_index_before
            &&& e.applied_index_after >= e.commit_index_after
            &&& e.old_majority_preserved
            &&& e.new_majority_reached
            &&& e.stale_leader_rejected
            &&& e.read_index_validated_after
            &&& e.write_validated_after
            &&& e.snapshot_floor_preserved
            &&& e.secondary_replication_visible
            &&& (e.scope is Metaserver ==> e.scheduler_generation_advanced)
            &&& (e.transition is Failover ==> e.leader_before is Some && e.leader_after is Some
                && e.leader_before != e.leader_after && e.failed_or_removed_nodes@.len() > 0)
            &&& (e.transition is ScaleUp ==> e.joint_consensus_used && e.added_nodes@.len() > 0
                && e.after_voters@.len() > e.before_voters@.len() && e.caught_up_nodes@.len() > 0)
            &&& (e.transition is ScaleDown ==> e.joint_consensus_used && e.failed_or_removed_nodes@.len() > 0
                && e.after_voters@.len() < e.before_voters@.len())
            &&& e.blockers@.len() == 0
        },
{
    let cs = transition_checks(e);
    let c = common_checks(e);
    let k = kind_checks(e);
    lemma_absent_ids_empty(cs);
    assert(prefixed("blocker:"@, strs(e.blockers@)).len() == e.blockers@.len());
    reveal(common_checks);
    reveal(kind_checks);
    assert(c.len() == 12);
    assert forall|i: int| 0 <= i < c.len() implies cs[i] == c[i] by {}
    assert forall|i: int| 0 <= i < k.len() implies cs[c.len() + i] == k[i] by {}
    if absent_ids(cs).len() == 0 {
        assert(cs[0].present && cs[1].present && cs[2].present && cs[3].present);
        assert(cs[4].present && cs[5].present && cs[6].present && cs[7].present);
        assert(cs[8].present && cs[9].present && cs[10].present && cs[11].present);
        assert(cs[12].present);
        if k.len() > 1 {
            assert(cs[13].present);
        }
        if k.len() > 2 {
            assert(cs[14].present);
        }
        if k.len() > 3 {
            assert(cs[15].present);
        }
    }
}

} // verus!
