//! Building blocks of the fail-closed readiness reports: a check is a named
//! condition with the action to take when it does not hold, and a report
//! collects the satisfied ids, the missing ids, the blockers and the actions.
use vstd::prelude::*;
use vstd::string::*;
use crate::seqs::strs;

verus! {

/// One named condition of a readiness report.
pub struct Check {
    pub present: bool,
    pub id: Seq<char>,
    pub action: Seq<char>,
}

/// The ids of the checks that hold, in order.
pub open spec fn present_ids(cs: Seq<Check>) -> Seq<Seq<char>>
    decreases cs.len(),
{
    if cs.len() == 0 {
        seq![]
    } else if cs.last().present {
        present_ids(cs.drop_last()).push(cs.last().id)
    } else {
        present_ids(cs.drop_last())
    }
}

/// The ids of the checks that do not hold, in order.
pub open spec fn absent_ids(cs: Seq<Check>) -> Seq<Seq<char>>
    decreases cs.len(),
{
    if cs.len() == 0 {
        seq![]
    } else if !cs.last().present {
        absent_ids(cs.drop_last()).push(cs.last().id)
    } else {
        absent_ids(cs.drop_last())
    }
}

/// The actions of the checks that do not hold, in order.
pub open spec fn absent_actions(cs: Seq<Check>) -> Seq<Seq<char>>
    decreases cs.len(),
{
    if cs.len() == 0 {
        seq![]
    } else if !cs.last().present {
        absent_actions(cs.drop_last()).push(cs.last().action)
    } else {
        absent_actions(cs.drop_last())
    }
}

/// The four lists of a report.
pub struct ListsModel {
    pub satisfied: Seq<Seq<char>>,
    pub missing: Seq<Seq<char>>,
    pub blockers: Seq<Seq<char>>,
    pub actions: Seq<Seq<char>>,
}

/// Records a sequence of checks: satisfied ids go to `satisfied`; each
/// missing id goes to `missing` and to `blockers`, and its action to `actions`.
pub open spec fn apply_checks(m: ListsModel, cs: Seq<Check>) -> ListsModel {
    ListsModel {
        satisfied: m.satisfied + present_ids(cs),
        missing: m.missing + absent_ids(cs),
        blockers: m.blockers + absent_ids(cs),
        actions: m.actions + absent_actions(cs),
    }
}

pub proof fn lemma_ids_push(cs: Seq<Check>, c: Check)
    ensures
        present_ids(cs.push(c)) == present_ids(cs) + (if c.present { seq![c.id] } else { seq![] }),
        absent_ids(cs.push(c)) == absent_ids(cs) + (if !c.present { seq![c.id] } else { seq![] }),
        absent_actions(cs.push(c)) == absent_actions(cs) + (if !c.present { seq![c.action] } else { seq![] }),
{
    assert(cs.push(c).drop_last() =~= cs);
    assert(present_ids(cs) + seq![c.id] =~= present_ids(cs).push(c.id));
    assert(present_ids(cs) + Seq::<Seq<char>>::empty() =~= present_ids(cs));
    assert(absent_ids(cs) + seq![c.id] =~= absent_ids(cs).push(c.id));
    assert(absent_ids(cs) + Seq::<Seq<char>>::empty() =~= absent_ids(cs));
    assert(absent_actions(cs) + seq![c.action] =~= absent_actions(cs).push(c.action));
    assert(absent_actions(cs) + Seq::<Seq<char>>::empty() =~= absent_actions(cs));
}

/// The id lists of a concatenation are the concatenations of the id lists.
pub proof fn lemma_ids_concat(a: Seq<Check>, b: Seq<Check>)
    ensures
        present_ids(a + b) == present_ids(a) + present_ids(b),
        absent_ids(a + b) == absent_ids(a) + absent_ids(b),
        absent_actions(a + b) == absent_actions(a) + absent_actions(b),
    decreases b.len(),
{
    if b.len() == 0 {
        assert(a + b =~= a);
        assert(present_ids(a) + present_ids(b) =~= present_ids(a));
        assert(absent_ids(a) + absent_ids(b) =~= absent_ids(a));
        assert(absent_actions(a) + absent_actions(b) =~= absent_actions(a));
    } else {
        let c = b.last();
        let b0 = b.drop_last();
        assert(b0.push(c) =~= b);
        assert((a + b0).push(c) =~= a + b);
        lemma_ids_concat(a, b0);
        lemma_ids_push(a + b0, c);
        lemma_ids_push(b0, c);
        assert(present_ids(a + b) =~= present_ids(a) + present_ids(b));
        assert(absent_ids(a + b) =~= absent_ids(a) + absent_ids(b));
        assert(absent_actions(a + b) =~= absent_actions(a) + absent_actions(b));
    }
}

/// Applying two check sequences one after the other applies their concatenation.
pub proof fn lemma_apply_checks_concat(m: ListsModel, a: Seq<Check>, b: Seq<Check>)
    ensures
        apply_checks(apply_checks(m, a), b) == apply_checks(m, a + b),
{
    lemma_ids_concat(a, b);
    assert(apply_checks(apply_checks(m, a), b).satisfied =~= apply_checks(m, a + b).satisfied);
    assert(apply_checks(apply_checks(m, a), b).missing =~= apply_checks(m, a + b).missing);
    assert(apply_checks(apply_checks(m, a), b).blockers =~= apply_checks(m, a + b).blockers);
    assert(apply_checks(apply_checks(m, a), b).actions =~= apply_checks(m, a + b).actions);
}

/// The checks of a sequence all hold exactly when none of them is missing.
pub proof fn lemma_absent_ids_empty(cs: Seq<Check>)
    ensures
        absent_ids(cs).len() == 0 <==> forall|i: int| 0 <= i < cs.len() ==> #[trigger] cs[i].present,
    decreases cs.len(),
{
    if cs.len() > 0 {
        let c0 = cs.drop_last();
        lemma_absent_ids_empty(c0);
        if absent_ids(cs).len() == 0 {
            assert forall|i: int| 0 <= i < cs.len() implies #[trigger] cs[i].present by {
                if i < cs.len() - 1 {
                    assert(cs[i] == c0[i]);
                }
            }
        }
        if forall|i: int| 0 <= i < cs.len() ==> #[trigger] cs[i].present {
            assert forall|i: int| 0 <= i < c0.len() implies #[trigger] c0[i].present by {
                assert(cs[i] == c0[i]);
            }
            assert(cs[cs.len() - 1].present);
        }
    }
}

/// A check as computed at run time.
pub struct ExecCheck {
    pub present: bool,
    pub id: String,
    pub action: String,
}

impl ExecCheck {
    pub open spec fn view(self) -> Check {
        Check { present: self.present, id: self.id@, action: self.action@ }
    }

    /// A check with literal id and action.
    pub fn new(present: bool, id: &str, action: &str) -> (r: Self)
        ensures
            r.view() == (Check { present, id: id@, action: action@ }),
    {
        ExecCheck { present, id: String::from_str(id), action: String::from_str(action) }
    }

    /// A check with a literal id and no action.
    pub fn plain(present: bool, id: &str) -> (r: Self)
        ensures
            r.view() == (Check { present, id: id@, action: seq![] }),
    {
        ExecCheck { present, id: String::from_str(id), action: String::new() }
    }
}

/// The views of a sequence of run-time checks.
pub open spec fn checks_view(v: Seq<ExecCheck>) -> Seq<Check> {
    v.map_values(|c: ExecCheck| c.view())
}

/// The four lists of a report under construction.
pub struct ReportLists {
    pub satisfied: Vec<String>,
    pub missing: Vec<String>,
    pub blockers: Vec<String>,
    pub actions: Vec<String>,
}

impl ReportLists {
    pub open spec fn model(self) -> ListsModel {
        ListsModel {
            satisfied: strs(self.satisfied@),
            missing: strs(self.missing@),
            blockers: strs(self.blockers@),
            actions: strs(self.actions@),
        }
    }

    /// Records one check.
    pub fn require(&mut self, check: ExecCheck)
        ensures
            final(self).model() == apply_checks(old(self).model(), seq![check.view()]),
    {
        proof {
            lemma_ids_push(Seq::empty(), check.view());
            assert(seq![check.view()] =~= Seq::<Check>::empty().push(check.view()));
        }
        let ghost m = self.model();
        if check.present {
            self.satisfied.push(check.id);
            proof {
                assert(strs(self.satisfied@) =~= m.satisfied + seq![check.id@]);
                assert(strs(self.missing@) =~= m.missing + Seq::<Seq<char>>::empty());
                assert(strs(self.blockers@) =~= m.blockers + Seq::<Seq<char>>::empty());
                assert(strs(self.actions@) =~= m.actions + Seq::<Seq<char>>::empty());
            }
        } else {
            self.missing.push(check.id.clone());
            self.blockers.push(check.id);
            self.actions.push(check.action);
            proof {
                assert(strs(self.satisfied@) =~= m.satisfied + Seq::<Seq<char>>::empty());
                assert(strs(self.missing@) =~= m.missing + seq![check.id@]);
                assert(strs(self.blockers@) =~= m.blockers + seq![check.id@]);
                assert(strs(self.actions@) =~= m.actions + seq![check.action@]);
            }
        }
    }

    /// Records a sequence of checks in order.
    pub fn require_all(&mut self, checks: Vec<ExecCheck>)
        ensures
            final(self).model() == apply_checks(old(self).model(), checks_view(checks@)),
    {
        let ghost m0 = self.model();
        let ghost all = checks@;
        let mut rest = checks;
        let mut done: Vec<ExecCheck> = Vec::new();
        proof {
            assert(all =~= rest@);
            assert(apply_checks(m0, checks_view(done@)) =~= m0) by {
                assert(checks_view(done@) =~= Seq::<Check>::empty());
                assert(m0.satisfied + present_ids(Seq::<Check>::empty()) =~= m0.satisfied);
                assert(m0.missing + absent_ids(Seq::<Check>::empty()) =~= m0.missing);
                assert(m0.blockers + absent_ids(Seq::<Check>::empty()) =~= m0.blockers);
                assert(m0.actions + absent_actions(Seq::<Check>::empty()) =~= m0.actions);
            }
        }
        let mut i: usize = 0;
        let n = rest.len();
        while i < n
            invariant
                n == all.len(),
                i <= n,
                rest@ == all.subrange(i as int, n as int),
                checks_view(all.subrange(0, i as int)) == checks_view(all).subrange(0, i as int),
                self.model() == apply_checks(m0, checks_view(all).subrange(0, i as int)),
            decreases n - i,
        {
            let c = rest.remove(0);
            proof {
                assert(c == all[i as int]);
                assert(rest@ =~= all.subrange(i + 1, n as int));
            }
            let ghost before = self.model();
            self.require(c);
            proof {
                lemma_apply_checks_concat(m0, checks_view(all).subrange(0, i as int), seq![c.view()]);
                assert(checks_view(all).subrange(0, i as int) + seq![c.view()] =~= checks_view(all).subrange(0, i + 1));
            }
            i = i + 1;
        }
        proof {
            assert(checks_view(all).subrange(0, n as int) =~= checks_view(all));
        }
    }
}

/// An empty report.
pub fn empty_lists() -> (r: ReportLists)
    ensures
        r.model() == (ListsModel { satisfied: seq![], missing: seq![], blockers: seq![], actions: seq![] }),
{
    let r = ReportLists { satisfied: Vec::new(), missing: Vec::new(), blockers: Vec::new(), actions: Vec::new() };
    proof {
        assert(strs(r.satisfied@) =~= Seq::<Seq<char>>::empty());
        assert(strs(r.missing@) =~= Seq::<Seq<char>>::empty());
        assert(strs(r.blockers@) =~= Seq::<Seq<char>>::empty());
        assert(strs(r.actions@) =~= Seq::<Seq<char>>::empty());
    }
    r
}

/// A string with the view of a literal.
pub fn s(x: &str) -> (r: String)
    ensures
        r@ == x@,
{
    String::from_str(x)
}

/// Pushes a string onto a vector of strings.
pub fn push_str(v: &mut Vec<String>, x: String)
    ensures
        strs(final(v)@) == strs(old(v)@).push(x@),
{
    v.push(x);
    proof {
        assert(strs(v@) =~= strs(old(v)@).push(x@));
    }
}

/// A holding check is listed among the present ids, a failing one among
/// the absent ids.
pub proof fn lemma_check_listed(cs: Seq<Check>, k: int)
    requires
        0 <= k < cs.len(),
    ensures
        cs[k].present ==> present_ids(cs).contains(cs[k].id),
        !cs[k].present ==> absent_ids(cs).contains(cs[k].id),
    decreases cs.len(),
{
    if k < cs.len() - 1 {
        lemma_check_listed(cs.drop_last(), k);
        assert(cs.drop_last()[k] == cs[k]);
        if cs[k].present {
            let w = choose|w: int| 0 <= w < present_ids(cs.drop_last()).len() && present_ids(cs.drop_last())[w] == cs[k].id;
            assert(present_ids(cs)[w] == cs[k].id);
        } else {
            let w = choose|w: int| 0 <= w < absent_ids(cs.drop_last()).len() && absent_ids(cs.drop_last())[w] == cs[k].id;
            assert(absent_ids(cs)[w] == cs[k].id);
        }
    } else {
        if cs[k].present {
            assert(present_ids(cs)[present_ids(cs).len() - 1] == cs[k].id);
        } else {
            assert(absent_ids(cs)[absent_ids(cs).len() - 1] == cs[k].id);
        }
    }
}

/// An element of a sequence stays an element when sequences are joined
/// around it.
pub proof fn lemma_contains_within(a: Seq<Seq<char>>, s: Seq<Seq<char>>, b: Seq<Seq<char>>, x: Seq<char>)
    requires
        s.contains(x),
    ensures
        (a + s + b).contains(x),
{
    let w = choose|w: int| 0 <= w < s.len() && s[w] == x;
    assert((a + s + b)[a.len() + w] == x);
}

} // verus!
