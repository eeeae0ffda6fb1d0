//! The lexicographic order of strings, and sorting a list of strings
//! without duplicates.
use vstd::prelude::*;
use vstd::string::*;
use crate::seqs::strs;

verus! {

/// `a` comes strictly before `b` in lexicographic order of characters.
pub open spec fn str_less(a: Seq<char>, b: Seq<char>) -> bool
    decreases a.len(),
{
    if b.len() == 0 {
        false
    } else if a.len() == 0 {
        true
    } else if a[0] != b[0] {
        (a[0] as int) < (b[0] as int)
    } else {
        str_less(a.drop_first(), b.drop_first())
    }
}

/// No string comes before itself.
pub proof fn lemma_str_less_irreflexive(a: Seq<char>)
    ensures
        !str_less(a, a),
    decreases a.len(),
{
    if a.len() > 0 {
        lemma_str_less_irreflexive(a.drop_first());
    }
}

/// Of two different strings, one comes before the other.
pub proof fn lemma_str_less_total(a: Seq<char>, b: Seq<char>)
    ensures
        a != b ==> str_less(a, b) || str_less(b, a),
    decreases a.len(),
{
    if a.len() > 0 && b.len() > 0 && a[0] == b[0] {
        lemma_str_less_total(a.drop_first(), b.drop_first());
        if a.drop_first() == b.drop_first() {
            assert(a =~= seq![a[0]] + a.drop_first());
            assert(b =~= seq![b[0]] + b.drop_first());
        }
    }
    if a.len() == 0 && b.len() == 0 {
        assert(a =~= b);
    }

}

/// The order is transitive.
pub proof fn lemma_str_less_transitive(a: Seq<char>, b: Seq<char>, c: Seq<char>)
    requires
        str_less(a, b),
        str_less(b, c),
    ensures
        str_less(a, c),
    decreases a.len(),
{
    if a.len() > 0 && a[0] == b[0] && b[0] == c[0] {
        lemma_str_less_transitive(a.drop_first(), b.drop_first(), c.drop_first());
    }
}

/// Whether `a` comes strictly before `b`.
pub fn string_less(a: &str, b: &str) -> (r: bool)
    ensures
        r == str_less(a@, b@),
{
    let n = a.unicode_len();
    let m = b.unicode_len();
    let mut i: usize = 0;
    proof {
        assert(a@.skip(0) =~= a@);
        assert(b@.skip(0) =~= b@);
    }
    while i < n && i < m
        invariant
            n == a@.len(),
            m == b@.len(),
            i <= n,
            i <= m,
            forall|j: int| 0 <= j < i ==> a@[j] == b@[j],
            str_less(a@, b@) == str_less(a@.skip(i as int), b@.skip(i as int)),
        decreases n - i,
    {
        let x = a.get_char(i);
        let y = b.get_char(i);
        proof {
            assert(a@.skip(i as int)[0] == x);
            assert(b@.skip(i as int)[0] == y);
            assert(a@.skip(i as int).drop_first() =~= a@.skip(i + 1));
            assert(b@.skip(i as int).drop_first() =~= b@.skip(i + 1));
        }
        if x != y {
            let xc = x as u32;
            let yc = y as u32;
            proof {
                assert(xc as int == x as int);
                assert(yc as int == y as int);
            }
            return xc < yc;
        }
        i = i + 1;
    }
    i < m
}

proof fn lemma_insert_to_set(s: Seq<Seq<char>>, k: int, x: Seq<char>)
    requires
        0 <= k <= s.len(),
    ensures
        s.insert(k, x).to_set() == s.to_set().insert(x),
{
    let after = s.insert(k, x);
    assert forall|e: Seq<char>| after.contains(e) implies s.contains(e) || e == x by {
        let j = choose|j: int| 0 <= j < after.len() && after[j] == e;
        if j < k {
            assert(s[j] == e);
        } else if j > k {
            assert(s[j - 1] == e);
        }
    }
    assert forall|e: Seq<char>| s.contains(e) implies after.contains(e) by {
        let j = choose|j: int| 0 <= j < s.len() && s[j] == e;
        if j < k {
            assert(after[j] == e);
        } else {
            assert(after[j + 1] == e);
        }
    }
    assert(after[k] == x);
    assert(after.to_set() =~= s.to_set().insert(x));
}

/// Strictly increasing, hence without duplicates.
pub open spec fn strictly_sorted(s: Seq<Seq<char>>) -> bool {
    forall|i: int, j: int| 0 <= i < j < s.len() ==> str_less(#[trigger] s[i], #[trigger] s[j])
}

/// The strings in increasing order, each once.
pub fn sort_dedup_strings(v: Vec<String>) -> (r: Vec<String>)
    ensures
        strictly_sorted(strs(r@)),
        strs(r@).to_set() == strs(v@).to_set(),
{
    let ghost input = strs(v@);
    let mut out: Vec<String> = Vec::new();
    let mut i: usize = 0;
    proof {
        assert(strs(out@).to_set() =~= input.take(0).to_set());
    }
    while i < v.len()
        invariant
            input == strs(v@),
            i <= v.len(),
            strictly_sorted(strs(out@)),
            strs(out@).to_set() == input.take(i as int).to_set(),
        decreases v.len() - i,
    {
        let x = &v[i];
        let ghost xs = x@;
        let ghost before = strs(out@);
        let mut k: usize = 0;
        let mut done = false;
        while !done && k < out.len()
            invariant
                before == strs(out@),
                xs == x@,
                k <= out.len(),
                forall|j: int| 0 <= j < k ==> str_less(#[trigger] before[j], xs),
                done ==> k < out.len() && !str_less(before[k as int], xs),
            decreases out.len() - k + (if done { 0int } else { 1int }),
        {
            let lt = string_less(out[k].as_str(), x.as_str());
            proof {
                assert(before[k as int] == out@[k as int]@);
            }
            if lt {
                k = k + 1;
            } else {
                done = true;
            }
        }
        let duplicate = k < out.len() && out[k] == *x;
        if !duplicate {
            out.insert(k, x.clone());
            proof {
                let after = strs(out@);
                assert(after =~= before.insert(k as int, xs));
                if k < before.len() {
                    lemma_str_less_total(before[k as int], xs);
                    assert(str_less(xs, before[k as int]));
                }
                assert forall|a: int, b: int| 0 <= a < b < after.len() implies str_less(
                    #[trigger] after[a],
                    #[trigger] after[b],
                ) by {
                    if a < k && b == k {
                    } else if a < k && b > k {
                        assert(after[b] == before[b - 1]);
                        if b - 1 > k {
                            lemma_str_less_transitive(before[a], before[k as int], before[b - 1]);
                        }
                    } else if a == k && b > k {
                        assert(after[b] == before[b - 1]);
                        if b - 1 > k {
                            lemma_str_less_transitive(xs, before[k as int], before[b - 1]);
                        }
                    } else if a > k {
                        assert(after[a] == before[a - 1]);
                        assert(after[b] == before[b - 1]);
                    }
                }
                lemma_insert_to_set(before, k as int, xs);
            }
        } else {
            proof {
                assert(before[k as int] == xs);
                assert(before.to_set() =~= before.to_set().insert(xs));
            }
        }
        proof {
            assert(input.take(i + 1) =~= input.take(i as int).push(xs));
            input.take(i as int).lemma_push_to_set_commute(xs);
        }
        i = i + 1;
    }
    proof {
        assert(input.take(v@.len() as int) =~= input);
    }
    out
}

} // verus!
