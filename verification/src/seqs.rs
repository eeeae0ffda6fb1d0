//! Helpers over vectors of node ids and strings.
use vstd::prelude::*;
use crate::membership::acked_count;

verus! {

/// The views of a sequence of strings.
pub open spec fn strs(v: Seq<String>) -> Seq<Seq<char>> {
    v.map_values(|s: String| s@)
}

/// `p` is the first position of `x` in `s`.
pub open spec fn is_first_position(s: Seq<u64>, x: u64, p: int) -> bool {
    &&& 0 <= p < s.len()
    &&& s[p] == x
    &&& forall|j: int| 0 <= j < p ==> s[j] != x
}

/// The first position of `x` in `s` (meaningful when `s` contains `x`).
pub open spec fn first_position(s: Seq<u64>, x: u64) -> int {
    choose|p: int| is_first_position(s, x, p)
}

/// First positions are unique.
pub proof fn lemma_first_position_unique(s: Seq<u64>, x: u64, p: int)
    requires
        is_first_position(s, x, p),
    ensures
        first_position(s, x) == p,
{
    let q = first_position(s, x);
    assert(is_first_position(s, x, q));
    if q < p {
        assert(s[q] != x);
    } else if p < q {
        assert(s[p] != x);
    }
}

/// Whether `v` holds `x`.
pub fn slice_contains(v: &[u64], x: u64) -> (r: bool)
    ensures
        r == v@.contains(x),
{
    let mut i: usize = 0;
    while i < v.len()
        invariant
            i <= v.len(),
            forall|j: int| 0 <= j < i ==> v@[j] != x,
        decreases v.len() - i,
    {
        if v[i] == x {
            assert(v@[i as int] == x);
            return true;
        }
        i = i + 1;
    }
    false
}

/// The first position of `x` in `v`, if any.
pub fn position_of(v: &[u64], x: u64) -> (r: Option<usize>)
    ensures
        r is None <==> !v@.contains(x),
        r matches Some(p) ==> is_first_position(v@, x, p as int) && first_position(v@, x) == p,
{
    let mut i: usize = 0;
    while i < v.len()
        invariant
            i <= v.len(),
            forall|j: int| 0 <= j < i ==> v@[j] != x,
        decreases v.len() - i,
    {
        if v[i] == x {
            proof {
                lemma_first_position_unique(v@, x, i as int);
            }
            return Some(i);
        }
        i = i + 1;
    }
    None
}

/// Removes the first occurrence of `x`, telling whether there was one.
pub fn remove_node(nodes: &mut Vec<u64>, node_id: u64) -> (r: bool)
    ensures
        r == old(nodes)@.contains(node_id),
        r ==> final(nodes)@ == old(nodes)@.remove(first_position(old(nodes)@, node_id)),
        !r ==> final(nodes)@ == old(nodes)@,
{
    match position_of(nodes, node_id) {
        Some(position) => {
            nodes.remove(position);
            true
        },
        None => false,
    }
}

/// How many positions of `members` hold an acknowledged node.
pub fn count_acked(members: &[u64], acks: &[u64]) -> (r: usize)
    ensures
        r == acked_count(members@, acks@),
{
    let mut count: usize = 0;
    let mut i: usize = 0;
    while i < members.len()
        invariant
            i <= members.len(),
            count == acked_count(members@.subrange(0, i as int), acks@),
            count <= i,
        decreases members.len() - i,
    {
        proof {
            assert(members@.subrange(0, i + 1).drop_last() =~= members@.subrange(0, i as int));
        }
        if slice_contains(acks, members[i]) {
            count = count + 1;
        }
        i = i + 1;
    }
    assert(members@.subrange(0, members@.len() as int) =~= members@);
    count
}

/// A copy of a vector of strings with the same views.
pub fn clone_strings(v: &Vec<String>) -> (r: Vec<String>)
    ensures
        r@ == v@,
{
    let mut out: Vec<String> = Vec::new();
    let mut i: usize = 0;
    while i < v.len()
        invariant
            i <= v.len(),
            out@ == v@.subrange(0, i as int),
        decreases v.len() - i,
    {
        out.push(v[i].clone());
        proof {
            assert(out@ =~= v@.subrange(0, i + 1));
        }
        i = i + 1;
    }
    assert(v@.subrange(0, v@.len() as int) =~= v@);
    out
}

/// A copy of a vector of node ids.
pub fn clone_ids(v: &Vec<u64>) -> (r: Vec<u64>)
    ensures
        r@ == v@,
{
    let mut out: Vec<u64> = Vec::new();
    let mut i: usize = 0;
    while i < v.len()
        invariant
            i <= v.len(),
            out@ == v@.subrange(0, i as int),
        decreases v.len() - i,
    {
        out.push(v[i]);
        proof {
            assert(out@ =~= v@.subrange(0, i + 1));
        }
        i = i + 1;
    }
    assert(v@.subrange(0, v@.len() as int) =~= v@);
    out
}

} // verus!
