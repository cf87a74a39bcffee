//! Sorting numbers.

use vstd::prelude::*;

verus! {

/// No number is followed by a smaller one.
pub open spec fn sorted(s: Seq<u64>) -> bool {
    forall|i: int, j: int| 0 <= i <= j < s.len() ==> s[i] <= s[j]
}

/// The numbers of `a` and `b`, both sorted, in one sorted sequence.
fn merge(a: &Vec<u64>, b: &Vec<u64>) -> (v: Vec<u64>)
    requires
        sorted(a@),
        sorted(b@),
    ensures
        sorted(v@),
        v@.to_multiset() == a@.to_multiset().add(b@.to_multiset()),
        v@.len() == a@.len() + b@.len(),
{
    let mut v: Vec<u64> = Vec::new();
    let mut i: usize = 0;
    let mut j: usize = 0;
    proof {
        assert(a@.take(0) =~= Seq::<u64>::empty());
        assert(b@.take(0) =~= Seq::<u64>::empty());
        assert(v@.to_multiset() =~= a@.take(0).to_multiset().add(b@.take(0).to_multiset())) by {
            broadcast use vstd::seq_lib::group_to_multiset_ensures;

        }
    }
    while i < a.len() || j < b.len()
        invariant
            i <= a@.len(),
            j <= b@.len(),
            sorted(a@),
            sorted(b@),
            sorted(v@),
            v@.len() == i + j,
            v@.to_multiset() == a@.take(i as int).to_multiset().add(
                b@.take(j as int).to_multiset(),
            ),
            forall|k: int, m: int| 0 <= k < v@.len() && i <= m < a@.len() ==> v@[k] <= a@[m],
            forall|k: int, m: int| 0 <= k < v@.len() && j <= m < b@.len() ==> v@[k] <= b@[m],
        decreases a@.len() - i + b@.len() - j,
    {
        broadcast use vstd::seq_lib::group_to_multiset_ensures;

        let ghost before = v@;
        if j >= b.len() || (i < a.len() && a[i] <= b[j]) {
            let x: u64 = a[i];
            v.push(x);
            assert(a@.take(i + 1) =~= a@.take(i as int).push(x));
            assert(v@.to_multiset() =~= a@.take(i + 1).to_multiset().add(
                b@.take(j as int).to_multiset(),
            ));
            i = i + 1;
        } else {
            let x: u64 = b[j];
            v.push(x);
            assert(b@.take(j + 1) =~= b@.take(j as int).push(x));
            assert(v@.to_multiset() =~= a@.take(i as int).to_multiset().add(
                b@.take(j + 1).to_multiset(),
            ));
            j = j + 1;
        }
    }
    assert(a@.take(i as int) =~= a@);
    assert(b@.take(j as int) =~= b@);
    v
}

/// The numbers of `v`, from the smallest to the largest.
pub fn sort(v: &Vec<u64>) -> (s: Vec<u64>)
    ensures
        sorted(s@),
        s@.to_multiset() == v@.to_multiset(),
        s@.len() == v@.len(),
{
    assert(v@.subrange(0, v@.len() as int) =~= v@);
    sort_range(v, 0, v.len())
}

/// The numbers of `v` from place `from` up to place `to`, sorted.
fn sort_range(v: &Vec<u64>, from: usize, to: usize) -> (s: Vec<u64>)
    requires
        from <= to <= v@.len(),
    ensures
        sorted(s@),
        s@.to_multiset() == v@.subrange(from as int, to as int).to_multiset(),
        s@.len() == to - from,
    decreases to - from,
{
    if to - from <= 1 {
        let mut s: Vec<u64> = Vec::new();
        if from < to {
            s.push(v[from]);
        }
        assert(s@ =~= v@.subrange(from as int, to as int));
        return s;
    }
    let middle: usize = from + (to - from) / 2;
    let a = sort_range(v, from, middle);
    let b = sort_range(v, middle, to);
    proof {
        let left = v@.subrange(from as int, middle as int);
        let right = v@.subrange(middle as int, to as int);
        assert(left + right =~= v@.subrange(from as int, to as int));
        vstd::seq_lib::lemma_multiset_commutative(left, right);
    }
    merge(&a, &b)
}

/// Numbers have one sorted order: there is no choice in it.
pub proof fn sorted_order_is_unique(a: Seq<u64>, b: Seq<u64>)
    requires
        sorted(a),
        sorted(b),
        a.to_multiset() == b.to_multiset(),
    ensures
        a == b,
{
    vstd::seq_lib::lemma_sorted_unique(a, b, |x: u64, y: u64| x <= y);
}

/// Sorting keeps every number as often as it was there and puts the smaller before the
/// larger.
pub proof fn sorting_keeps_every_number(v: &Vec<u64>, s: Vec<u64>, n: u64, i: int, j: int)
    requires
        call_ensures(sort, (v,), s),
        0 <= i <= j < s@.len(),
    ensures
        s@[i] <= s@[j],
        s@.to_multiset().count(n) == v@.to_multiset().count(n),
        s@.len() == v@.len(),
{
}

} // verus!
