//! Order statistics over integers: ascending order and sums.
use vstd::prelude::*;
use vstd::relations::{sorted_by, total_ordering};

verus! {

pub open spec fn le_i64() -> spec_fn(i64, i64) -> bool {
    |a: i64, b: i64| a <= b
}

/// The values in ascending order.
pub open spec fn ascending(s: Seq<i64>) -> Seq<i64> {
    s.sort_by(le_i64())
}

/// The sum of the values, as an unbounded integer.
pub open spec fn sum_i64(s: Seq<i64>) -> int
    decreases s.len(),
{
    if s.len() == 0 {
        0
    } else {
        sum_i64(s.drop_last()) + s.last()
    }
}

pub proof fn lemma_le_total()
    ensures
        total_ordering(le_i64()),
{
}

/// `ascending` is sorted and holds the same values.
pub proof fn lemma_ascending(s: Seq<i64>)
    ensures
        sorted_by(ascending(s), le_i64()),
        ascending(s).to_multiset() == s.to_multiset(),
        ascending(s).len() == s.len(),
{
    lemma_le_total();
    s.lemma_sort_by_ensures(le_i64());
    broadcast use vstd::seq_lib::group_to_multiset_ensures;
    assert(s.len() == s.to_multiset().len());
    assert(ascending(s).len() == ascending(s).to_multiset().len());
}

/// The sum of a sequence is bounded by its length times its bounds.
pub proof fn lemma_sum_bounds(s: Seq<i64>)
    ensures
        s.len() * (i64::MIN as int) <= sum_i64(s) <= s.len() * (i64::MAX as int),
    decreases s.len(),
{
    if s.len() > 0 {
        lemma_sum_bounds(s.drop_last());
        assert((s.len() - 1) * (i64::MIN as int) + (i64::MIN as int) == s.len() * (i64::MIN as int)) by (nonlinear_arith);
        assert((s.len() - 1) * (i64::MAX as int) + (i64::MAX as int) == s.len() * (i64::MAX as int)) by (nonlinear_arith);
    }
}

/// Sums the values of `v`; the sum of fewer than 2^64 values fits an `i128`.
pub fn sum_values(v: &[i64]) -> (r: i128)
    ensures
        r == sum_i64(v@),
{
    let mut total: i128 = 0;
    let mut i: usize = 0;
    while i < v.len()
        invariant
            i <= v@.len(),
            total == sum_i64(v@.subrange(0, i as int)),
        decreases v@.len() - i,
    {
        proof {
            assert(v@.subrange(0, i + 1).drop_last() =~= v@.subrange(0, i as int));
            lemma_sum_bounds(v@.subrange(0, i as int));
            assert(i * (i64::MAX as int) <= 18446744073709551615 * (i64::MAX as int)) by (nonlinear_arith)
                requires
                    i <= 18446744073709551615,
            ;
            assert(i * (i64::MIN as int) >= 18446744073709551615 * (i64::MIN as int)) by (nonlinear_arith)
                requires
                    i <= 18446744073709551615,
            ;
        }
        total = total + v[i] as i128;
        i = i + 1;
    }
    assert(v@.subrange(0, v@.len() as int) =~= v@);
    total
}

/// Returns the values of `v` in ascending order.
pub fn sort_ascending(v: &Vec<i64>) -> (r: Vec<i64>)
    ensures
        r@ == ascending(v@),
{
    broadcast use vstd::seq_lib::group_to_multiset_ensures;
    let mut r: Vec<i64> = Vec::new();
    let mut i: usize = 0;
    while i < v.len()
        invariant
            i <= v@.len(),
            sorted_by(r@, le_i64()),
            r@.to_multiset() == v@.subrange(0, i as int).to_multiset(),
        decreases v@.len() - i,
    {
        let x = v[i];
        let mut p: usize = 0;
        while p < r.len() && r[p] <= x
            invariant
                p <= r@.len(),
                sorted_by(r@, le_i64()),
                forall|j: int| 0 <= j < p ==> r@[j] <= x,
            decreases r@.len() - p,
        {
            p = p + 1;
        }
        let ghost old_r = r@;
        r.insert(p, x);
        proof {
            assert forall|a: int, b: int| 0 <= a < b < r@.len() implies #[trigger] (le_i64())(r@[a], r@[b]) by {
                assert((le_i64())(r@[a], r@[b]) == (r@[a] <= r@[b]));
                if a < p && b < p {
                    assert((le_i64())(old_r[a], old_r[b]));
                } else if a < p && b == p {
                } else if a < p && b > p {
                    assert(r@[b] == old_r[b - 1]);
                    assert((le_i64())(old_r[a], old_r[b - 1]));
                } else if a == p {
                    assert(r@[b] == old_r[b - 1]);
                    assert((le_i64())(old_r[p as int], old_r[b - 1]));
                } else {
                    assert(r@[a] == old_r[a - 1]);
                    assert(r@[b] == old_r[b - 1]);
                    assert((le_i64())(old_r[a - 1], old_r[b - 1]));
                }
            }
            assert(r@.remove(p as int) =~= old_r);
            assert(r@[p as int] == x);
            assert(r@.contains(x));
            r@.to_multiset_ensures();
            old_r.to_multiset_ensures();
            assert(r@.remove(p as int).to_multiset() =~= r@.to_multiset().remove(x));
            assert(r@.to_multiset().count(x) > 0);
            assert(r@.to_multiset() =~= old_r.to_multiset().insert(x));
            assert(v@.subrange(0, i + 1) =~= v@.subrange(0, i as int).push(x));
            v@.subrange(0, i as int).to_multiset_ensures();
        }
        i = i + 1;
    }
    proof {
        assert(v@.subrange(0, v@.len() as int) =~= v@);
        lemma_ascending(v@);
        lemma_le_total();
        vstd::seq_lib::lemma_sorted_unique(r@, ascending(v@), le_i64());
    }
    r
}

} // verus!
