//! Statistical helpers over duration samples: summation with overflow
//! reasoning and an ascending sort whose result is pinned to the spec-level
//! `sort_by` of the input.

use vstd::prelude::*;
use vstd::relations::{sorted_by, total_ordering};
use vstd::seq_lib::lemma_sorted_unique;

verus! {

broadcast use vstd::seq_lib::group_to_multiset_ensures;

/// Ascending order on durations, fixed once so that every spec and proof
/// speaks of the same function value.
pub open spec fn duration_le() -> spec_fn(u64, u64) -> bool {
    |a: u64, b: u64| a <= b
}

pub proof fn lemma_duration_le_total_ordering()
    ensures
        total_ordering(duration_le()),
{
}

/// The sum of a sequence of durations, as a mathematical integer.
pub open spec fn sum_of(s: Seq<u64>) -> int
    decreases s.len(),
{
    if s.len() == 0 {
        0
    } else {
        sum_of(s.drop_last()) + s.last()
    }
}

pub proof fn lemma_sum_take_succ(s: Seq<u64>, i: int)
    requires
        0 <= i < s.len(),
    ensures
        sum_of(s.take(i + 1)) == sum_of(s.take(i)) + s[i],
{
    assert(s.take(i + 1).drop_last() =~= s.take(i));
    assert(s.take(i + 1).last() == s[i]);
}

/// If every element lies between `lo` and `hi`, the sum lies between
/// `len * lo` and `len * hi`.
pub proof fn lemma_sum_bounds(s: Seq<u64>, lo: u64, hi: u64)
    requires
        forall|i: int| 0 <= i < s.len() ==> lo <= #[trigger] s[i] <= hi,
    ensures
        s.len() * lo <= sum_of(s) <= s.len() * hi,
    decreases s.len(),
{
    if s.len() == 0 {
    } else {
        let rest = s.drop_last();
        lemma_sum_bounds(rest, lo, hi);
        assert(lo <= s[s.len() - 1] <= hi);
        assert(s.len() * lo == rest.len() * lo + lo) by (nonlinear_arith)
            requires s.len() == rest.len() + 1;
        assert(s.len() * hi == rest.len() * hi + hi) by (nonlinear_arith)
            requires s.len() == rest.len() + 1;
    }
}

/// Computes the exact sum of the samples; `u128` cannot overflow here since
/// the sample count fits a `usize` and each sample fits a `u64`.
pub fn sum_durations(v: &Vec<u64>) -> (s: u128)
    ensures
        s == sum_of(v@),
{
    let mut s: u128 = 0;
    let mut i: usize = 0;
    while i < v.len()
        invariant
            i <= v@.len(),
            s == sum_of(v@.take(i as int)),
            s <= (i as int) * (u64::MAX as int),
        decreases v@.len() - i,
    {
        proof {
            lemma_sum_take_succ(v@, i as int);
            assert((i as int) * (u64::MAX as int) + (u64::MAX as int)
                == (i as int + 1) * (u64::MAX as int)) by (nonlinear_arith);
            assert((i as int + 1) * (u64::MAX as int) <= (usize::MAX as int) * (u64::MAX as int))
                by (nonlinear_arith)
                requires i as int + 1 <= usize::MAX as int;
        }
        s = s + v[i] as u128;
        i = i + 1;
    }
    proof {
        assert(v@.take(v@.len() as int) =~= v@);
    }
    s
}

/// Inserts one sample into an already sorted vector, keeping it sorted.
fn insert_ascending(out: &mut Vec<u64>, x: u64)
    requires
        sorted_by(old(out)@, duration_le()),
        old(out)@.len() < usize::MAX,
    ensures
        sorted_by(final(out)@, duration_le()),
        final(out)@.to_multiset() == old(out)@.to_multiset().insert(x),
        final(out)@.len() == old(out)@.len() + 1,
{
    let mut pos: usize = 0;
    while pos < out.len() && out[pos] <= x
        invariant
            pos <= out@.len(),
            out@ == old(out)@,
            forall|k: int| 0 <= k < pos ==> (#[trigger] out@[k]) <= x,
        decreases out@.len() - pos,
    {
        pos += 1;
    }
    proof {
        assert(forall|k: int| pos <= k < out@.len() ==> x <= #[trigger] out@[k]) by {
            if pos < out@.len() {
                assert(out@[pos as int] > x);
                assert(forall|k: int| pos < k < out@.len()
                    ==> duration_le()(out@[pos as int], #[trigger] out@[k]));
            }
        }
    }
    out.insert(pos, x);
    proof {
        let s = old(out)@;
        let t = final(out)@;
        assert(t == s.insert(pos as int, x));
        s.insert_ensures(pos as int, x);
        assert forall|i: int, j: int| 0 <= i < j < t.len()
            implies duration_le()(t[i], t[j]) by {
            if j < pos {
                assert(duration_le()(s[i], s[j]));
            } else if i > pos {
                assert(duration_le()(s[i - 1], s[j - 1]));
            } else if i == pos && j > pos {
                assert(x <= s[j - 1]);
            } else if j == pos {
                assert(s[i] <= x);
            } else {
                // i < pos < j
                assert(s[i] <= x);
                assert(x <= s[j - 1]);
            }
        }
    }
}

/// Sorts the samples ascending.  The result is exactly the spec-level
/// `sort_by` of the input under `duration_le`.
pub fn sort_ascending(v: &Vec<u64>) -> (r: Vec<u64>)
    ensures
        r@ == v@.sort_by(duration_le()),
        sorted_by(r@, duration_le()),
        r@.to_multiset() == v@.to_multiset(),
        r@.len() == v@.len(),
{
    let mut out: Vec<u64> = Vec::new();
    let mut i: usize = 0;
    while i < v.len()
        invariant
            i <= v@.len(),
            sorted_by(out@, duration_le()),
            out@.len() == i,
            out@.to_multiset() == v@.take(i as int).to_multiset(),
        decreases v@.len() - i,
    {
        let x = v[i];
        proof {
            assert(v@.take(i as int + 1) =~= v@.take(i as int).push(x));
        }
        insert_ascending(&mut out, x);
        proof {
            assert(v@.take(i as int).push(x).to_multiset()
                == v@.take(i as int).to_multiset().insert(x));
            assert(out@.to_multiset() == v@.take(i as int + 1).to_multiset());
        }
        i += 1;
    }
    proof {
        assert(v@.take(v@.len() as int) =~= v@);
        lemma_duration_le_total_ordering();
        v@.lemma_sort_by_ensures(duration_le());
        lemma_sorted_unique(out@, v@.sort_by(duration_le()), duration_le());
    }
    out
}

} // verus!
