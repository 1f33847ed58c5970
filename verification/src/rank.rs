//! Ordering of the final report: rows with statistics come first, ascending
//! by median latency; rows without statistics come after them, in no
//! particular order among themselves.

use vstd::prelude::*;
use vstd::relations::{sorted_by, reflexive, transitive, strongly_connected};
use crate::outcome::LatencyResult;

verus! {

broadcast use vstd::seq_lib::group_to_multiset_ensures, vstd::multiset::group_multiset_axioms;

/// One line of the final report: the endpoint's display tag, its local port,
/// and its verdict.
#[derive(Clone, Debug)]
pub struct ReportRow {
    pub tag: String,
    pub port: u16,
    pub result: LatencyResult,
}

/// The ranking order.  A `Success` row sorts before any row that is not
/// `Success`; two `Success` rows order by median, lower first; rows that are
/// both not `Success` compare equal, so their relative order is left open.
pub open spec fn ranked_le(a: ReportRow, b: ReportRow) -> bool {
    match (a.result, b.result) {
        (
            LatencyResult::Success { median: ma, .. },
            LatencyResult::Success { median: mb, .. },
        ) => ma <= mb,
        (LatencyResult::Success { .. }, _) => true,
        (_, LatencyResult::Success { .. }) => false,
        (_, _) => true,
    }
}

/// The spec closure form of `ranked_le`, fixed once so that every spec and
/// proof speaks of the same function value.
pub open spec fn ranked_le_fn() -> spec_fn(ReportRow, ReportRow) -> bool {
    |a: ReportRow, b: ReportRow| ranked_le(a, b)
}

/// The ranking order is a total preorder: any two rows compare, and the
/// order composes.  It is not antisymmetric — distinct non-`Success` rows
/// compare equal both ways — which is exactly the freedom the ranking leaves
/// among failed rows.
pub proof fn lemma_ranked_le_total_preorder()
    ensures
        reflexive(ranked_le_fn()),
        transitive(ranked_le_fn()),
        strongly_connected(ranked_le_fn()),
{
}

fn ranked_le_exec(a: &ReportRow, b: &ReportRow) -> (r: bool)
    ensures
        r == ranked_le(*a, *b),
{
    match (&a.result, &b.result) {
        (
            LatencyResult::Success { median: ma, .. },
            LatencyResult::Success { median: mb, .. },
        ) => *ma <= *mb,
        (LatencyResult::Success { .. }, _) => true,
        (_, LatencyResult::Success { .. }) => false,
        (_, _) => true,
    }
}

/// Inserts one row into an already ranked vector, keeping it ranked.
fn insert_ranked(out: &mut Vec<ReportRow>, x: ReportRow)
    requires
        sorted_by(old(out)@, ranked_le_fn()),
        old(out)@.len() < usize::MAX,
    ensures
        sorted_by(final(out)@, ranked_le_fn()),
        final(out)@.to_multiset() == old(out)@.to_multiset().insert(x),
        final(out)@.len() == old(out)@.len() + 1,
{
    let ghost gx = x;
    let mut pos: usize = 0;
    while pos < out.len() && ranked_le_exec(&out[pos], &x)
        invariant
            pos <= out@.len(),
            out@ == old(out)@,
            x == gx,
            forall|k: int| 0 <= k < pos ==> ranked_le(#[trigger] out@[k], gx),
        decreases out@.len() - pos,
    {
        pos += 1;
    }
    proof {
        lemma_ranked_le_total_preorder();
        assert forall|k: int| pos <= k < out@.len() implies ranked_le(
            gx,
            #[trigger] out@[k],
        ) by {
            assert(!ranked_le(out@[pos as int], gx));
            assert(ranked_le(gx, out@[pos as int]));
            if k > pos {
                assert(ranked_le_fn()(out@[pos as int], out@[k]));
            }
        }
    }
    out.insert(pos, x);
    proof {
        let s = old(out)@;
        let t = final(out)@;
        s.insert_ensures(pos as int, gx);
        assert forall|i: int, j: int| 0 <= i < j < t.len() implies ranked_le_fn()(
            t[i],
            t[j],
        ) by {
            if j < pos {
                assert(ranked_le_fn()(s[i], s[j]));
            } else if i > pos {
                assert(ranked_le_fn()(s[i - 1], s[j - 1]));
            } else if i == pos && j > pos {
                assert(ranked_le(gx, s[j - 1]));
            } else if j == pos {
                assert(ranked_le(s[i], gx));
            } else {
                assert(ranked_le(s[i], gx));
                assert(ranked_le(gx, s[j - 1]));
                assert(ranked_le_fn()(s[i], gx));
                assert(ranked_le_fn()(gx, s[j - 1]));
            }
        }
    }
}

/// Ranks the full collection of report rows: the result holds exactly the
/// rows handed in, ordered by the ranking order — every `Success` row before
/// every non-`Success` row, and `Success` rows ascending by median.
pub fn rank_rows(rows: Vec<ReportRow>) -> (r: Vec<ReportRow>)
    ensures
        sorted_by(r@, ranked_le_fn()),
        r@.to_multiset() == rows@.to_multiset(),
        r@.len() == rows@.len(),
{
    let ghost orig = rows@;
    let mut rest = rows;
    let total_rows = rest.len();
    let mut out: Vec<ReportRow> = Vec::new();
    while rest.len() > 0
        invariant
            sorted_by(out@, ranked_le_fn()),
            out@.to_multiset().add(rest@.to_multiset()) == orig.to_multiset(),
            out@.len() + rest@.len() == orig.len(),
            orig.len() == total_rows as nat,
        decreases rest@.len(),
    {
        let ghost rest_pre = rest@;
        let ghost out_pre = out@;
        let x = rest.remove(0);
        insert_ranked(&mut out, x);
        proof {
            assert(rest_pre.to_multiset().contains(x));
            assert(rest_pre.to_multiset() =~= rest@.to_multiset().insert(x));
            assert(out@.to_multiset().add(rest@.to_multiset()) =~= out_pre.to_multiset().add(
                rest_pre.to_multiset(),
            ));
        }
    }
    proof {
        assert(rest@ =~= Seq::<ReportRow>::empty());
        assert(out@.to_multiset().add(rest@.to_multiset()) =~= out@.to_multiset());
        assert(out@.to_multiset() =~= orig.to_multiset());
    }
    out
}

/// In a ranked sequence no row without statistics ever stands ahead of a
/// `Success` row.
pub proof fn lemma_no_failure_before_success(s: Seq<ReportRow>)
    requires
        sorted_by(s, ranked_le_fn()),
    ensures
        forall|i: int, j: int|
            0 <= i < j < s.len() && (#[trigger] s[j].result) is Success
                ==> (#[trigger] s[i].result) is Success,
{
    assert forall|i: int, j: int|
        0 <= i < j < s.len() && (#[trigger] s[j].result) is Success
            implies (#[trigger] s[i].result) is Success by {
        assert(ranked_le_fn()(s[i], s[j]));
    }
}

} // verus!
