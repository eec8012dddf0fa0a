//! Lining up the timestamped series that a trade rule reads: which series
//! gives the master timeline (the one with the smallest median step), and
//! which sample of another series a master timestamp takes (the last one at
//! or before it, within a tolerance).

use vstd::prelude::*;
use vstd::relations::{sorted_by, total_ordering};

verus! {

/* ----------------------------- master timeline --------------------------- */

/// The timestamps of a column that are present, in order.
pub open spec fn present(col: Seq<Option<i64>>) -> Seq<i64>
    decreases col.len(),
{
    if col.len() == 0 {
        Seq::empty()
    } else {
        let r = present(col.drop_last());
        match col.last() {
            Some(v) => r.push(v),
            None => r,
        }
    }
}

/// The positive steps between consecutive timestamps, in order.
pub open spec fn steps(ts: Seq<i64>) -> Seq<i64>
    decreases ts.len(),
{
    if ts.len() < 2 {
        Seq::empty()
    } else {
        let r = steps(ts.drop_last());
        let d = ts.last() - ts[ts.len() - 2];
        if d > 0 { r.push(d as i64) } else { r }
    }
}

/// Every step between consecutive present timestamps fits in an `i64`.
pub open spec fn steps_fit(col: Seq<Option<i64>>) -> bool {
    forall|k: int| 0 <= k < present(col).len() - 1 ==>
        i64::MIN <= #[trigger] present(col)[k + 1] - present(col)[k] <= i64::MAX
}

pub open spec fn le(a: i64, b: i64) -> bool {
    a <= b
}

/// The median of the positive steps of a column: the middle one (the upper
/// middle for an even count) in increasing order; none without steps.
pub open spec fn median_step(col: Seq<Option<i64>>) -> Option<i64> {
    let d = steps(present(col));
    if d.len() == 0 {
        None
    } else {
        Some(d.sort_by(|a: i64, b: i64| le(a, b))[(d.len() / 2) as int])
    }
}

/// The best table among the first `k` and its median step: a table
/// replaces the best so far only with a strictly smaller median; tables
/// without a timestamp column or without steps are passed over.
pub open spec fn master_from(tables: Seq<Option<Seq<Option<i64>>>>, k: int) -> (int, i64)
    decreases k,
{
    if k <= 0 {
        (0, i64::MAX)
    } else {
        let (best, best_step) = master_from(tables, k - 1);
        match tables[k - 1] {
            Some(col) => match median_step(col) {
                Some(m) => if m < best_step { (k - 1, m) } else { (best, best_step) },
                None => (best, best_step),
            },
            None => (best, best_step),
        }
    }
}

pub open spec fn tables_view(tables: Seq<Option<Vec<Option<i64>>>>) -> Seq<Option<Seq<Option<i64>>>> {
    tables.map_values(|t: Option<Vec<Option<i64>>>| match t { Some(c) => Some(c@), None => None })
}

proof fn lemma_le_total()
    ensures
        total_ordering(|a: i64, b: i64| le(a, b)),
{
}

/// The timestamps are in non-decreasing order.
pub open spec fn ascending(ts: Seq<i64>) -> bool {
    forall|i: int, j: int| 0 <= i <= j < ts.len() ==> ts[i] <= ts[j]
}

/// Inserts `x` into the sorted `v` after the elements not above it.
fn insert_sorted(v: &mut Vec<i64>, x: i64)
    requires
        ascending(old(v)@),
    ensures
        ascending(final(v)@),
        final(v)@.to_multiset() == old(v)@.to_multiset().insert(x),
{
    broadcast use vstd::seq_lib::to_multiset_insert;
    let mut pos: usize = 0;
    while pos < v.len() && v[pos] <= x
        invariant
            v@ == old(v)@,
            pos <= v@.len(),
            forall|k: int| 0 <= k < pos ==> v@[k] <= x,
        decreases v.len() - pos,
    {
        pos = pos + 1;
    }
    let ghost before = v@;
    assert(pos < before.len() ==> x < before[pos as int]);
    v.insert(pos, x);
    assert forall|i: int, j: int| 0 <= i <= j < v@.len() implies v@[i] <= v@[j] by {
        if j < pos {
        } else if j == pos {
        } else if i < pos {
            assert(v@[j] == before[j - 1]);
            assert(before[pos as int] <= before[j - 1]);
        } else if i == pos {
            assert(v@[j] == before[j - 1]);
            assert(before[pos as int] <= before[j - 1]);
        } else {
            assert(v@[j] == before[j - 1]);
            assert(v@[i] == before[i - 1]);
        }
    }
}

/// The median positive step of a column of timestamps, if it has steps.
pub fn median_step_of(col: &Vec<Option<i64>>) -> (r: Option<i64>)
    requires
        steps_fit(col@),
    ensures
        r == median_step(col@),
{
    let mut prev: Option<i64> = None;
    let mut diffs: Vec<i64> = Vec::new();
    let mut sorted: Vec<i64> = Vec::new();
    let mut i: usize = 0;
    while i < col.len()
        invariant
            i <= col@.len(),
            steps_fit(col@),
            present(col@.take(i as int)).len() <= present(col@).len(),
            forall|k: int| 0 <= k < present(col@.take(i as int)).len() ==> present(col@.take(i as int))[k] == present(col@)[k],
            diffs@ == steps(present(col@.take(i as int))),
            prev == (if present(col@.take(i as int)).len() == 0 { None } else { Some(present(col@.take(i as int)).last()) }),
            ascending(sorted@),
            sorted@.to_multiset() == diffs@.to_multiset(),
        decreases col.len() - i,
    {
        let ghost p0 = present(col@.take(i as int));
        proof {
            assert(col@.take(i + 1).drop_last() =~= col@.take(i as int));
            assert(col@.take(i + 1).last() == col@[i as int]);
            lemma_present_prefix(col@, i + 1);
        }
        match col[i] {
            Some(v) => {
                match prev {
                    Some(p) => {
                        proof {
                            assert(present(col@.take(i + 1)) == p0.push(v));
                            assert(p0.push(v).drop_last() =~= p0);
                            assert(present(col@)[p0.len() as int] == v);
                            assert(present(col@)[p0.len() - 1] == p);
                            assert(i64::MIN <= present(col@)[(p0.len() - 1) + 1] - present(col@)[p0.len() - 1] <= i64::MAX);
                        }
                        let d = v - p;
                        if d > 0 {
                            diffs.push(d);
                            insert_sorted(&mut sorted, d);
                            proof {
                                broadcast use vstd::seq_lib::to_multiset_build;
                            }
                        }
                    },
                    None => {
                        proof {
                            assert(p0.push(v).len() < 2);
                        }
                    },
                }
                prev = Some(v);
            },
            None => {},
        }
        i = i + 1;
    }
    assert(col@.take(col@.len() as int) =~= col@);
    if diffs.len() == 0 {
        return None;
    }
    proof {
        let leq = |a: i64, b: i64| le(a, b);
        lemma_le_total();
        diffs@.lemma_sort_by_ensures(leq);
        assert(sorted_by(sorted@, leq)) by {
            assert forall|i: int, j: int| 0 <= i < j < sorted@.len() implies #[trigger] leq(sorted@[i], sorted@[j]) by {}
        }
        vstd::seq_lib::lemma_sorted_unique(sorted@, diffs@.sort_by(leq), leq);
        broadcast use vstd::seq_lib::group_to_multiset_ensures;
        assert(sorted@.to_multiset().len() == diffs@.to_multiset().len());
        assert(sorted@.len() == diffs@.len());
    }
    Some(sorted[diffs.len() / 2])
}

/// The present timestamps of a prefix are a prefix of the present
/// timestamps.
proof fn lemma_present_prefix(col: Seq<Option<i64>>, i: int)
    requires
        0 <= i <= col.len(),
    ensures
        present(col.take(i)).len() <= present(col).len(),
        forall|k: int| 0 <= k < present(col.take(i)).len() ==> present(col.take(i))[k] == present(col)[k],
    decreases col.len() - i,
{
    if i < col.len() {
        lemma_present_prefix(col, i + 1);
        assert(col.take(i + 1).drop_last() =~= col.take(i));
    } else {
        assert(col.take(i) =~= col);
    }
}

/// The index of the table whose timestamps give the master timeline: the
/// first with the smallest median positive step; 0 when no table has a
/// step. A table is `None` when it has no integer timestamp column.
pub fn choose_master_idx(tables: &Vec<Option<Vec<Option<i64>>>>) -> (r: usize)
    requires
        forall|i: int| 0 <= i < tables@.len() ==> (#[trigger] tables@[i] matches Some(c) ==> steps_fit(c@)),
    ensures
        r as int == master_from(tables_view(tables@), tables@.len() as int).0,
{
    let ghost tv = tables_view(tables@);
    let mut best: usize = 0;
    let mut best_step: i64 = i64::MAX;
    let mut i: usize = 0;
    while i < tables.len()
        invariant
            i <= tables@.len(),
            tv == tables_view(tables@),
            forall|j: int| 0 <= j < tables@.len() ==> (#[trigger] tables@[j] matches Some(c) ==> steps_fit(c@)),
            (best as int, best_step) == master_from(tv, i as int),
            best <= i,
        decreases tables.len() - i,
    {
        match &tables[i] {
            Some(col) => {
                match median_step_of(col) {
                    Some(median) => {
                        if median < best_step {
                            best_step = median;
                            best = i;
                        }
                    },
                    None => {},
                }
            },
            None => {},
        }
        i = i + 1;
    }
    best
}

/* ---------------------------- backward matching -------------------------- */

/// How many of the timestamps are below `t`.
pub open spec fn count_below(ts: Seq<i64>, t: i64) -> int
    decreases ts.len(),
{
    if ts.len() == 0 {
        0
    } else {
        count_below(ts.drop_last(), t) + (if ts.last() < t { 1int } else { 0int })
    }
}

/// The sample that master timestamp `t` takes from a series with the
/// sorted timestamps `ts`: the first one equal to `t` when there is one;
/// else the last one before `t`, when it lies within `tol` of `t`.
pub open spec fn spec_backward_match(ts: Seq<i64>, t: i64, tol: i64) -> Option<int> {
    let below = count_below(ts, t);
    if below < ts.len() && ts[below] == t {
        Some(below)
    } else if below == 0 {
        None
    } else if t - ts[below - 1] <= tol {
        Some(below - 1)
    } else {
        None
    }
}

/// In sorted timestamps, the number below `t` is the index of the first
/// one at or above it.
proof fn lemma_count_below(ts: Seq<i64>, t: i64, k: int)
    requires
        0 <= k <= ts.len(),
        forall|i: int| 0 <= i < k ==> ts[i] < t,
        forall|i: int| k <= i < ts.len() ==> ts[i] >= t,
    ensures
        count_below(ts, t) == k,
    decreases ts.len(),
{
    if ts.len() > 0 {
        if k == ts.len() {
            lemma_count_below(ts.drop_last(), t, k - 1);
        } else {
            lemma_count_below(ts.drop_last(), t, k);
        }
    }
}

/// The index of the sample that master timestamp `t` takes from a series
/// with the sorted timestamps `ts`, within tolerance `tol`.
pub fn backward_match(ts: &Vec<i64>, t: i64, tol: i64) -> (r: Option<usize>)
    requires
        ascending(ts@),
        forall|i: int| 0 <= i < ts@.len() && ts@[i] < t ==> t - #[trigger] ts@[i] <= i64::MAX,
    ensures
        r matches Some(j) ==> Some(j as int) == spec_backward_match(ts@, t, tol),
        r is None ==> spec_backward_match(ts@, t, tol) is None,
{
    // binary search for the first timestamp at or above `t`
    let mut lo: usize = 0;
    let mut hi: usize = ts.len();
    while lo < hi
        invariant
            ascending(ts@),
            0 <= lo <= hi <= ts@.len(),
            forall|i: int| 0 <= i < lo ==> ts@[i] < t,
            forall|i: int| hi <= i < ts@.len() ==> ts@[i] >= t,
        decreases hi - lo,
    {
        let mid = lo + (hi - lo) / 2;
        if ts[mid] < t {
            lo = mid + 1;
        } else {
            hi = mid;
        }
    }
    proof {
        lemma_count_below(ts@, t, lo as int);
    }
    if lo < ts.len() && ts[lo] == t {
        Some(lo)
    } else if lo == 0 {
        None
    } else if t - ts[lo - 1] <= tol {
        Some(lo - 1)
    } else {
        None
    }
}

} // verus!
