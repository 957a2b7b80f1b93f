//! Nearest-rank percentiles of a column of non-negative integers.

use vstd::prelude::*;
use vstd::relations::*;
use vstd::seq_lib::*;

verus! {

/// A percentile was asked of a column that holds no value.
#[derive(Debug, Clone, Copy, PartialEq, Eq, Structural)]
pub struct EmptyInputError;

/// The order by which a column is sorted.
pub open spec fn ascending_order() -> spec_fn(u64, u64) -> bool {
    |a: u64, b: u64| a <= b
}

/// The values of `s`, smallest first.
pub open spec fn ascending(s: Seq<u64>) -> Seq<u64> {
    s.sort_by(ascending_order())
}

/// The position read for percentile `p` in a sorted column of `n > 0` values:
/// `p / 100 * (n - 1)` rounded to the nearest integer, a half rounding up,
/// and never past the last position.
pub open spec fn percentile_rank(p: nat, n: nat) -> nat
    recommends
        n > 0,
{
    let exact = (p * (n - 1) + 50) / 100;
    if exact > n - 1 {
        (n - 1) as nat
    } else {
        exact as nat
    }
}

/// The nearest-rank percentile `p` of a non-empty column.
pub open spec fn percentile_of(s: Seq<u64>, p: nat) -> u64
    recommends
        s.len() > 0,
{
    ascending(s)[percentile_rank(p, s.len()) as int]
}

/// `ascending(s)` is the one rearrangement of `s` in which no value stands
/// before a smaller one.
pub proof fn lemma_ascending(s: Seq<u64>)
    ensures
        ascending(s).len() == s.len(),
        ascending(s).to_multiset() == s.to_multiset(),
        forall|i: int, j: int| 0 <= i <= j < s.len() ==> ascending(s)[i] <= ascending(s)[j],
        forall|t: Seq<u64>|
            t.to_multiset() == s.to_multiset() && (forall|i: int, j: int|
                0 <= i < j < t.len() ==> t[i] <= t[j]) ==> t == ascending(s),
{
    broadcast use group_to_multiset_ensures;

    let leq = ascending_order();
    assert(total_ordering(leq));
    s.lemma_sort_by_ensures(leq);
    let a = ascending(s);
    assert(a.len() == s.len()) by {
        assert(a.to_multiset().len() == s.to_multiset().len());
    }
    assert forall|i: int, j: int| 0 <= i <= j < s.len() implies a[i] <= a[j] by {
        if i < j {
            assert(leq(a[i], a[j]));
        }
    }
    assert forall|t: Seq<u64>|
        t.to_multiset() == s.to_multiset() && (forall|i: int, j: int|
            0 <= i < j < t.len() ==> t[i] <= t[j]) implies t == a by {
        assert(sorted_by(t, leq)) by {
            assert forall|i: int, j: int| 0 <= i < j < t.len() implies #[trigger] leq(
                t[i],
                t[j],
            ) by {}
        }
        lemma_sorted_unique(t, a, leq);
    }
}

/// The values of a column as mathematical integers.
pub open spec fn as_ints(s: Seq<u64>) -> Seq<int> {
    s.map_values(|v: u64| v as int)
}

/// The sorted column holds the values of the column, and no others.
pub proof fn lemma_ascending_same_values(s: Seq<u64>)
    ensures
        forall|i: int| 0 <= i < s.len() ==> #[trigger] s.contains(ascending(s)[i]),
        forall|i: int| 0 <= i < s.len() ==> ascending(s).contains(#[trigger] s[i]),
{
    broadcast use group_to_multiset_ensures;

    lemma_ascending(s);
    let a = ascending(s);
    assert forall|i: int| 0 <= i < s.len() implies #[trigger] s.contains(a[i]) by {
        assert(a.contains(a[i]));
        assert(a.to_multiset().count(a[i]) > 0);
    }
    assert forall|i: int| 0 <= i < s.len() implies a.contains(#[trigger] s[i]) by {
        assert(s.contains(s[i]));
        assert(s.to_multiset().count(s[i]) > 0);
    }
}

/// Percentile 0 of a non-empty column is its smallest value, and percentile
/// 100 is its largest.
pub proof fn lemma_percentile_extremes(s: Seq<u64>)
    requires
        s.len() > 0,
    ensures
        percentile_of(s, 0) as int == as_ints(s).min(),
        percentile_of(s, 100) as int == as_ints(s).max(),
{
    lemma_ascending(s);
    lemma_ascending_same_values(s);
    let a = ascending(s);
    let ints = as_ints(s);
    let n = s.len() as int;
    ints.min_ensures();
    ints.max_ensures();
    assert(percentile_rank(0, s.len()) == 0);
    assert(percentile_rank(100, s.len()) == n - 1);

    let low = a[0];
    let high = a[n - 1];
    assert(s.contains(low));
    assert(s.contains(high));
    let i_low = choose|i: int| 0 <= i < n && s[i] == low;
    let i_high = choose|i: int| 0 <= i < n && s[i] == high;
    assert(ints[i_low] == low as int);
    assert(ints[i_high] == high as int);
    let i_min = choose|i: int| 0 <= i < n && ints[i] == ints.min();
    let i_max = choose|i: int| 0 <= i < n && ints[i] == ints.max();
    assert(a.contains(s[i_min]));
    assert(a.contains(s[i_max]));
    let k_min = choose|k: int| 0 <= k < n && a[k] == s[i_min];
    let k_max = choose|k: int| 0 <= k < n && a[k] == s[i_max];
    assert(a[0] <= a[k_min]);
    assert(a[k_max] <= a[n - 1]);
}

/// A percentile of a non-empty column is one of its values.
pub proof fn lemma_percentile_is_value(s: Seq<u64>, p: nat)
    requires
        s.len() > 0,
    ensures
        s.contains(percentile_of(s, p)),
{
    lemma_ascending(s);
    lemma_ascending_same_values(s);
}

/// A higher percentile of a column is never a smaller value.
pub proof fn lemma_percentile_monotone(s: Seq<u64>, p: nat, q: nat)
    requires
        s.len() > 0,
        p <= q,
    ensures
        percentile_of(s, p) <= percentile_of(s, q),
{
    lemma_ascending(s);
    let m = (s.len() - 1) as int;
    assert((p * m + 50) / 100 <= (q * m + 50) / 100) by (nonlinear_arith)
        requires
            0 <= p <= q,
            m >= 0,
    ;
}

/// The percentiles of a column do not depend on the order of its values.
pub proof fn lemma_percentile_of_rearranged(s: Seq<u64>, t: Seq<u64>, p: nat)
    requires
        s.to_multiset() == t.to_multiset(),
    ensures
        ascending(s) == ascending(t),
        percentile_of(s, p) == percentile_of(t, p),
{
    lemma_ascending(s);
    lemma_ascending(t);
    let a = ascending(s);
    assert forall|i: int, j: int| 0 <= i < j < a.len() implies a[i] <= a[j] by {}
}

/// No value of `s` stands before a smaller one.
pub open spec fn nondecreasing(s: Seq<u64>) -> bool {
    forall|i: int, j: int| 0 <= i <= j < s.len() ==> s[i] <= s[j]
}

/// Merges two sorted runs into one.
fn merge_runs(left: &Vec<u64>, right: &Vec<u64>) -> (out: Vec<u64>)
    requires
        nondecreasing(left@),
        nondecreasing(right@),
    ensures
        nondecreasing(out@),
        out@.to_multiset() == left@.to_multiset().add(right@.to_multiset()),
{
    broadcast use {group_to_multiset_ensures, vstd::multiset::group_multiset_axioms};

    let mut out: Vec<u64> = Vec::new();
    let mut i: usize = 0;
    let mut j: usize = 0;
    assert(left@.take(0) =~= Seq::<u64>::empty());
    assert(right@.take(0) =~= Seq::<u64>::empty());
    while i < left.len() || j < right.len()
        invariant
            i <= left.len(),
            j <= right.len(),
            nondecreasing(left@),
            nondecreasing(right@),
            nondecreasing(out@),
            out@.to_multiset() =~= left@.take(i as int).to_multiset().add(
                right@.take(j as int).to_multiset(),
            ),
            forall|k: int| 0 <= k < out.len() && i < left.len() ==> out[k] <= left[i as int],
            forall|k: int| 0 <= k < out.len() && j < right.len() ==> out[k] <= right[j as int],
        decreases left.len() - i + (right.len() - j),
    {
        let ghost before = out@;
        let ghost taken_left = left@.take(i as int).to_multiset();
        let ghost taken_right = right@.take(j as int).to_multiset();
        if j >= right.len() || (i < left.len() && left[i] <= right[j]) {
            let x = left[i];
            out.push(x);
            proof {
                to_multiset_build(before, x);
                to_multiset_build(left@.take(i as int), x);
                assert(left@.take(i + 1) =~= left@.take(i as int).push(x));
                assert(taken_left.insert(x).add(taken_right) =~= taken_left.add(
                    taken_right,
                ).insert(x));
                if i + 1 < left.len() {
                    assert(left[i as int] <= left[i + 1]);
                }
            }
            i = i + 1;
        } else {
            let x = right[j];
            out.push(x);
            proof {
                to_multiset_build(before, x);
                to_multiset_build(right@.take(j as int), x);
                assert(right@.take(j + 1) =~= right@.take(j as int).push(x));
                assert(taken_left.add(taken_right.insert(x)) =~= taken_left.add(
                    taken_right,
                ).insert(x));
                if j + 1 < right.len() {
                    assert(right[j as int] <= right[j + 1]);
                }
            }
            j = j + 1;
        }
        assert(nondecreasing(out@)) by {
            assert forall|a: int, b: int| 0 <= a <= b < out.len() implies out[a] <= out[b] by {
                if b < before.len() {
                    assert(before[a] <= before[b]);
                }
            }
        }
    }
    proof {
        assert(left@.take(i as int) =~= left@);
        assert(right@.take(j as int) =~= right@);
    }
    out
}

/// Sorts `data[lo..hi]` by halving and merging.
fn sort_range(data: &[u64], lo: usize, hi: usize) -> (out: Vec<u64>)
    requires
        lo <= hi <= data.len(),
    ensures
        nondecreasing(out@),
        out@.to_multiset() == data@.subrange(lo as int, hi as int).to_multiset(),
    decreases hi - lo,
{
    broadcast use group_to_multiset_ensures;

    if hi - lo == 0 {
        let out: Vec<u64> = Vec::new();
        assert(data@.subrange(lo as int, hi as int) =~= out@);
        out
    } else if hi - lo == 1 {
        let mut out: Vec<u64> = Vec::new();
        out.push(data[lo]);
        assert(data@.subrange(lo as int, hi as int) =~= out@);
        out
    } else {
        let mid = lo + (hi - lo) / 2;
        let left = sort_range(data, lo, mid);
        let right = sort_range(data, mid, hi);
        proof {
            let a = data@.subrange(lo as int, mid as int);
            let b = data@.subrange(mid as int, hi as int);
            assert(data@.subrange(lo as int, hi as int) =~= a + b);
            lemma_multiset_commutative(a, b);
        }
        merge_runs(&left, &right)
    }
}

/// Returns the values of `data`, smallest first.
pub fn sort_ascending(data: &[u64]) -> (sorted: Vec<u64>)
    ensures
        sorted@ == ascending(data@),
{
    let sorted = sort_range(data, 0, data.len());
    proof {
        assert(data@.subrange(0, data.len() as int) =~= data@);
        lemma_ascending(data@);
    }
    sorted
}

/// Returns the position read for `percentile` in a sorted column of `n` values.
pub fn rank_for(percentile: u64, n: usize) -> (rank: usize)
    requires
        n > 0,
    ensures
        rank == percentile_rank(percentile as nat, n as nat),
        rank < n,
{
    let last: usize = n - 1;
    if percentile >= 100 {
        assert((percentile as nat * (n - 1) as nat + 50) / 100 >= n - 1) by (nonlinear_arith)
            requires
                percentile >= 100,
                n >= 1,
        ;
        last
    } else {
        assert(percentile as int * last as int <= 99 * 0xffff_ffff_ffff_ffff) by (nonlinear_arith)
            requires
                percentile < 100,
                0 <= last <= 0xffff_ffff_ffff_ffff,
        ;
        let exact: u128 = (percentile as u128 * last as u128 + 50) / 100;
        assert(exact <= last) by (nonlinear_arith)
            requires
                exact == (percentile as int * last as int + 50) / 100,
                percentile < 100,
                last >= 0,
        ;
        exact as usize
    }
}

/// Returns the nearest-rank percentile `percentile` of `data`: the value at
/// position `percentile_rank` of the sorted column. A percentile above 100
/// reads the last position. An empty column has no percentile.
pub fn calculate_percentile(data: &[u64], percentile: u64) -> (result: Result<
    u64,
    EmptyInputError,
>)
    ensures
        result == if data@.len() == 0 {
            Err::<u64, EmptyInputError>(EmptyInputError)
        } else {
            Ok(percentile_of(data@, percentile as nat))
        },
{
    let n = data.len();
    if n == 0 {
        return Err(EmptyInputError);
    }
    let sorted = sort_ascending(data);
    proof {
        lemma_ascending(data@);
    }
    Ok(sorted[rank_for(percentile, n)])
}

} // verus!
