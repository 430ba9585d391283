//! Ordering utilities and the flow duration curve.
//!
//! The flow duration curve relates each flow value to the percentage of time
//! it is equalled or exceeded: the series is sorted descending and the i-th
//! sorted value (1-indexed, over n values) receives the exact exceedance
//! probability `i / n * 100`.

use vstd::prelude::*;
use vstd::relations::{sorted_by, total_ordering, transitive};
use vstd::seq_lib::lemma_sorted_unique;
use crate::error::MetricError;
use crate::ratio::Ratio;

verus! {

/// Longest series the statistics of this crate accept.
pub const LENGTH_LIMIT: usize = 1_000_000;

/// Largest magnitude a series value may carry, in thousandths of its unit.
pub const VALUE_LIMIT: i64 = 1_000_000_000;

/// The direction of a sort.
#[derive(Debug, Clone, Copy, PartialEq, Eq, Structural)]
pub enum SortType {
    Asc,
    Desc,
}

/// The ascending total order on series values.
pub open spec fn ascending_order() -> spec_fn(i64, i64) -> bool {
    |a: i64, b: i64| a <= b
}

/// The descending total order on series values.
pub open spec fn descending_order() -> spec_fn(i64, i64) -> bool {
    |a: i64, b: i64| a >= b
}

/// The order a `SortType` stands for.
pub open spec fn order_of(sort_type: SortType) -> spec_fn(i64, i64) -> bool {
    match sort_type {
        SortType::Asc => ascending_order(),
        SortType::Desc => descending_order(),
    }
}

/// Both directions are total orders.
pub proof fn lemma_orders_total()
    ensures
        total_ordering(ascending_order()),
        total_ordering(descending_order()),
        forall|t: SortType| total_ordering(#[trigger] order_of(t)),
{
    assert(total_ordering(ascending_order()));
    assert(total_ordering(descending_order()));
    assert forall|t: SortType| total_ordering(#[trigger] order_of(t)) by {
        match t {
            SortType::Asc => assert(order_of(t) == ascending_order()),
            SortType::Desc => assert(order_of(t) == descending_order()),
        }
    }
}

/// Decide whether `a` may stand before `b` under the given direction.
fn in_order(sort_type: SortType, a: i64, b: i64) -> (r: bool)
    ensures
        r == order_of(sort_type)(a, b),
{
    match sort_type {
        SortType::Asc => a <= b,
        SortType::Desc => a >= b,
    }
}

/// The sorted rearrangement of a series under the given direction.
pub open spec fn spec_sorted(s: Seq<i64>, sort_type: SortType) -> Seq<i64> {
    s.sort_by(order_of(sort_type))
}

/// Sort a copy of the series in the given direction.  The result is exactly
/// the sorted rearrangement: the same values with their multiplicities, in
/// order.
pub fn sort(x: &Vec<i64>, sort_type: SortType) -> (r: Vec<i64>)
    ensures
        r@ == spec_sorted(x@, sort_type),
        r@.to_multiset() == x@.to_multiset(),
        r@.len() == x@.len(),
        sorted_by(r@, order_of(sort_type)),
{
    let ghost ord = order_of(sort_type);
    proof {
        lemma_orders_total();
    }
    let n = x.len();
    let mut r: Vec<i64> = Vec::new();
    proof {
        assert(r@ =~= x@.take(0));
    }
    let mut i: usize = 0;
    while i < n
        invariant
            i <= n,
            n == x@.len(),
            r@.len() == i,
            r@.to_multiset() == x@.take(i as int).to_multiset(),
            ord == order_of(sort_type),
            total_ordering(ord),
            sorted_by(r@, ord),
        decreases n - i,
    {
        let v = x[i];
        let ghost before_push = r@;
        r.push(v);
        proof {
            broadcast use vstd::seq_lib::group_to_multiset_ensures;

            assert(x@.take(i as int + 1) =~= x@.take(i as int).push(v));
            assert(r@.to_multiset() =~= x@.take(i as int + 1).to_multiset());
        }
        let mut j: usize = r.len() - 1;
        while j > 0 && !in_order(sort_type, r[j - 1], r[j])
            invariant
                j < r@.len(),
                r@.len() == i + 1,
                i < n == x@.len(),
                r@.to_multiset() == x@.take(i as int + 1).to_multiset(),
                ord == order_of(sort_type),
                total_ordering(ord),
                forall|a: int, b: int|
                    0 <= a < b < r@.len() && b != j ==> #[trigger] ord(r@[a], r@[b]),
            decreases j,
        {
            let hi = r[j];
            let lo = r[j - 1];
            let ghost before_swap = r@;
            r.set(j - 1, hi);
            r.set(j, lo);
            proof {
                broadcast use vstd::seq_lib::group_to_multiset_ensures;

                assert(r@ == before_swap.update(j - 1 as int, hi).update(j as int, lo));
                assert(r@.to_multiset() =~= before_swap.to_multiset());
                assert forall|a: int, b: int|
                    0 <= a < b < r@.len() && b != j - 1 implies #[trigger] ord(r@[a], r@[b]) by {
                    if a == j - 1 {
                        if b == j {
                            assert(ord(hi, lo));
                        } else {
                            assert(ord(before_swap[j as int], before_swap[b]));
                            assert(ord(r@[a], r@[b]));
                        }
                    } else if b == j {
                        if a < j - 1 {
                            assert(ord(before_swap[a], before_swap[j - 1 as int]));
                        }
                    } else {
                        assert(ord(before_swap[a], before_swap[b]));
                    }
                }
            }
            j -= 1;
        }
        proof {
            assert forall|a: int, b: int|
                0 <= a < b < r@.len() implies #[trigger] ord(r@[a], r@[b]) by {
                if b == j && j > 0 {
                    assert(ord(r@[j as int - 1], r@[j as int]));
                    if a < j - 1 {
                        assert(ord(r@[a], r@[j as int - 1]));
                        assert(transitive(ord));
                        assert(ord(r@[a], r@[j as int]));
                    }
                }
            }
        }
        i += 1;
    }
    proof {
        assert(x@.take(n as int) =~= x@);
        x@.lemma_sort_by_ensures(ord);
        lemma_sorted_unique(r@, x@.sort_by(ord), ord);
        assert(r@ =~= x@.sort_by(ord));
    }
    r
}

/// The flow duration curve: the run-off values sorted descending, and for
/// the i-th sorted value (0-indexed, over n values) the exact exceedance
/// probability `(i + 1) / n * 100`.
#[derive(Debug, Clone, PartialEq, Eq)]
pub struct Fdc {
    /// The probability of exceedance of each sorted value, in percent.
    pub exceedence: Vec<Ratio>,
    /// The run-off data sorted descending.
    pub sorted_run_off: Vec<i64>,
}

impl Fdc {
    /// Calculate the flow duration curve of a run-off series.
    pub fn new(run_off: &Vec<i64>) -> (r: Fdc)
        requires
            run_off@.len() <= LENGTH_LIMIT,
        ensures
            r.sorted_run_off@ == spec_sorted(run_off@, SortType::Desc),
            sorted_by(r.sorted_run_off@, descending_order()),
            r.sorted_run_off@.to_multiset() == run_off@.to_multiset(),
            r.exceedence@.len() == run_off@.len(),
            forall|i: int|
                0 <= i < r.exceedence@.len() ==> #[trigger] r.exceedence@[i] == (Ratio {
                    num: (100 * (i + 1)) as i128,
                    den: run_off@.len() as i128,
                }),
    {
        let n = run_off.len();
        let sorted_run_off = sort(run_off, SortType::Desc);
        let mut exceedence: Vec<Ratio> = Vec::new();
        let mut i: usize = 0;
        while i < n
            invariant
                i <= n,
                n <= LENGTH_LIMIT,
                exceedence@.len() == i,
                forall|k: int|
                    0 <= k < i ==> #[trigger] exceedence@[k] == (Ratio {
                        num: (100 * (k + 1)) as i128,
                        den: n as i128,
                    }),
            decreases n - i,
        {
            exceedence.push(Ratio { num: 100 * (i as i128 + 1), den: n as i128 });
            i += 1;
        }
        proof {
            assert(order_of(SortType::Desc) == descending_order());
        }
        Fdc { exceedence, sorted_run_off }
    }
}

/// How many entries of the series are strictly under `v`.
pub open spec fn count_lt(s: Seq<i64>, v: i64) -> int
    decreases s.len(),
{
    if s.len() == 0 {
        0
    } else {
        count_lt(s.drop_last(), v) + if s.last() < v {
            1int
        } else {
            0int
        }
    }
}

/// How many entries of the series equal `v`.
pub open spec fn count_eq(s: Seq<i64>, v: i64) -> int
    decreases s.len(),
{
    if s.len() == 0 {
        0
    } else {
        count_eq(s.drop_last(), v) + if s.last() == v {
            1int
        } else {
            0int
        }
    }
}

/// Twice the fractional rank of the entry at `i`: ties receive the average
/// rank of their tie group, so ranks live in halves and their double is an
/// integer.
pub open spec fn rank2(s: Seq<i64>, i: int) -> int {
    1 + 2 * count_lt(s, s[i]) + count_eq(s, s[i])
}

/// Counting a one-entry extension of a prefix.
proof fn lemma_counts_take_step(s: Seq<i64>, v: i64, j: int)
    requires
        0 <= j < s.len(),
    ensures
        count_lt(s.take(j + 1), v) == count_lt(s.take(j), v) + if s[j] < v {
            1int
        } else {
            0int
        },
        count_eq(s.take(j + 1), v) == count_eq(s.take(j), v) + if s[j] == v {
            1int
        } else {
            0int
        },
{
    assert(s.take(j + 1).drop_last() =~= s.take(j));
    assert(s.take(j + 1).last() == s[j]);
}

/// Both counts lie between zero and the series length.
pub proof fn lemma_counts_bounded(s: Seq<i64>, v: i64)
    ensures
        0 <= count_lt(s, v) <= s.len(),
        0 <= count_eq(s, v) <= s.len(),
    decreases s.len(),
{
    if s.len() > 0 {
        lemma_counts_bounded(s.drop_last(), v);
    }
}

/// Compute twice the fractional rank of every entry: an entry under which
/// `l` others lie and whose tie group holds `e` entries (itself included)
/// receives the rank `l + 1 + (e - 1) / 2`, returned doubled so that it
/// stays an integer.
pub fn rank(x: &Vec<i64>) -> (r: Vec<i64>)
    requires
        x@.len() <= LENGTH_LIMIT,
    ensures
        r@.len() == x@.len(),
        forall|i: int| 0 <= i < r@.len() ==> #[trigger] r@[i] == rank2(x@, i),
{
    let n = x.len();
    let mut r: Vec<i64> = Vec::new();
    let mut i: usize = 0;
    while i < n
        invariant
            i <= n,
            n == x@.len(),
            n <= LENGTH_LIMIT,
            r@.len() == i,
            forall|k: int| 0 <= k < i ==> #[trigger] r@[k] == rank2(x@, k),
        decreases n - i,
    {
        let v = x[i];
        let mut lt: i64 = 0;
        let mut eq: i64 = 0;
        let mut j: usize = 0;
        while j < n
            invariant
                j <= n,
                n == x@.len(),
                n <= LENGTH_LIMIT,
                v == x@[i as int],
                0 <= i < n,
                lt == count_lt(x@.take(j as int), v),
                eq == count_eq(x@.take(j as int), v),
                0 <= lt <= j,
                0 <= eq <= j,
            decreases n - j,
        {
            proof {
                lemma_counts_take_step(x@, v, j as int);
            }
            if x[j] < v {
                lt += 1;
            }
            if x[j] == v {
                eq += 1;
            }
            j += 1;
        }
        proof {
            assert(x@.take(n as int) =~= x@);
        }
        r.push(1 + 2 * lt + eq);
        i += 1;
    }
    r
}

/// The entry pairs at which both series carry a value, in order.
pub open spec fn clean_pairs(o: Seq<Option<i64>>, s: Seq<Option<i64>>) -> Seq<(i64, i64)>
    decreases o.len(),
{
    if o.len() == 0 || s.len() == 0 {
        Seq::empty()
    } else {
        let rest = clean_pairs(o.drop_last(), s.drop_last());
        if o.last() is Some && s.last() is Some {
            rest.push((o.last()->0, s.last()->0))
        } else {
            rest
        }
    }
}

/// Cleaning a one-entry extension of a prefix.
pub proof fn lemma_clean_pairs_take_step(o: Seq<Option<i64>>, s: Seq<Option<i64>>, j: int)
    requires
        o.len() == s.len(),
        0 <= j < o.len(),
    ensures
        clean_pairs(o.take(j + 1), s.take(j + 1)) == if o[j] is Some && s[j] is Some {
            clean_pairs(o.take(j), s.take(j)).push((o[j]->0, s[j]->0))
        } else {
            clean_pairs(o.take(j), s.take(j))
        },
{
    assert(o.take(j + 1).drop_last() =~= o.take(j));
    assert(s.take(j + 1).drop_last() =~= s.take(j));
    assert(o.take(j + 1).last() == o[j]);
    assert(s.take(j + 1).last() == s[j]);
    if j == 0 {
        assert(clean_pairs(o.take(0), s.take(0)) == Seq::<(i64, i64)>::empty());
    }
}

/// Remove from both series every entry pair in which either side misses a
/// value.  If a value is missing in one series only, the value at the same
/// index is also removed from the other, so the results have equal lengths.
/// Fails when the series lengths differ.
pub fn remove_nans_from_pair(x: &Vec<Option<i64>>, y: &Vec<Option<i64>>) -> (r: Result<
    (Vec<i64>, Vec<i64>),
    MetricError,
>)
    ensures
        x@.len() != y@.len() ==> r == Err::<(Vec<i64>, Vec<i64>), MetricError>(
            MetricError::MismatchedLength(x@.len() as usize, y@.len() as usize),
        ),
        x@.len() == y@.len() ==> r is Ok,
        r is Ok ==> {
            let (a, b) = r->Ok_0;
            let pairs = clean_pairs(x@, y@);
            &&& a@.len() == pairs.len()
            &&& b@.len() == pairs.len()
            &&& forall|k: int|
                0 <= k < pairs.len() ==> #[trigger] a@[k] == pairs[k].0 && b@[k] == pairs[k].1
        },
{
    let n = x.len();
    if n != y.len() {
        return Err(MetricError::MismatchedLength(x.len(), y.len()));
    }
    let mut a: Vec<i64> = Vec::new();
    let mut b: Vec<i64> = Vec::new();
    let mut i: usize = 0;
    while i < n
        invariant
            i <= n,
            n == x@.len() && n == y@.len(),
            a@.len() == clean_pairs(x@.take(i as int), y@.take(i as int)).len(),
            b@.len() == a@.len(),
            forall|k: int|
                0 <= k < a@.len() ==> {
                    let pairs = clean_pairs(x@.take(i as int), y@.take(i as int));
                    #[trigger] a@[k] == pairs[k].0 && b@[k] == pairs[k].1
                },
        decreases n - i,
    {
        proof {
            lemma_clean_pairs_take_step(x@, y@, i as int);
        }
        if let (Some(xv), Some(yv)) = (x[i], y[i]) {
            a.push(xv);
            b.push(yv);
        }
        i += 1;
    }
    proof {
        assert(x@.take(n as int) =~= x@);
        assert(y@.take(n as int) =~= y@);
    }
    Ok((a, b))
}

/// The sum over the first `k` entries of the squared difference of the two
/// series' doubled ranks.
pub open spec fn rank_diff_sq_sum(x: Seq<i64>, y: Seq<i64>, k: int) -> int
    decreases k,
{
    if k <= 0 {
        0
    } else {
        rank_diff_sq_sum(x, y, k - 1) + (rank2(x, k - 1) - rank2(y, k - 1)) * (rank2(x, k - 1)
            - rank2(y, k - 1))
    }
}

/// The Spearman rank correlation of two equal-length series, as the exact
/// fraction `1 - 6 * sum(d^2) / (n * (n^2 - 1))` over the fractional ranks:
/// with doubled ranks this is `(2n(n^2-1) - 3 * sum(d2^2)) / (2n(n^2-1))`.
pub open spec fn spec_spearman(x: Seq<i64>, y: Seq<i64>) -> Ratio {
    let n = x.len() as int;
    let den = 2 * n * (n * n - 1);
    Ratio {
        num: (den - 3 * rank_diff_sq_sum(x, y, n)) as i128,
        den: den as i128,
    }
}

/// Calculate the Spearman rank correlation coefficient of two equal-length
/// series, as an exact fraction.  Ranks use fractional tie handling: tied
/// values receive the average rank of their tie group.
pub fn spearman(x: &Vec<i64>, y: &Vec<i64>) -> (r: Ratio)
    requires
        x@.len() == y@.len(),
        x@.len() <= LENGTH_LIMIT,
    ensures
        r == spec_spearman(x@, y@),
{
    let n = x.len();
    let rx = rank(x);
    let ry = rank(y);
    let mut d2_sum: i128 = 0;
    let mut i: usize = 0;
    while i < n
        invariant
            i <= n,
            n == x@.len() && n == y@.len(),
            n <= LENGTH_LIMIT,
            rx@.len() == n && ry@.len() == n,
            forall|k: int| 0 <= k < n ==> #[trigger] rx@[k] == rank2(x@, k),
            forall|k: int| 0 <= k < n ==> #[trigger] ry@[k] == rank2(y@, k),
            d2_sum == rank_diff_sq_sum(x@, y@, i as int),
            0 <= d2_sum <= i * 9_000_000_000_000,
        decreases n - i,
    {
        proof {
            lemma_counts_bounded(x@, x@[i as int]);
            lemma_counts_bounded(y@, y@[i as int]);
            assert(1 <= rx@[i as int] <= 3_000_001);
            assert(1 <= ry@[i as int] <= 3_000_001);
        }
        let d: i64 = rx[i] - ry[i];
        proof {
            assert(-3_000_000 <= d <= 3_000_000);
            assert(0 <= (d as i128) * (d as i128) <= 9_000_000_000_000) by (nonlinear_arith)
                requires
                    -3_000_000 <= (d as i128) <= 3_000_000,
            ;
        }
        let d2: i128 = (d as i128) * (d as i128);
        d2_sum = d2_sum + d2;
        i += 1;
    }
    let ni: i128 = n as i128;
    proof {
        assert(0 <= ni * ni <= 1_000_000_000_000) by (nonlinear_arith)
            requires
                0 <= ni <= 1_000_000,
        ;
        assert((2 * ni) * (ni * ni - 1) >= 0 && (2 * ni) * (ni * ni - 1)
            <= 2_000_000_000_000_000_000) by (nonlinear_arith)
            requires
                0 <= ni <= 1_000_000,
                0 <= ni * ni <= 1_000_000_000_000,
        ;
    }
    let den: i128 = 2 * ni * (ni * ni - 1);
    let num: i128 = den - 3 * d2_sum;
    Ratio { num, den }
}

/// The Spearman rank correlation is symmetric in its two series.
pub proof fn lemma_spearman_symmetric(x: Seq<i64>, y: Seq<i64>)
    requires
        x.len() == y.len(),
    ensures
        spec_spearman(x, y) == spec_spearman(y, x),
{
    lemma_rank_diff_sq_sum_symmetric(x, y, x.len() as int);
}

/// The summed squared rank difference is symmetric in its two series.
proof fn lemma_rank_diff_sq_sum_symmetric(x: Seq<i64>, y: Seq<i64>, k: int)
    ensures
        rank_diff_sq_sum(x, y, k) == rank_diff_sq_sum(y, x, k),
    decreases k,
{
    if k > 0 {
        lemma_rank_diff_sq_sum_symmetric(x, y, k - 1);
        let a = rank2(x, k - 1);
        let b = rank2(y, k - 1);
        assert((a - b) * (a - b) == (b - a) * (b - a)) by (nonlinear_arith);
    }
}

/// The Spearman rank correlation of a series with itself is exactly one,
/// for any series of at least two entries.
pub proof fn lemma_spearman_identical(x: Seq<i64>)
    requires
        2 <= x.len() <= LENGTH_LIMIT,
    ensures
        spec_spearman(x, x).is_int(1),
{
    lemma_rank_diff_sq_sum_zero(x, x.len() as int);
    let n = x.len() as int;
    assert(0 < 2 * n * (n * n - 1) <= 2_000_000_000_000_000_000) by (nonlinear_arith)
        requires
            2 <= n <= 1_000_000,
    ;
    let den = 2 * n * (n * n - 1);
    assert(spec_spearman(x, x).den == den as i128);
    assert(spec_spearman(x, x).num == den as i128);
}

/// The summed squared rank difference of a series with itself vanishes.
proof fn lemma_rank_diff_sq_sum_zero(x: Seq<i64>, k: int)
    ensures
        rank_diff_sq_sum(x, x, k) == 0,
    decreases k,
{
    if k > 0 {
        lemma_rank_diff_sq_sum_zero(x, k - 1);
    }
}

/// Sorting a flow duration curve's own run-off values descending and
/// recomputing the curve reproduces the curve: the descending sort of an
/// already descending-sorted series is that series itself, and the
/// exceedance probabilities depend only on the length, which sorting keeps.
pub proof fn lemma_fdc_round_trip(v: Seq<i64>)
    ensures
        spec_sorted(spec_sorted(v, SortType::Desc), SortType::Desc) == spec_sorted(
            v,
            SortType::Desc,
        ),
        spec_sorted(v, SortType::Desc).len() == v.len(),
{
    let ord = descending_order();
    lemma_orders_total();
    assert(order_of(SortType::Desc) == ord);
    let s1 = v.sort_by(ord);
    v.lemma_sort_by_ensures(ord);
    let s2 = s1.sort_by(ord);
    s1.lemma_sort_by_ensures(ord);
    lemma_sorted_unique(s1, s2, ord);
    assert(s2 =~= s1);
    broadcast use vstd::seq_lib::group_to_multiset_ensures;

    assert(s1.to_multiset().len() == v.to_multiset().len());
}

/// The exceedance probabilities of a flow duration curve over `n` values
/// strictly increase, start at `100 / n` percent and end at exactly 100
/// percent.
pub proof fn lemma_exceedence_strictly_increasing(e: Seq<Ratio>, n: int)
    requires
        1 <= n <= LENGTH_LIMIT,
        e.len() == n,
        forall|i: int|
            0 <= i < n ==> #[trigger] e[i] == (Ratio { num: (100 * (i + 1)) as i128, den: n as i128 }),
    ensures
        forall|i: int, j: int|
            0 <= i < j < n ==> #[trigger] e[i].num * e[j].den < #[trigger] e[j].num * e[i].den,
        e[0].num == 100 && e[0].den == n,
        e[n - 1].is_int(100),
{
    assert forall|i: int, j: int|
        0 <= i < j < n implies #[trigger] e[i].num * e[j].den < #[trigger] e[j].num * e[i].den by {
        let a = 100 * (i + 1);
        let b = 100 * (j + 1);
        assert(a < b);
        assert(a * n < b * n) by (nonlinear_arith)
            requires
                0 < n,
                a < b,
        ;
        assert(e[i].num == a && e[j].num == b && e[i].den == n && e[j].den == n);
    }
    assert(e[0].num == 100 && e[0].den == n);
    assert(e[n - 1].num == 100 * n);
    assert(e[n - 1].is_int(100));
}

} // verus!
