//! Goodness-of-fit statistics between an observed and a simulated series.
//!
//! A series entry is `None` where the record misses a value.  Statistics
//! needing both series at an index first drop every pair in which either
//! side is missing; the mean and variance of one series alone drop only that
//! series' own missing entries.  Every statistic is returned as an exact
//! fraction; square roots, which leave the rationals, are left to the
//! caller, and the logarithmic variant of the Nash-Sutcliffe efficiency is
//! obtained by handing in log-transformed series.

use vstd::prelude::*;
use crate::error::MetricError;
use crate::ratio::Ratio;
use crate::utils::{
    clean_pairs, spec_sorted, spec_spearman, sort, spearman, SortType, LENGTH_LIMIT, VALUE_LIMIT,
};

verus! {

/// The method used to calculate the Kling-Gupta efficiency.
#[derive(Debug, Clone, Copy, PartialEq, Eq, Structural)]
pub enum KlingGuptaMethod {
    Y2009,
    Y2012,
    NonParametric,
}

/// Controls which optional statistics a metric report includes.
#[derive(Debug, Clone, Copy, PartialEq, Eq, Structural)]
pub struct OptionalMetrics {
    /// Also calculate the 2009 Kling-Gupta efficiency.
    pub kling_gupta2009: bool,
    /// Also calculate the 2012 Kling-Gupta efficiency.
    pub kling_gupta2012: bool,
}

impl Default for OptionalMetrics {
    /// By default neither optional efficiency is calculated.
    fn default() -> (r: OptionalMetrics)
        ensures
            !r.kling_gupta2009,
            !r.kling_gupta2012,
    {
        OptionalMetrics { kling_gupta2009: false, kling_gupta2012: false }
    }
}

/// Every present value of the series lies within the magnitude limit.
pub open spec fn bounded_series(s: Seq<Option<i64>>) -> bool {
    forall|i: int|
        0 <= i < s.len() ==> (#[trigger] s[i] matches Some(v) ==> -VALUE_LIMIT <= v <= VALUE_LIMIT)
}

/// Every value of the series lies within the magnitude limit.
pub open spec fn bounded_values(s: Seq<i64>) -> bool {
    forall|i: int| 0 <= i < s.len() ==> -VALUE_LIMIT <= #[trigger] s[i] <= VALUE_LIMIT
}

/// How many entries of the series are present.
pub open spec fn present_count(s: Seq<Option<i64>>) -> int
    decreases s.len(),
{
    if s.len() == 0 {
        0
    } else {
        present_count(s.drop_last()) + if s.last() is Some {
            1int
        } else {
            0int
        }
    }
}

/// The sum of the present entries of the series.
pub open spec fn present_sum(s: Seq<Option<i64>>) -> int
    decreases s.len(),
{
    if s.len() == 0 {
        0
    } else {
        present_sum(s.drop_last()) + match s.last() {
            Some(v) => v as int,
            None => 0,
        }
    }
}

/// The sum of the squared present entries of the series.
pub open spec fn present_sum_squares(s: Seq<Option<i64>>) -> int
    decreases s.len(),
{
    if s.len() == 0 {
        0
    } else {
        present_sum_squares(s.drop_last()) + match s.last() {
            Some(v) => (v as int) * (v as int),
            None => 0,
        }
    }
}

/// The sum of the values of a series.
pub open spec fn sum_values(s: Seq<i64>) -> int
    decreases s.len(),
{
    if s.len() == 0 {
        0
    } else {
        sum_values(s.drop_last()) + s.last()
    }
}

/// The sum of the squared values of a series.
pub open spec fn sum_sq_values(s: Seq<i64>) -> int
    decreases s.len(),
{
    if s.len() == 0 {
        0
    } else {
        sum_sq_values(s.drop_last()) + (s.last() as int) * (s.last() as int)
    }
}

/// The summed squared differences over a sequence of pairs.
pub open spec fn sum_sq_err(p: Seq<(i64, i64)>) -> int
    decreases p.len(),
{
    if p.len() == 0 {
        0
    } else {
        sum_sq_err(p.drop_last()) + (p.last().0 - p.last().1) * (p.last().0 - p.last().1)
    }
}

/// The sum of the first components of a sequence of pairs.
pub open spec fn sum_first(p: Seq<(i64, i64)>) -> int
    decreases p.len(),
{
    if p.len() == 0 {
        0
    } else {
        sum_first(p.drop_last()) + p.last().0
    }
}

/// The sum of the second components of a sequence of pairs.
pub open spec fn sum_second(p: Seq<(i64, i64)>) -> int
    decreases p.len(),
{
    if p.len() == 0 {
        0
    } else {
        sum_second(p.drop_last()) + p.last().1
    }
}

/// Extending a prefix by one entry extends its present-entry statistics.
proof fn lemma_present_take_step(s: Seq<Option<i64>>, j: int)
    requires
        0 <= j < s.len(),
    ensures
        present_count(s.take(j + 1)) == present_count(s.take(j)) + if s[j] is Some {
            1int
        } else {
            0int
        },
        present_sum(s.take(j + 1)) == present_sum(s.take(j)) + match s[j] {
            Some(v) => v as int,
            None => 0,
        },
        present_sum_squares(s.take(j + 1)) == present_sum_squares(s.take(j)) + match s[j] {
            Some(v) => (v as int) * (v as int),
            None => 0,
        },
{
    assert(s.take(j + 1).drop_last() =~= s.take(j));
    assert(s.take(j + 1).last() == s[j]);
}

/// Extending a prefix by one entry extends its value sums.
proof fn lemma_sums_take_step(s: Seq<i64>, j: int)
    requires
        0 <= j < s.len(),
    ensures
        sum_values(s.take(j + 1)) == sum_values(s.take(j)) + s[j],
        sum_sq_values(s.take(j + 1)) == sum_sq_values(s.take(j)) + (s[j] as int) * (s[j] as int),
{
    assert(s.take(j + 1).drop_last() =~= s.take(j));
    assert(s.take(j + 1).last() == s[j]);
}

/// The present-entry statistics of a bounded series are bounded by its
/// length.
pub proof fn lemma_present_bounds(s: Seq<Option<i64>>)
    requires
        bounded_series(s),
    ensures
        0 <= present_count(s) <= s.len(),
        -s.len() * VALUE_LIMIT <= present_sum(s) <= s.len() * VALUE_LIMIT,
        0 <= present_sum_squares(s) <= s.len() * (VALUE_LIMIT as int * VALUE_LIMIT as int),
    decreases s.len(),
{
    if s.len() > 0 {
        assert(bounded_series(s.drop_last())) by {
            assert(forall|i: int|
                0 <= i < s.len() - 1 ==> #[trigger] s.drop_last()[i] == s[i]);
        }
        lemma_present_bounds(s.drop_last());
        match s.last() {
            Some(v) => {
                assert(-VALUE_LIMIT <= v <= VALUE_LIMIT);
                assert((v as int) * (v as int) <= VALUE_LIMIT as int * VALUE_LIMIT as int)
                    by (nonlinear_arith)
                    requires
                        -VALUE_LIMIT <= v <= VALUE_LIMIT,
                ;
                assert((v as int) * (v as int) >= 0) by (nonlinear_arith);
            },
            None => {},
        }
        assert((s.len() - 1) * VALUE_LIMIT + VALUE_LIMIT == s.len() * VALUE_LIMIT)
            by (nonlinear_arith);
        assert((s.len() - 1) * (VALUE_LIMIT as int * VALUE_LIMIT as int) + (VALUE_LIMIT as int
            * VALUE_LIMIT as int) == s.len() * (VALUE_LIMIT as int * VALUE_LIMIT as int))
            by (nonlinear_arith);
    }
}

/// The mean of a series, its missing entries excluded: the fraction of the
/// present-entry sum over the present-entry count.  The denominator is zero
/// when no entry is present.
pub open spec fn spec_mean(s: Seq<Option<i64>>) -> Ratio {
    Ratio { num: present_sum(s) as i128, den: present_count(s) as i128 }
}

/// The population variance of a series, its missing entries excluded, as
/// the exact fraction `(m * sum_sq - sum^2) / m^2` over the `m` present
/// entries.  The standard deviation is its positive square root.
pub open spec fn spec_variance(s: Seq<Option<i64>>) -> Ratio {
    let m = present_count(s);
    let sum = present_sum(s);
    let q = present_sum_squares(s);
    Ratio { num: (m * q - sum * sum) as i128, den: (m * m) as i128 }
}

/// The Nash-Sutcliffe efficiency `1 - sum((obs-sim)^2) / sum((obs-mean)^2)`:
/// the numerator sum runs over the indices where both series are present,
/// the denominator sum over every present observed entry.  With the `m`
/// present observed entries, their sum `S` and squared sum `Q`, and the
/// pairwise squared error `N`, this is the exact fraction
/// `(mQ - S^2 - N*m) / (mQ - S^2)`.  The denominator is zero when the
/// observed series has no variance.
pub open spec fn spec_nse(o: Seq<Option<i64>>, s: Seq<Option<i64>>) -> Ratio {
    let m = present_count(o);
    let sum = present_sum(o);
    let q = present_sum_squares(o);
    let n_err = sum_sq_err(clean_pairs(o, s));
    let den = m * q - sum * sum;
    Ratio { num: (den - n_err * m) as i128, den: den as i128 }
}

/// The mean squared error over the pairwise-present entries.  The root-mean
/// -square error is its positive square root; the denominator is zero when
/// no pair is present.
pub open spec fn spec_mean_squared_error(o: Seq<Option<i64>>, s: Seq<Option<i64>>) -> Ratio {
    let pairs = clean_pairs(o, s);
    Ratio { num: sum_sq_err(pairs) as i128, den: pairs.len() as i128 }
}

/// The volume error `(sum(sim)/sum(obs) - 1) * 100` over the pairwise
/// -present entries, as the exact fraction
/// `100 * (sum(sim) - sum(obs)) / sum(obs)`.
pub open spec fn spec_volume_error(o: Seq<Option<i64>>, s: Seq<Option<i64>>) -> Ratio {
    let pairs = clean_pairs(o, s);
    Ratio {
        num: (100 * (sum_second(pairs) - sum_first(pairs))) as i128,
        den: sum_first(pairs) as i128,
    }
}

/// Calculate the mean of a series, its missing entries excluded.
pub fn mean(series: &Vec<Option<i64>>) -> (r: Ratio)
    requires
        series@.len() <= LENGTH_LIMIT,
        bounded_series(series@),
    ensures
        r == spec_mean(series@),
{
    let (m, sum, _q) = present_moments(series);
    Ratio { num: sum, den: m }
}

/// Calculate the population variance of a series, its missing entries
/// excluded.  The standard deviation is its positive square root.
pub fn variance(series: &Vec<Option<i64>>) -> (r: Ratio)
    requires
        series@.len() <= LENGTH_LIMIT,
        bounded_series(series@),
    ensures
        r == spec_variance(series@),
{
    let (m, sum, q) = present_moments(series);
    proof {
        assert(m * q <= 1_000_000_000_000_000_000_000_000_000_000
            && m * q >= 0) by (nonlinear_arith)
            requires
                0 <= m <= 1_000_000,
                0 <= q <= 1_000_000_000_000_000_000_000_000,
        ;
        assert(sum * sum <= 1_000_000_000_000_000_000_000_000_000_000
            && sum * sum >= 0) by (nonlinear_arith)
            requires
                -1_000_000_000_000_000 <= sum <= 1_000_000_000_000_000,
        ;
        assert(m * m <= 1_000_000_000_000 && m * m >= 0) by (nonlinear_arith)
            requires
                0 <= m <= 1_000_000,
        ;
    }
    Ratio { num: m * q - sum * sum, den: m * m }
}

/// Walk a series once and return its present-entry count, sum and squared
/// sum.
fn present_moments(series: &Vec<Option<i64>>) -> (r: (i128, i128, i128))
    requires
        series@.len() <= LENGTH_LIMIT,
        bounded_series(series@),
    ensures
        r.0 == present_count(series@),
        r.1 == present_sum(series@),
        r.2 == present_sum_squares(series@),
        0 <= r.0 <= series@.len(),
        -1_000_000_000_000_000 <= r.1 <= 1_000_000_000_000_000,
        0 <= r.2 <= 1_000_000_000_000_000_000_000_000,
{
    let n = series.len();
    let mut m: i128 = 0;
    let mut sum: i128 = 0;
    let mut q: i128 = 0;
    let mut i: usize = 0;
    while i < n
        invariant
            i <= n,
            n == series@.len(),
            n <= LENGTH_LIMIT,
            bounded_series(series@),
            m == present_count(series@.take(i as int)),
            sum == present_sum(series@.take(i as int)),
            q == present_sum_squares(series@.take(i as int)),
            0 <= m <= i,
            -(i as int) * 1_000_000_000 <= sum <= (i as int) * 1_000_000_000,
            0 <= q <= (i as int) * 1_000_000_000_000_000_000,
        decreases n - i,
    {
        proof {
            lemma_present_take_step(series@, i as int);
        }
        if let Some(v) = series[i] {
            proof {
                assert(0 <= (v as i128) * (v as i128) <= 1_000_000_000_000_000_000)
                    by (nonlinear_arith)
                    requires
                        -1_000_000_000 <= (v as i128) <= 1_000_000_000,
                ;
            }
            m += 1;
            sum += v as i128;
            q += (v as i128) * (v as i128);
        }
        i += 1;
    }
    proof {
        assert(series@.take(n as int) =~= series@);
    }
    (m, sum, q)
}

/// Calculate the Nash-Sutcliffe efficiency between an observed and a
/// simulated series, as an exact fraction.  A perfect simulation yields 1.
/// Fails when the series lengths differ.
pub fn nse(observed: &Vec<Option<i64>>, simulated: &Vec<Option<i64>>) -> (r: Result<
    Ratio,
    MetricError,
>)
    requires
        observed@.len() <= LENGTH_LIMIT,
        bounded_series(observed@),
        bounded_series(simulated@),
    ensures
        observed@.len() != simulated@.len() ==> r == Err::<Ratio, MetricError>(
            MetricError::MismatchedLength(observed@.len() as usize, simulated@.len() as usize),
        ),
        observed@.len() == simulated@.len() ==> r == Ok::<Ratio, MetricError>(
            spec_nse(observed@, simulated@),
        ),
{
    let n = observed.len();
    if n != simulated.len() {
        return Err(MetricError::MismatchedLength(observed.len(), simulated.len()));
    }
    let (m, sum, q) = present_moments(observed);
    let mut n_err: i128 = 0;
    let mut i: usize = 0;
    while i < n
        invariant
            i <= n,
            n == observed@.len() && n == simulated@.len(),
            n <= LENGTH_LIMIT,
            bounded_series(observed@),
            bounded_series(simulated@),
            n_err == sum_sq_err(clean_pairs(observed@.take(i as int), simulated@.take(i as int))),
            0 <= n_err <= (i as int) * 4_000_000_000_000_000_000,
        decreases n - i,
    {
        proof {
            crate::utils::lemma_clean_pairs_take_step(observed@, simulated@, i as int);
        }
        if let (Some(ov), Some(sv)) = (observed[i], simulated[i]) {
            let ghost pairs = clean_pairs(
                observed@.take(i as int),
                simulated@.take(i as int),
            );
            proof {
                assert(clean_pairs(observed@.take(i as int + 1), simulated@.take(i as int + 1))
                    == pairs.push((ov, sv)));
                assert(pairs.push((ov, sv)).drop_last() =~= pairs);
            }
            let d: i128 = ov as i128 - sv as i128;
            proof {
                assert(0 <= d * d <= 4_000_000_000_000_000_000) by (nonlinear_arith)
                    requires
                        -2_000_000_000 <= d <= 2_000_000_000,
                ;
            }
            n_err += d * d;
        }
        i += 1;
    }
    proof {
        assert(observed@.take(n as int) =~= observed@);
        assert(simulated@.take(n as int) =~= simulated@);
        assert(m * q >= 0 && m * q <= 1_000_000_000_000_000_000_000_000_000_000)
            by (nonlinear_arith)
            requires
                0 <= m <= 1_000_000,
                0 <= q <= 1_000_000_000_000_000_000_000_000,
        ;
        assert(sum * sum >= 0 && sum * sum <= 1_000_000_000_000_000_000_000_000_000_000)
            by (nonlinear_arith)
            requires
                -1_000_000_000_000_000 <= sum <= 1_000_000_000_000_000,
        ;
        assert(n_err * m >= 0 && n_err * m <= 4_000_000_000_000_000_000_000_000_000_000)
            by (nonlinear_arith)
            requires
                0 <= n_err <= 4_000_000_000_000_000_000_000_000,
                0 <= m <= 1_000_000,
        ;
    }
    let den: i128 = m * q - sum * sum;
    let num: i128 = den - n_err * m;
    Ok(Ratio { num, den })
}

/// Calculate the mean squared error between an observed and a simulated
/// series, as an exact fraction over the pairwise-present entries.  The
/// root-mean-square error is its positive square root.  Fails when the
/// series lengths differ.
pub fn mean_squared_error(observed: &Vec<Option<i64>>, simulated: &Vec<Option<i64>>) -> (r: Result<
    Ratio,
    MetricError,
>)
    requires
        observed@.len() <= LENGTH_LIMIT,
        bounded_series(observed@),
        bounded_series(simulated@),
    ensures
        observed@.len() != simulated@.len() ==> r == Err::<Ratio, MetricError>(
            MetricError::MismatchedLength(observed@.len() as usize, simulated@.len() as usize),
        ),
        observed@.len() == simulated@.len() ==> r == Ok::<Ratio, MetricError>(
            spec_mean_squared_error(observed@, simulated@),
        ),
{
    let n = observed.len();
    if n != simulated.len() {
        return Err(MetricError::MismatchedLength(observed.len(), simulated.len()));
    }
    let mut n_err: i128 = 0;
    let mut pair_count: i128 = 0;
    let mut i: usize = 0;
    while i < n
        invariant
            i <= n,
            n == observed@.len() && n == simulated@.len(),
            n <= LENGTH_LIMIT,
            bounded_series(observed@),
            bounded_series(simulated@),
            n_err == sum_sq_err(clean_pairs(observed@.take(i as int), simulated@.take(i as int))),
            pair_count == clean_pairs(observed@.take(i as int), simulated@.take(i as int)).len(),
            0 <= n_err <= (i as int) * 4_000_000_000_000_000_000,
            0 <= pair_count <= i,
        decreases n - i,
    {
        proof {
            crate::utils::lemma_clean_pairs_take_step(observed@, simulated@, i as int);
        }
        if let (Some(ov), Some(sv)) = (observed[i], simulated[i]) {
            let ghost pairs = clean_pairs(
                observed@.take(i as int),
                simulated@.take(i as int),
            );
            proof {
                assert(pairs.push((ov, sv)).drop_last() =~= pairs);
            }
            let d: i128 = ov as i128 - sv as i128;
            proof {
                assert(0 <= d * d <= 4_000_000_000_000_000_000) by (nonlinear_arith)
                    requires
                        -2_000_000_000 <= d <= 2_000_000_000,
                ;
            }
            n_err += d * d;
            pair_count += 1;
        }
        i += 1;
    }
    proof {
        assert(observed@.take(n as int) =~= observed@);
        assert(simulated@.take(n as int) =~= simulated@);
    }
    Ok(Ratio { num: n_err, den: pair_count })
}

/// Calculate the volume error between an observed and a simulated series,
/// in percent, as an exact fraction over the pairwise-present entries.  A
/// negative value means the simulation generates less volume than observed.
/// Fails when the series lengths differ.
pub fn volume_error(observed: &Vec<Option<i64>>, simulated: &Vec<Option<i64>>) -> (r: Result<
    Ratio,
    MetricError,
>)
    requires
        observed@.len() <= LENGTH_LIMIT,
        bounded_series(observed@),
        bounded_series(simulated@),
    ensures
        observed@.len() != simulated@.len() ==> r == Err::<Ratio, MetricError>(
            MetricError::MismatchedLength(observed@.len() as usize, simulated@.len() as usize),
        ),
        observed@.len() == simulated@.len() ==> r == Ok::<Ratio, MetricError>(
            spec_volume_error(observed@, simulated@),
        ),
{
    let n = observed.len();
    if n != simulated.len() {
        return Err(MetricError::MismatchedLength(observed.len(), simulated.len()));
    }
    let mut obs_volume: i128 = 0;
    let mut sim_volume: i128 = 0;
    let mut i: usize = 0;
    while i < n
        invariant
            i <= n,
            n == observed@.len() && n == simulated@.len(),
            n <= LENGTH_LIMIT,
            bounded_series(observed@),
            bounded_series(simulated@),
            obs_volume == sum_first(clean_pairs(observed@.take(i as int), simulated@.take(i as int))),
            sim_volume == sum_second(
                clean_pairs(observed@.take(i as int), simulated@.take(i as int)),
            ),
            -(i as int) * 1_000_000_000 <= obs_volume <= (i as int) * 1_000_000_000,
            -(i as int) * 1_000_000_000 <= sim_volume <= (i as int) * 1_000_000_000,
        decreases n - i,
    {
        proof {
            crate::utils::lemma_clean_pairs_take_step(observed@, simulated@, i as int);
        }
        if let (Some(ov), Some(sv)) = (observed[i], simulated[i]) {
            let ghost pairs = clean_pairs(
                observed@.take(i as int),
                simulated@.take(i as int),
            );
            proof {
                assert(pairs.push((ov, sv)).drop_last() =~= pairs);
            }
            obs_volume += ov as i128;
            sim_volume += sv as i128;
        }
        i += 1;
    }
    proof {
        assert(observed@.take(n as int) =~= observed@);
        assert(simulated@.take(n as int) =~= simulated@);
    }
    Ok(Ratio { num: 100 * (sim_volume - obs_volume), den: obs_volume })
}

/// The bias term of the Kling-Gupta efficiency,
/// `beta = mean(sim) / mean(obs)`: over equal-length series the counts
/// cancel, leaving the exact fraction `sum(sim) / sum(obs)`.
pub open spec fn spec_beta(o: Seq<i64>, s: Seq<i64>) -> Ratio {
    Ratio { num: sum_values(s) as i128, den: sum_values(o) as i128 }
}

/// The squared variability term of the 2009 Kling-Gupta efficiency,
/// `alpha^2 = var(sim) / var(obs)`: over `m` entries each, the exact
/// fraction `(m*sum_sq(sim) - sum(sim)^2) / (m*sum_sq(obs) - sum(obs)^2)`.
/// `alpha` is its positive square root.
pub open spec fn spec_alpha_squared_2009(o: Seq<i64>, s: Seq<i64>) -> Ratio {
    let m = o.len() as int;
    Ratio {
        num: (m * sum_sq_values(s) - sum_values(s) * sum_values(s)) as i128,
        den: (m * sum_sq_values(o) - sum_values(o) * sum_values(o)) as i128,
    }
}

/// The squared coefficient of variation of a series,
/// `(std / mean)^2 = (m*sum_sq - sum^2) / sum^2` over its `m` entries.  The
/// squared variability term of the 2012 Kling-Gupta efficiency is the
/// quotient of the simulated series' value by the observed series' value.
pub open spec fn spec_cv_squared(v: Seq<i64>) -> Ratio {
    let m = v.len() as int;
    Ratio {
        num: (m * sum_sq_values(v) - sum_values(v) * sum_values(v)) as i128,
        den: (sum_values(v) * sum_values(v)) as i128,
    }
}

/// The magnitude of an integer.
pub open spec fn abs_int(x: int) -> int {
    if x < 0 {
        -x
    } else {
        x
    }
}

/// The summed magnitude, over the first `k` positions, of the cross
/// difference `s_sorted[i] * so - o_sorted[i] * ss`: this is
/// `so * ss * sum(|s_sorted[i]/ss - o_sorted[i]/so|)`, the flow duration
/// curve distance of the two series each scaled by its total volume.
pub open spec fn cross_abs_diff_sum(
    s_sorted: Seq<i64>,
    o_sorted: Seq<i64>,
    so: int,
    ss: int,
    k: int,
) -> int
    decreases k,
{
    if k <= 0 {
        0
    } else {
        cross_abs_diff_sum(s_sorted, o_sorted, so, ss, k - 1) + abs_int(
            s_sorted[k - 1] * so - o_sorted[k - 1] * ss,
        )
    }
}

/// The variability term of the non-parametric Kling-Gupta efficiency,
/// `alpha = 1 - 0.5 * sum(|fdc_sim - fdc_obs|)` where each series is scaled
/// by its total volume and sorted descending: the exact fraction
/// `(2*so*ss - cross_diff) / (2*so*ss)` over the sums `so`, `ss` of the two
/// series.
pub open spec fn spec_np_alpha(o: Seq<i64>, s: Seq<i64>) -> Ratio {
    let so = sum_values(o);
    let ss = sum_values(s);
    Ratio {
        num: (2 * so * ss - cross_abs_diff_sum(
            spec_sorted(s, SortType::Desc),
            spec_sorted(o, SortType::Desc),
            so,
            ss,
            o.len() as int,
        )) as i128,
        den: (2 * so * ss) as i128,
    }
}

/// Walk a series once and return its sum and its sum of squares.
fn value_moments(v: &Vec<i64>) -> (r: (i128, i128))
    requires
        v@.len() <= LENGTH_LIMIT,
        bounded_values(v@),
    ensures
        r.0 == sum_values(v@),
        r.1 == sum_sq_values(v@),
        -1_000_000_000_000_000 <= r.0 <= 1_000_000_000_000_000,
        0 <= r.1 <= 1_000_000_000_000_000_000_000_000,
{
    let n = v.len();
    let mut sum: i128 = 0;
    let mut q: i128 = 0;
    let mut i: usize = 0;
    while i < n
        invariant
            i <= n,
            n == v@.len(),
            n <= LENGTH_LIMIT,
            bounded_values(v@),
            sum == sum_values(v@.take(i as int)),
            q == sum_sq_values(v@.take(i as int)),
            -(i as int) * 1_000_000_000 <= sum <= (i as int) * 1_000_000_000,
            0 <= q <= (i as int) * 1_000_000_000_000_000_000,
        decreases n - i,
    {
        proof {
            lemma_sums_take_step(v@, i as int);
        }
        let x = v[i];
        proof {
            assert(0 <= (x as i128) * (x as i128) <= 1_000_000_000_000_000_000)
                by (nonlinear_arith)
                requires
                    -1_000_000_000 <= (x as i128) <= 1_000_000_000,
            ;
        }
        sum += x as i128;
        q += (x as i128) * (x as i128);
        i += 1;
    }
    proof {
        assert(v@.take(n as int) =~= v@);
    }
    (sum, q)
}

/// A permutation of a bounded series is bounded.
proof fn lemma_permutation_bounded(v: Seq<i64>, p: Seq<i64>)
    requires
        bounded_values(v),
        p.to_multiset() == v.to_multiset(),
    ensures
        bounded_values(p),
{
    broadcast use vstd::seq_lib::group_to_multiset_ensures;

    assert forall|i: int| 0 <= i < p.len() implies -VALUE_LIMIT <= #[trigger] p[i]
        <= VALUE_LIMIT by {
        assert(p.contains(p[i]));
        assert(p.to_multiset().count(p[i]) > 0);
        assert(v.contains(p[i]));
        let j = choose|j: int| 0 <= j < v.len() && v[j] == p[i];
        assert(-VALUE_LIMIT <= v[j] <= VALUE_LIMIT);
    }
}

/// Calculate the variability term of the non-parametric Kling-Gupta
/// efficiency between two equal-length series with positive total volumes,
/// as an exact fraction.
pub fn kge_alpha_non_parametric(observed: &Vec<i64>, simulated: &Vec<i64>) -> (r: Ratio)
    requires
        observed@.len() == simulated@.len(),
        observed@.len() <= LENGTH_LIMIT,
        bounded_values(observed@),
        bounded_values(simulated@),
        sum_values(observed@) > 0,
        sum_values(simulated@) > 0,
    ensures
        r == spec_np_alpha(observed@, simulated@),
{
    let n = observed.len();
    let (so, _qo) = value_moments(observed);
    let (ss, _qs) = value_moments(simulated);
    let sorted_o = sort(observed, SortType::Desc);
    let sorted_s = sort(simulated, SortType::Desc);
    proof {
        lemma_permutation_bounded(observed@, sorted_o@);
        lemma_permutation_bounded(simulated@, sorted_s@);
    }
    let mut diff_sum: i128 = 0;
    let mut i: usize = 0;
    while i < n
        invariant
            i <= n,
            n == observed@.len() && n == simulated@.len(),
            n <= LENGTH_LIMIT,
            sorted_o@.len() == n && sorted_s@.len() == n,
            bounded_values(sorted_o@),
            bounded_values(sorted_s@),
            0 < so <= 1_000_000_000_000_000,
            0 < ss <= 1_000_000_000_000_000,
            diff_sum == cross_abs_diff_sum(sorted_s@, sorted_o@, so as int, ss as int, i as int),
            0 <= diff_sum <= (i as int) * 2_000_000_000_000_000_000_000_000,
        decreases n - i,
    {
        let sv = sorted_s[i];
        let ov = sorted_o[i];
        proof {
            assert(-1_000_000_000_000_000_000_000_000 <= (sv as i128) * so
                <= 1_000_000_000_000_000_000_000_000) by (nonlinear_arith)
                requires
                    -1_000_000_000 <= (sv as i128) <= 1_000_000_000,
                    0 < so <= 1_000_000_000_000_000,
            ;
            assert(-1_000_000_000_000_000_000_000_000 <= (ov as i128) * ss
                <= 1_000_000_000_000_000_000_000_000) by (nonlinear_arith)
                requires
                    -1_000_000_000 <= (ov as i128) <= 1_000_000_000,
                    0 < ss <= 1_000_000_000_000_000,
            ;
        }
        let t: i128 = (sv as i128) * so - (ov as i128) * ss;
        let a: i128 = if t < 0 {
            -t
        } else {
            t
        };
        diff_sum += a;
        i += 1;
    }
    proof {
        assert(so * ss <= 1_000_000_000_000_000_000_000_000_000_000 && so * ss > 0)
            by (nonlinear_arith)
            requires
                0 < so <= 1_000_000_000_000_000,
                0 < ss <= 1_000_000_000_000_000,
        ;
    }
    let den: i128 = 2 * (so * ss);
    proof {
        assert(2 * (so as int * ss as int) == 2 * so as int * ss as int) by (nonlinear_arith);
    }
    Ratio { num: den - diff_sum, den }
}

/// The components of one Kling-Gupta efficiency
/// `1 - sqrt((r-1)^2 + (alpha-1)^2 + (beta-1)^2)`, each as an exact
/// fraction; the square root is the caller's, since it leaves the
/// rationals.
#[derive(Debug, Clone, Copy, PartialEq, Eq)]
pub struct KgeComponents {
    /// The Spearman rank correlation `r` of the two series.
    pub spearman: Ratio,
    /// The bias term `beta`.
    pub beta: Ratio,
    /// The variability term: for the 2009 method `alpha^2` (take its
    /// positive square root), for the non-parametric method `alpha` itself.
    /// Absent for the 2012 method, whose `alpha^2` is the quotient of the
    /// two series' `kge_cv_squared` fractions: its expanded numerator can
    /// exceed the integer range this crate computes in.
    pub alpha: Option<Ratio>,
}

/// Calculate the squared coefficient of variation of a series, the
/// building block of the 2012 Kling-Gupta variability term.
pub fn kge_cv_squared(series: &Vec<i64>) -> (r: Ratio)
    requires
        series@.len() <= LENGTH_LIMIT,
        bounded_values(series@),
    ensures
        r == spec_cv_squared(series@),
{
    let n = series.len();
    let (sum, q) = value_moments(series);
    let m: i128 = n as i128;
    proof {
        assert(m * q >= 0 && m * q <= 1_000_000_000_000_000_000_000_000_000_000)
            by (nonlinear_arith)
            requires
                0 <= m <= 1_000_000,
                0 <= q <= 1_000_000_000_000_000_000_000_000,
        ;
        assert(sum * sum >= 0 && sum * sum <= 1_000_000_000_000_000_000_000_000_000_000)
            by (nonlinear_arith)
            requires
                -1_000_000_000_000_000 <= sum <= 1_000_000_000_000_000,
        ;
    }
    Ratio { num: m * q - sum * sum, den: sum * sum }
}

/// Calculate the components of the Kling-Gupta efficiency between an
/// observed and a simulated series under the chosen method.  The two series
/// must already be cleaned of missing-value pairs; for the non-parametric
/// method both must carry a positive total volume.  Fails when the series
/// lengths differ.
pub fn kge_components(
    observed: &Vec<i64>,
    simulated: &Vec<i64>,
    method: KlingGuptaMethod,
) -> (r: Result<KgeComponents, MetricError>)
    requires
        observed@.len() <= LENGTH_LIMIT,
        bounded_values(observed@),
        bounded_values(simulated@),
        method == KlingGuptaMethod::NonParametric && observed@.len() == simulated@.len() ==> (
        sum_values(observed@) > 0 && sum_values(simulated@) > 0),
    ensures
        observed@.len() != simulated@.len() ==> r == Err::<KgeComponents, MetricError>(
            MetricError::MismatchedLength(observed@.len() as usize, simulated@.len() as usize),
        ),
        observed@.len() == simulated@.len() ==> r is Ok,
        r is Ok ==> {
            let c = r->Ok_0;
            &&& c.spearman == spec_spearman(observed@, simulated@)
            &&& c.beta == spec_beta(observed@, simulated@)
            &&& (method == KlingGuptaMethod::Y2009 ==> c.alpha == Some(
                spec_alpha_squared_2009(observed@, simulated@),
            ))
            &&& (method == KlingGuptaMethod::Y2012 ==> c.alpha is None)
            &&& (method == KlingGuptaMethod::NonParametric ==> c.alpha == Some(
                spec_np_alpha(observed@, simulated@),
            ))
        },
{
    let n = observed.len();
    if n != simulated.len() {
        return Err(MetricError::MismatchedLength(observed.len(), simulated.len()));
    }
    let r_corr = spearman(observed, simulated);
    let (so, qo) = value_moments(observed);
    let (ss, qs) = value_moments(simulated);
    let beta = Ratio { num: ss, den: so };
    let alpha: Option<Ratio> = match method {
        KlingGuptaMethod::Y2009 => {
            let m: i128 = n as i128;
            proof {
                assert(m * qs >= 0 && m * qs <= 1_000_000_000_000_000_000_000_000_000_000)
                    by (nonlinear_arith)
                    requires
                        0 <= m <= 1_000_000,
                        0 <= qs <= 1_000_000_000_000_000_000_000_000,
                ;
                assert(m * qo >= 0 && m * qo <= 1_000_000_000_000_000_000_000_000_000_000)
                    by (nonlinear_arith)
                    requires
                        0 <= m <= 1_000_000,
                        0 <= qo <= 1_000_000_000_000_000_000_000_000,
                ;
                assert(ss * ss >= 0 && ss * ss <= 1_000_000_000_000_000_000_000_000_000_000)
                    by (nonlinear_arith)
                    requires
                        -1_000_000_000_000_000 <= ss <= 1_000_000_000_000_000,
                ;
                assert(so * so >= 0 && so * so <= 1_000_000_000_000_000_000_000_000_000_000)
                    by (nonlinear_arith)
                    requires
                        -1_000_000_000_000_000 <= so <= 1_000_000_000_000_000,
                ;
            }
            Some(Ratio { num: m * qs - ss * ss, den: m * qo - so * so })
        },
        KlingGuptaMethod::Y2012 => None,
        KlingGuptaMethod::NonParametric => Some(
            kge_alpha_non_parametric(observed, simulated),
        ),
    };
    Ok(KgeComponents { spearman: r_corr, beta, alpha })
}

/// Over the pairs a series forms with itself both sides agree, so the
/// summed squared error vanishes.
proof fn lemma_sum_sq_err_diag(x: Seq<Option<i64>>)
    ensures
        sum_sq_err(clean_pairs(x, x)) == 0,
    decreases x.len(),
{
    if x.len() > 0 {
        lemma_sum_sq_err_diag(x.drop_last());
        let rest = clean_pairs(x.drop_last(), x.drop_last());
        if x.last() is Some {
            let v = x.last()->0;
            let p = clean_pairs(x, x);
            assert(p == rest.push((v, v)));
            assert(p.drop_last() =~= rest);
            assert(p.last() == (v, v));
            assert(sum_sq_err(p) == sum_sq_err(p.drop_last()) + (v - v) * (v - v));
            assert(sum_sq_err(p.drop_last()) == sum_sq_err(rest));
        } else {
            assert(clean_pairs(x, x) == rest);
        }
    }
}

/// The Nash-Sutcliffe efficiency of a series against itself is exactly
/// one, for any series with at least one present value and nonzero
/// variance.
pub proof fn lemma_nse_identical(x: Seq<Option<i64>>)
    requires
        x.len() <= LENGTH_LIMIT,
        bounded_series(x),
        present_count(x) >= 1,
        present_count(x) * present_sum_squares(x) != present_sum(x) * present_sum(x),
    ensures
        spec_nse(x, x).is_int(1),
{
    lemma_sum_sq_err_diag(x);
    lemma_present_bounds(x);
    let m = present_count(x);
    let s = present_sum(x);
    let q = present_sum_squares(x);
    assert(VALUE_LIMIT as int * VALUE_LIMIT as int == 1_000_000_000_000_000_000);
    assert(q <= 1_000_000_000_000_000_000_000_000) by (nonlinear_arith)
        requires
            q <= x.len() * 1_000_000_000_000_000_000,
            x.len() <= 1_000_000,
    ;
    assert(-1_000_000_000_000_000 <= s <= 1_000_000_000_000_000) by (nonlinear_arith)
        requires
            -x.len() * 1_000_000_000 <= s <= x.len() * 1_000_000_000,
            x.len() <= 1_000_000,
    ;
    assert(m * q >= 0 && m * q <= 1_000_000_000_000_000_000_000_000_000_000) by (nonlinear_arith)
        requires
            0 <= m <= 1_000_000,
            0 <= q <= 1_000_000_000_000_000_000_000_000,
    ;
    assert(s * s >= 0 && s * s <= 1_000_000_000_000_000_000_000_000_000_000) by (nonlinear_arith)
        requires
            -1_000_000_000_000_000 <= s <= 1_000_000_000_000_000,
    ;
    let den = m * q - s * s;
    assert(spec_nse(x, x).num == den as i128);
    assert(spec_nse(x, x).den == den as i128);
    assert(den as i128 != 0);
}

/// Over the cross difference of a sorted series with itself, scaled by one
/// sum on both sides, every term vanishes.
proof fn lemma_cross_abs_diff_diag(v: Seq<i64>, s: int, k: int)
    ensures
        cross_abs_diff_sum(v, v, s, s, k) == 0,
    decreases k,
{
    if k > 0 {
        lemma_cross_abs_diff_diag(v, s, k - 1);
    }
}

/// The bounds of a bounded series' sums.
proof fn lemma_value_bounds(v: Seq<i64>)
    requires
        bounded_values(v),
    ensures
        -v.len() * VALUE_LIMIT <= sum_values(v) <= v.len() * VALUE_LIMIT,
        0 <= sum_sq_values(v) <= v.len() * (VALUE_LIMIT as int * VALUE_LIMIT as int),
    decreases v.len(),
{
    if v.len() > 0 {
        assert(bounded_values(v.drop_last())) by {
            assert(forall|i: int|
                0 <= i < v.len() - 1 ==> #[trigger] v.drop_last()[i] == v[i]);
        }
        lemma_value_bounds(v.drop_last());
        let x = v.last();
        assert((x as int) * (x as int) <= VALUE_LIMIT as int * VALUE_LIMIT as int
            && (x as int) * (x as int) >= 0) by (nonlinear_arith)
            requires
                -VALUE_LIMIT <= x <= VALUE_LIMIT,
        ;
        assert((v.len() - 1) * VALUE_LIMIT + VALUE_LIMIT == v.len() * VALUE_LIMIT)
            by (nonlinear_arith);
        assert((v.len() - 1) * (VALUE_LIMIT as int * VALUE_LIMIT as int) + (VALUE_LIMIT as int
            * VALUE_LIMIT as int) == v.len() * (VALUE_LIMIT as int * VALUE_LIMIT as int))
            by (nonlinear_arith);
    }
}

/// Every component of the Kling-Gupta efficiency of a series against
/// itself is exactly one, for any series of at least two entries with
/// positive total volume and nonzero variance: the rank correlation, the
/// bias term, the 2009 squared variability term and the non-parametric
/// variability term each equal one, and the 2012 squared variability term
/// is the quotient of the series' nonzero squared coefficient of variation
/// by itself.  Each efficiency is then `1 - sqrt(0) = 1`.
pub proof fn lemma_kge_identical(x: Seq<i64>)
    requires
        2 <= x.len() <= LENGTH_LIMIT,
        bounded_values(x),
        sum_values(x) > 0,
        x.len() * sum_sq_values(x) != sum_values(x) * sum_values(x),
    ensures
        spec_spearman(x, x).is_int(1),
        spec_beta(x, x).is_int(1),
        spec_alpha_squared_2009(x, x).is_int(1),
        spec_cv_squared(x).num != 0 && spec_cv_squared(x).den != 0,
        spec_np_alpha(x, x).is_int(1),
{
    crate::utils::lemma_spearman_identical(x);
    lemma_value_bounds(x);
    let m = x.len() as int;
    let s = sum_values(x);
    let q = sum_sq_values(x);
    assert(VALUE_LIMIT as int * VALUE_LIMIT as int == 1_000_000_000_000_000_000);
    assert(q <= 1_000_000_000_000_000_000_000_000) by (nonlinear_arith)
        requires
            q <= x.len() * 1_000_000_000_000_000_000,
            x.len() <= 1_000_000,
    ;
    assert(s <= 1_000_000_000_000_000) by (nonlinear_arith)
        requires
            s <= x.len() * 1_000_000_000,
            x.len() <= 1_000_000,
    ;
    assert(m * q >= 0 && m * q <= 1_000_000_000_000_000_000_000_000_000_000) by (nonlinear_arith)
        requires
            0 <= m <= 1_000_000,
            0 <= q <= 1_000_000_000_000_000_000_000_000,
    ;
    assert(s * s > 0 && s * s <= 1_000_000_000_000_000_000_000_000_000_000) by (nonlinear_arith)
        requires
            0 < s <= 1_000_000_000_000_000,
    ;
    lemma_cross_abs_diff_diag(spec_sorted(x, SortType::Desc), s, m);
    assert(2 * s * s == 2 * (s * s)) by (nonlinear_arith);
    assert(spec_np_alpha(x, x).den == (2 * (s * s)) as i128);
    assert(spec_np_alpha(x, x).num == (2 * (s * s)) as i128);
}

} // verus!
