//! Planning and validation of a model run.
//!
//! Everything a simulation needs to know before the first timestep is decided
//! here as a pure function of the input description: that the series lengths
//! agree, that the dates are strictly daily-continuous, that the run period
//! lies inside the record, which warm-up interval precedes the run, and which
//! slice of the record the simulator walks.

use vstd::prelude::*;
use crate::error::{DateName, LoadModelError, SeriesName};
use crate::inputs::{DayInterval, ModelPeriod};

verus! {

/// The time vector advances by exactly one day at each entry.
pub open spec fn spec_continuous(t: Seq<i64>) -> bool {
    forall|i: int| 0 <= i < t.len() - 1 ==> #[trigger] t[i + 1] == t[i] + 1
}

/// In a continuous time vector, the entry at `i` is the first day plus `i`.
pub proof fn lemma_continuous_at(t: Seq<i64>, i: int)
    requires
        spec_continuous(t),
        0 <= i < t.len(),
    ensures
        t[i] == t[0] + i,
    decreases i,
{
    if i > 0 {
        lemma_continuous_at(t, i - 1);
        assert(t[(i - 1) + 1] == t[i - 1] + 1);
    }
}

/// Decide whether the day numbers advance by exactly one at each entry.
pub fn check_continuous(time: &Vec<i64>) -> (r: bool)
    ensures
        r == spec_continuous(time@),
{
    let n = time.len();
    let mut i: usize = 1;
    while i < n
        invariant
            1 <= i,
            n == time@.len(),
            forall|j: int| 0 <= j < i - 1 ==> #[trigger] time@[j + 1] == time@[j] + 1,
        decreases n - i,
    {
        if time[i - 1] == i64::MAX || time[i] != time[i - 1] + 1 {
            assert(time@[(i - 1) + 1] != time@[i - 1] + 1);
            return false;
        }
        i += 1;
    }
    true
}

/// The warm-up interval derived when none is given: prefer the 365 days
/// directly before the run start, shrink to the days available when the
/// record starts later, and omit the warm-up when no day precedes the run
/// start.
pub open spec fn spec_derived_warmup(first_day: i64, run_start: i64) -> Option<DayInterval> {
    if run_start - 365 >= first_day {
        Some(DayInterval { first: (run_start - 365) as i64, last: (run_start - 1) as i64 })
    } else if run_start > first_day {
        Some(DayInterval { first: first_day, last: (run_start - 1) as i64 })
    } else {
        None
    }
}

/// Derive the warm-up interval preceding `run_start` inside a record that
/// begins at `first_day`.  Every derived interval is well formed, lies inside
/// the record and ends directly before the run start.
pub fn derive_warmup(first_day: i64, run_start: i64) -> (r: Option<DayInterval>)
    requires
        first_day <= run_start,
    ensures
        r == spec_derived_warmup(first_day, run_start),
        r is Some ==> r->0.is_valid() && r->0.first >= first_day && r->0.last == run_start - 1,
        r is None <==> run_start == first_day,
{
    let long_start: i128 = run_start as i128 - 365;
    if long_start >= first_day as i128 {
        Some(DayInterval { first: (run_start as i128 - 365) as i64, last: run_start - 1 })
    } else if run_start > first_day {
        Some(DayInterval { first: first_day, last: run_start - 1 })
    } else {
        None
    }
}

/// Everything the simulator needs to walk the record: the warm-up interval
/// (if any), the half-open index range of the record that is simulated, and
/// how many leading simulated days belong to the warm-up and are not
/// reported.
#[derive(Debug, Clone, Copy, PartialEq, Eq, Structural)]
pub struct RunPlan {
    /// The warm-up interval, directly before the run period.
    pub warmup: Option<DayInterval>,
    /// Index of the first simulated day (the warm-up start where a warm-up
    /// exists, the run start otherwise).
    pub start_index: usize,
    /// Index of the run period's end date; simulation walks the half-open
    /// index range `start_index..end_index`.
    pub end_index: usize,
    /// Number of leading simulated days that fall before the run period and
    /// are computed but not reported.
    pub collect_offset: usize,
}

/// The planning decision: either a `RunPlan` or the first configuration
/// error, checked in a fixed order.
pub open spec fn spec_plan(
    time: Seq<i64>,
    precipitation_len: usize,
    evapotranspiration_len: usize,
    observed_len: Option<usize>,
    run_period: ModelPeriod,
    warmup_period: Option<ModelPeriod>,
) -> Result<RunPlan, LoadModelError> {
    if precipitation_len != time.len() {
        Err(LoadModelError::MismatchedLength(SeriesName::Precipitation))
    } else if evapotranspiration_len != time.len() {
        Err(LoadModelError::MismatchedLength(SeriesName::Evapotranspiration))
    } else if observed_len is Some && observed_len->0 != time.len() {
        Err(LoadModelError::MismatchedLength(SeriesName::ObservedRunOff))
    } else if time.len() < 2 || !spec_continuous(time) {
        Err(LoadModelError::NotContinuousDates)
    } else if run_period.start < time[0] {
        Err(LoadModelError::DateOutsideTVector(DateName::RunStartDate))
    } else if run_period.end > time[time.len() - 1] {
        Err(LoadModelError::DateOutsideTVector(DateName::RunEndDate))
    } else {
        match warmup_period {
            None => {
                let w = spec_derived_warmup(time[0], run_period.start);
                let start_day = match w {
                    Some(iv) => iv.first,
                    None => run_period.start,
                };
                Ok(
                    RunPlan {
                        warmup: w,
                        start_index: (start_day - time[0]) as usize,
                        end_index: (run_period.end - time[0]) as usize,
                        collect_offset: (run_period.start - start_day) as usize,
                    },
                )
            },
            Some(p) => {
                if p.start >= run_period.start {
                    Err(LoadModelError::DateTooSmall(DateName::WarmupStartDate))
                } else if p.end > run_period.start {
                    Err(LoadModelError::DateTooSmall(DateName::WarmupEndDate))
                } else if run_period.start - p.end != 1 {
                    Err(LoadModelError::TooFarWarmUpPeriod(p.end, run_period.start))
                } else if p.start < time[0] {
                    Err(LoadModelError::DateOutsideTVector(DateName::WarmupStartDate))
                } else {
                    Ok(
                        RunPlan {
                            warmup: Some(DayInterval { first: p.start, last: p.end }),
                            start_index: (p.start - time[0]) as usize,
                            end_index: (run_period.end - time[0]) as usize,
                            collect_offset: (run_period.start - p.start) as usize,
                        },
                    )
                }
            },
        }
    }
}

/// Validate the description of a model run and derive its `RunPlan`.
///
/// The series lengths are those of the precipitation, evapotranspiration and
/// (optional) observed run-off series; `time` carries the day number of every
/// record.  The decision equals `spec_plan` exactly; on success the returned
/// indices frame the simulated slice of the record.
pub fn plan_run(
    time: &Vec<i64>,
    precipitation_len: usize,
    evapotranspiration_len: usize,
    observed_len: Option<usize>,
    run_period: ModelPeriod,
    warmup_period: Option<ModelPeriod>,
) -> (r: Result<RunPlan, LoadModelError>)
    requires
        run_period.start < run_period.end,
        warmup_period matches Some(p) ==> p.start < p.end,
    ensures
        r == spec_plan(
            time@,
            precipitation_len,
            evapotranspiration_len,
            observed_len,
            run_period,
            warmup_period,
        ),
        r is Ok ==> {
            let plan = r->Ok_0;
            &&& plan.start_index <= plan.end_index < time@.len()
            &&& plan.collect_offset <= plan.end_index - plan.start_index
            &&& time@[plan.start_index as int] + plan.collect_offset == run_period.start
            &&& time@[plan.end_index as int] == run_period.end
            &&& (plan.warmup matches Some(iv) ==> iv.is_valid() && iv.last + 1
                == run_period.start && time@[plan.start_index as int] == iv.first)
            &&& (plan.warmup is None ==> plan.collect_offset == 0)
        },
{
    if precipitation_len != time.len() {
        return Err(LoadModelError::MismatchedLength(SeriesName::Precipitation));
    }
    if evapotranspiration_len != time.len() {
        return Err(LoadModelError::MismatchedLength(SeriesName::Evapotranspiration));
    }
    if let Some(olen) = observed_len {
        if olen != time.len() {
            return Err(LoadModelError::MismatchedLength(SeriesName::ObservedRunOff));
        }
    }
    if time.len() < 2 || !check_continuous(time) {
        return Err(LoadModelError::NotContinuousDates);
    }
    let first_day = time[0];
    let last_day = time[time.len() - 1];
    proof {
        lemma_continuous_at(time@, time@.len() - 1);
    }
    if run_period.start < first_day {
        return Err(LoadModelError::DateOutsideTVector(DateName::RunStartDate));
    }
    if run_period.end > last_day {
        return Err(LoadModelError::DateOutsideTVector(DateName::RunEndDate));
    }
    let warmup: Option<DayInterval> = match warmup_period {
        None => derive_warmup(first_day, run_period.start),
        Some(p) => {
            if p.start >= run_period.start {
                return Err(LoadModelError::DateTooSmall(DateName::WarmupStartDate));
            }
            if p.end > run_period.start {
                return Err(LoadModelError::DateTooSmall(DateName::WarmupEndDate));
            }
            if p.end as i128 + 1 != run_period.start as i128 {
                return Err(LoadModelError::TooFarWarmUpPeriod(p.end, run_period.start));
            }
            if p.start < first_day {
                return Err(LoadModelError::DateOutsideTVector(DateName::WarmupStartDate));
            }
            Some(DayInterval { first: p.start, last: p.end })
        },
    };
    let start_day = match warmup {
        Some(iv) => iv.first,
        None => run_period.start,
    };
    proof {
        assert(first_day <= start_day <= run_period.start);
        assert(run_period.end <= time@[0] + (time@.len() - 1));
        assert(start_day - first_day < time@.len());
        assert(run_period.end - first_day < time@.len());
    }
    let start_index = (start_day as i128 - first_day as i128) as usize;
    let end_index = (run_period.end as i128 - first_day as i128) as usize;
    let collect_offset = (run_period.start as i128 - start_day as i128) as usize;
    proof {
        lemma_continuous_at(time@, start_index as int);
        lemma_continuous_at(time@, end_index as int);
    }
    Ok(RunPlan { warmup, start_index, end_index, collect_offset })
}

/// The indices listed are exactly those flagged in the mask, in increasing
/// order.
pub open spec fn spec_flagged_indices(mask: Seq<bool>, idx: Seq<usize>) -> bool {
    &&& forall|j: int| 0 <= j < idx.len() ==> (#[trigger] idx[j] as int) < mask.len()
        && mask[idx[j] as int]
    &&& forall|j: int, k: int| 0 <= j < k < idx.len() ==> idx[j] < idx[k]
    &&& forall|i: int| 0 <= i < mask.len() && mask[i] ==> idx.contains(i as usize)
}

/// Collect the indices at which a series misses a value, given the mask of
/// missing entries.
pub fn nan_indices(mask: &Vec<bool>) -> (r: Vec<usize>)
    ensures
        spec_flagged_indices(mask@, r@),
{
    let n = mask.len();
    let mut r: Vec<usize> = Vec::new();
    let mut i: usize = 0;
    while i < n
        invariant
            i <= n,
            n == mask@.len(),
            forall|j: int| 0 <= j < r@.len() ==> mask@[#[trigger] r@[j] as int] && r@[j] < i,
            forall|j: int, k: int| 0 <= j < k < r@.len() ==> r@[j] < r@[k],
            forall|m: int| 0 <= m < i && mask@[m] ==> r@.contains(m as usize),
        decreases n - i,
    {
        let ghost prev = r@;
        if mask[i] {
            r.push(i);
        }
        proof {
            assert forall|m: int| 0 <= m <= i && mask@[m] implies r@.contains(m as usize) by {
                if m < i {
                    assert(prev.contains(m as usize));
                    let j = choose|j: int| 0 <= j < prev.len() && prev[j] == m as usize;
                    assert(r@[j] == m as usize);
                } else {
                    assert(r@[r@.len() - 1] == i);
                }
            }
        }
        i += 1;
    }
    r
}

/// Check that the named series misses no value; report every offending index
/// otherwise.
pub fn check_no_nan(name: SeriesName, mask: &Vec<bool>) -> (r: Result<(), LoadModelError>)
    ensures
        r is Ok <==> (forall|i: int| 0 <= i < mask@.len() ==> !mask@[i]),
        r is Err ==> match r->Err_0 {
            LoadModelError::NanData(n, idx) => n == name && idx@.len() > 0
                && spec_flagged_indices(mask@, idx@),
            _ => false,
        },
{
    let idx = nan_indices(mask);
    if idx.len() == 0 {
        proof {
            assert forall|i: int| 0 <= i < mask@.len() implies !mask@[i] by {
                if mask@[i] {
                    assert(idx@.contains(i as usize));
                }
            }
        }
        Ok(())
    } else {
        assert(mask@[idx@[0] as int]);
        Err(LoadModelError::NanData(name, idx))
    }
}

} // verus!
