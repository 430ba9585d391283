use gr6j::calibration::{sample_to_catchment, DEFAULT_SAMPLE_SIZE};
use gr6j::error::{DateName, LoadModelError, ModelPeriodError, SeriesName};
use gr6j::inputs::{ModelPeriod, RunOffUnit, StoreLevels};
use gr6j::model::{check_continuous, check_no_nan, derive_warmup, plan_run};
use gr6j::unit_hydrograph::{convolution_bound, UnitHydrographType};

/// A time vector of `n` consecutive day numbers starting at `first`.
fn days(first: i64, n: usize) -> Vec<i64> {
    (0..n as i64).map(|d| first + d).collect()
}

#[test]
fn model_test_invalid_precipitation_length() {
    let t = days(0, 366);
    let run = ModelPeriod::new(0, 365).unwrap();
    let plan = plan_run(&t, t.len() - 10, t.len(), None, run, None);
    assert!(matches!(
        plan,
        Err(LoadModelError::MismatchedLength(SeriesName::Precipitation))
    ));
}

#[test]
fn model_test_invalid_evapotranspiration_length() {
    let t = days(0, 366);
    let run = ModelPeriod::new(0, 365).unwrap();
    let plan = plan_run(&t, t.len(), t.len() - 10, None, run, None);
    assert!(matches!(
        plan,
        Err(LoadModelError::MismatchedLength(
            SeriesName::Evapotranspiration
        ))
    ));
}

#[test]
fn model_test_non_continuous_dates() {
    let mut t = days(0, 366);
    t[365] += 3;
    let run = ModelPeriod::new(0, 368).unwrap();
    let plan = plan_run(&t, t.len(), t.len(), None, run, None);
    assert!(matches!(plan, Err(LoadModelError::NotContinuousDates)));
}

#[test]
fn model_test_small_start_date() {
    let t = days(0, 366);
    // the run starts a year before the record does
    let run = ModelPeriod::new(-365, 365).unwrap();
    let plan = plan_run(&t, t.len(), t.len(), None, run, None);
    assert!(matches!(
        plan,
        Err(LoadModelError::DateOutsideTVector(DateName::RunStartDate))
    ));
}

#[test]
fn test_nan_values() {
    let mut mask = vec![false; 366];
    mask[0] = true;
    let r = check_no_nan(SeriesName::Precipitation, &mask);
    match r {
        Err(LoadModelError::NanData(name, idx)) => {
            assert_eq!(name, SeriesName::Precipitation);
            assert_eq!(idx, vec![0]);
        }
        other => panic!("expected a missing-value error, got {other:?}"),
    }
    assert!(check_no_nan(SeriesName::Precipitation, &vec![false; 5]).is_ok());
    let r2 = check_no_nan(SeriesName::ObservedRunOff, &vec![true, false, true]);
    match r2 {
        Err(LoadModelError::NanData(_, idx)) => assert_eq!(idx, vec![0, 2]),
        other => panic!("expected a missing-value error, got {other:?}"),
    }
}

#[test]
fn observed_series_length_is_checked() {
    let t = days(0, 366);
    let run = ModelPeriod::new(0, 365).unwrap();
    let plan = plan_run(&t, t.len(), t.len(), Some(5), run, None);
    assert!(matches!(
        plan,
        Err(LoadModelError::MismatchedLength(SeriesName::ObservedRunOff))
    ));
}

#[test]
fn run_period_must_lie_inside_the_record() {
    let t = days(0, 366);
    let run = ModelPeriod::new(10, 400).unwrap();
    let plan = plan_run(&t, t.len(), t.len(), None, run, None);
    assert!(matches!(
        plan,
        Err(LoadModelError::DateOutsideTVector(DateName::RunEndDate))
    ));
}

#[test]
fn continuity_check() {
    assert!(check_continuous(&days(5, 100)));
    assert!(check_continuous(&vec![7]));
    assert!(!check_continuous(&vec![1, 2, 2, 3]));
    assert!(!check_continuous(&vec![1, 3]));
    assert!(!check_continuous(&vec![2, 1]));
}

#[test]
fn warmup_defaults_to_the_year_before_the_run() {
    // two years of data, the run starting in the second year
    let t = days(0, 730);
    let run = ModelPeriod::new(400, 729).unwrap();
    let plan = plan_run(&t, 730, 730, None, run, None).unwrap();
    let w = plan.warmup.unwrap();
    assert_eq!((w.first, w.last), (35, 399));
    assert_eq!(plan.start_index, 35);
    assert_eq!(plan.end_index, 729);
    assert_eq!(plan.collect_offset, 365);
}

#[test]
fn warmup_shrinks_to_the_data_available() {
    let t = days(0, 730);
    let run = ModelPeriod::new(100, 729).unwrap();
    let plan = plan_run(&t, 730, 730, None, run, None).unwrap();
    let w = plan.warmup.unwrap();
    assert_eq!((w.first, w.last), (0, 99));
    assert_eq!(plan.start_index, 0);
    assert_eq!(plan.collect_offset, 100);
}

#[test]
fn warmup_is_omitted_without_prior_data() {
    let t = days(0, 730);
    let run = ModelPeriod::new(0, 729).unwrap();
    let plan = plan_run(&t, 730, 730, None, run, None).unwrap();
    assert!(plan.warmup.is_none());
    assert_eq!(plan.start_index, 0);
    assert_eq!(plan.collect_offset, 0);
    // the derivation alone says the same
    assert!(derive_warmup(0, 0).is_none());
    assert_eq!(derive_warmup(0, 365).map(|w| (w.first, w.last)), Some((0, 364)));
    assert_eq!(
        derive_warmup(0, 400).map(|w| (w.first, w.last)),
        Some((35, 399))
    );
}

#[test]
fn explicit_warmup_must_end_directly_before_the_run() {
    let t = days(0, 730);
    let run = ModelPeriod::new(400, 729).unwrap();

    let late = ModelPeriod::new(401, 500).unwrap();
    assert!(matches!(
        plan_run(&t, 730, 730, None, run, Some(late)),
        Err(LoadModelError::DateTooSmall(DateName::WarmupStartDate))
    ));

    let overlapping = ModelPeriod::new(300, 450).unwrap();
    assert!(matches!(
        plan_run(&t, 730, 730, None, run, Some(overlapping)),
        Err(LoadModelError::DateTooSmall(DateName::WarmupEndDate))
    ));

    let gap = ModelPeriod::new(100, 300).unwrap();
    assert!(matches!(
        plan_run(&t, 730, 730, None, run, Some(gap)),
        Err(LoadModelError::TooFarWarmUpPeriod(300, 400))
    ));

    let good = ModelPeriod::new(300, 399).unwrap();
    let plan = plan_run(&t, 730, 730, None, run, Some(good)).unwrap();
    let w = plan.warmup.unwrap();
    assert_eq!((w.first, w.last), (300, 399));
    assert_eq!(plan.start_index, 300);
    assert_eq!(plan.collect_offset, 100);

    let outside = ModelPeriod::new(-50, 399).unwrap();
    assert!(matches!(
        plan_run(&t, 730, 730, None, run, Some(outside)),
        Err(LoadModelError::DateOutsideTVector(DateName::WarmupStartDate))
    ));
}

#[test]
fn model_period_requires_increasing_dates() {
    assert!(ModelPeriod::new(3, 10).is_ok());
    assert!(matches!(
        ModelPeriod::new(10, 3),
        Err(ModelPeriodError::DateTooSmall(10, 3))
    ));
    assert!(ModelPeriod::new(3, 3).is_err());
}

#[test]
fn unit_hydrograph_sizes() {
    assert_eq!(UnitHydrographType::T1.size(), 20);
    assert_eq!(UnitHydrographType::T2.size(), 40);
}

#[test]
fn convolution_bounds_follow_the_elapsed_days() {
    // early timesteps shift few slots, later ones the whole buffer
    assert_eq!(convolution_bound(UnitHydrographType::T1, 0), 1);
    assert_eq!(convolution_bound(UnitHydrographType::T1, 5), 6);
    assert_eq!(convolution_bound(UnitHydrographType::T1, 50), 19);
    assert_eq!(convolution_bound(UnitHydrographType::T2, 0), 2);
    assert_eq!(convolution_bound(UnitHydrographType::T2, 10), 22);
    assert_eq!(convolution_bound(UnitHydrographType::T2, 50), 79);
}

#[test]
fn run_off_unit_factors_and_labels() {
    let cases = [
        (RunOffUnit::NoConversion, (1, 1), "-"),
        (RunOffUnit::CubicMetrePerDay, (1, 1000), "m3/d"),
        (RunOffUnit::MlPerDay, (1, 1), "Ml/d"),
        (RunOffUnit::CubicMetrePerSecond, (86400, 1000), "m3/s"),
    ];
    for (unit, (num, den), label) in cases {
        let f = unit.conv_factor();
        assert_eq!((f.num, f.den), (num, den));
        assert!(f.num > 0 && f.den > 0);
        assert_eq!(unit.unit_label(), label);
    }
}

#[test]
fn store_levels_default_fill() {
    let s = StoreLevels::default();
    assert_eq!(s.production_store, 300);
    assert_eq!(s.routing_store, 500);
    assert_eq!(s.exponential_store, 0);
}

#[test]
fn sampled_rows_become_catchments() {
    assert_eq!(DEFAULT_SAMPLE_SIZE, 200);
    let row = vec![1_250_000, 300, 500_000, 5_200, 2_000, 10_000];
    let c = sample_to_catchment(2_500, &row).unwrap();
    assert_eq!(c.area, 2_500);
    assert_eq!(c.x1.value(), 1_250_000);
    assert_eq!(c.x6.value(), 10_000);
    assert!(c.store_levels.is_none());

    let bad = vec![1_250_000, 300, 500_000, 5_200, 2_000, 50_000];
    assert!(matches!(
        sample_to_catchment(2_500, &bad),
        Err(LoadModelError::ParameterTooLarge(_, 20_000))
    ));
}
