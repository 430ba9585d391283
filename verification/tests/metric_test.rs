use gr6j::error::MetricError;
use gr6j::metric::{
    kge_components, kge_cv_squared, mean, mean_squared_error, nse, variance, KlingGuptaMethod,
    OptionalMetrics, volume_error,
};
use gr6j::ratio::Ratio;
use gr6j::utils::remove_nans_from_pair;

const A: [Option<f64>; 6] = [
    Some(1250.0),
    Some(0.3),
    Some(500.0),
    Some(5.2),
    Some(2.0),
    Some(10.0),
];
const B: [Option<f64>; 6] = [
    Some(150.0),
    Some(0.03),
    Some(200.0),
    Some(5.2),
    Some(20.0),
    Some(15.0),
];
const A_NAN: [Option<f64>; 6] = [
    None,
    Some(0.3),
    Some(500.0),
    Some(5.2),
    Some(2.0),
    Some(10.0),
];
const B_NAN: [Option<f64>; 6] = [
    Some(150.0),
    Some(0.03),
    Some(200.0),
    Some(5.2),
    Some(20.0),
    None,
];

fn s1000(values: &[Option<f64>]) -> Vec<Option<i64>> {
    values
        .iter()
        .map(|v| v.map(|x| (x * 1000.0).round() as i64))
        .collect()
}

/// log10-transform a series, quantised to hundred-millionths; entries that
/// are missing or not positive become missing.
fn log8(values: &[Option<f64>]) -> Vec<Option<i64>> {
    values
        .iter()
        .map(|v| {
            v.and_then(|x| {
                if x <= 0.0 {
                    None
                } else {
                    Some((x.log10() * 1e8).round() as i64)
                }
            })
        })
        .collect()
}

fn as_f64(r: Ratio) -> f64 {
    r.num as f64 / r.den as f64
}

fn nse_f(observed: &[Option<f64>], simulated: &[Option<f64>]) -> f64 {
    as_f64(nse(&s1000(observed), &s1000(simulated)).unwrap())
}

fn log_nse_f(observed: &[Option<f64>], simulated: &[Option<f64>]) -> f64 {
    as_f64(nse(&log8(observed), &log8(simulated)).unwrap())
}

fn rmse_f(observed: &[Option<f64>], simulated: &[Option<f64>]) -> f64 {
    // values are scaled by 1000, so the root of the mean squared error is
    // scaled back by the same factor
    as_f64(mean_squared_error(&s1000(observed), &s1000(simulated)).unwrap()).sqrt() / 1000.0
}

fn volume_error_f(observed: &[Option<f64>], simulated: &[Option<f64>]) -> f64 {
    as_f64(volume_error(&s1000(observed), &s1000(simulated)).unwrap())
}

fn kge_f(observed: &[Option<f64>], simulated: &[Option<f64>], method: KlingGuptaMethod) -> f64 {
    let (obs, sim) = remove_nans_from_pair(&s1000(observed), &s1000(simulated)).unwrap();
    let c = kge_components(&obs, &sim, method).unwrap();
    let r = as_f64(c.spearman);
    let beta = as_f64(c.beta);
    let alpha = match method {
        KlingGuptaMethod::Y2009 => as_f64(c.alpha.unwrap()).sqrt(),
        KlingGuptaMethod::Y2012 => {
            (as_f64(kge_cv_squared(&sim)) / as_f64(kge_cv_squared(&obs))).sqrt()
        }
        KlingGuptaMethod::NonParametric => as_f64(c.alpha.unwrap()),
    };
    1.0 - ((r - 1.0).powi(2) + (alpha - 1.0).powi(2) + (beta - 1.0).powi(2)).sqrt()
}

fn close(a: f64, b: f64, tol: f64) {
    assert!((a - b).abs() < tol, "{a} differs from {b}");
}

#[test]
fn test_nse_metric() {
    close(nse_f(&A, &B), -0.006497117928065954, 1e-9);
}

#[test]
fn test_nse_metric_with_nan_1() {
    close(nse_f(&A_NAN, &B), 0.540371734977912, 1e-9);
}

#[test]
fn test_nse_metric_with_nan_2() {
    close(nse_f(&A_NAN, &B_NAN), 0.5404989162123923, 1e-9);
}

#[test]
fn test_log_nse_metric() {
    close(log_nse_f(&A, &B), 0.6930355551239313, 1e-7);
}

#[test]
fn test_log_nse_metric_with_nan_1() {
    close(log_nse_f(&A_NAN, &B), 0.612135455999324, 1e-7);
}

#[test]
fn test_log_nse_metric_with_nan_2() {
    close(log_nse_f(&A_NAN, &B_NAN), 0.6176288105498396, 1e-7);
}

#[test]
fn test_kg_2009_metric() {
    close(
        kge_f(&A, &B, KlingGuptaMethod::Y2009),
        -0.16047005836641337,
        1e-9,
    );
}

#[test]
fn test_kg_2009_metric_with_nan_1() {
    close(
        kge_f(&A_NAN, &B, KlingGuptaMethod::Y2009),
        0.13079945561027917,
        1e-9,
    );
}

#[test]
fn test_kg_2009_metric_with_nan_2() {
    close(
        kge_f(&A_NAN, &B_NAN, KlingGuptaMethod::Y2009),
        0.1481643733978315,
        1e-9,
    );
}

#[test]
fn test_kg_2012_metric() {
    close(
        kge_f(&A, &B, KlingGuptaMethod::Y2012),
        0.15721037908744573,
        1e-9,
    );
}

#[test]
fn test_kg_2012_metric_with_nan_1() {
    close(
        kge_f(&A_NAN, &B, KlingGuptaMethod::Y2012),
        0.3625714406316686,
        1e-9,
    );
}

#[test]
fn test_kg_2012_metric_with_nan_2() {
    close(
        kge_f(&A_NAN, &B_NAN, KlingGuptaMethod::Y2012),
        0.3950431057298418,
        1e-9,
    );
}

#[test]
fn test_np_kg_metric() {
    close(
        kge_f(&A, &B, KlingGuptaMethod::NonParametric),
        0.16491320894422312,
        1e-9,
    );
}

#[test]
fn test_np_kg_metric_with_nan_1() {
    close(
        kge_f(&A_NAN, &B, KlingGuptaMethod::NonParametric),
        0.3714685584392162,
        1e-9,
    );
}

#[test]
fn test_np_kg_metric_with_nan_2() {
    close(
        kge_f(&A_NAN, &B_NAN, KlingGuptaMethod::NonParametric),
        0.40091725404120415,
        1e-9,
    );
}

#[test]
fn test_rmse_metric() {
    close(rmse_f(&A, &B), 465.537158004958, 1e-9);
}

#[test]
fn test_rmse_metric_with_nan_1() {
    close(rmse_f(&A_NAN, &B), 134.42401042968476, 1e-9);
}

#[test]
fn test_rmse_metric_with_nan_2() {
    close(rmse_f(&A_NAN, &B_NAN), 150.26981807735044, 1e-9);
}

#[test]
fn test_volume_error_metric() {
    close(volume_error_f(&A, &B), -77.9219236209335, 1e-9);
}

#[test]
fn test_volume_error_metric_with_nan_1() {
    close(volume_error_f(&A_NAN, &B), -53.57874396135266, 1e-9);
}

#[test]
fn test_volume_error_metric_with_nan_2() {
    close(volume_error_f(&A_NAN, &B_NAN), -55.61970443349754, 1e-9);
}

#[test]
fn nse_of_identical_series_is_one() {
    // the ideal-value property, exactly, on a series with missing entries
    let x = s1000(&A_NAN);
    let r = nse(&x, &x).unwrap();
    assert!(r.den != 0);
    assert_eq!(r.num, r.den);
}

#[test]
fn kge_of_identical_series_is_one_for_every_variant() {
    let (x, y) = remove_nans_from_pair(&s1000(&A), &s1000(&A)).unwrap();
    for method in [
        KlingGuptaMethod::Y2009,
        KlingGuptaMethod::Y2012,
        KlingGuptaMethod::NonParametric,
    ] {
        close(kge_f(&A, &A, method), 1.0, 1e-12);
        let c = kge_components(&x, &y, method).unwrap();
        assert_eq!(c.spearman.num, c.spearman.den);
        assert_eq!(c.beta.num, c.beta.den);
        if let Some(alpha) = c.alpha {
            assert_eq!(alpha.num, alpha.den);
        }
    }
}

#[test]
fn mean_and_variance_skip_missing_entries() {
    let x = vec![Some(2_000), None, Some(4_000)];
    let m = mean(&x);
    assert_eq!((m.num, m.den), (6_000, 2));
    let v = variance(&x);
    // variance of {2, 4} in thousandths: ((2*20e6) - 36e6) / 4
    assert_eq!((v.num, v.den), (4_000_000, 4));
}

#[test]
fn mean_squared_error_without_pairs_is_undefined() {
    let x = vec![Some(1_000), None];
    let y = vec![None, Some(2_000)];
    let r = mean_squared_error(&x, &y).unwrap();
    assert_eq!(r.den, 0);
}

#[test]
fn metrics_refuse_mismatched_lengths() {
    let x = vec![Some(1_000)];
    let y = vec![Some(1_000), Some(2_000)];
    assert!(matches!(
        nse(&x, &y),
        Err(MetricError::MismatchedLength(1, 2))
    ));
    assert!(matches!(
        mean_squared_error(&x, &y),
        Err(MetricError::MismatchedLength(1, 2))
    ));
    assert!(matches!(
        volume_error(&x, &y),
        Err(MetricError::MismatchedLength(1, 2))
    ));
}

#[test]
fn optional_metrics_default_to_disabled() {
    let o = OptionalMetrics::default();
    assert!(!o.kling_gupta2009);
    assert!(!o.kling_gupta2012);
}
