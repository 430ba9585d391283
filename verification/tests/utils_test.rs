use gr6j::ratio::Ratio;
use gr6j::utils::{rank, remove_nans_from_pair, sort, spearman, Fdc, SortType};

const X: [f64; 10] = [106.0, 100.0, 86.0, 101.0, 99.0, 103.0, 97.0, 113.0, 112.0, 110.0];
const Y: [f64; 10] = [7.0, 27.0, 2.0, 50.0, 28.0, 29.0, 20.0, 12.0, 6.0, 17.0];

fn s1000(values: &[f64]) -> Vec<i64> {
    values.iter().map(|v| (v * 1000.0).round() as i64).collect()
}

fn as_f64(r: Ratio) -> f64 {
    r.num as f64 / r.den as f64
}

#[test]
fn test_rank_1() {
    // ranks 7, 4, 1, 5, 3, 6, 2, 10, 9, 8 carried doubled
    let expected: Vec<i64> = vec![14, 8, 2, 10, 6, 12, 4, 20, 18, 16];
    assert_eq!(rank(&s1000(&X)), expected);
}

#[test]
fn test_rank_2() {
    // ranks 3, 7, 1, 10, 8, 9, 6, 4, 2, 5 carried doubled
    let expected: Vec<i64> = vec![6, 14, 2, 20, 16, 18, 12, 8, 4, 10];
    assert_eq!(rank(&s1000(&Y)), expected);
}

#[test]
fn rank_handles_ties_fractionally() {
    // values 10, 20, 20 receive ranks 1, 2.5, 2.5, carried doubled
    assert_eq!(rank(&vec![10, 20, 20]), vec![2, 5, 5]);
}

#[test]
fn test_spearman_corr_1() {
    let r = spearman(&s1000(&X), &s1000(&Y));
    assert_eq!((r.num, r.den), (-348, 1980));
    assert!((as_f64(r) - -0.17575757575757578).abs() < 1e-12);
}

#[test]
fn test_spearman_corr_2() {
    let a = vec![1250.0, 0.3, 500.0, 5.2, 2.0, 10.0];
    let b = vec![150.0, 0.03, 200.0, 5.2, 20.0, 15.0];
    let r = spearman(&s1000(&a), &s1000(&b));
    assert_eq!((r.num, r.den), (324, 420));
    assert!((as_f64(r) - 0.7714285714285715).abs() < 1e-12);
}

#[test]
fn spearman_is_symmetric() {
    // the coefficient never depends on the argument order
    let a = s1000(&X);
    let b = s1000(&Y);
    assert_eq!(spearman(&a, &b), spearman(&b, &a));
    let c = vec![5, 5, 1, -3, 12];
    let d = vec![0, 2, 2, 9, -4];
    assert_eq!(spearman(&c, &d), spearman(&d, &c));
}

#[test]
fn spearman_of_identical_series_is_one() {
    let a = s1000(&X);
    let r = spearman(&a, &a);
    assert!(r.den > 0);
    assert_eq!(r.num, r.den);
}

#[test]
fn sort_directions() {
    let v = vec![3, -1, 7, 3, 0];
    assert_eq!(sort(&v, SortType::Asc), vec![-1, 0, 3, 3, 7]);
    assert_eq!(sort(&v, SortType::Desc), vec![7, 3, 3, 0, -1]);
}

#[test]
fn fdc_sorts_descending_with_exact_probabilities() {
    let fdc = Fdc::new(&vec![500, 2000, 1000, 250]);
    assert_eq!(fdc.sorted_run_off, vec![2000, 1000, 500, 250]);
    let expected: Vec<(i128, i128)> = vec![(100, 4), (200, 4), (300, 4), (400, 4)];
    let got: Vec<(i128, i128)> = fdc.exceedence.iter().map(|r| (r.num, r.den)).collect();
    assert_eq!(got, expected);
    // the probabilities strictly increase from 100/n to exactly 100 percent
    for w in fdc.exceedence.windows(2) {
        assert!(w[0].num * w[1].den < w[1].num * w[0].den);
    }
    let last = fdc.exceedence.last().unwrap();
    assert_eq!(last.num, 100 * last.den);
}

#[test]
fn fdc_round_trip_reproduces_itself() {
    // recomputing the curve from its own sorted values changes nothing
    let first = Fdc::new(&vec![7, -2, 19, 7, 0, 3]);
    let second = Fdc::new(&first.sorted_run_off);
    assert_eq!(second.sorted_run_off, first.sorted_run_off);
    assert_eq!(second.exceedence, first.exceedence);
}

#[test]
fn remove_nans_drops_pairs_with_a_missing_side() {
    let a = vec![Some(1), None, Some(3), Some(4)];
    let b = vec![Some(10), Some(20), None, Some(40)];
    let (x, y) = remove_nans_from_pair(&a, &b).unwrap();
    assert_eq!(x, vec![1, 4]);
    assert_eq!(y, vec![10, 40]);
    assert!(remove_nans_from_pair(&a, &vec![Some(1)]).is_err());
}
