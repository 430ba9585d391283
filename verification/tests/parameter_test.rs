use gr6j::error::LoadModelError;
use gr6j::inputs::CatchmentData;
use gr6j::parameter::{Parameter, ParameterKind, ParameterRange};

fn x(kind: ParameterKind, thousandths: i64) -> Parameter {
    Parameter::new(kind, thousandths).unwrap()
}

#[test]
fn test_too_small_parameter() {
    let p = Parameter::new(ParameterKind::X1, 0);
    assert!(matches!(
        p,
        Err(LoadModelError::ParameterTooSmall(ParameterKind::X1, 10))
    ));
}

#[test]
fn test_too_large_parameter() {
    let p = Parameter::new(ParameterKind::X1, 7_000_000);
    assert!(matches!(
        p,
        Err(LoadModelError::ParameterTooLarge(ParameterKind::X1, 2_500_000))
    ));
}

#[test]
fn test_too_small_x1() {
    let p = Parameter::new(ParameterKind::X1, 1);
    assert!(matches!(
        p,
        Err(LoadModelError::ParameterTooSmall(ParameterKind::X1, 10))
    ));
}

#[test]
fn test_too_small_min_bound() {
    let p = ParameterRange::new(ParameterKind::X1, -10_000, 100_000);
    assert!(matches!(
        p,
        Err(LoadModelError::ParameterTooSmallLowerBound(
            -10_000,
            ParameterKind::X1,
            10
        ))
    ));
}

#[test]
fn test_too_large_max_bound() {
    let p = ParameterRange::new(ParameterKind::X1, 100, 9_000_000);
    assert!(matches!(
        p,
        Err(LoadModelError::ParameterTooLargeUpperBound(
            9_000_000,
            ParameterKind::X1,
            2_500_000
        ))
    ));
}

#[test]
fn parameter_roundtrip_inside_bounds() {
    // every kind accepts its own bounds and keeps the value unchanged
    let cases = [
        (ParameterKind::X1, 10, 2_500_000),
        (ParameterKind::X2, -5_000, 5_000),
        (ParameterKind::X3, 10, 1_000_000),
        (ParameterKind::X4, 500, 10_000),
        (ParameterKind::X5, -4_000, 4_000),
        (ParameterKind::X6, 10, 20_000),
    ];
    for (kind, min, max) in cases {
        assert_eq!(kind.min_value(), min);
        assert_eq!(kind.max_value(), max);
        let lo = Parameter::new(kind, min).unwrap();
        assert_eq!(lo.value(), min);
        assert_eq!(lo.kind(), kind);
        let hi = Parameter::new(kind, max).unwrap();
        assert_eq!(hi.value(), max);
        let mid = Parameter::new(kind, (min + max) / 2).unwrap();
        assert_eq!(mid.value(), (min + max) / 2);
        assert!(Parameter::new(kind, min - 1).is_err());
        assert!(Parameter::new(kind, max + 1).is_err());
    }
}

#[test]
fn parameter_labels() {
    assert_eq!(ParameterKind::X1.unit(), "mm");
    assert_eq!(ParameterKind::X4.unit(), "days");
    assert_eq!(ParameterKind::X5.unit(), "-");
    assert_eq!(
        ParameterKind::X1.description(),
        "production store capacity (X1)"
    );
    assert_eq!(
        ParameterKind::X6.description(),
        "time constant of exponential store (X6)"
    );
}

#[test]
fn parameter_range_accepts_reversed_bounds() {
    // the range validates each bound against the absolute limits only; a
    // reversed pair is deliberately accepted
    let p = ParameterRange::new(ParameterKind::X2, 3_000, -3_000).unwrap();
    assert_eq!(p.lower_bound(), 3_000);
    assert_eq!(p.upper_bound(), -3_000);
}

#[test]
fn catchment_data_checks_kinds() {
    let c = CatchmentData::new(
        1_000,
        x(ParameterKind::X1, 1_250_000),
        x(ParameterKind::X2, 300),
        x(ParameterKind::X3, 500_000),
        x(ParameterKind::X4, 5_200),
        x(ParameterKind::X5, 2_000),
        x(ParameterKind::X6, 10_000),
        None,
    )
    .unwrap();
    assert_eq!(c.x4.value(), 5_200);

    let bad = CatchmentData::new(
        1_000,
        x(ParameterKind::X2, 300),
        x(ParameterKind::X2, 300),
        x(ParameterKind::X3, 500_000),
        x(ParameterKind::X4, 5_200),
        x(ParameterKind::X5, 2_000),
        x(ParameterKind::X6, 10_000),
        None,
    );
    assert!(matches!(
        bad,
        Err(LoadModelError::WrongParameterKind(
            ParameterKind::X1,
            ParameterKind::X2
        ))
    ));
}
