//! The six free parameters of the model.
//!
//! Each parameter is a bounded quantity with a fixed valid range, a unit
//! label and a description.  Values are carried in thousandths of the
//! parameter's unit, so that every bound is exact: a value `v` stands for
//! `v / 1000` units.

use vstd::prelude::*;
use crate::error::LoadModelError;

verus! {

/// Identifies one of the six free parameters of the model.
#[derive(Debug, Clone, Copy, PartialEq, Eq, Structural)]
pub enum ParameterKind {
    /// Maximum capacity of the production store (mm).
    X1,
    /// Inter-catchment (or groundwater) exchange coefficient (mm/day).
    X2,
    /// One-day-ahead maximum capacity of the routing store (mm).
    X3,
    /// Time base of the unit hydrograph (days).
    X4,
    /// Inter-catchment exchange threshold (dimensionless).
    X5,
    /// Time constant of the exponential store (mm).
    X6,
}

impl ParameterKind {
    /// The smallest admissible value, in thousandths of the unit.
    pub open spec fn spec_min_value(self) -> i64 {
        match self {
            ParameterKind::X1 => 10,
            ParameterKind::X2 => -5_000i64,
            ParameterKind::X3 => 10,
            ParameterKind::X4 => 500,
            ParameterKind::X5 => -4_000i64,
            ParameterKind::X6 => 10,
        }
    }

    /// The largest admissible value, in thousandths of the unit.
    pub open spec fn spec_max_value(self) -> i64 {
        match self {
            ParameterKind::X1 => 2_500_000,
            ParameterKind::X2 => 5_000,
            ParameterKind::X3 => 1_000_000,
            ParameterKind::X4 => 10_000,
            ParameterKind::X5 => 4_000,
            ParameterKind::X6 => 20_000,
        }
    }

    /// Return the parameter minimum value, in thousandths of the unit.
    pub fn min_value(&self) -> (r: i64)
        ensures
            r == self.spec_min_value(),
    {
        match self {
            ParameterKind::X1 => 10,
            ParameterKind::X2 => -5_000i64,
            ParameterKind::X3 => 10,
            ParameterKind::X4 => 500,
            ParameterKind::X5 => -4_000i64,
            ParameterKind::X6 => 10,
        }
    }

    /// Return the parameter maximum value, in thousandths of the unit.
    pub fn max_value(&self) -> (r: i64)
        ensures
            r == self.spec_max_value(),
    {
        match self {
            ParameterKind::X1 => 2_500_000,
            ParameterKind::X2 => 5_000,
            ParameterKind::X3 => 1_000_000,
            ParameterKind::X4 => 10_000,
            ParameterKind::X5 => 4_000,
            ParameterKind::X6 => 20_000,
        }
    }

    /// Return the parameter unit of measurement.
    pub fn unit(&self) -> &'static str {
        match self {
            ParameterKind::X1 => "mm",
            ParameterKind::X2 => "mm/day",
            ParameterKind::X3 => "mm",
            ParameterKind::X4 => "days",
            ParameterKind::X5 => "-",
            ParameterKind::X6 => "mm",
        }
    }

    /// Return the parameter description.
    pub fn description(&self) -> &'static str {
        match self {
            ParameterKind::X1 => "production store capacity (X1)",
            ParameterKind::X2 => "inter-catchment exchange coefficient (X2)",
            ParameterKind::X3 => "routing store capacity (X3)",
            ParameterKind::X4 => "time base of unit hydrograph (X4)",
            ParameterKind::X5 => "inter-catchment exchange threshold (X5)",
            ParameterKind::X6 => "time constant of exponential store (X6)",
        }
    }
}

/// One validated model parameter: a kind together with a value that lies
/// inside the kind's fixed range.  Immutable once constructed.
#[derive(Debug, Clone, Copy, PartialEq, Eq, Structural)]
pub struct Parameter {
    kind: ParameterKind,
    value: i64,
}

impl Parameter {
    /// The kind this value belongs to.
    pub closed spec fn spec_kind(self) -> ParameterKind {
        self.kind
    }

    /// The carried value, in thousandths of the kind's unit.
    pub closed spec fn spec_value(self) -> i64 {
        self.value
    }

    /// A parameter is valid when its value lies inside its kind's range.
    pub open spec fn is_valid(self) -> bool {
        self.spec_kind().spec_min_value() <= self.spec_value()
            <= self.spec_kind().spec_max_value()
    }

    /// Build a parameter of the given kind, in thousandths of the unit.
    /// Construction fails when the value leaves the kind's range, naming the
    /// violated bound.
    pub fn new(kind: ParameterKind, value: i64) -> (r: Result<Parameter, LoadModelError>)
        ensures
            kind.spec_min_value() <= value <= kind.spec_max_value() ==> r is Ok
                && r->Ok_0.spec_kind() == kind && r->Ok_0.spec_value() == value,
            value < kind.spec_min_value() ==> r == Err::<Parameter, LoadModelError>(
                LoadModelError::ParameterTooSmall(kind, kind.spec_min_value()),
            ),
            value > kind.spec_max_value() ==> r == Err::<Parameter, LoadModelError>(
                LoadModelError::ParameterTooLarge(kind, kind.spec_max_value()),
            ),
            r is Ok ==> r->Ok_0.is_valid(),
    {
        let min = kind.min_value();
        let max = kind.max_value();
        if value < min {
            Err(LoadModelError::ParameterTooSmall(kind, min))
        } else if value > max {
            Err(LoadModelError::ParameterTooLarge(kind, max))
        } else {
            Ok(Parameter { kind, value })
        }
    }

    /// Return the parameter kind.
    pub fn kind(&self) -> (r: ParameterKind)
        ensures
            r == self.spec_kind(),
    {
        self.kind
    }

    /// Return the parameter value, in thousandths of the kind's unit.
    pub fn value(&self) -> (r: i64)
        ensures
            r == self.spec_value(),
    {
        self.value
    }
}

/// The range of values one parameter may take during calibration sampling.
/// Both bounds are validated against the parameter's absolute range; the pair
/// itself is deliberately not ordered (see `ParameterRange::new`).
#[derive(Debug, Clone, Copy, PartialEq, Eq, Structural)]
pub struct ParameterRange {
    kind: ParameterKind,
    lower_bound: i64,
    upper_bound: i64,
}

impl ParameterRange {
    /// The kind this range belongs to.
    pub closed spec fn spec_kind(self) -> ParameterKind {
        self.kind
    }

    /// The lower sampling bound, in thousandths of the kind's unit.
    pub closed spec fn spec_lower_bound(self) -> i64 {
        self.lower_bound
    }

    /// The upper sampling bound, in thousandths of the kind's unit.
    pub closed spec fn spec_upper_bound(self) -> i64 {
        self.upper_bound
    }

    /// A range is valid when both bounds lie inside the kind's absolute
    /// range.
    pub open spec fn is_valid(self) -> bool {
        &&& self.spec_kind().spec_min_value() <= self.spec_lower_bound()
        &&& self.spec_upper_bound() <= self.spec_kind().spec_max_value()
    }

    /// Build a sampling range for the given kind, in thousandths of the unit.
    /// Construction fails when the lower bound undercuts the parameter's
    /// minimum or the upper bound exceeds the parameter's maximum.  It does
    /// not require `lower_bound <= upper_bound`: a reversed pair is accepted
    /// here and only matters to the sampler fed with it.
    pub fn new(kind: ParameterKind, lower_bound: i64, upper_bound: i64) -> (r: Result<
        ParameterRange,
        LoadModelError,
    >)
        ensures
            kind.spec_min_value() <= lower_bound && upper_bound <= kind.spec_max_value() ==> r
                is Ok && r->Ok_0.spec_kind() == kind && r->Ok_0.spec_lower_bound() == lower_bound
                && r->Ok_0.spec_upper_bound() == upper_bound,
            lower_bound < kind.spec_min_value() ==> r == Err::<ParameterRange, LoadModelError>(
                LoadModelError::ParameterTooSmallLowerBound(
                    lower_bound,
                    kind,
                    kind.spec_min_value(),
                ),
            ),
            lower_bound >= kind.spec_min_value() && upper_bound > kind.spec_max_value() ==> r
                == Err::<ParameterRange, LoadModelError>(
                LoadModelError::ParameterTooLargeUpperBound(
                    upper_bound,
                    kind,
                    kind.spec_max_value(),
                ),
            ),
    {
        let min = kind.min_value();
        let max = kind.max_value();
        if lower_bound < min {
            Err(LoadModelError::ParameterTooSmallLowerBound(lower_bound, kind, min))
        } else if upper_bound > max {
            Err(LoadModelError::ParameterTooLargeUpperBound(upper_bound, kind, max))
        } else {
            Ok(ParameterRange { kind, lower_bound, upper_bound })
        }
    }

    /// Return the lower sampling bound, in thousandths of the kind's unit.
    pub fn lower_bound(&self) -> (r: i64)
        ensures
            r == self.spec_lower_bound(),
    {
        self.lower_bound
    }

    /// Return the upper sampling bound, in thousandths of the kind's unit.
    pub fn upper_bound(&self) -> (r: i64)
        ensures
            r == self.spec_upper_bound(),
    {
        self.upper_bound
    }

    /// Return the range kind.
    pub fn kind(&self) -> (r: ParameterKind)
        ensures
            r == self.spec_kind(),
    {
        self.kind
    }
}

} // verus!
