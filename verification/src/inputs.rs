//! Configuration values handed to the simulator: time ranges, initial store
//! levels, the run-off output unit and the per-catchment parameter set.
//!
//! Dates are carried as day numbers: consecutive calendar days differ by
//! exactly one, whatever calendar produced them.

use vstd::prelude::*;
use crate::error::{LoadModelError, ModelPeriodError};
use crate::parameter::{Parameter, ParameterKind};
use crate::ratio::Ratio;

verus! {

/// A model time range: the period start day must precede the period end day.
#[derive(Debug, Clone, Copy, PartialEq, Eq, Structural)]
pub struct ModelPeriod {
    /// The period start day number.
    pub start: i64,
    /// The period end day number.
    pub end: i64,
}

impl ModelPeriod {
    /// Build a time range; fails unless the start day precedes the end day.
    pub fn new(start: i64, end: i64) -> (r: Result<ModelPeriod, ModelPeriodError>)
        ensures
            start < end ==> r == Ok::<ModelPeriod, ModelPeriodError>(ModelPeriod { start, end }),
            start >= end ==> r == Err::<ModelPeriod, ModelPeriodError>(
                ModelPeriodError::DateTooSmall(start, end),
            ),
    {
        if start >= end {
            Err(ModelPeriodError::DateTooSmall(start, end))
        } else {
            Ok(ModelPeriod { start, end })
        }
    }
}

/// A closed interval of day numbers, both ends included.  Unlike
/// `ModelPeriod` it may cover a single day, which a warm-up interval shrunk
/// to the front of the record can do.
#[derive(Debug, Clone, Copy, PartialEq, Eq, Structural)]
pub struct DayInterval {
    /// The first day of the interval.
    pub first: i64,
    /// The last day of the interval, at least the first day.
    pub last: i64,
}

impl DayInterval {
    /// The interval is well formed when its first day does not pass its last.
    pub open spec fn is_valid(self) -> bool {
        self.first <= self.last
    }
}

/// The three reservoir levels of one catchment.  At configuration time the
/// production and routing entries are fill fractions of the respective store
/// capacity, in thousandths (300 stands for 30%); the exponential entry is a
/// level in thousandths of a millimetre.
#[derive(Debug, Clone, Copy, PartialEq, Eq, Structural)]
pub struct StoreLevels {
    /// The production store level.
    pub production_store: i64,
    /// The routing store level.
    pub routing_store: i64,
    /// The exponential store level.
    pub exponential_store: i64,
}

impl Default for StoreLevels {
    /// The default fill: 30% of the production store capacity, 50% of the
    /// routing store capacity and an empty exponential store.
    fn default() -> (r: StoreLevels)
        ensures
            r.production_store == 300,
            r.routing_store == 500,
            r.exponential_store == 0,
    {
        StoreLevels { production_store: 300, routing_store: 500, exponential_store: 0 }
    }
}

/// The unit of measurement the combined run-off is converted to.
#[derive(Debug, Clone, Copy, PartialEq, Eq, Structural)]
pub enum RunOffUnit {
    /// Keep the run-off in mm times km2 per day.
    NoConversion,
    /// Convert the run-off to cubic metres per day.
    CubicMetrePerDay,
    /// Convert the run-off to megalitres per day.
    MlPerDay,
    /// Convert the run-off to cubic metres per second.
    CubicMetrePerSecond,
}

impl RunOffUnit {
    /// The exact conversion factor multiplied into the run-off data.
    pub open spec fn spec_conv_factor(self) -> Ratio {
        match self {
            RunOffUnit::NoConversion => Ratio { num: 1, den: 1 },
            RunOffUnit::CubicMetrePerDay => Ratio { num: 1, den: 1000 },
            RunOffUnit::MlPerDay => Ratio { num: 1, den: 1 },
            RunOffUnit::CubicMetrePerSecond => Ratio { num: 86400, den: 1000 },
        }
    }

    /// Get the conversion factor to multiply with the run-off data.  Every
    /// unit's factor is strictly positive.
    pub fn conv_factor(&self) -> (r: Ratio)
        ensures
            r == self.spec_conv_factor(),
            r.num > 0 && r.den > 0,
    {
        match self {
            RunOffUnit::NoConversion => Ratio { num: 1, den: 1 },
            RunOffUnit::CubicMetrePerDay => Ratio { num: 1, den: 1000 },
            RunOffUnit::MlPerDay => Ratio { num: 1, den: 1 },
            RunOffUnit::CubicMetrePerSecond => Ratio { num: 86400, den: 1000 },
        }
    }

    /// Get the conversion factor unit.
    pub fn unit_label(&self) -> &'static str {
        match self {
            RunOffUnit::NoConversion => "-",
            RunOffUnit::CubicMetrePerDay => "m3/d",
            RunOffUnit::MlPerDay => "Ml/d",
            RunOffUnit::CubicMetrePerSecond => "m3/s",
        }
    }
}

/// The configuration of one catchment or hydrological unit: its area (in
/// thousandths of a square kilometre), the six model parameters and optional
/// initial store levels.
#[derive(Debug, Clone, Copy, PartialEq, Eq, Structural)]
pub struct CatchmentData {
    /// The catchment or sub-catchment area, in thousandths of a km2.
    pub area: i64,
    /// Maximum capacity of the production store.
    pub x1: Parameter,
    /// Inter-catchment exchange coefficient.
    pub x2: Parameter,
    /// One-day-ahead maximum capacity of the routing store.
    pub x3: Parameter,
    /// Time base of the unit hydrograph.
    pub x4: Parameter,
    /// Inter-catchment exchange threshold.
    pub x5: Parameter,
    /// Time constant of the exponential store.
    pub x6: Parameter,
    /// The initial store levels; the default levels apply when absent.
    pub store_levels: Option<StoreLevels>,
}

impl CatchmentData {
    /// Every slot holds a parameter of the matching kind.
    pub open spec fn kinds_match(self) -> bool {
        &&& self.x1.spec_kind() == ParameterKind::X1
        &&& self.x2.spec_kind() == ParameterKind::X2
        &&& self.x3.spec_kind() == ParameterKind::X3
        &&& self.x4.spec_kind() == ParameterKind::X4
        &&& self.x5.spec_kind() == ParameterKind::X5
        &&& self.x6.spec_kind() == ParameterKind::X6
    }

    /// Assemble the configuration of one catchment; fails when a parameter
    /// of the wrong kind sits in one of the six slots, naming the expected
    /// and the received kind.
    pub fn new(
        area: i64,
        x1: Parameter,
        x2: Parameter,
        x3: Parameter,
        x4: Parameter,
        x5: Parameter,
        x6: Parameter,
        store_levels: Option<StoreLevels>,
    ) -> (r: Result<CatchmentData, LoadModelError>)
        ensures
            r is Ok <==> {
                let c = CatchmentData { area, x1, x2, x3, x4, x5, x6, store_levels };
                c.kinds_match()
            },
            r is Ok ==> r->Ok_0 == (CatchmentData { area, x1, x2, x3, x4, x5, x6, store_levels }),
            r is Err ==> r->Err_0 is WrongParameterKind,
    {
        if x1.kind() != ParameterKind::X1 {
            Err(LoadModelError::WrongParameterKind(ParameterKind::X1, x1.kind()))
        } else if x2.kind() != ParameterKind::X2 {
            Err(LoadModelError::WrongParameterKind(ParameterKind::X2, x2.kind()))
        } else if x3.kind() != ParameterKind::X3 {
            Err(LoadModelError::WrongParameterKind(ParameterKind::X3, x3.kind()))
        } else if x4.kind() != ParameterKind::X4 {
            Err(LoadModelError::WrongParameterKind(ParameterKind::X4, x4.kind()))
        } else if x5.kind() != ParameterKind::X5 {
            Err(LoadModelError::WrongParameterKind(ParameterKind::X5, x5.kind()))
        } else if x6.kind() != ParameterKind::X6 {
            Err(LoadModelError::WrongParameterKind(ParameterKind::X6, x6.kind()))
        } else {
            Ok(CatchmentData { area, x1, x2, x3, x4, x5, x6, store_levels })
        }
    }
}

} // verus!
