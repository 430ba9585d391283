//! Calibration support: per-catchment sampling ranges and the assembly of a
//! sampled parameter row into a full catchment configuration.
//!
//! Sample generation itself draws random numbers and is the caller's;
//! everything a sample must satisfy to become a model configuration is
//! decided here.

use vstd::prelude::*;
use crate::error::LoadModelError;
use crate::inputs::CatchmentData;
use crate::parameter::{Parameter, ParameterKind, ParameterRange};

verus! {

/// How many parameter samples a calibration draws when no count is given.
pub const DEFAULT_SAMPLE_SIZE: usize = 200;

/// The sampling ranges of one catchment: its area (in thousandths of a
/// square kilometre) and one range per model parameter.
#[derive(Debug, Clone, Copy, PartialEq, Eq, Structural)]
pub struct CalibrationCatchmentData {
    /// The catchment or sub-catchment area, in thousandths of a km2.
    pub area: i64,
    /// Range for the maximum capacity of the production store.
    pub x1: ParameterRange,
    /// Range for the inter-catchment exchange coefficient.
    pub x2: ParameterRange,
    /// Range for the one-day-ahead maximum capacity of the routing store.
    pub x3: ParameterRange,
    /// Range for the time base of the unit hydrograph.
    pub x4: ParameterRange,
    /// Range for the inter-catchment exchange threshold.
    pub x5: ParameterRange,
    /// Range for the time constant of the exponential store.
    pub x6: ParameterRange,
}

/// Turn one sampled parameter row into a catchment configuration.  The six
/// values arrive in thousandths of each parameter's unit, in the order X1 to
/// X6; each is validated against its parameter's absolute bounds, and the
/// first violation is returned as the error a direct construction would
/// raise.  No initial store levels are set: a calibration run starts from
/// the default fill.
pub fn sample_to_catchment(area: i64, values: &Vec<i64>) -> (r: Result<
    CatchmentData,
    LoadModelError,
>)
    requires
        values@.len() == 6,
    ensures
        r is Ok <==> (forall|k: int|
            0 <= k < 6 ==> kind_at(k).spec_min_value() <= #[trigger] values@[k]
                <= kind_at(k).spec_max_value()),
        r is Ok ==> {
            let c = r->Ok_0;
            &&& c.area == area
            &&& c.store_levels is None
            &&& c.kinds_match()
            &&& c.x1.spec_value() == values@[0]
            &&& c.x2.spec_value() == values@[1]
            &&& c.x3.spec_value() == values@[2]
            &&& c.x4.spec_value() == values@[3]
            &&& c.x5.spec_value() == values@[4]
            &&& c.x6.spec_value() == values@[5]
        },
        r is Err ==> r->Err_0 is ParameterTooSmall || r->Err_0 is ParameterTooLarge,
{
    let x1 = match Parameter::new(ParameterKind::X1, values[0]) {
        Ok(p) => p,
        Err(e) => {
            return Err(e);
        },
    };
    let x2 = match Parameter::new(ParameterKind::X2, values[1]) {
        Ok(p) => p,
        Err(e) => {
            return Err(e);
        },
    };
    let x3 = match Parameter::new(ParameterKind::X3, values[2]) {
        Ok(p) => p,
        Err(e) => {
            return Err(e);
        },
    };
    let x4 = match Parameter::new(ParameterKind::X4, values[3]) {
        Ok(p) => p,
        Err(e) => {
            return Err(e);
        },
    };
    let x5 = match Parameter::new(ParameterKind::X5, values[4]) {
        Ok(p) => p,
        Err(e) => {
            return Err(e);
        },
    };
    let x6 = match Parameter::new(ParameterKind::X6, values[5]) {
        Ok(p) => p,
        Err(e) => {
            return Err(e);
        },
    };
    proof {
        assert forall|k: int|
            0 <= k < 6 implies kind_at(k).spec_min_value() <= #[trigger] values@[k]
            <= kind_at(k).spec_max_value() by {
            assert(kind_at(0) == ParameterKind::X1);
            assert(kind_at(1) == ParameterKind::X2);
            assert(kind_at(2) == ParameterKind::X3);
            assert(kind_at(3) == ParameterKind::X4);
            assert(kind_at(4) == ParameterKind::X5);
            assert(kind_at(5) == ParameterKind::X6);
        }
    }
    Ok(CatchmentData { area, x1, x2, x3, x4, x5, x6, store_levels: None })
}

/// The parameter kind sampled at position `k` of a parameter row.
pub open spec fn kind_at(k: int) -> ParameterKind {
    if k == 0 {
        ParameterKind::X1
    } else if k == 1 {
        ParameterKind::X2
    } else if k == 2 {
        ParameterKind::X3
    } else if k == 3 {
        ParameterKind::X4
    } else if k == 4 {
        ParameterKind::X5
    } else {
        ParameterKind::X6
    }
}

} // verus!
