//! The two unit-hydrograph branches of the model.
//!
//! A unit hydrograph distributes an instantaneous rainfall pulse over a fixed
//! number of future days.  The fast branch keeps 20 ordinates, the slow
//! branch 40.  The ordinate values themselves are smooth functions of the X4
//! time base and live with the numeric kernel; this module fixes the branch
//! sizes and the index bound that a convolution pass may touch, which depends
//! on how many days of simulation have elapsed.

use vstd::prelude::*;

verus! {

/// The unit hydrograph type: the fast branch `T1` or the slow branch `T2`.
#[derive(Debug, Clone, Copy, PartialEq, Eq, Structural)]
pub enum UnitHydrographType {
    T1,
    T2,
}

impl UnitHydrographType {
    /// The number of ordinates the branch keeps.
    pub open spec fn spec_size(self) -> usize {
        match self {
            UnitHydrographType::T1 => 20,
            UnitHydrographType::T2 => 40,
        }
    }

    /// Return the number of ordinates the branch keeps.
    pub fn size(&self) -> (r: usize)
        ensures
            r == self.spec_size(),
    {
        match self {
            UnitHydrographType::T1 => 20,
            UnitHydrographType::T2 => 40,
        }
    }
}

/// How many leading buffer slots one convolution pass shifts, `max_index`
/// being the elapsed-day bound handed in by the simulator: early timesteps
/// may not reference ordinates beyond the elapsed simulation length, and at
/// least one slot always moves.
pub open spec fn spec_convolution_bound(uh_type: UnitHydrographType, max_index: i32) -> int {
    let raw = match uh_type {
        UnitHydrographType::T1 => if max_index + 1 < 19 {
            max_index + 1
        } else {
            19
        },
        UnitHydrographType::T2 => if 2 * (max_index + 1) < 79 {
            2 * (max_index + 1)
        } else {
            79
        },
    };
    if raw < 1 {
        1
    } else {
        raw
    }
}

/// Compute the number of leading buffer slots one convolution pass shifts.
/// The result stays strictly inside the branch buffer whenever `max_index`
/// does not pass the branch size, so the slot after the last shifted one can
/// always be read.
pub fn convolution_bound(uh_type: UnitHydrographType, max_index: i32) -> (r: usize)
    ensures
        r == spec_convolution_bound(uh_type, max_index),
        1 <= r,
        uh_type == UnitHydrographType::T1 ==> r < uh_type.spec_size(),
        uh_type == UnitHydrographType::T2 && max_index < 19 ==> r < uh_type.spec_size(),
{
    let raw: i64 = match uh_type {
        UnitHydrographType::T1 => {
            let capped: i64 = max_index as i64 + 1;
            if capped < 19 {
                capped
            } else {
                19
            }
        },
        UnitHydrographType::T2 => {
            let doubled: i64 = 2 * (max_index as i64 + 1);
            if doubled < 79 {
                doubled
            } else {
                79
            }
        },
    };
    if raw < 1 {
        1
    } else {
        raw as usize
    }
}

} // verus!
