//! Error taxonomy of the model: configuration errors raised while a model is
//! assembled, and run-time errors raised while it advances or is calibrated.
//!
//! Every variant carries structured data (the parameter kind, the violated
//! bound in thousandths, a day number or an index list) so that a caller can
//! locate the offending input without inspecting internal state.

use vstd::prelude::*;
use crate::parameter::ParameterKind;

verus! {

/// Names one of the daily input series handed to the model.
#[derive(Debug, Clone, Copy, PartialEq, Eq, Structural)]
pub enum SeriesName {
    Precipitation,
    Evapotranspiration,
    ObservedRunOff,
}

/// Names one of the dates that frame a model run.
#[derive(Debug, Clone, Copy, PartialEq, Eq, Structural)]
pub enum DateName {
    RunStartDate,
    RunEndDate,
    WarmupStartDate,
    WarmupEndDate,
}

/// Raised when a time range cannot be built.
#[derive(Debug, Clone)]
pub enum ModelPeriodError {
    /// The end day number must be larger than the start day number; the pair
    /// `(start, end)` that violated the rule is carried along.
    DateTooSmall(i64, i64),
}

/// Raised while the model inputs are validated, before any simulation runs.
#[derive(Debug, Clone)]
pub enum LoadModelError {
    /// A parameter value lies under the minimum threshold carried here
    /// (in thousandths of the parameter's unit).
    ParameterTooSmall(ParameterKind, i64),
    /// A parameter value lies over the maximum threshold carried here
    /// (in thousandths of the parameter's unit).
    ParameterTooLarge(ParameterKind, i64),
    /// A calibration range's lower bound lies under the parameter's minimum
    /// threshold; the fields are the lower bound, the parameter and the
    /// threshold.
    ParameterTooSmallLowerBound(i64, ParameterKind, i64),
    /// A calibration range's upper bound lies over the parameter's maximum
    /// threshold; the fields are the upper bound, the parameter and the
    /// threshold.
    ParameterTooLargeUpperBound(i64, ParameterKind, i64),
    /// A parameter of the wrong kind sits in a slot of a catchment
    /// configuration; the fields are the expected and the received kind.
    WrongParameterKind(ParameterKind, ParameterKind),
    /// The time vector and the named series have different lengths.
    MismatchedLength(SeriesName),
    /// The time vector skips or repeats a day.
    NotContinuousDates,
    /// The named date leaves the supplied time vector: the run start must not
    /// fall before the first date, the run end not after the last date.
    DateOutsideTVector(DateName),
    /// The named warm-up date does not precede the run start date.
    DateTooSmall(DateName),
    /// The warm-up period (its end day number is the first field) is not
    /// directly before the model run period (its start day number is the
    /// second field).
    TooFarWarmUpPeriod(i64, i64),
    /// The destination folder does not exist.
    DestinationNotFound(String),
    /// The named series misses a value at each of the carried indices.
    NanData(SeriesName, Vec<usize>),
}

/// Raised when a statistic is asked of series that cannot be compared.
#[derive(Debug, Clone, Copy, PartialEq, Eq, Structural)]
pub enum MetricError {
    /// The two series have different lengths; the fields carry both.
    MismatchedLength(usize, usize),
}

/// Raised while a model runs or is calibrated.
#[derive(Debug, Clone)]
pub enum RunModelError {
    /// The destination folder cannot be created.
    DestinationNotWritable(String),
    /// The run-off conversion factor must be larger than 0.
    WrongConversion(),
    /// The simulation end date was reached and the model cannot advance any
    /// more; this terminates the step loop and is not a real failure.
    ReachedSimulationEnd(),
    /// The simulation metrics cannot be calculated.
    CannotCalculateMetrics(String),
    /// One calibration sample failed; the fields are the sample index and the
    /// underlying cause.
    CalibrationError(usize, String),
}

} // verus!
