//! Core logic of a six-parameter daily rainfall-runoff model: validated model
//! parameters, run-period planning, unit-hydrograph bookkeeping and exact
//! goodness-of-fit statistics on quantised flow series.

pub mod calibration;
pub mod error;
pub mod inputs;
pub mod metric;
pub mod model;
pub mod parameter;
pub mod ratio;
pub mod unit_hydrograph;
pub mod utils;
