//! Finds the contiguous section of a recorded sports activity that covers a
//! requested distance while maximizing a metric: average speed, or altitude
//! gained per minute. All quantities are fixed point — distances in
//! millimeters, timestamps in milliseconds, altitudes in millimeters,
//! coordinates in nanodegrees — and a missing sample is `None`. Metric
//! values are exact rationals compared by cross multiplication, so the scan
//! needs no guarded floating-point division; the `MAX_*` constants in
//! `dtypes` bound the inputs so that every intermediate product fits its
//! machine integer. The geodesic step between two fixes is handed in by the
//! caller, whose front end runs the trigonometric distance model.

pub mod climb;
pub mod dtypes;
pub mod errors;
pub mod gem_finder;
pub mod math;
pub mod velocity;
