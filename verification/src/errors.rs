use vstd::prelude::*;

verus! {

/// Everything that can go wrong with one search call. All variants describe
/// the input; none of them is retryable.
#[derive(Clone, Copy, Debug, PartialEq, Eq, Structural)]
pub enum InputDataError {
    /// Coordinate, time (or altitude) series have different lengths.
    InconsistentLength,
    /// Fewer than two usable (non-missing) samples remain.
    TooFewDataPoints,
    /// The whole trace is shorter than the requested section.
    DistanceTooSmall,
    /// The scan finished without any window passing the candidacy test.
    NoSectionFound,
    /// The requested section length is not positive.
    InvalidDesiredDistance,
}

} // verus!
