use vstd::prelude::*;

verus! {

/// Largest numerator or denominator a tolerance fraction may carry; keeps the
/// cross-multiplied band checks within `i128`.
pub const MAX_TOLERANCE_SCALE: u64 = 1_000_000_000_000;

/// Most samples one trace may hold.
pub const MAX_SERIES_LEN: u64 = 10_000_000;

/// Largest altitude magnitude, in millimeters.
pub const MAX_ALTITUDE_MM: i64 = 100_000_000_000;

/// Largest timestamp magnitude, in milliseconds.
pub const MAX_TIMESTAMP_MS: i64 = 1_000_000_000_000_000;

/// Largest distance between two consecutive samples, in millimeters; wide
/// enough for half the earth's circumference, the longest geodesic step a
/// corrupt fix can produce.
pub const MAX_DISTANCE_STEP_MM: u64 = 21_000_000_000;

/// Largest cumulative distance, in millimeters: a full-length trace taking
/// the largest step between every pair of samples.
pub const MAX_DISTANCE_MM: u64 = 210_000_000_000_000_000;

/// An exact non-negative rational, used for tolerances and for the metric
/// values the search maximizes (a distance over a duration). Values are
/// compared by cross multiplication, so no precision is lost and no division
/// has to be guarded.
#[derive(Clone, Copy, Debug, PartialEq, Eq, Structural)]
pub struct Fraction {
    pub num: u64,
    pub den: u64,
}

impl Fraction {
    /// A usable fraction: positive denominator, both parts small enough for
    /// the band arithmetic.
    pub open spec fn wf(&self) -> bool {
        &&& 1 <= self.den <= MAX_TOLERANCE_SCALE
        &&& self.num <= MAX_TOLERANCE_SCALE
    }

    pub open spec fn spec_zero() -> Fraction {
        Fraction { num: 0, den: 1 }
    }

    /// The canonical zero value, `0/1`.
    pub fn zero() -> (r: Fraction)
        ensures
            r == Fraction::spec_zero(),
    {
        Fraction { num: 0, den: 1 }
    }

    /// Exact rational comparison: `a/b > c/d` iff `a*d > c*b`.
    pub open spec fn spec_gt(a: Fraction, b: Fraction) -> bool {
        a.num * b.den > b.num * a.den
    }

    /// Only a fraction with a positive numerator can exceed another one.
    pub proof fn lemma_gt_implies_pos(a: Fraction, b: Fraction)
        requires
            Fraction::spec_gt(a, b),
        ensures
            a.num > 0,
    {
        assert(a.num > 0) by (nonlinear_arith)
            requires
                a.num * b.den > b.num * a.den,
                a.num >= 0,
                b.num >= 0,
                a.den >= 0,
                b.den >= 0,
        ;
    }

    pub fn gt(&self, other: &Fraction) -> (r: bool)
        ensures
            r == Fraction::spec_gt(*self, *other),
    {
        let a = self.num as u128;
        let b = other.den as u128;
        let c = other.num as u128;
        let d = self.den as u128;
        proof {
            assert(a * b <= (u64::MAX as u128) * (u64::MAX as u128) && c * d <= (u64::MAX as u128)
                * (u64::MAX as u128)) by (nonlinear_arith)
                requires
                    a <= u64::MAX as u128,
                    b <= u64::MAX as u128,
                    c <= u64::MAX as u128,
                    d <= u64::MAX as u128,
            ;
        }
        a * b > c * d
    }
}

/// One GPS fix in fixed point (nanodegrees). A component is `None` when the
/// tracker reported no value for it; the whole coordinate counts as missing
/// as soon as either component is missing.
#[derive(Clone, Copy, Debug, PartialEq)]
pub struct Coordinate {
    pub lat: Option<i64>,
    pub lon: Option<i64>,
}

/// Timestamps in milliseconds; `None` marks a missing sample.
#[derive(Debug, PartialEq)]
pub struct Times {
    pub values: Vec<Option<i64>>,
}

/// Cumulative distances in millimeters, one entry per sample.
#[derive(Debug, PartialEq)]
pub struct Distances {
    pub values: Vec<u64>,
}

/// Altitudes in millimeters; `None` marks a missing sample.
#[derive(Debug, PartialEq)]
pub struct Altitudes {
    pub values: Vec<Option<i64>>,
}

/// The best section found so far: its index range, its metric value and a
/// flag telling whether any candidate window was ever recorded.
#[derive(Clone, Copy, Debug, PartialEq, Eq, Structural)]
pub struct TargetSection {
    pub start: u32,
    pub end: u32,
    pub target_value: Fraction,
    pub valid: bool,
}

impl TargetSection {
    /// The sentinel the search starts from: an empty, invalid window with a
    /// zero metric value.
    pub open spec fn spec_initial() -> TargetSection {
        TargetSection { start: 0, end: 0, target_value: Fraction::spec_zero(), valid: false }
    }
}

impl Default for TargetSection {
    fn default() -> (r: TargetSection)
        ensures
            r == TargetSection::spec_initial(),
    {
        TargetSection { start: 0, end: 0, target_value: Fraction { num: 0, den: 1 }, valid: false }
    }
}

/// The window the two-pointer scan moves over the samples, together with the
/// values recomputed for it on every step.
#[derive(Clone, Copy, Debug, PartialEq)]
pub struct WindowSection {
    pub start: u32,
    pub end: u32,
    pub distance: u64,
    pub velocity: Fraction,
    pub climb: Fraction,
}

impl WindowSection {
    pub open spec fn spec_initial() -> WindowSection {
        WindowSection {
            start: 0,
            end: 0,
            distance: 0,
            velocity: Fraction::spec_zero(),
            climb: Fraction::spec_zero(),
        }
    }
}

impl Default for WindowSection {
    fn default() -> (r: WindowSection)
        ensures
            r == WindowSection::spec_initial(),
    {
        WindowSection {
            start: 0,
            end: 0,
            distance: 0,
            velocity: Fraction { num: 0, den: 1 },
            climb: Fraction { num: 0, den: 1 },
        }
    }
}

} // verus!
