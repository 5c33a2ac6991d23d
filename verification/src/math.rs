use vstd::prelude::*;

use crate::dtypes::{Coordinate, Fraction, MAX_ALTITUDE_MM, MAX_SERIES_LEN};

verus! {

/// A sample that can be missing. Mirrors the role NaN plays in floating-point
/// telemetry: `spec_nan` is the mathematical notion, `nan` the executable one.
pub trait IsNaN: Sized {
    spec fn spec_nan(&self) -> bool;

    fn nan(&self) -> (r: bool)
        ensures
            r == self.spec_nan(),
    ;
}

impl IsNaN for Option<i64> {
    open spec fn spec_nan(&self) -> bool {
        self is None
    }

    fn nan(&self) -> (r: bool) {
        self.is_none()
    }
}

impl IsNaN for Coordinate {
    open spec fn spec_nan(&self) -> bool {
        self.lat is None || self.lon is None
    }

    fn nan(&self) -> (r: bool) {
        self.lat.is_none() || self.lon.is_none()
    }
}

/// How many samples of `s` are present (not missing).
pub open spec fn valid_count<T: IsNaN>(s: Seq<T>) -> int
    decreases s.len(),
{
    if s.len() == 0 {
        0
    } else {
        valid_count(s.drop_last()) + if s.last().spec_nan() {
            0int
        } else {
            1int
        }
    }
}

pub proof fn lemma_valid_count_le_len<T: IsNaN>(s: Seq<T>)
    ensures
        0 <= valid_count(s) <= s.len(),
    decreases s.len(),
{
    if s.len() > 0 {
        lemma_valid_count_le_len(s.drop_last());
    }
}

/// The sum of the present values of `s`.
pub open spec fn valid_sum(s: Seq<Option<i64>>) -> int
    decreases s.len(),
{
    if s.len() == 0 {
        0
    } else {
        valid_sum(s.drop_last()) + match s.last() {
            Some(v) => v as int,
            None => 0int,
        }
    }
}

/// Counts the present samples of a series.
pub fn count_valid<T: IsNaN>(values: &Vec<T>) -> (r: usize)
    ensures
        r == valid_count(values@),
{
    let n: usize = values.len();
    let mut count: usize = 0;
    let mut i: usize = 0;
    while i < n
        invariant
            n == values@.len(),
            i <= n,
            count == valid_count(values@.take(i as int)),
            count <= i,
        decreases n - i,
    {
        proof {
            assert(values@.take(i + 1).drop_last() =~= values@.take(i as int));
            assert(values@.take(i + 1).last() == values@[i as int]);
        }
        if !values[i].nan() {
            count = count + 1;
        }
        i += 1;
    }
    proof {
        assert(values@.take(n as int) =~= values@);
    }
    count
}

/// The sum of a bounded series stays within the bound times the number of
/// present samples.
pub proof fn lemma_valid_sum_bound(s: Seq<Option<i64>>)
    requires
        opt_seq_bounded(s, MAX_ALTITUDE_MM as int),
    ensures
        -valid_count(s) * (MAX_ALTITUDE_MM as int) <= valid_sum(s) <= valid_count(s) * (
        MAX_ALTITUDE_MM as int),
    decreases s.len(),
{
    if s.len() > 0 {
        assert(opt_seq_bounded(s.drop_last(), MAX_ALTITUDE_MM as int)) by {
            assert(forall|i: int|
                0 <= i < s.len() - 1 ==> s.drop_last()[i] == s[i]);
        }
        lemma_valid_sum_bound(s.drop_last());
        assert(s.last() == s[s.len() - 1]);
    }
}

/// All present values of `s` lie within `[-bound, bound]`.
pub open spec fn opt_seq_bounded(s: Seq<Option<i64>>, bound: int) -> bool {
    forall|i: int| 0 <= i < s.len() ==> (#[trigger] s[i] matches Some(v) ==> -bound <= v <= bound)
}

/// Index of the last present sample at or before `i`, or `-1` if all samples
/// up to `i` are missing.
pub open spec fn prev_valid<T: IsNaN>(s: Seq<T>, i: int) -> int
    decreases i,
        when 0 <= i < s.len()
{
    if !s[i].spec_nan() {
        i
    } else if i == 0 {
        -1
    } else {
        prev_valid(s, i - 1)
    }
}

/// Index of the first present sample at or after `i`, or `s.len()` if none.
pub open spec fn first_valid_from<T: IsNaN>(s: Seq<T>, i: int) -> int
    decreases s.len() - i,
        when 0 <= i <= s.len()
{
    if i >= s.len() {
        s.len() as int
    } else if !s[i].spec_nan() {
        i
    } else {
        first_valid_from(s, i + 1)
    }
}

/// What gap filling leaves at index `i`: the sample itself if present, else
/// the nearest preceding present sample, else (for a run of missing samples
/// at the very start) the first present sample of the series, else — when the
/// whole series is missing — the sample unchanged.
pub open spec fn fill_value<T: IsNaN>(s: Seq<T>, i: int) -> T {
    if prev_valid(s, i) >= 0 {
        s[prev_valid(s, i)]
    } else if first_valid_from(s, 0) < s.len() {
        s[first_valid_from(s, 0)]
    } else {
        s[i]
    }
}

/// The whole series after gap filling.
pub open spec fn spec_filled<T: IsNaN>(s: Seq<T>) -> Seq<T> {
    Seq::new(s.len(), |i: int| fill_value(s, i))
}

/// The time a window `[s, e]` spans, when both of its endpoint timestamps
/// are present.
pub open spec fn spec_duration(times: Seq<Option<i64>>, s: int, e: int) -> Option<int> {
    match (times[s], times[e]) {
        (Some(a), Some(b)) => Some(b - a),
        _ => None,
    }
}

pub proof fn lemma_prev_valid_range<T: IsNaN>(s: Seq<T>, i: int)
    requires
        0 <= i < s.len(),
    ensures
        -1 <= prev_valid(s, i) <= i,
        prev_valid(s, i) >= 0 ==> !s[prev_valid(s, i)].spec_nan(),
        prev_valid(s, i) == -1 ==> forall|j: int| 0 <= j <= i ==> s[j].spec_nan(),
    decreases i,
{
    if s[i].spec_nan() && i > 0 {
        lemma_prev_valid_range(s, i - 1);
    }
}

pub proof fn lemma_first_valid_range<T: IsNaN>(s: Seq<T>, i: int)
    requires
        0 <= i <= s.len(),
    ensures
        i <= first_valid_from(s, i) <= s.len(),
        first_valid_from(s, i) < s.len() ==> !s[first_valid_from(s, i)].spec_nan(),
        forall|j: int| i <= j < first_valid_from(s, i) ==> s[j].spec_nan(),
    decreases s.len() - i,
{
    if i < s.len() && s[i].spec_nan() {
        lemma_first_valid_range(s, i + 1);
    }
}

/// Gap filling keeps every present value inside the bound the input obeyed.
pub proof fn lemma_fill_bounded(s: Seq<Option<i64>>, bound: int)
    requires
        opt_seq_bounded(s, bound),
    ensures
        opt_seq_bounded(spec_filled(s), bound),
{
    let filled = spec_filled(s);
    assert forall|i: int|
        0 <= i < filled.len() implies (#[trigger] filled[i] matches Some(v) ==> -bound <= v
        <= bound) by {
        lemma_prev_valid_range(s, i);
        lemma_first_valid_range(s, 0);
    }
}

/// Replaces every missing sample in place: a missing sample takes the value
/// of the nearest preceding present one, and a run of missing samples at the
/// start of the series takes the first present value once one is found. If
/// the whole series is missing it stays unchanged.
pub fn fill_nans<T: IsNaN + Copy>(vec: &mut Vec<T>)
    requires
        old(vec)@.len() >= 1,
    ensures
        final(vec)@.len() == old(vec)@.len(),
        forall|i: int| 0 <= i < final(vec)@.len() ==> final(vec)@[i] == fill_value(old(vec)@, i),
        final(vec)@ == spec_filled(old(vec)@),
{
    let ghost orig = vec@;
    let mut beg_is_null: bool;
    if !vec[0].nan() {
        beg_is_null = false;
    } else {
        beg_is_null = true;
    }
    let n: usize = vec.len();
    let mut i: usize = 0;
    while i < n
        invariant
            n == vec@.len(),
            n == orig.len(),
            1 <= n,
            i <= n,
            forall|j: int| i <= j < n ==> vec@[j] == orig[j],
            beg_is_null ==> forall|j: int| 0 <= j < i ==> orig[j].spec_nan(),
            beg_is_null ==> forall|j: int| 0 <= j < i ==> vec@[j] == orig[j],
            !beg_is_null ==> ((i == 0 && !orig[0].spec_nan()) || (i > 0 && prev_valid(orig, i - 1)
                >= 0)),
            !beg_is_null ==> forall|j: int| 0 <= j < i ==> vec@[j] == fill_value(orig, j),
        decreases n - i,
    {
        if !beg_is_null {
            if vec[i].nan() {
                proof {
                    assert(i > 0) by {
                        if i == 0 {
                            assert(!orig[0].spec_nan());
                        }
                    }
                    assert(prev_valid(orig, i as int) == prev_valid(orig, i - 1));
                    lemma_prev_valid_range(orig, i - 1);
                    assert(fill_value(orig, i as int) == fill_value(orig, i - 1));
                }
                let prev = vec[i - 1];
                vec.set(i, prev);
            } else {
                proof {
                    assert(prev_valid(orig, i as int) == i);
                    assert(fill_value(orig, i as int) == orig[i as int]);
                }
            }
        } else {
            if !vec[i].nan() {
                // first present entry found: backfill everything before it
                let first_normal = vec[i];
                proof {
                    assert(first_valid_from(orig, 0) == i) by {
                        lemma_first_valid_range(orig, 0);
                        if first_valid_from(orig, 0) < i {
                            assert(orig[first_valid_from(orig, 0)].spec_nan());
                        }
                        assert(first_valid_from(orig, 0) >= i);
                        if first_valid_from(orig, 0) > i {
                            assert(orig[i as int].spec_nan());
                        }
                    }
                }
                let mut p: usize = 0;
                while p < i
                    invariant
                        i < n,
                        n == vec@.len(),
                        n == orig.len(),
                        p <= i,
                        first_normal == orig[i as int],
                        !orig[i as int].spec_nan(),
                        forall|j: int| 0 <= j < i ==> orig[j].spec_nan(),
                        forall|j: int| 0 <= j < p ==> vec@[j] == first_normal,
                        forall|j: int| p <= j < n ==> vec@[j] == orig[j],
                    decreases i - p,
                {
                    vec.set(p, first_normal);
                    p += 1;
                }
                beg_is_null = false;
                proof {
                    assert(prev_valid(orig, i as int) == i);
                    assert forall|j: int| 0 <= j <= i implies vec@[j] == fill_value(orig, j) by {
                        lemma_prev_valid_range(orig, j);
                        if j < i {
                            assert(prev_valid(orig, j) == -1) by {
                                if prev_valid(orig, j) >= 0 {
                                    assert(orig[prev_valid(orig, j)].spec_nan());
                                }
                            }
                        }
                    }
                }
            }
        }
        i += 1;
    }
    proof {
        if beg_is_null {
            assert forall|j: int| 0 <= j < n implies vec@[j] == fill_value(orig, j) by {
                lemma_prev_valid_range(orig, j);
                lemma_first_valid_range(orig, 0);
                if prev_valid(orig, j) >= 0 {
                    assert(orig[prev_valid(orig, j)].spec_nan());
                }
                if first_valid_from(orig, 0) < n {
                    assert(orig[first_valid_from(orig, 0)].spec_nan());
                }
            }
        }
        assert(vec@ =~= spec_filled(orig));
    }
}

/// A guarded rate: `amount / duration` as an exact fraction when the duration
/// is known and positive and the amount is positive, and zero otherwise —
/// the fixed-point counterpart of discarding a division result that is not a
/// normal finite positive number.
pub open spec fn spec_guarded_rate(amount: int, duration: Option<int>) -> Fraction {
    match duration {
        Some(ms) => if 0 < ms && 0 < amount {
            Fraction { num: amount as u64, den: ms as u64 }
        } else {
            Fraction::spec_zero()
        },
        None => Fraction::spec_zero(),
    }
}

/// Widens a possibly missing machine integer to a possibly missing
/// mathematical one.
pub open spec fn opt_widen(o: Option<i64>) -> Option<int> {
    match o {
        Some(v) => Some(v as int),
        None => None,
    }
}

/// Speed of a window: gained distance (millimeters) over its duration
/// (milliseconds); zero whenever the duration is missing or not positive, or
/// nothing was gained.
pub fn velocity_equation(distance: &u64, duration: &Option<i64>) -> (r: Fraction)
    ensures
        r == spec_guarded_rate(*distance as int, opt_widen(*duration)),
{
    match duration {
        Some(ms) => {
            if *ms > 0 && *distance > 0 {
                Fraction { num: *distance, den: *ms as u64 }
            } else {
                Fraction::zero()
            }
        },
        None => Fraction::zero(),
    }
}

/// Climb rate of a window: gained altitude (millimeters) over its duration
/// (milliseconds), guarded exactly as `velocity_equation`. Callers report it
/// per minute by scaling the displayed value, which leaves the comparison of
/// windows untouched.
pub fn climb_equation(gained_altitude: &u64, duration: &Option<i64>) -> (r: Fraction)
    ensures
        r == spec_guarded_rate(*gained_altitude as int, opt_widen(*duration)),
{
    match duration {
        Some(ms) => {
            if *ms > 0 && *gained_altitude > 0 {
                Fraction { num: *gained_altitude, den: *ms as u64 }
            } else {
                Fraction::zero()
            }
        },
        None => Fraction::zero(),
    }
}

/// The mean of the present values, as the exact pair (sum, count); `None`
/// when every sample is missing.
pub fn get_average(values: &Vec<Option<i64>>) -> (r: Option<(i64, u64)>)
    requires
        values@.len() <= MAX_SERIES_LEN,
        opt_seq_bounded(values@, MAX_ALTITUDE_MM as int),
    ensures
        r is None <==> valid_count(values@) == 0,
        r matches Some(p) ==> p.0 == valid_sum(values@) && p.1 == valid_count(values@) && p.1 > 0,
{
    let mut sum: i64 = 0;
    let mut count: u64 = 0;
    let n: usize = values.len();
    let mut i: usize = 0;
    while i < n
        invariant
            n == values@.len(),
            n <= MAX_SERIES_LEN,
            opt_seq_bounded(values@, MAX_ALTITUDE_MM as int),
            i <= n,
            count == valid_count(values@.take(i as int)),
            sum == valid_sum(values@.take(i as int)),
            count <= i,
            -(i as int) * (MAX_ALTITUDE_MM as int) <= sum <= (i as int) * (MAX_ALTITUDE_MM as int),
        decreases n - i,
    {
        proof {
            assert(values@.take(i + 1).drop_last() =~= values@.take(i as int));
            assert(values@.take(i + 1).last() == values@[i as int]);
        }
        match values[i] {
            Some(v) => {
                sum = sum + v;
                count = count + 1;
            },
            None => {},
        }
        i += 1;
    }
    proof {
        assert(values@.take(n as int) =~= values@);
    }
    if count == 0 {
        None
    } else {
        Some((sum, count))
    }
}

/// Whether `v` lies outside the band `mean * (1 ± t)`, written without any
/// division: both sides are multiplied by the (positive) sample count and by
/// the tolerance denominator.
pub open spec fn outside_band(v: int, sum: int, count: int, t: Fraction) -> bool {
    ||| v * count * t.den > sum * (t.den + t.num)
    ||| v * count * t.den < sum * (t.den - t.num)
}

/// What outlier removal produces: a present value that lies outside the band
/// around the mean of the present values becomes missing; everything else —
/// including already missing samples — passes through unchanged. (With no
/// present value there is no mean and the series passes through whole.)
pub open spec fn outlier_filtered(s: Seq<Option<i64>>, t: Fraction) -> Seq<Option<i64>> {
    Seq::new(
        s.len(),
        |i: int|
            match s[i] {
                Some(v) => if valid_count(s) > 0 && outside_band(
                    v as int,
                    valid_sum(s),
                    valid_count(s),
                    t,
                ) {
                    None
                } else {
                    Some(v)
                },
                None => None,
            },
    )
}

fn is_outlier(v: i64, sum: i64, count: u64, t: Fraction) -> (r: bool)
    requires
        t.wf(),
        -(MAX_ALTITUDE_MM as int) <= v <= MAX_ALTITUDE_MM as int,
        0 < count <= MAX_SERIES_LEN,
        -(count as int) * (MAX_ALTITUDE_MM as int) <= sum <= (count as int) * (MAX_ALTITUDE_MM
            as int),
    ensures
        r == outside_band(v as int, sum as int, count as int, t),
{
    let vi: i128 = v as i128;
    let ci: i128 = count as i128;
    let di: i128 = t.den as i128;
    let ni: i128 = t.num as i128;
    let si: i128 = sum as i128;
    proof {
        assert(vi * ci <= 1000000000000000000i128 && vi * ci >= -1000000000000000000i128)
            by (nonlinear_arith)
            requires
                -100000000000i128 <= vi <= 100000000000i128,
                0 <= ci <= 10000000i128,
        ;
        assert((vi * ci) * di <= 1000000000000000000000000000000i128 && (vi * ci) * di
            >= -1000000000000000000000000000000i128) by (nonlinear_arith)
            requires
                -1000000000000000000i128 <= vi * ci <= 1000000000000000000i128,
                0 <= di <= 1000000000000i128,
        ;
        assert(si <= 1000000000000000000i128 && si >= -1000000000000000000i128) by (nonlinear_arith)
            requires
                -ci * 100000000000i128 <= si <= ci * 100000000000i128,
                0 < ci <= 10000000i128,
        ;
        assert(si * (di + ni) <= 2000000000000000000000000000000i128 && si * (di + ni)
            >= -2000000000000000000000000000000i128) by (nonlinear_arith)
            requires
                -1000000000000000000i128 <= si <= 1000000000000000000i128,
                0 <= di + ni <= 2000000000000i128,
        ;
        assert(si * (di - ni) <= 2000000000000000000000000000000i128 && si * (di - ni)
            >= -2000000000000000000000000000000i128) by (nonlinear_arith)
            requires
                -1000000000000000000i128 <= si <= 1000000000000000000i128,
                -1000000000000i128 <= di - ni <= 1000000000000i128,
        ;
    }
    let lhs: i128 = vi * ci * di;
    let upper: i128 = si * (di + ni);
    let lower: i128 = si * (di - ni);
    lhs > upper || lhs < lower
}

/// Replaces every present value that strays outside `mean * (1 ± threshold)`
/// with a missing marker; the mean is taken over the present values only.
pub fn remove_outliers(input_vector: &Vec<Option<i64>>, percentage_threshold: Fraction) -> (r: Vec<
    Option<i64>,
>)
    requires
        percentage_threshold.wf(),
        input_vector@.len() <= MAX_SERIES_LEN,
        opt_seq_bounded(input_vector@, MAX_ALTITUDE_MM as int),
    ensures
        r@ == outlier_filtered(input_vector@, percentage_threshold),
{
    let ghost s = input_vector@;
    let average = get_average(input_vector);
    let mut output_vector: Vec<Option<i64>> = Vec::new();
    let n: usize = input_vector.len();
    let mut i: usize = 0;
    while i < n
        invariant
            n == s.len(),
            n <= MAX_SERIES_LEN,
            s == input_vector@,
            opt_seq_bounded(s, MAX_ALTITUDE_MM as int),
            percentage_threshold.wf(),
            i <= n,
            output_vector@.len() == i,
            forall|j: int| 0 <= j < i ==> output_vector@[j] == outlier_filtered(
                s,
                percentage_threshold,
            )[j],
            average is None <==> valid_count(s) == 0,
            average matches Some(p) ==> p.0 == valid_sum(s) && p.1 == valid_count(s) && p.1 > 0,
        decreases n - i,
    {
        match input_vector[i] {
            Some(v) => {
                match average {
                    Some((sum, count)) => {
                        proof {
                            lemma_valid_count_le_len(s);
                            lemma_valid_sum_bound(s);
                        }
                        if is_outlier(v, sum, count, percentage_threshold) {
                            output_vector.push(None);
                        } else {
                            output_vector.push(Some(v));
                        }
                    },
                    None => {
                        output_vector.push(Some(v));
                    },
                }
            },
            None => {
                output_vector.push(None);
            },
        }
        i += 1;
    }
    proof {
        assert(output_vector@ =~= outlier_filtered(s, percentage_threshold));
    }
    output_vector
}

} // verus!
