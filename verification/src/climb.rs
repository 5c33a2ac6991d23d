use vstd::prelude::*;

use crate::dtypes::{
    Altitudes, Coordinate, Fraction, TargetSection, Times, WindowSection, MAX_ALTITUDE_MM,
    MAX_DISTANCE_MM, MAX_SERIES_LEN, MAX_TIMESTAMP_MS,
};
use crate::errors::InputDataError;
use crate::gem_finder::{
    distance_in_bounds, increments_bounded, lemma_distances_monotonic, spec_distance_series,
    spec_generic_checks, spec_scan, spec_tolerance_or_default, spec_total, spec_update_best,
    spec_window_distance, InputData, InputView, MetricPolicy,
};
use crate::math::{
    climb_equation, count_valid, fill_nans, lemma_fill_bounded, opt_seq_bounded, opt_widen,
    spec_duration, spec_filled, spec_guarded_rate, valid_count,
};

verus! {

/// The altitude gained over the samples `[j, e)`, walking only the present
/// altitudes and summing the positive steps between consecutive present
/// values; `prev` is the last present value seen before `j`.
pub open spec fn spec_gained_from(
    altitudes: Seq<Option<i64>>,
    prev: Option<int>,
    j: int,
    e: int,
) -> int
    decreases e - j,
        when 0 <= j <= e <= altitudes.len()
{
    if j >= e {
        0
    } else {
        match altitudes[j] {
            None => spec_gained_from(altitudes, prev, j + 1, e),
            Some(v) => (match prev {
                Some(p) => if v > p {
                    v - p
                } else {
                    0int
                },
                None => 0int,
            }) + spec_gained_from(altitudes, Some(v as int), j + 1, e),
        }
    }
}

/// The altitude gained inside the window `[s, e)`: missing samples are
/// skipped, not zero-filled, and only uphill steps count.
pub open spec fn spec_gained(altitudes: Seq<Option<i64>>, s: int, e: int) -> int {
    spec_gained_from(altitudes, None, s, e)
}

#[verifier::rlimit(50)]
proof fn lemma_gained_bounds(altitudes: Seq<Option<i64>>, prev: Option<int>, j: int, e: int)
    requires
        0 <= j <= e <= altitudes.len(),
        opt_seq_bounded(altitudes, MAX_ALTITUDE_MM as int),
        prev matches Some(p) ==> -MAX_ALTITUDE_MM <= p <= MAX_ALTITUDE_MM,
    ensures
        0 <= spec_gained_from(altitudes, prev, j, e) <= (e - j) * (2 * MAX_ALTITUDE_MM as int),
    decreases e - j,
{
    let k = 2 * (MAX_ALTITUDE_MM as int);
    if j < e {
        match altitudes[j] {
            None => {
                lemma_gained_bounds(altitudes, prev, j + 1, e);
                assert(spec_gained_from(altitudes, prev, j, e) == spec_gained_from(
                    altitudes,
                    prev,
                    j + 1,
                    e,
                ));
                assert((e - j - 1) * k <= (e - j) * k) by (nonlinear_arith)
                    requires
                        k >= 0,
                ;
            },
            Some(v) => {
                assert(-MAX_ALTITUDE_MM <= v <= MAX_ALTITUDE_MM);
                lemma_gained_bounds(altitudes, Some(v as int), j + 1, e);
                assert(spec_gained_from(altitudes, prev, j, e) <= k + (e - j - 1) * k);
                assert(k + (e - j - 1) * k == (e - j) * k) by (nonlinear_arith);
            },
        }
    } else {
        assert((e - j) * k == 0) by (nonlinear_arith)
            requires
                e - j == 0,
        ;
    }
    assert(0 <= spec_gained_from(altitudes, prev, j, e) <= (e - j) * k);
}

/// The climb value of a window: gained altitude over duration, guarded like
/// the speed value.
pub open spec fn spec_climb_value(data: InputView, s: int, e: int) -> Fraction {
    spec_guarded_rate(spec_gained(data.altitudes, s, e), spec_duration(data.times, s, e))
}

/// Sums the positive altitude steps between consecutive present samples in
/// `[start, end)`.
pub fn get_gained_altitude_in_section(altitudes: &Vec<Option<i64>>, start: usize, end: usize) -> (r:
    u64)
    requires
        start <= end <= altitudes@.len(),
        altitudes@.len() <= MAX_SERIES_LEN,
        opt_seq_bounded(altitudes@, MAX_ALTITUDE_MM as int),
    ensures
        r as int == spec_gained(altitudes@, start as int, end as int),
{
    let ghost alts = altitudes@;
    let ghost e = end as int;
    let mut total: u64 = 0;
    let mut prev: Option<i64> = None;
    let mut j: usize = start;
    while j < end
        invariant
            start <= j <= end,
            end <= alts.len() <= MAX_SERIES_LEN,
            alts == altitudes@,
            opt_seq_bounded(alts, MAX_ALTITUDE_MM as int),
            e == end as int,
            prev matches Some(p) ==> -MAX_ALTITUDE_MM <= p <= MAX_ALTITUDE_MM,
            total as int + spec_gained_from(alts, opt_widen(prev), j as int, e)
                == spec_gained(alts, start as int, e),
            total <= (j - start) * (2 * MAX_ALTITUDE_MM as int),
        decreases end - j,
    {
        proof {
            lemma_gained_bounds(alts, opt_widen(prev), j as int, e);
            assert((j - start) * (2 * MAX_ALTITUDE_MM as int) <= 10_000_000 * (2 * MAX_ALTITUDE_MM
                as int)) by (nonlinear_arith)
                requires
                    0 <= j - start <= 10_000_000,
            ;
            assert((j + 1 - start) * (2 * MAX_ALTITUDE_MM as int) == (j - start) * (2
                * MAX_ALTITUDE_MM as int) + 2 * (MAX_ALTITUDE_MM as int)) by (nonlinear_arith);
        }
        match altitudes[j] {
            Some(v) => {
                proof {
                    assert(alts[j as int] == Some(v));
                    assert(-MAX_ALTITUDE_MM <= v <= MAX_ALTITUDE_MM);
                }
                match prev {
                    Some(p) => {
                        if v > p {
                            total = total + ((v - p) as u64);
                        }
                    },
                    None => {},
                }
                prev = Some(v);
            },
            None => {},
        }
        j += 1;
    }
    total
}

/// The climb rate of the window `section` spans: altitude gained strictly
/// inside it over the time between its endpoints.
pub fn get_climb(section: &WindowSection, altitudes: &Altitudes, times: &Times) -> (r: Fraction)
    requires
        section.start <= section.end,
        (section.end as int) < times.values@.len(),
        (section.end as int) <= altitudes.values@.len(),
        altitudes.values@.len() <= MAX_SERIES_LEN,
        opt_seq_bounded(altitudes.values@, MAX_ALTITUDE_MM as int),
        opt_seq_bounded(times.values@, MAX_TIMESTAMP_MS as int),
    ensures
        r == spec_guarded_rate(
            spec_gained(altitudes.values@, section.start as int, section.end as int),
            spec_duration(times.values@, section.start as int, section.end as int),
        ),
{
    let gained_altitude_in_section: u64 = get_gained_altitude_in_section(
        &altitudes.values,
        section.start as usize,
        section.end as usize,
    );
    let t_start: Option<i64> = times.values[section.start as usize];
    let t_end: Option<i64> = times.values[section.end as usize];
    match (t_start, t_end) {
        (Some(a), Some(b)) => {
            proof {
                assert(-MAX_TIMESTAMP_MS <= a <= MAX_TIMESTAMP_MS);
                assert(-MAX_TIMESTAMP_MS <= b <= MAX_TIMESTAMP_MS);
            }
            let duration: i64 = b - a;
            climb_equation(&gained_altitude_in_section, &Some(duration))
        },
        _ => climb_equation(&gained_altitude_in_section, &None),
    }
}

/// Offers the current window to the best section under the climb metric.
pub fn update_sections_max_climb(
    input_data: &InputData,
    window_sec: &mut WindowSection,
    max_climb_sec: &mut TargetSection,
)
    requires
        input_data@.wf_base(),
        input_data@.distances_ok(),
        input_data@.altitudes.len() == input_data@.coordinates.len(),
        old(window_sec).start <= old(window_sec).end,
        (old(window_sec).end as int) < input_data@.distances.len(),
    ensures
        final(window_sec).start == old(window_sec).start,
        final(window_sec).end == old(window_sec).end,
        final(window_sec).distance as int == spec_window_distance(
            input_data@,
            old(window_sec).start as int,
            old(window_sec).end as int,
        ),
        final(window_sec).climb == spec_climb_value(
            input_data@,
            old(window_sec).start as int,
            old(window_sec).end as int,
        ),
        final(window_sec).velocity == old(window_sec).velocity,
        *final(max_climb_sec) == spec_update_best(
            input_data@,
            *old(max_climb_sec),
            old(window_sec).start as int,
            old(window_sec).end as int,
            spec_climb_value(
                input_data@,
                old(window_sec).start as int,
                old(window_sec).end as int,
            ),
        ),
{
    proof {
        lemma_distances_monotonic(input_data@, window_sec.start as int, window_sec.end as int);
    }
    let d_end: u64 = input_data.distances.values[window_sec.end as usize];
    let d_start: u64 = input_data.distances.values[window_sec.start as usize];
    window_sec.distance = d_end - d_start;
    let snapshot: WindowSection = *window_sec;
    window_sec.climb = get_climb(&snapshot, &input_data.altitudes, &input_data.times);
    if distance_in_bounds(window_sec.distance, input_data.desired_distance, input_data.tolerance)
        && window_sec.climb.gt(&max_climb_sec.target_value) {
        max_climb_sec.start = window_sec.start;
        max_climb_sec.end = window_sec.end;
        max_climb_sec.target_value = window_sec.climb;
        max_climb_sec.valid = true;
    }
}

/// The climb strategy: maximize altitude gained per unit of time.
pub struct ClimbMetric {}

impl MetricPolicy for ClimbMetric {
    open spec fn data_ok(&self, data: InputView) -> bool {
        data.altitudes.len() == data.coordinates.len()
    }

    open spec fn spec_value(&self, data: InputView, s: int, e: int) -> Fraction {
        spec_climb_value(data, s, e)
    }

    fn update(
        &self,
        input_data: &InputData,
        window_sec: &mut WindowSection,
        target_sec: &mut TargetSection,
    ) {
        update_sections_max_climb(input_data, window_sec, target_sec);
    }
}

/// What the climb search checks beyond the generic validation: the altitude
/// series matches the coordinates in length and keeps at least two usable
/// samples.
pub open spec fn spec_specific_check(data: InputView) -> Result<(), InputDataError> {
    if data.coordinates.len() != data.altitudes.len() {
        Err(InputDataError::InconsistentLength)
    } else if valid_count(data.altitudes) < 2 {
        Err(InputDataError::TooFewDataPoints)
    } else {
        Ok(())
    }
}

/// Checks length and usable-sample count of the altitude series.
pub fn specific_data_check(input_data: &InputData) -> (r: Result<(), InputDataError>)
    ensures
        r == spec_specific_check(input_data@),
{
    if input_data.coordinates.len() != input_data.altitudes.values.len() {
        return Err(InputDataError::InconsistentLength);
    }
    let altitudes_normal: usize = count_valid(&input_data.altitudes.values);
    if altitudes_normal < 2 {
        Err(InputDataError::TooFewDataPoints)
    } else {
        Ok(())
    }
}

/// What one climb search returns, start to finish: all validation — the
/// generic checks and the altitude checks — before the distance-dependent
/// sufficiency check, then the scan, run over the altitude series with its
/// gaps filled.
pub open spec fn best_climb_section_spec(
    desired_distance: i64,
    coordinates: Seq<Coordinate>,
    times: Seq<Option<i64>>,
    increments: Seq<u64>,
    altitudes: Seq<Option<i64>>,
    tolerance: Fraction,
) -> Result<TargetSection, InputDataError> {
    if desired_distance <= 0 {
        Err(InputDataError::InvalidDesiredDistance)
    } else if spec_generic_checks(coordinates, times) is Err {
        Err(spec_generic_checks(coordinates, times)->Err_0)
    } else if coordinates.len() != altitudes.len() {
        Err(InputDataError::InconsistentLength)
    } else if valid_count(altitudes) < 2 {
        Err(InputDataError::TooFewDataPoints)
    } else if spec_total(increments) < desired_distance {
        Err(InputDataError::DistanceTooSmall)
    } else {
        let data = InputView {
            desired_distance: desired_distance as int,
            tolerance,
            coordinates,
            times,
            distances: spec_distance_series(increments),
            altitudes: spec_filled(altitudes),
        };
        let best = spec_scan(&(ClimbMetric {  }), data, 0, 0, TargetSection::spec_initial());
        if best.target_value.num == 0 || best.start == best.end {
            Err(InputDataError::NoSectionFound)
        } else {
            Ok(best)
        }
    }
}

/// Finds the section of the requested length with the best climb rate. The
/// caller hands in the geodesic distance increments as for the speed search;
/// the altitude series is gap-filled before the scan.
#[verifier::rlimit(100)]
#[verifier::spinoff_prover]
pub fn find_best_climb_section(
    desired_distance: i64,
    coordinates: Vec<Coordinate>,
    times: Vec<Option<i64>>,
    increments: Vec<u64>,
    altitudes: Vec<Option<i64>>,
    tolerance: Option<Fraction>,
) -> (r: Result<TargetSection, InputDataError>)
    requires
        desired_distance <= MAX_DISTANCE_MM,
        coordinates@.len() <= MAX_SERIES_LEN,
        opt_seq_bounded(times@, MAX_TIMESTAMP_MS as int),
        coordinates@.len() > 0 ==> increments@.len() + 1 == coordinates@.len(),
        coordinates@.len() == 0 ==> increments@.len() == 0,
        increments_bounded(increments@),
        altitudes@.len() <= MAX_SERIES_LEN,
        opt_seq_bounded(altitudes@, MAX_ALTITUDE_MM as int),
        tolerance matches Some(t) ==> t.wf(),
    ensures
        r == best_climb_section_spec(
            desired_distance,
            coordinates@,
            times@,
            increments@,
            altitudes@,
            spec_tolerance_or_default(tolerance),
        ),
{
    let ghost tol = spec_tolerance_or_default(tolerance);
    match InputData::new(desired_distance, coordinates, times, Some(altitudes), tolerance) {
        Err(e) => Err(e),
        Ok(mut finder) => {
            match specific_data_check(&finder) {
                Ok(_) => {
                    finder.compute_vector_of_distances(&increments);
                    proof {
                        assert(finder@.distances =~= spec_distance_series(increments@));
                    }
                    match finder.check_if_total_distance_suffice() {
                        Ok(_) => {
                            fill_nans(&mut finder.altitudes.values);
                            proof {
                                lemma_fill_bounded(altitudes@, MAX_ALTITUDE_MM as int);
                                assert(finder@.distances == spec_distance_series(increments@));
                                assert(finder@.altitudes == spec_filled(altitudes@));
                                assert(finder@ =~= InputView {
                                    desired_distance: desired_distance as int,
                                    tolerance: tol,
                                    coordinates: coordinates@,
                                    times: times@,
                                    distances: spec_distance_series(increments@),
                                    altitudes: spec_filled(altitudes@),
                                });
                            }
                            finder.search_section(&(ClimbMetric {  }))
                        },
                        Err(e) => Err(e),
                    }
                },
                Err(e) => Err(e),
            }
        },
    }
}

} // verus!
