use vstd::prelude::*;

use crate::dtypes::{
    Coordinate, Fraction, TargetSection, Times, WindowSection, MAX_DISTANCE_MM, MAX_SERIES_LEN,
    MAX_TIMESTAMP_MS,
};
use crate::errors::InputDataError;
use crate::gem_finder::{
    distance_in_bounds, increments_bounded, lemma_distances_monotonic, lemma_scan_keeps_initial,
    spec_distance_series, spec_generic_checks, spec_scan, spec_tolerance_or_default, spec_total,
    spec_update_best, spec_window_distance, InputData, InputView, MetricPolicy,
};
use crate::math::{
    lemma_valid_count_le_len, opt_seq_bounded, spec_duration, spec_guarded_rate,
    velocity_equation,
};

verus! {

/// The speed a window `[s, e]` was covered with: its gained distance over
/// its duration, guarded to zero when the duration is missing or not
/// positive or no distance was gained.
pub open spec fn spec_speed_value(data: InputView, s: int, e: int) -> Fraction {
    spec_guarded_rate(spec_window_distance(data, s, e), spec_duration(data.times, s, e))
}

/// The speed of the window `section` spans, given the distance it gained.
pub fn _get_velocity(section: &WindowSection, gained_distance: &u64, times: &Times) -> (r: Fraction)
    requires
        section.start <= section.end,
        (section.end as int) < times.values@.len(),
        opt_seq_bounded(times.values@, MAX_TIMESTAMP_MS as int),
    ensures
        r == spec_guarded_rate(
            *gained_distance as int,
            spec_duration(times.values@, section.start as int, section.end as int),
        ),
{
    let t_start: Option<i64> = times.values[section.start as usize];
    let t_end: Option<i64> = times.values[section.end as usize];
    match (t_start, t_end) {
        (Some(a), Some(b)) => {
            proof {
                assert(-MAX_TIMESTAMP_MS <= a <= MAX_TIMESTAMP_MS);
                assert(-MAX_TIMESTAMP_MS <= b <= MAX_TIMESTAMP_MS);
            }
            let duration: i64 = b - a;
            velocity_equation(gained_distance, &Some(duration))
        },
        _ => velocity_equation(gained_distance, &None),
    }
}

/// Offers the current window to the best section under the speed metric:
/// recomputes the window's distance and speed, and replaces the best section
/// exactly when the window distance lies in the candidacy band and its speed
/// strictly exceeds the best value so far.
pub fn _update_sections_max_velocity(
    input_data: &InputData,
    window_sec: &mut WindowSection,
    fastest_sec: &mut TargetSection,
)
    requires
        input_data@.wf_base(),
        input_data@.distances_ok(),
        old(window_sec).start <= old(window_sec).end,
        (old(window_sec).end as int) < input_data@.distances.len(),
    ensures
        final(window_sec).start == old(window_sec).start,
        final(window_sec).end == old(window_sec).end,
        final(window_sec).distance as int == spec_window_distance(
            input_data@,
            old(window_sec).start as int,
            old(window_sec).end as int,
        ),
        final(window_sec).velocity == spec_speed_value(
            input_data@,
            old(window_sec).start as int,
            old(window_sec).end as int,
        ),
        final(window_sec).climb == old(window_sec).climb,
        *final(fastest_sec) == spec_update_best(
            input_data@,
            *old(fastest_sec),
            old(window_sec).start as int,
            old(window_sec).end as int,
            spec_speed_value(
                input_data@,
                old(window_sec).start as int,
                old(window_sec).end as int,
            ),
        ),
{
    proof {
        lemma_distances_monotonic(
            input_data@,
            window_sec.start as int,
            window_sec.end as int,
        );
    }
    let d_end: u64 = input_data.distances.values[window_sec.end as usize];
    let d_start: u64 = input_data.distances.values[window_sec.start as usize];
    window_sec.distance = d_end - d_start;
    let snapshot: WindowSection = *window_sec;
    window_sec.velocity = _get_velocity(&snapshot, &snapshot.distance, &input_data.times);
    if distance_in_bounds(window_sec.distance, input_data.desired_distance, input_data.tolerance)
        && window_sec.velocity.gt(&fastest_sec.target_value) {
        fastest_sec.start = window_sec.start;
        fastest_sec.end = window_sec.end;
        fastest_sec.target_value = window_sec.velocity;
        fastest_sec.valid = true;
    }
}

/// The speed strategy: maximize gained distance over duration.
pub struct SpeedMetric {}

impl MetricPolicy for SpeedMetric {
    open spec fn data_ok(&self, data: InputView) -> bool {
        true
    }

    open spec fn spec_value(&self, data: InputView, s: int, e: int) -> Fraction {
        spec_speed_value(data, s, e)
    }

    fn update(
        &self,
        input_data: &InputData,
        window_sec: &mut WindowSection,
        target_sec: &mut TargetSection,
    ) {
        _update_sections_max_velocity(input_data, window_sec, target_sec);
    }
}

/// What one speed search returns, start to finish: the validation errors in
/// their order, then the scan over the cumulative distances built from the
/// increments, then `NoSectionFound` if the scan ended on the sentinel.
pub open spec fn fastest_section_spec(
    desired_distance: i64,
    coordinates: Seq<Coordinate>,
    times: Seq<Option<i64>>,
    increments: Seq<u64>,
    tolerance: Fraction,
) -> Result<TargetSection, InputDataError> {
    if desired_distance <= 0 {
        Err(InputDataError::InvalidDesiredDistance)
    } else if spec_generic_checks(coordinates, times) is Err {
        Err(spec_generic_checks(coordinates, times)->Err_0)
    } else if spec_total(increments) < desired_distance {
        Err(InputDataError::DistanceTooSmall)
    } else {
        let data = InputView {
            desired_distance: desired_distance as int,
            tolerance,
            coordinates,
            times,
            distances: spec_distance_series(increments),
            altitudes: Seq::empty(),
        };
        let best = spec_scan(&(SpeedMetric {  }), data, 0, 0, TargetSection::spec_initial());
        if best.target_value.num == 0 || best.start == best.end {
            Err(InputDataError::NoSectionFound)
        } else {
            Ok(best)
        }
    }
}

/// Finds the fastest section of the requested length. The caller hands in,
/// beside the samples, the geodesic distance increment between each pair of
/// consecutive coordinates, in millimeters.
#[verifier::rlimit(100)]
#[verifier::spinoff_prover]
pub fn find_fastest_section(
    desired_distance: i64,
    coordinates: Vec<Coordinate>,
    times: Vec<Option<i64>>,
    increments: Vec<u64>,
    tolerance: Option<Fraction>,
) -> (r: Result<TargetSection, InputDataError>)
    requires
        desired_distance <= MAX_DISTANCE_MM,
        coordinates@.len() <= MAX_SERIES_LEN,
        opt_seq_bounded(times@, MAX_TIMESTAMP_MS as int),
        coordinates@.len() > 0 ==> increments@.len() + 1 == coordinates@.len(),
        coordinates@.len() == 0 ==> increments@.len() == 0,
        increments_bounded(increments@),
        tolerance matches Some(t) ==> t.wf(),
    ensures
        r == fastest_section_spec(
            desired_distance,
            coordinates@,
            times@,
            increments@,
            spec_tolerance_or_default(tolerance),
        ),
{
    let ghost tol = spec_tolerance_or_default(tolerance);
    match InputData::new(desired_distance, coordinates, times, None, tolerance) {
        Err(e) => Err(e),
        Ok(mut finder) => {
            finder.compute_vector_of_distances(&increments);
            proof {
                assert(finder@.distances =~= spec_distance_series(increments@));
                assert(finder@ =~= InputView {
                    desired_distance: desired_distance as int,
                    tolerance: tol,
                    coordinates: coordinates@,
                    times: times@,
                    distances: spec_distance_series(increments@),
                    altitudes: Seq::empty(),
                });
            }
            match finder.check_if_total_distance_suffice() {
                Ok(_) => finder.search_section(&(SpeedMetric {  })),
                Err(e) => Err(e),
            }
        },
    }
}

/// With every pair of consecutive timestamps identical, no window spans any
/// time, every speed is forced to zero by the division guard, and a search
/// whose input passes validation reports `NoSectionFound`.
pub proof fn lemma_uniform_times_no_section(
    desired_distance: i64,
    coordinates: Seq<Coordinate>,
    times: Seq<Option<i64>>,
    increments: Seq<u64>,
    tolerance: Fraction,
)
    requires
        0 < desired_distance,
        spec_generic_checks(coordinates, times) is Ok,
        spec_total(increments) >= desired_distance,
        increments.len() + 1 == coordinates.len(),
        forall|i: int| 0 <= i < times.len() - 1 ==> times[i + 1] == #[trigger] times[i],
    ensures
        fastest_section_spec(desired_distance, coordinates, times, increments, tolerance) == Err::<
            TargetSection,
            InputDataError,
        >(InputDataError::NoSectionFound),
{
    let data = InputView {
        desired_distance: desired_distance as int,
        tolerance,
        coordinates,
        times,
        distances: spec_distance_series(increments),
        altitudes: Seq::empty(),
    };
    let p = SpeedMetric {  };
    lemma_valid_count_le_len(coordinates);
    assert(data.distances.len() == coordinates.len());
    assert forall|a: int, b: int|
        0 <= a <= b <= data.distances.len() - 1 implies #[trigger] p.spec_value(data, a, b).num
        == 0 by {
        lemma_times_constant(times, a, b);
    }
    lemma_scan_keeps_initial(&p, data, 0, 0);
}

/// In a series whose consecutive entries are all equal, any two entries are
/// equal.
proof fn lemma_times_constant(times: Seq<Option<i64>>, s: int, e: int)
    requires
        forall|i: int| 0 <= i < times.len() - 1 ==> times[i + 1] == #[trigger] times[i],
        0 <= s <= e < times.len(),
    ensures
        times[e] == times[s],
    decreases e - s,
{
    if s < e {
        lemma_times_constant(times, s, e - 1);
    }
}

} // verus!
