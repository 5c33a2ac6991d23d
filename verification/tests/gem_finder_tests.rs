use sportgems::dtypes::{Coordinate, Fraction};
use sportgems::errors::InputDataError;
use sportgems::gem_finder::{default_tolerance, generic_data_checks, get_distance, InputData};

fn coord(lat: i64, lon: i64) -> Coordinate {
    Coordinate { lat: Some(lat), lon: Some(lon) }
}

fn missing_coord() -> Coordinate {
    Coordinate { lat: None, lon: None }
}

#[test]
fn test_finder_initialization() {
    let finder = InputData::new(
        10_000_000,
        vec![coord(48_000_000_000, 8_000_000_000), coord(48_000_000_000, 8_100_000_000)],
        vec![Some(123_400), Some(124_600)],
        None,
        Some(Fraction { num: 1, den: 100 }),
    )
    .unwrap();
    assert_eq!(finder.desired_distance, 10_000_000);
    assert_eq!(
        finder.coordinates,
        vec![coord(48_000_000_000, 8_000_000_000), coord(48_000_000_000, 8_100_000_000)]
    );
    assert_eq!(finder.times.values, vec![Some(123_400), Some(124_600)]);
}

#[test]
fn test_invalid_desired_distance_zero() {
    let finder = InputData::new(
        0,
        vec![coord(48_000_000_000, 8_000_000_000), coord(48_000_000_000, 8_100_000_000)],
        vec![Some(123_400), Some(124_600)],
        None,
        Some(Fraction { num: 1, den: 100 }),
    );
    assert_eq!(finder, Err(InputDataError::InvalidDesiredDistance));
}

#[test]
fn test_invalid_desired_distance_negative() {
    let finder = InputData::new(
        -10_000,
        vec![coord(48_000_000_000, 8_000_000_000), coord(48_000_000_000, 8_100_000_000)],
        vec![Some(123_400), Some(124_600)],
        None,
        Some(Fraction { num: 1, den: 100 }),
    );
    assert_eq!(finder, Err(InputDataError::InvalidDesiredDistance));
}

#[test]
fn test_compute_vector_of_distances() {
    let mut finder = InputData::new(
        10_000_000,
        vec![coord(48_000_000_000, 8_000_000_000), coord(48_000_000_000, 8_100_000_000)],
        vec![Some(123_400), Some(124_600)],
        None,
        Some(Fraction { num: 1, den: 100 }),
    )
    .unwrap();
    // the geodesic step between the two fixes, in millimeters
    finder.compute_vector_of_distances(&vec![7_448_684]);
    assert_eq!(finder.distances.values, vec![0, 7_448_684]);
}

#[test]
fn test_generic_data_checks_too_few_data_points() {
    assert_eq!(
        generic_data_checks(&vec![coord(1_000_000_000, 1_000_000_000)], &vec![Some(1_000)]),
        Err(InputDataError::TooFewDataPoints)
    );
}

#[test]
fn test_generic_data_checks_inconsistent_length() {
    assert_eq!(
        generic_data_checks(
            &vec![coord(1_000_000_000, 1_000_000_000), coord(2_000_000_000, 2_000_000_000)],
            &vec![Some(1_000), Some(2_000), Some(3_000)]
        ),
        Err(InputDataError::InconsistentLength)
    );
}

#[test]
fn test_generic_data_checks_coordinates_are_nan() {
    assert_eq!(
        generic_data_checks(
            &vec![missing_coord(), missing_coord()],
            &vec![Some(1_000), Some(2_000)]
        ),
        Err(InputDataError::TooFewDataPoints)
    );
}

#[test]
fn test_generic_data_checks_times_are_nan() {
    assert_eq!(
        generic_data_checks(
            &vec![coord(1_000_000_000, 1_000_000_000), coord(2_000_000_000, 2_000_000_000)],
            &vec![None, None]
        ),
        Err(InputDataError::TooFewDataPoints)
    );
}

#[test]
fn test_generic_data_checks_one_data_point_in_times_is_normal() {
    assert_eq!(
        generic_data_checks(
            &vec![coord(1_000_000_000, 1_000_000_000), coord(2_000_000_000, 2_000_000_000)],
            &vec![Some(1_000), None]
        ),
        Err(InputDataError::TooFewDataPoints)
    );
}

#[test]
fn test_generic_data_checks_two_data_points_in_times_are_normal() {
    assert_eq!(
        generic_data_checks(
            &vec![
                coord(1_000_000_000, 1_000_000_000),
                coord(2_000_000_000, 2_000_000_000),
                coord(3_000_000_000, 3_000_000_000)
            ],
            &vec![Some(1_000), Some(2_000), None]
        ),
        Ok(())
    );
}

#[test]
fn test_check_if_total_distance_suffice() {
    // the whole trace is about 74 meters, far below the requested 10 km
    let mut finder = InputData::new(
        10_000_000,
        vec![coord(48_123_000_000, 9_380_000_000), coord(48_123_000_000, 9_381_000_000)],
        vec![Some(1_608_228_940_800), Some(1_608_228_941_800)],
        None,
        Some(Fraction { num: 1, den: 100 }),
    )
    .unwrap();
    finder.compute_vector_of_distances(&vec![74_309]);
    assert_eq!(finder.check_if_total_distance_suffice(), Err(InputDataError::DistanceTooSmall));
}

#[test]
fn test_default_tolerance_is_one_percent() {
    assert_eq!(default_tolerance(), Fraction { num: 1, den: 100 });
}

#[test]
fn test_get_distance() {
    let distances: Vec<u64> = vec![0, 100, 250, 400];
    assert_eq!(get_distance(&distances, 0, 3), 400);
    assert_eq!(get_distance(&distances, 1, 2), 150);
}
