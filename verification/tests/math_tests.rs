use sportgems::dtypes::{Coordinate, Fraction};
use sportgems::math::{
    climb_equation, fill_nans, get_average, remove_outliers, velocity_equation,
};

fn coord(lat: i64, lon: i64) -> Coordinate {
    Coordinate { lat: Some(lat), lon: Some(lon) }
}

fn missing_coord() -> Coordinate {
    Coordinate { lat: None, lon: None }
}

fn as_f64(f: &Fraction) -> f64 {
    f.num as f64 / f.den as f64
}

#[test]
fn math_test_fill_nans_forward_fill() {
    let mut my_vec = vec![
        coord(3_300_000_000, 3_300_000_000),
        coord(4_400_000_000, 4_400_000_000),
        missing_coord(),
        coord(6_600_000_000, 6_600_000_000),
        missing_coord(),
        missing_coord(),
        coord(7_700_000_000, 7_700_000_000),
    ];
    fill_nans(&mut my_vec);
    let expected_vec = vec![
        coord(3_300_000_000, 3_300_000_000),
        coord(4_400_000_000, 4_400_000_000),
        coord(4_400_000_000, 4_400_000_000),
        coord(6_600_000_000, 6_600_000_000),
        coord(6_600_000_000, 6_600_000_000),
        coord(6_600_000_000, 6_600_000_000),
        coord(7_700_000_000, 7_700_000_000),
    ];
    assert_eq!(expected_vec, my_vec);
}

#[test]
fn math_test_fill_nans_beginning_is_null() {
    let mut my_vec = vec![
        missing_coord(),
        coord(4_400_000_000, 4_400_000_000),
        missing_coord(),
        coord(6_600_000_000, 6_600_000_000),
        missing_coord(),
        missing_coord(),
        coord(7_700_000_000, 7_700_000_000),
    ];
    fill_nans(&mut my_vec);
    let expected_vec = vec![
        coord(4_400_000_000, 4_400_000_000),
        coord(4_400_000_000, 4_400_000_000),
        coord(4_400_000_000, 4_400_000_000),
        coord(6_600_000_000, 6_600_000_000),
        coord(6_600_000_000, 6_600_000_000),
        coord(6_600_000_000, 6_600_000_000),
        coord(7_700_000_000, 7_700_000_000),
    ];
    assert_eq!(expected_vec, my_vec);
}

#[test]
fn math_test_fill_nans_multiple_elements_at_beginning_are_null() {
    let mut my_vec = vec![
        missing_coord(),
        missing_coord(),
        coord(4_400_000_000, 4_400_000_000),
        missing_coord(),
        coord(6_600_000_000, 6_600_000_000),
        missing_coord(),
        missing_coord(),
        coord(7_700_000_000, 7_700_000_000),
    ];
    fill_nans(&mut my_vec);
    let expected_vec = vec![
        coord(4_400_000_000, 4_400_000_000),
        coord(4_400_000_000, 4_400_000_000),
        coord(4_400_000_000, 4_400_000_000),
        coord(4_400_000_000, 4_400_000_000),
        coord(6_600_000_000, 6_600_000_000),
        coord(6_600_000_000, 6_600_000_000),
        coord(6_600_000_000, 6_600_000_000),
        coord(7_700_000_000, 7_700_000_000),
    ];
    assert_eq!(expected_vec, my_vec);
}

#[test]
fn test_fill_nans_partly_nan_coordinates() {
    // a coordinate with either component missing counts as missing as a whole
    let mut my_vec = vec![
        Coordinate { lat: Some(3_300_000_000), lon: None },
        missing_coord(),
        coord(4_400_000_000, 4_400_000_000),
        Coordinate { lat: None, lon: Some(5_500_000_000) },
        coord(6_600_000_000, 6_600_000_000),
        Coordinate { lat: None, lon: Some(1_100_000_000) },
        missing_coord(),
        coord(7_700_000_000, 7_700_000_000),
    ];
    fill_nans(&mut my_vec);
    let expected_vec = vec![
        coord(4_400_000_000, 4_400_000_000),
        coord(4_400_000_000, 4_400_000_000),
        coord(4_400_000_000, 4_400_000_000),
        coord(4_400_000_000, 4_400_000_000),
        coord(6_600_000_000, 6_600_000_000),
        coord(6_600_000_000, 6_600_000_000),
        coord(6_600_000_000, 6_600_000_000),
        coord(7_700_000_000, 7_700_000_000),
    ];
    assert_eq!(expected_vec, my_vec);
}

#[test]
fn fill_nans_altitudes_forward_fill() {
    let mut my_vec: Vec<Option<i64>> =
        vec![Some(3300), Some(4400), None, Some(6600), None, None, Some(7700)];
    fill_nans(&mut my_vec);
    let expected_vec =
        vec![Some(3300), Some(4400), Some(4400), Some(6600), Some(6600), Some(6600), Some(7700)];
    assert_eq!(expected_vec, my_vec);
}

#[test]
fn fill_nans_altitudes_beginning_is_null() {
    let mut my_vec: Vec<Option<i64>> =
        vec![None, Some(4400), None, Some(6600), None, None, Some(7700)];
    fill_nans(&mut my_vec);
    let expected_vec =
        vec![Some(4400), Some(4400), Some(4400), Some(6600), Some(6600), Some(6600), Some(7700)];
    assert_eq!(expected_vec, my_vec);
}

#[test]
fn fill_nans_altitudes_multiple_elements_at_beginning_are_null() {
    let mut my_vec: Vec<Option<i64>> =
        vec![None, None, Some(4400), None, Some(6600), None, None, Some(7700)];
    fill_nans(&mut my_vec);
    let expected_vec = vec![
        Some(4400),
        Some(4400),
        Some(4400),
        Some(4400),
        Some(6600),
        Some(6600),
        Some(6600),
        Some(7700),
    ];
    assert_eq!(expected_vec, my_vec);
}

#[test]
fn fill_nans_all_missing_stays_missing() {
    let mut my_vec: Vec<Option<i64>> = vec![None, None, None];
    fill_nans(&mut my_vec);
    assert_eq!(vec![None::<i64>, None, None], my_vec);
}

#[test]
fn test_velocity_equation() {
    assert_eq!(as_f64(&velocity_equation(&16, &Some(2))), 8.0);
    assert_eq!(as_f64(&velocity_equation(&5, &Some(1))), 5.0);
    // a zero duration must yield a zero velocity
    assert_eq!(as_f64(&velocity_equation(&3, &Some(0))), 0.0);
    // a missing duration must yield a zero velocity
    assert_eq!(as_f64(&velocity_equation(&4, &None)), 0.0);
    // a negative duration must yield a zero velocity
    assert_eq!(as_f64(&velocity_equation(&4, &Some(-7))), 0.0);
    // a zero distance must yield a zero velocity
    assert_eq!(as_f64(&velocity_equation(&0, &Some(7))), 0.0);
}

#[test]
fn test_climb_equation() {
    assert_eq!(as_f64(&climb_equation(&16, &Some(2))), 8.0);
    assert_eq!(as_f64(&climb_equation(&5, &Some(1))), 5.0);
    assert_eq!(as_f64(&climb_equation(&3, &Some(0))), 0.0);
    assert_eq!(as_f64(&climb_equation(&4, &None)), 0.0);
    assert_eq!(as_f64(&climb_equation(&4, &Some(-7))), 0.0);
    assert_eq!(as_f64(&climb_equation(&0, &Some(7))), 0.0);
}

#[test]
fn test_get_average() {
    assert_eq!(get_average(&vec![Some(1), Some(2), Some(3)]), Some((6, 3)));
    assert_eq!(get_average(&vec![Some(-10), Some(20), Some(20)]), Some((30, 3)));
}

#[test]
fn test_get_average_with_nan() {
    assert_eq!(get_average(&vec![Some(1), Some(2), None, Some(3)]), Some((6, 3)));
    assert_eq!(get_average(&vec![None, Some(-10), Some(20), Some(20)]), Some((30, 3)));
    assert_eq!(get_average(&vec![None, None]), None);
}

#[test]
fn test_remove_outliers_low_threshold() {
    // 50% band around the mean of 1.4: the 5 is replaced by a missing marker
    let input: Vec<Option<i64>> = vec![
        Some(1),
        Some(1),
        Some(1),
        Some(1),
        Some(5),
        Some(1),
        Some(1),
        Some(1),
        Some(1),
        Some(1),
    ];
    let result_vec = remove_outliers(&input, Fraction { num: 1, den: 2 });
    let expected_vec: Vec<Option<i64>> = vec![
        Some(1),
        Some(1),
        Some(1),
        Some(1),
        None,
        Some(1),
        Some(1),
        Some(1),
        Some(1),
        Some(1),
    ];
    assert_eq!(expected_vec, result_vec);
}

#[test]
fn test_remove_outliers_threshold_too_large() {
    // a 300% band keeps the 5
    let input: Vec<Option<i64>> = vec![
        Some(1),
        Some(1),
        Some(1),
        Some(1),
        Some(5),
        Some(1),
        Some(1),
        Some(1),
        Some(1),
        Some(1),
    ];
    let result_vec = remove_outliers(&input, Fraction { num: 3, den: 1 });
    assert_eq!(input, result_vec);
}

#[test]
fn test_remove_outliers_with_nan() {
    // the 5 is replaced and the original missing marker stays
    let input: Vec<Option<i64>> = vec![
        Some(1),
        None,
        Some(1),
        Some(1),
        Some(5),
        Some(1),
        Some(1),
        Some(1),
        Some(1),
        Some(1),
    ];
    let result_vec = remove_outliers(&input, Fraction { num: 1, den: 2 });
    let expected_vec: Vec<Option<i64>> = vec![
        Some(1),
        None,
        Some(1),
        Some(1),
        None,
        Some(1),
        Some(1),
        Some(1),
        Some(1),
        Some(1),
    ];
    assert_eq!(expected_vec, result_vec);
}
