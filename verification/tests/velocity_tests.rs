use sportgems::dtypes::{Coordinate, Fraction};
use sportgems::errors::InputDataError;
use sportgems::velocity::find_fastest_section;

fn coord(lat: i64, lon: i64) -> Coordinate {
    Coordinate { lat: Some(lat), lon: Some(lon) }
}

fn as_f64(f: &Fraction) -> f64 {
    f.num as f64 / f.den as f64
}

#[test]
fn test_find_fastest_section_edge_case_no_change_in_time() {
    // coordinates change but time does not: every velocity is forced to
    // zero by the division guard and no section can be found
    let fastest_section = find_fastest_section(
        1_000_000,
        vec![coord(48_000_000_000, 8_000_000_000), coord(48_000_000_000, 8_100_000_000)],
        vec![Some(123_400), Some(123_400)],
        vec![7_448_684],
        Some(Fraction { num: 1, den: 100 }),
    );
    assert_eq!(fastest_section, Err(InputDataError::NoSectionFound));
}

#[test]
fn test_find_fastest_section_dummy_values() {
    // four fixes, one hundredth of a degree of longitude (about 743 m)
    // and one second apart each
    let coordinates = vec![
        coord(48_123_000_000, 9_350_000_000),
        coord(48_123_000_000, 9_360_000_000),
        coord(48_123_000_000, 9_370_000_000),
        coord(48_123_000_000, 9_380_000_000),
    ];
    let times = vec![
        Some(1_608_228_953_800),
        Some(1_608_228_954_800),
        Some(1_608_228_955_800),
        Some(1_608_228_956_800),
    ];
    let increments = vec![743_091, 743_091, 743_091];
    let fastest_section = find_fastest_section(
        1_000_000,
        coordinates,
        times,
        increments,
        Some(Fraction { num: 1, den: 2 }),
    )
    .unwrap();
    assert_eq!(fastest_section.valid, true);
    assert_eq!(fastest_section.start, 0);
    assert_eq!(fastest_section.end, 1);
    // the metric value is in millimeters per millisecond, i.e. meters per second
    assert_eq!(as_f64(&fastest_section.target_value).round(), 743.0);
}

#[test]
fn test_find_fastest_section_nan_values() {
    // the first fix is missing; its increment contributes nothing
    let coordinates = vec![
        Coordinate { lat: None, lon: None },
        coord(48_123_000_000, 9_360_000_000),
        coord(48_123_000_000, 9_370_000_000),
        coord(48_123_000_000, 9_380_000_000),
    ];
    let times = vec![
        Some(1_608_228_940_800),
        Some(1_608_228_950_800),
        Some(1_608_228_960_800),
        Some(1_608_228_970_800),
    ];
    let increments = vec![0, 743_091, 743_091];
    let fastest_section = find_fastest_section(
        1_000_000,
        coordinates,
        times,
        increments,
        Some(Fraction { num: 1, den: 2 }),
    )
    .unwrap();
    assert_eq!(fastest_section.valid, true);
    assert_eq!(fastest_section.start, 0);
    assert_eq!(fastest_section.end, 3);
    assert_eq!(as_f64(&fastest_section.target_value).round(), 50.0);
}

#[test]
fn test_find_fastest_section_larger_data() {
    // pace picks up between the third and the sixth fix
    let coordinates = vec![
        coord(48_000_100_000, 9_001_000_000),
        coord(48_000_200_000, 9_002_000_000),
        coord(48_000_300_000, 9_003_000_000),
        coord(48_000_600_000, 9_004_000_000),
        coord(48_000_900_000, 9_005_000_000),
        coord(48_001_200_000, 9_006_000_000),
        coord(48_001_500_000, 9_007_000_000),
        coord(48_001_600_000, 9_008_000_000),
        coord(48_001_700_000, 9_009_000_000),
        coord(48_001_800_000, 9_010_000_000),
    ];
    let times: Vec<Option<i64>> = (0..10).map(|i| Some(1_608_228_950_800 + 11_000 * i)).collect();
    let increments =
        vec![75_314, 75_314, 81_630, 81_630, 81_629, 81_629, 75_312, 75_312, 75_312];
    let fastest_section = find_fastest_section(
        250_000,
        coordinates,
        times,
        increments,
        Some(Fraction { num: 10, den: 1 }),
    )
    .unwrap();
    assert_eq!(fastest_section.valid, true);
    assert_eq!(fastest_section.start, 2);
    assert_eq!(fastest_section.end, 5);
    assert_eq!(as_f64(&fastest_section.target_value).round(), 7.0);
}

#[test]
fn test_find_fastest_section_distance_too_small() {
    // the requested distance exceeds the whole trace
    let fastest_section = find_fastest_section(
        10_000_000,
        vec![coord(48_123_000_000, 9_380_000_000), coord(48_123_000_000, 9_381_000_000)],
        vec![Some(1_608_228_940_800), Some(1_608_228_941_800)],
        vec![74_309],
        Some(Fraction { num: 1, den: 100 }),
    );
    assert_eq!(fastest_section, Err(InputDataError::DistanceTooSmall));
}

#[test]
fn test_tie_break_keeps_first_found_section() {
    // four windows of one step each share the same speed; the first one
    // encountered by the scan must win
    let coordinates = vec![
        coord(48_000_000_000, 9_001_000_000),
        coord(48_000_000_000, 9_002_000_000),
        coord(48_000_000_000, 9_003_000_000),
        coord(48_000_000_000, 9_004_000_000),
        coord(48_000_000_000, 9_005_000_000),
    ];
    let times: Vec<Option<i64>> = (0..5).map(|i| Some(1_000 * i)).collect();
    let increments = vec![100_000, 100_000, 100_000, 100_000];
    let fastest_section =
        find_fastest_section(100_000, coordinates, times, increments, None).unwrap();
    assert_eq!(fastest_section.start, 0);
    assert_eq!(fastest_section.end, 1);
    assert_eq!(as_f64(&fastest_section.target_value), 100.0);
}
