use accelepong::launch::{
    is_launch_angle, is_launch_direction, random_launch_angle, Band, LOWER_BAND_END,
    LOWER_BAND_START, UNITS_PER_DEGREE, UPPER_BAND_END, UPPER_BAND_START,
};
use accelepong::scale::scale_to_speed;
use accelepong::vector::Vector;

#[test]
fn launch_angle_avoids_excluded_bands() {
    for _ in 0..10_000 {
        let angle = random_launch_angle();
        let degrees = angle as f64 / UNITS_PER_DEGREE as f64;
        assert!(degrees < 360.0);
        assert!(!(330.0..360.0).contains(&degrees), "{degrees}");
        assert!(!(0.0..30.0).contains(&degrees), "{degrees}");
        assert!(!(degrees > 150.0 && degrees < 210.0), "{degrees}");
        assert!(is_launch_angle(angle));
    }
}

#[test]
fn launch_angles_vary_and_come_from_both_bands() {
    let mut upper = 0;
    let mut lower = 0;
    let mut smallest = u32::MAX;
    let mut largest = 0;
    for _ in 0..10_000 {
        let angle = random_launch_angle();
        if angle < UPPER_BAND_END {
            upper += 1;
        } else {
            lower += 1;
        }
        smallest = smallest.min(angle);
        largest = largest.max(angle);
    }
    assert!(upper > 0);
    assert!(lower > 0);
    assert!(smallest < largest);
    assert_ne!(smallest, largest);
}

#[test]
fn bands_start_and_end_where_they_should() {
    assert_eq!(UPPER_BAND_START, 30 * UNITS_PER_DEGREE);
    assert_eq!(UPPER_BAND_END, 150 * UNITS_PER_DEGREE);
    assert_eq!(LOWER_BAND_START, 210 * UNITS_PER_DEGREE);
    assert_eq!(LOWER_BAND_END, 330 * UNITS_PER_DEGREE);
    assert_eq!(Band::Upper.start(), 30_000);
    assert_eq!(Band::Upper.end(), 150_000);
    assert_eq!(Band::Lower.start(), 210_000);
    assert_eq!(Band::Lower.end(), 330_000);
}

#[test]
fn selector_zero_is_the_upper_band() {
    assert_eq!(Band::from_selector(0), Band::Upper);
    assert_eq!(Band::from_selector(1), Band::Lower);
    assert_eq!(Band::from_selector(7), Band::Lower);
}

#[test]
fn band_edges_are_half_open() {
    assert!(is_launch_angle(30_000));
    assert!(!is_launch_angle(29_999));
    assert!(is_launch_angle(149_999));
    assert!(!is_launch_angle(150_000));
    assert!(!is_launch_angle(180_000));
    assert!(is_launch_angle(210_000));
    assert!(!is_launch_angle(209_999));
    assert!(is_launch_angle(329_999));
    assert!(!is_launch_angle(330_000));
    assert!(!is_launch_angle(0));
    assert!(!is_launch_angle(359_999));
}

#[test]
fn directions_steeper_than_thirty_degrees_may_be_served() {
    assert!(is_launch_direction(Vector::new(1, 1)));
    assert!(is_launch_direction(Vector::new(-1, -1)));
    assert!(is_launch_direction(Vector::new(0, 1)));
    assert!(is_launch_direction(Vector::new(0, -7)));
    assert!(is_launch_direction(Vector::new(173, 100)));
    assert!(is_launch_direction(Vector::new(-173, -100)));
    assert!(!is_launch_direction(Vector::new(174, 100)));
    assert!(!is_launch_direction(Vector::new(2, 1)));
    assert!(!is_launch_direction(Vector::new(1, 0)));
    assert!(!is_launch_direction(Vector::new(-5, 0)));
    assert!(!is_launch_direction(Vector::new(0, 0)));
    assert!(is_launch_direction(Vector::new(i32::MIN, i32::MIN)));
    assert!(!is_launch_direction(Vector::new(i32::MIN, i32::MAX / 2)));
}

#[test]
fn allowed_serve_rises_with_at_least_half_its_speed() {
    for x in -40..=40 {
        for y in -40..=40 {
            let direction = Vector::new(x, y);
            if !is_launch_direction(direction) {
                continue;
            }
            for speed in [0u32, 1, 2, 3, 500, 32_000] {
                let velocity = scale_to_speed(direction, speed).unwrap();
                assert!(2 * velocity.y.unsigned_abs() + 1 >= speed, "{direction:?} {speed}");
            }
        }
    }
}
