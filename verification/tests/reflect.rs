use accelepong::reflect::{reflect, try_reflect, Contact, ReflectionPolicy, Rules, MAX_NORMAL};
use accelepong::scale::{scale_to_speed, MAX_SPEED};
use accelepong::side::Side;
use accelepong::speed::{Escalation, SpeedState};
use accelepong::vector::Vector;

const FLIP_FLAT: Rules = Rules { reflection: ReflectionPolicy::AxisFlip, escalation: Escalation::Flat };

const MIRROR_FLAT: Rules = Rules { reflection: ReflectionPolicy::Mirror, escalation: Escalation::Flat };

const MIRROR_COMPOUNDING: Rules =
    Rules { reflection: ReflectionPolicy::Mirror, escalation: Escalation::Compounding };

fn state(current: u32, increment: u32) -> SpeedState {
    SpeedState::from_units(current, increment).unwrap()
}

fn length_matches_speed(velocity: Vector, speed: u32) -> bool {
    let x = velocity.x.unsigned_abs() as u64;
    let y = velocity.y.unsigned_abs() as u64;
    let s = speed as u64;
    x * x + y * y <= s * s && s * s < (x + 1) * (x + 1) + (y + 1) * (y + 1)
}

#[test]
fn scaling_rounds_each_coordinate_toward_zero() {
    assert_eq!(scale_to_speed(Vector::new(1, 1), 5000), Some(Vector::new(3535, 3535)));
    assert_eq!(scale_to_speed(Vector::new(3, 4), 10), Some(Vector::new(6, 8)));
    assert_eq!(scale_to_speed(Vector::new(-3, 4), 10), Some(Vector::new(-6, 8)));
    assert_eq!(scale_to_speed(Vector::new(0, -7), 9), Some(Vector::new(0, -9)));
    assert_eq!(scale_to_speed(Vector::new(1, 1), 5), Some(Vector::new(3, 3)));
    assert_eq!(scale_to_speed(Vector::new(1, 1), 2), Some(Vector::new(1, 1)));
    assert_eq!(scale_to_speed(Vector::new(1, 1), 1), Some(Vector::new(0, 0)));
}

#[test]
fn scaling_the_zero_direction_gives_the_zero_vector() {
    assert_eq!(scale_to_speed(Vector::new(0, 0), 700), Some(Vector::new(0, 0)));
    assert_eq!(scale_to_speed(Vector::new(5, -5), 0), Some(Vector::new(0, 0)));
}

#[test]
fn scaling_takes_any_direction_and_no_speed_above_the_limit() {
    assert_eq!(
        scale_to_speed(Vector::new(i32::MIN, i32::MAX), MAX_SPEED),
        Some(Vector::new(-741455, 741455))
    );
    assert_eq!(scale_to_speed(Vector::new(i32::MIN, 0), MAX_SPEED), Some(Vector::new(-1048576, 0)));
    assert_eq!(scale_to_speed(Vector::new(1, 1), MAX_SPEED + 1), None);
}

#[test]
fn scaling_depends_on_the_direction_only() {
    for speed in [1u32, 7, 500, 99_999, MAX_SPEED] {
        let once = scale_to_speed(Vector::new(3, -7), speed);
        assert_eq!(scale_to_speed(Vector::new(6, -14), speed), once);
        assert_eq!(scale_to_speed(Vector::new(3000, -7000), speed), once);
    }
}

#[test]
fn left_face_turns_the_horizontal_motion_and_adds_the_step() {
    let (velocity, speed) = reflect(Vector::new(3, 4), Contact::Face(Side::Left), state(5, 5), FLIP_FLAT);
    assert_eq!(velocity, Vector::new(-6, 8));
    assert_eq!(speed, state(10, 5));
}

#[test]
fn top_face_under_flat_axis_flip_keeps_the_speed() {
    let (velocity, speed) = reflect(Vector::new(3, 4), Contact::Face(Side::Top), state(5, 5), FLIP_FLAT);
    assert_eq!(velocity, Vector::new(3, -4));
    assert_eq!(speed, state(5, 5));
    let (velocity, speed) =
        reflect(Vector::new(3, 4), Contact::Face(Side::Bottom), state(5, 5), FLIP_FLAT);
    assert_eq!(velocity, Vector::new(3, -4));
    assert_eq!(speed, state(5, 5));
}

#[test]
fn top_face_under_flat_mirror_adds_the_step() {
    let (velocity, speed) =
        reflect(Vector::new(3, 4), Contact::Face(Side::Top), state(5, 5), MIRROR_FLAT);
    assert_eq!(velocity, Vector::new(6, -8));
    assert_eq!(speed, state(10, 5));
}

#[test]
fn oblique_normal_is_mirrored_about_under_mirror() {
    let contact = Contact::from_normal(Vector::new(1, 1)).unwrap();
    let (velocity, speed) = reflect(Vector::new(0, -5), contact, state(5, 1), MIRROR_FLAT);
    assert_eq!(velocity, Vector::new(6, 0));
    assert_eq!(speed, state(6, 1));
}

#[test]
fn oblique_normal_counts_as_its_nearest_face_under_axis_flip() {
    let contact = Contact::from_normal(Vector::new(1, 2)).unwrap();
    assert_eq!(contact.side(Vector::new(0, -5)), Side::Top);
    let (velocity, speed) = reflect(Vector::new(0, -5), contact, state(5, 1), FLIP_FLAT);
    assert_eq!(velocity, Vector::new(0, 5));
    assert_eq!(speed, state(5, 1));
}

#[test]
fn normal_length_does_not_matter() {
    let short = Contact::from_normal(Vector::new(-3, 4)).unwrap();
    let long = Contact::from_normal(Vector::new(-600, 800)).unwrap();
    for v in [Vector::new(300, -400), Vector::new(17, 4), Vector::new(-250, 1)] {
        assert_eq!(
            reflect(v, short, state(500, 10), MIRROR_COMPOUNDING),
            reflect(v, long, state(500, 10), MIRROR_COMPOUNDING)
        );
    }
}

#[test]
fn head_on_bounce_reverses_the_ball() {
    let contact = Contact::from_normal(Vector::new(MAX_NORMAL, 0)).unwrap();
    let (velocity, speed) = reflect(Vector::new(300, -400), contact, state(500, 10), MIRROR_COMPOUNDING);
    assert_eq!(velocity, Vector::new(-306, -408));
    assert_eq!(speed, state(510, 11));
}

#[test]
fn zero_normal_falls_back_to_the_main_axis_of_motion() {
    let contact = Contact::from_normal(Vector::new(0, 0)).unwrap();
    assert_eq!(contact.side(Vector::new(3, -4)), Side::Top);
    assert_eq!(reflect(Vector::new(3, -4), contact, state(5, 0), MIRROR_FLAT).0, Vector::new(3, 4));
    assert_eq!(contact.side(Vector::new(-4, 3)), Side::Right);
    assert_eq!(reflect(Vector::new(-4, 3), contact, state(5, 0), MIRROR_FLAT).0, Vector::new(4, 3));
    assert_eq!(contact.side(Vector::new(4, 4)), Side::Left);
    assert_eq!(contact.side(Vector::new(0, 9)), Side::Bottom);
    assert_eq!(contact.side(Vector::new(0, 0)), Side::Right);
}

#[test]
fn ball_at_rest_stays_at_rest() {
    let out = reflect(Vector::new(0, 0), Contact::Face(Side::Left), state(5, 1), MIRROR_FLAT);
    assert_eq!(out, (Vector::new(0, 0), state(6, 1)));
}

#[test]
fn normal_beyond_the_limit_is_not_a_contact() {
    assert_eq!(Contact::from_normal(Vector::new(MAX_NORMAL + 1, 0)), None);
    assert_eq!(Contact::from_normal(Vector::new(0, -MAX_NORMAL - 1)), None);
    assert_eq!(
        Contact::from_normal(Vector::new(-MAX_NORMAL, MAX_NORMAL)),
        Some(Contact::Normal(Vector::new(-MAX_NORMAL, MAX_NORMAL)))
    );
}

#[test]
fn new_velocity_is_as_long_as_the_new_speed() {
    let normals = [
        Contact::Face(Side::Left),
        Contact::Face(Side::Bottom),
        Contact::Normal(Vector::new(3, 4)),
        Contact::Normal(Vector::new(-1000, 1)),
        Contact::Normal(Vector::new(0, 0)),
        Contact::Normal(Vector::new(1024, -1024)),
    ];
    let velocities = [
        Vector::new(3, 4),
        Vector::new(-1_048_576, 1_048_576),
        Vector::new(1, 0),
        Vector::new(-999, 123_456),
        Vector::new(700_000, -1),
    ];
    let starts = [
        state(0, 0),
        state(1, 1),
        state(500, 10),
        state(MAX_SPEED, 0),
        SpeedState { current: 499 * (1 << 64) + 12_345, increment: (1 << 63) + 1 },
    ];
    for rules in [FLIP_FLAT, MIRROR_FLAT, MIRROR_COMPOUNDING] {
        for contact in normals {
            for velocity in velocities {
                for start in starts {
                    let (after, speed) = reflect(velocity, contact, start, rules);
                    assert!(length_matches_speed(after, speed.whole_units()), "{after:?} {speed:?}");
                }
            }
        }
    }
}

#[test]
fn bounce_that_leaves_the_limits_is_reported() {
    let left = Contact::Face(Side::Left);
    let top = Contact::Face(Side::Top);
    let v = Vector::new(3, 4);
    let full = state(MAX_SPEED, 1);
    assert_eq!(try_reflect(v, left, full, MIRROR_FLAT), None);
    assert_eq!(try_reflect(v, left, full, FLIP_FLAT), None);
    assert_eq!(try_reflect(v, top, full, MIRROR_FLAT), None);
    // A bounce that does not make the ball faster needs no room.
    assert_eq!(try_reflect(v, top, full, FLIP_FLAT), Some((Vector::new(629_145, -838_860), full)));
    assert_eq!(try_reflect(Vector::new(MAX_SPEED as i32 + 1, 0), left, state(5, 1), FLIP_FLAT), None);
    assert_eq!(try_reflect(v, Contact::Normal(Vector::new(MAX_NORMAL + 1, 0)), state(5, 1), FLIP_FLAT), None);
    assert_eq!(
        try_reflect(v, left, SpeedState { current: u128::MAX, increment: 0 }, FLIP_FLAT),
        None
    );
    assert_eq!(
        try_reflect(v, left, state(5, 5), FLIP_FLAT),
        Some(reflect(v, left, state(5, 5), FLIP_FLAT))
    );
}

#[test]
fn two_perpendicular_bounces_equal_one_off_the_diagonal() {
    let still = state(707, 0);
    let v = Vector::new(500, -500);
    let (first, s1) = reflect(v, Contact::Face(Side::Left), still, MIRROR_FLAT);
    let (second, s2) = reflect(first, Contact::Face(Side::Top), s1, MIRROR_FLAT);
    let (once, s3) = reflect(v, Contact::Normal(Vector::new(-1, 1)), still, MIRROR_FLAT);
    assert_eq!(first, Vector::new(-499, -499));
    assert_eq!(second, Vector::new(-499, 499));
    assert_eq!(once, Vector::new(-499, 499));
    assert_eq!(s2, s3);
}

#[test]
fn mirror_about_a_face_normal_is_the_axis_flip() {
    let flip_compounding =
        Rules { reflection: ReflectionPolicy::AxisFlip, escalation: Escalation::Compounding };
    for side in [Side::Left, Side::Right, Side::Top, Side::Bottom] {
        for v in [Vector::new(30, 40), Vector::new(-7, 2), Vector::new(0, -11)] {
            assert_eq!(
                reflect(v, Contact::Face(side), state(50, 3), flip_compounding),
                reflect(v, Contact::Face(side), state(50, 3), MIRROR_COMPOUNDING)
            );
            assert_eq!(
                reflect(v, Contact::Face(side), state(50, 3), flip_compounding),
                reflect(v, Contact::Normal(side.normal()), state(50, 3), MIRROR_COMPOUNDING)
            );
        }
    }
}

#[test]
fn faces_have_unit_normals() {
    assert_eq!(Side::Left.normal(), Vector::new(-1, 0));
    assert_eq!(Side::Right.normal(), Vector::new(1, 0));
    assert_eq!(Side::Top.normal(), Vector::new(0, 1));
    assert_eq!(Side::Bottom.normal(), Vector::new(0, -1));
    assert!(Side::Left.horizontal());
    assert!(Side::Right.horizontal());
    assert!(!Side::Top.horizontal());
    assert!(!Side::Bottom.horizontal());
}

#[test]
fn only_flat_axis_flip_spares_the_vertical_faces() {
    for side in [Side::Left, Side::Right] {
        assert!(FLIP_FLAT.escalates_on(side));
        assert!(MIRROR_FLAT.escalates_on(side));
    }
    for side in [Side::Top, Side::Bottom] {
        assert!(!FLIP_FLAT.escalates_on(side));
        assert!(MIRROR_FLAT.escalates_on(side));
        assert!(MIRROR_COMPOUNDING.escalates_on(side));
    }
}
