use accelepong::detect::{detect, Obstacle};
use accelepong::error::InvalidInput;
use accelepong::reflect::Contact;
use accelepong::side::Side;
use accelepong::vector::Vector;

fn paddle_hit(x: i32, y: i32) -> Result<Option<Contact>, InvalidInput> {
    detect(Vector::new(x, y), 5, Vector::new(100, 0), Vector::new(5, 25))
}

#[test]
fn ball_farther_than_its_radius_touches_nothing() {
    assert_eq!(paddle_hit(0, 0), Ok(None));
    assert_eq!(paddle_hit(89, 0), Ok(None));
    assert_eq!(paddle_hit(111, 0), Ok(None));
    assert_eq!(paddle_hit(100, 31), Ok(None));
    assert_eq!(paddle_hit(100, -31), Ok(None));
}

#[test]
fn ball_at_exactly_its_radius_touches() {
    assert_eq!(paddle_hit(90, 0), Ok(Some(Contact::Face(Side::Left))));
    assert_eq!(paddle_hit(110, 0), Ok(Some(Contact::Face(Side::Right))));
    assert_eq!(paddle_hit(100, 30), Ok(Some(Contact::Face(Side::Top))));
    assert_eq!(paddle_hit(100, -30), Ok(Some(Contact::Face(Side::Bottom))));
}

#[test]
fn each_face_is_reported_from_its_own_side() {
    assert_eq!(paddle_hit(91, 3), Ok(Some(Contact::Face(Side::Left))));
    assert_eq!(paddle_hit(108, -7), Ok(Some(Contact::Face(Side::Right))));
    assert_eq!(paddle_hit(98, 28), Ok(Some(Contact::Face(Side::Top))));
    assert_eq!(paddle_hit(102, -29), Ok(Some(Contact::Face(Side::Bottom))));
}

#[test]
fn corner_distance_is_measured_to_the_corner() {
    // Corner (95, 25): offset (-4, 4) is 32 away squared, offset (-3, 3) is 18.
    assert_eq!(paddle_hit(91, 29), Ok(None));
    assert_eq!(paddle_hit(92, 28), Ok(Some(Contact::Face(Side::Left))));
    // Offset (3, 4) is exactly one radius away, and the longer axis decides.
    assert_eq!(paddle_hit(108, 29), Ok(Some(Contact::Face(Side::Top))));
    assert_eq!(paddle_hit(109, 28), Ok(Some(Contact::Face(Side::Right))));
}

#[test]
fn centre_inside_the_rectangle_reports_the_nearest_face() {
    assert_eq!(paddle_hit(96, -24), Ok(Some(Contact::Face(Side::Left))));
    assert_eq!(paddle_hit(99, 0), Ok(Some(Contact::Face(Side::Left))));
    assert_eq!(paddle_hit(101, 0), Ok(Some(Contact::Face(Side::Right))));
    assert_eq!(paddle_hit(101, 24), Ok(Some(Contact::Face(Side::Top))));
    assert_eq!(paddle_hit(99, -24), Ok(Some(Contact::Face(Side::Bottom))));
    // Dead centre, and a tie between the right and the top face.
    assert_eq!(paddle_hit(100, 0), Ok(Some(Contact::Face(Side::Right))));
    assert_eq!(paddle_hit(100, 20), Ok(Some(Contact::Face(Side::Right))));
}

#[test]
fn reported_face_never_looks_into_the_rectangle() {
    let center = Vector::new(100, 0);
    let half = Vector::new(5, 25);
    for x in 80..=120 {
        for y in -40..=40 {
            let hit = detect(Vector::new(x, y), 5, center, half).unwrap();
            let Some(Contact::Face(side)) = hit else {
                continue;
            };
            let normal = side.normal();
            let from_center = (x - center.x) * normal.x + (y - center.y) * normal.y;
            assert!(from_center >= 0, "({x}, {y}) {side:?}");
            let inside = (95..=105).contains(&x) && (-25..=25).contains(&y);
            if !inside {
                let beyond = match side {
                    Side::Left => 95 - x,
                    Side::Right => x - 105,
                    Side::Top => y - 25,
                    Side::Bottom => -25 - y,
                };
                assert!(beyond > 0, "({x}, {y}) {side:?}");
            }
        }
    }
}

#[test]
fn radius_that_is_not_positive_is_rejected() {
    assert_eq!(
        detect(Vector::new(91, 3), 0, Vector::new(100, 0), Vector::new(5, 25)),
        Err(InvalidInput::Radius)
    );
    assert_eq!(
        detect(Vector::new(91, 3), -5, Vector::new(100, 0), Vector::new(5, 25)),
        Err(InvalidInput::Radius)
    );
    // The radius is looked at first.
    assert_eq!(
        detect(Vector::new(91, 3), 0, Vector::new(100, 0), Vector::new(0, 25)),
        Err(InvalidInput::Radius)
    );
}

#[test]
fn obstacle_without_area_is_rejected() {
    assert_eq!(
        detect(Vector::new(91, 3), 5, Vector::new(100, 0), Vector::new(0, 25)),
        Err(InvalidInput::Extents)
    );
    assert_eq!(
        detect(Vector::new(91, 3), 5, Vector::new(100, 0), Vector::new(5, 0)),
        Err(InvalidInput::Extents)
    );
    assert_eq!(
        detect(Vector::new(91, 3), 5, Vector::new(100, 0), Vector::new(5, -25)),
        Err(InvalidInput::Extents)
    );
    assert_eq!(Obstacle::new(Vector::new(0, 0), Vector::new(0, 1)), Err(InvalidInput::Extents));
    assert_eq!(
        Obstacle::new(Vector::new(3, 4), Vector::new(2, 1)),
        Ok(Obstacle { center: Vector::new(3, 4), half_extents: Vector::new(2, 1) })
    );
}

#[test]
fn coordinates_at_the_ends_of_the_range_do_not_overflow() {
    let far = Vector::new(i32::MAX, i32::MAX);
    let near = Vector::new(i32::MIN, i32::MIN);
    assert_eq!(detect(near, i32::MAX, far, Vector::new(i32::MAX, i32::MAX)), Ok(None));
    assert_eq!(
        detect(far, 1, far, Vector::new(i32::MAX, i32::MAX)),
        Ok(Some(Contact::Face(Side::Right)))
    );
    let wall = Obstacle { center: far, half_extents: Vector::new(1, 1) };
    assert!(wall.is_valid());
    assert!(!wall.is_touched(near, 1));
    assert_eq!(wall.face_struck(near), Side::Left);
    assert_eq!(wall.contact_with(Vector::new(i32::MAX - 2, i32::MAX), 1), Some(Contact::Face(Side::Left)));
}
