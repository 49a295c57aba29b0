//! Contact between a circular ball and an axis-aligned rectangle.

use crate::algebra::squares_keep_order;
use crate::error::InvalidInput;
use crate::reflect::Contact;
use crate::side::{dominant_side, lemma_dot_outward, Side};
use crate::vector::{Direction, Vector};
use vstd::prelude::*;

verus! {

/// A static axis-aligned rectangle, given by its centre and half its width
/// and height.
#[derive(Clone, Copy, Debug, PartialEq, Eq, Structural)]
pub struct Obstacle {
    pub center: Vector,
    pub half_extents: Vector,
}

/// `v` moved into `lo..=hi`.
pub open spec fn clamped(v: int, lo: int, hi: int) -> int {
    if v < lo {
        lo
    } else if v > hi {
        hi
    } else {
        v
    }
}

impl Obstacle {
    /// The rectangle has an area: both half-extents are positive.
    pub open spec fn wf(self) -> bool {
        self.half_extents.x > 0 && self.half_extents.y > 0
    }

    pub open spec fn min_x(self) -> int {
        self.center.x - self.half_extents.x
    }

    pub open spec fn max_x(self) -> int {
        self.center.x + self.half_extents.x
    }

    pub open spec fn min_y(self) -> int {
        self.center.y - self.half_extents.y
    }

    pub open spec fn max_y(self) -> int {
        self.center.y + self.half_extents.y
    }

    /// Whether `p` lies in the rectangle, its boundary included.
    pub open spec fn contains(self, p: Direction) -> bool {
        self.min_x() <= p.x <= self.max_x() && self.min_y() <= p.y <= self.max_y()
    }

    /// How far `p` lies outside the line through the face `side`, measured
    /// along the outward normal of that face: positive beyond the face,
    /// negative on the rectangle's side of it.
    pub open spec fn beyond(self, side: Side, p: Direction) -> int {
        match side {
            Side::Left => self.min_x() - p.x,
            Side::Right => p.x - self.max_x(),
            Side::Bottom => self.min_y() - p.y,
            Side::Top => p.y - self.max_y(),
        }
    }

    /// The point of the rectangle nearest to `p`.
    pub open spec fn closest_point(self, p: Direction) -> Direction {
        Direction {
            x: clamped(p.x, self.min_x(), self.max_x()),
            y: clamped(p.y, self.min_y(), self.max_y()),
        }
    }

    /// Square of the distance from `p` to the rectangle; zero inside it.
    pub open spec fn distance_sq(self, p: Direction) -> int {
        let q = self.closest_point(p);
        (p.x - q.x) * (p.x - q.x) + (p.y - q.y) * (p.y - q.y)
    }

    /// Whether a ball of the given radius centred at `p` touches or overlaps
    /// the rectangle.
    pub open spec fn touches(self, p: Direction, radius: int) -> bool {
        self.distance_sq(p) <= radius * radius
    }

    /// The face that a ball centred at `p` strikes: the face that `p` lies
    /// farthest beyond or, where `p` is inside the rectangle, the face
    /// nearest to `p`. Between a horizontal and a vertical candidate at the
    /// same distance the left or right face wins; between two opposite faces
    /// at the same distance, the right and the top one.
    pub open spec fn struck_face(self, p: Direction) -> Side {
        let left = self.beyond(Side::Left, p);
        let right = self.beyond(Side::Right, p);
        let bottom = self.beyond(Side::Bottom, p);
        let top = self.beyond(Side::Top, p);
        let horizontal = if left > right {
            left
        } else {
            right
        };
        let vertical = if bottom > top {
            bottom
        } else {
            top
        };
        if horizontal >= vertical {
            if left > right {
                Side::Left
            } else {
                Side::Right
            }
        } else {
            if bottom > top {
                Side::Bottom
            } else {
                Side::Top
            }
        }
    }

    /// The rectangle with the given centre and half-extents; `Extents`
    /// where a half-extent is not positive.
    pub fn new(center: Vector, half_extents: Vector) -> (made: Result<Obstacle, InvalidInput>)
        ensures
            (half_extents.x > 0 && half_extents.y > 0) ==> made == Ok::<Obstacle, InvalidInput>(
                Obstacle { center, half_extents },
            ),
            !(half_extents.x > 0 && half_extents.y > 0) ==> made == Err::<Obstacle, InvalidInput>(
                InvalidInput::Extents,
            ),
    {
        if half_extents.x > 0 && half_extents.y > 0 {
            Ok(Obstacle { center, half_extents })
        } else {
            Err(InvalidInput::Extents)
        }
    }

    /// Whether the rectangle has an area.
    pub fn is_valid(&self) -> (valid: bool)
        ensures
            valid == self.wf(),
    {
        self.half_extents.x > 0 && self.half_extents.y > 0
    }

    /// The face that a ball centred at `position` strikes.
    pub fn face_struck(&self, position: Vector) -> (side: Side)
        ensures
            side == self.struck_face(position@),
    {
        let px: i64 = position.x as i64;
        let py: i64 = position.y as i64;
        let left: i64 = (self.center.x as i64 - self.half_extents.x as i64) - px;
        let right: i64 = px - (self.center.x as i64 + self.half_extents.x as i64);
        let bottom: i64 = (self.center.y as i64 - self.half_extents.y as i64) - py;
        let top: i64 = py - (self.center.y as i64 + self.half_extents.y as i64);
        let horizontal: i64 = if left > right {
            left
        } else {
            right
        };
        let vertical: i64 = if bottom > top {
            bottom
        } else {
            top
        };
        if horizontal >= vertical {
            if left > right {
                Side::Left
            } else {
                Side::Right
            }
        } else {
            if bottom > top {
                Side::Bottom
            } else {
                Side::Top
            }
        }
    }

    /// Whether a ball of the given radius centred at `position` touches or
    /// overlaps the rectangle.
    pub fn is_touched(&self, position: Vector, radius: i32) -> (touched: bool)
        requires
            self.wf(),
            radius > 0,
        ensures
            touched == self.touches(position@, radius as int),
    {
        let px: i64 = position.x as i64;
        let py: i64 = position.y as i64;
        let min_x: i64 = self.center.x as i64 - self.half_extents.x as i64;
        let max_x: i64 = self.center.x as i64 + self.half_extents.x as i64;
        let min_y: i64 = self.center.y as i64 - self.half_extents.y as i64;
        let max_y: i64 = self.center.y as i64 + self.half_extents.y as i64;
        let qx: i64 = if px < min_x {
            min_x
        } else if px > max_x {
            max_x
        } else {
            px
        };
        let qy: i64 = if py < min_y {
            min_y
        } else if py > max_y {
            max_y
        } else {
            py
        };
        let ox: i128 = (px - qx) as i128;
        let oy: i128 = (py - qy) as i128;
        let r: i128 = radius as i128;
        assert(0 <= ox * ox <= 0x8_0000_0000_0000_0000 && 0 <= oy * oy <= 0x8_0000_0000_0000_0000
            && 0 <= r * r <= 0x4000_0000_0000_0000) by (nonlinear_arith)
            requires
                -0x2_0000_0000 <= ox <= 0x2_0000_0000,
                -0x2_0000_0000 <= oy <= 0x2_0000_0000,
                0 <= r <= 0x8000_0000,
        ;
        ox * ox + oy * oy <= r * r
    }

    /// The contact, if any, between this rectangle and a ball of the given
    /// radius centred at `position`.
    pub fn contact_with(&self, position: Vector, radius: i32) -> (contact: Option<Contact>)
        requires
            self.wf(),
            radius > 0,
        ensures
            contact == detected(position@, radius as int, *self),
    {
        if self.is_touched(position, radius) {
            Some(Contact::Face(self.face_struck(position)))
        } else {
            None
        }
    }
}

/// What the detector reports for a ball of the given radius centred at `p`
/// and a rectangle with an area: nothing where the ball is farther from the
/// rectangle than its radius, and the struck face otherwise.
pub open spec fn detected(p: Direction, radius: int, obstacle: Obstacle) -> Option<Contact> {
    if obstacle.touches(p, radius) {
        Some(Contact::Face(obstacle.struck_face(p)))
    } else {
        None
    }
}

/// Tests a ball against one obstacle.
///
/// A radius that is not positive is rejected as `Radius`, and otherwise a
/// half-extent that is not positive as `Extents`. For a valid pair the
/// result is no contact exactly where the ball's centre is farther from the
/// rectangle than the radius, and else the face that was struck.
///
/// The test looks at one position and knows nothing of where the ball was
/// before. For a centre outside the rectangle the face is one that the
/// centre lies strictly beyond. For a centre inside the rectangle, where a
/// ball that moves far in one step may end up, the face is the nearest one,
/// which need not be the face that the ball came in by. `Ball::tick` never
/// meets that case with a ball that comes from outside: it moves in strides
/// no longer than the radius, and tests after each.
pub fn detect(
    ball_position: Vector,
    ball_radius: i32,
    obstacle_position: Vector,
    obstacle_half_extents: Vector,
) -> (result: Result<Option<Contact>, InvalidInput>)
    ensures
        ball_radius <= 0 ==> result == Err::<Option<Contact>, InvalidInput>(InvalidInput::Radius),
        (ball_radius > 0 && !(obstacle_half_extents.x > 0 && obstacle_half_extents.y > 0))
            ==> result == Err::<Option<Contact>, InvalidInput>(InvalidInput::Extents),
        (ball_radius > 0 && obstacle_half_extents.x > 0 && obstacle_half_extents.y > 0)
            ==> result == Ok::<Option<Contact>, InvalidInput>(
            detected(
                ball_position@,
                ball_radius as int,
                Obstacle { center: obstacle_position, half_extents: obstacle_half_extents },
            ),
        ),
{
    if ball_radius <= 0 {
        return Err(InvalidInput::Radius);
    }
    if obstacle_half_extents.x <= 0 || obstacle_half_extents.y <= 0 {
        return Err(InvalidInput::Extents);
    }
    let obstacle = Obstacle { center: obstacle_position, half_extents: obstacle_half_extents };
    Ok(obstacle.contact_with(ball_position, ball_radius))
}

/// The squared distance is at least the square of how far the point lies
/// beyond any one face.
pub proof fn lemma_distance_at_least_beyond(obstacle: Obstacle, p: Direction, side: Side)
    requires
        obstacle.wf(),
        obstacle.beyond(side, p) >= 0,
    ensures
        obstacle.distance_sq(p) >= obstacle.beyond(side, p) * obstacle.beyond(side, p),
{
    let q = obstacle.closest_point(p);
    let ox = p.x - q.x;
    let oy = p.y - q.y;
    let b = obstacle.beyond(side, p);
    squares_keep_order(0, b);
    assert(ox * ox >= 0 && oy * oy >= 0) by (nonlinear_arith);
    assert(ox == b || ox == -b || oy == b || oy == -b);
    assert((ox == b || ox == -b) ==> ox * ox == b * b) by (nonlinear_arith);
    assert((oy == b || oy == -b) ==> oy * oy == b * b) by (nonlinear_arith);
}

/// A ball whose centre lies beyond some face by more than its radius
/// touches nothing.
pub proof fn lemma_separated_no_contact(obstacle: Obstacle, p: Direction, radius: int, side: Side)
    requires
        obstacle.wf(),
        radius > 0,
        obstacle.beyond(side, p) > radius,
    ensures
        detected(p, radius, obstacle) is None,
{
    lemma_distance_at_least_beyond(obstacle, p, side);
    squares_keep_order(radius, obstacle.beyond(side, p));
}

/// The face reported for a contact looks away from the rectangle's inside,
/// never into it: of all faces it is the one that the ball's centre lies
/// farthest beyond, the centre is on its side of the rectangle's middle, and
/// a centre outside the rectangle lies strictly beyond it.
pub proof fn lemma_struck_face_looks_outward(obstacle: Obstacle, p: Direction, other: Side)
    requires
        obstacle.wf(),
    ensures
        obstacle.beyond(obstacle.struck_face(p), p) >= obstacle.beyond(other, p),
        (Direction { x: p.x - obstacle.center.x, y: p.y - obstacle.center.y }).dot(
            obstacle.struck_face(p).outward(),
        ) >= 0,
        !obstacle.contains(p) ==> obstacle.beyond(obstacle.struck_face(p), p) > 0,
        !obstacle.contains(p) ==> (Direction {
            x: p.x - obstacle.closest_point(p).x,
            y: p.y - obstacle.closest_point(p).y,
        }).dot(obstacle.struck_face(p).outward()) > 0,
{
    let q = obstacle.closest_point(p);
    let face = obstacle.struck_face(p);
    lemma_dot_outward(Direction { x: p.x - q.x, y: p.y - q.y }, face);
    lemma_dot_outward(Direction { x: p.x - obstacle.center.x, y: p.y - obstacle.center.y }, face);
}

/// For a centre outside the rectangle the struck face is read off the offset
/// from the closest point of the rectangle to the centre: the axis on which
/// the offset is longer decides between a left or right and a top or bottom
/// face, and the sign of the offset on that axis picks the face.
pub proof fn lemma_struck_face_by_offset(obstacle: Obstacle, p: Direction)
    requires
        obstacle.wf(),
        !obstacle.contains(p),
    ensures
        obstacle.struck_face(p) == dominant_side(p.minus(obstacle.closest_point(p))),
{
}

/// No point of the rectangle is nearer to `p` than the closest point.
pub proof fn lemma_closest_point_is_nearest(obstacle: Obstacle, p: Direction, q: Direction)
    requires
        obstacle.wf(),
        obstacle.contains(q),
    ensures
        obstacle.distance_sq(p) <= (p.x - q.x) * (p.x - q.x) + (p.y - q.y) * (p.y - q.y),
{
    let c = obstacle.closest_point(p);
    lemma_axis_nearest(p.x, c.x, q.x);
    lemma_axis_nearest(p.y, c.y, q.y);
}

proof fn lemma_axis_nearest(p: int, c: int, q: int)
    requires
        (p <= c <= q) || (q <= c <= p),
    ensures
        (p - c) * (p - c) <= (p - q) * (p - q),
{
    squares_keep_order(p - c, p - q);
}

/// A step no longer than the radius cannot carry the centre of a ball into
/// a rectangle that the ball did not touch before the step. A contact found
/// after such a step therefore has the centre outside the rectangle, and
/// the reported face is one that the centre lies strictly beyond.
pub proof fn lemma_short_step_stays_outside(
    obstacle: Obstacle,
    p: Direction,
    step: Direction,
    radius: int,
)
    requires
        obstacle.wf(),
        !obstacle.touches(p, radius),
        step.norm_sq() <= radius * radius,
    ensures
        !obstacle.contains(p.plus(step)),
        obstacle.beyond(obstacle.struck_face(p.plus(step)), p.plus(step)) > 0,
{
    let q = p.plus(step);
    if obstacle.contains(q) {
        lemma_closest_point_is_nearest(obstacle, p, q);
        assert((p.x - q.x) * (p.x - q.x) == step.x * step.x && (p.y - q.y) * (p.y - q.y) == step.y
            * step.y) by (nonlinear_arith)
            requires
                q.x == p.x + step.x,
                q.y == p.y + step.y,
        ;
    }
    lemma_struck_face_looks_outward(obstacle, q, Side::Left);
}

} // verus!
