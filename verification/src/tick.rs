//! One tick of the simulation: the ball moves by its velocity, in strides
//! no longer than its radius, and bounces off the first obstacle it meets.

use crate::algebra::squares_keep_order;
use crate::ball::{first_hit, still_touching, Ball};
use crate::detect::{lemma_short_step_stays_outside, Obstacle};
use crate::mirror::{lemma_face_mirror_flips_axis, mirrored};
use crate::reflect::{lemma_reflected_fits, next_speed, reflected, Contact, Rules};
use crate::scale::{
    lemma_rescaled_length, lemma_scaled_component, lemma_scaled_component_shorter, rescale,
    rescaled, MAX_SPEED,
};
use crate::side::{dominant, dominant_side, lemma_dot_outward, Side};
use crate::speed::SpeedState;
use crate::vector::{lemma_norm_sq_positive, lemma_view_round_trip, magnitude, Direction, Vector};
use vstd::prelude::*;

verus! {

/// What a tick did to the ball.
#[derive(Clone, Copy, Debug, PartialEq, Eq, Structural)]
pub enum Outcome {
    /// The ball moved by its whole velocity and bounced off nothing.
    Moved,
    /// The ball met the obstacle with this index, struck this face of it,
    /// bounced, and stopped there for the rest of the tick.
    Bounced { obstacle: usize, side: Side },
}

/// The length of the longest stride of a ball: its radius, and `MAX_SPEED`
/// for a radius above that.
pub open spec fn stride_length(radius: int) -> int {
    if radius > MAX_SPEED {
        MAX_SPEED as int
    } else {
        radius
    }
}

/// The next stride of a ball that has `remaining` left to move: all of it
/// where that is no longer than the stride length, else the vector of that
/// length along it, each coordinate rounded toward zero, and one unit along
/// the main axis of `remaining` where that rounds to nothing.
pub open spec fn stride(remaining: Direction, radius: int) -> Direction {
    let length = stride_length(radius);
    if remaining.norm_sq() <= length * length {
        remaining
    } else {
        let scaled = rescaled(remaining, length);
        if scaled.is_zero() {
            dominant_side(remaining).outward()
        } else {
            scaled
        }
    }
}

/// A stride is no longer than the radius, so that no stride can carry the
/// ball's centre into an obstacle that the ball did not touch before. It
/// leads toward the end of the remaining way and not past it, and it is not
/// zero while some way remains.
pub proof fn lemma_stride(remaining: Direction, radius: int)
    requires
        radius > 0,
    ensures
        stride(remaining, radius).norm_sq() <= radius * radius,
        magnitude(remaining.x - stride(remaining, radius).x) + magnitude(
            remaining.y - stride(remaining, radius).y,
        ) + magnitude(stride(remaining, radius).x) + magnitude(stride(remaining, radius).y)
            == magnitude(remaining.x) + magnitude(remaining.y),
        !remaining.is_zero() ==> !stride(remaining, radius).is_zero(),
{
    let length = stride_length(radius);
    let den = remaining.norm_sq();
    lemma_norm_sq_positive(remaining);
    assert(1 <= length * length <= radius * radius) by (nonlinear_arith)
        requires
            1 <= length <= radius,
    ;
    if den > length * length {
        let scaled = rescaled(remaining, length);
        lemma_rescaled_length(remaining, length);
        lemma_scaled_component(remaining.x, den, length);
        lemma_scaled_component(remaining.y, den, length);
        lemma_scaled_component_shorter(remaining.x, den, length);
        lemma_scaled_component_shorter(remaining.y, den, length);
    }
}

/// A stride does not carry the centre of a ball into an obstacle that the
/// ball did not touch before the stride. Where the ball touches the obstacle
/// after the stride, its centre is outside, strictly beyond the face that is
/// reported as struck: the face is the one that the ball came in by.
pub proof fn lemma_stride_meets_faces_from_outside(
    ball: Ball,
    remaining: Direction,
    obstacle: Obstacle,
)
    requires
        ball.wf(),
        obstacle.wf(),
        !obstacle.touches(ball.position@, ball.radius as int),
    ensures
        ({
            let after = ball.displaced(stride(remaining, ball.radius as int)).position@;
            &&& !obstacle.contains(after)
            &&& obstacle.beyond(obstacle.struck_face(after), after) > 0
        }),
{
    let radius = ball.radius as int;
    let step = stride(remaining, radius);
    let before = ball.position@;
    let after = ball.displaced(step).position@;
    let moved = after.minus(before);
    lemma_stride(remaining, radius);
    squares_keep_order(moved.x, step.x);
    squares_keep_order(moved.y, step.y);
    lemma_short_step_stays_outside(obstacle, before, moved, radius);
    assert(before.plus(moved) == after);
}

/// Whether a ball that moves with velocity `v` comes nearer to the face
/// `side` of an obstacle: whether `v` has a part against the outward normal
/// of that face.
pub open spec fn approaches(v: Direction, side: Side) -> bool {
    match side {
        Side::Left => v.x > 0,
        Side::Right => v.x < 0,
        Side::Top => v.y < 0,
        Side::Bottom => v.y > 0,
    }
}

/// Whether a ball that moves with `velocity` comes nearer to the face
/// `side`.
pub fn is_approaching(velocity: Vector, side: Side) -> (nearer: bool)
    ensures
        nearer == approaches(velocity@, side),
{
    match side {
        Side::Left => velocity.x > 0,
        Side::Right => velocity.x < 0,
        Side::Top => velocity.y < 0,
        Side::Bottom => velocity.y > 0,
    }
}

/// A ball approaches a face exactly where its velocity has a negative
/// scalar product with the face's outward normal. After a bounce off a face
/// that it approached, the ball no longer does: its new velocity leads away
/// from that face, or along it, and never into the obstacle behind it.
pub proof fn lemma_bounce_leads_away(
    velocity: Direction,
    side: Side,
    state: SpeedState,
    rules: Rules,
)
    requires
        state.wf(),
    ensures
        approaches(velocity, side) <==> velocity.dot(side.outward()) < 0,
        approaches(velocity, side) ==> !approaches(
            reflected(velocity, Contact::Face(side), state, rules).0,
            side,
        ),
{
    lemma_dot_outward(velocity, side);
    lemma_face_mirror_flips_axis(velocity, side);
    let normal = side.outward();
    let direction = mirrored(velocity, normal);
    let speed = reflected(velocity, Contact::Face(side), state, rules).1.units();
    if !direction.is_zero() {
        lemma_norm_sq_positive(direction);
        lemma_scaled_component(direction.x, direction.norm_sq(), speed);
        lemma_scaled_component(direction.y, direction.norm_sq(), speed);
    }
}

impl Ball {
    /// The ball after a stride that ended without a bounce, `self`, with its
    /// memory of contacts brought up to date. A contact that was found and
    /// let pass is remembered. Without a contact the remembered obstacle is
    /// kept while the ball still touches it, and forgotten once it does not.
    pub open spec fn let_pass(self, hit: Option<(usize, Side)>, obstacles: Seq<Obstacle>) -> Ball {
        Ball {
            touching: match hit {
                Some((i, _)) => Some(i),
                None => if still_touching(
                    self.position@,
                    self.radius as int,
                    obstacles,
                    self.touching,
                ) {
                    self.touching
                } else {
                    None
                },
            },
            ..self
        }
    }

    /// The ball and the outcome after it has moved by `remaining` in
    /// strides. After each stride the obstacles are tested in order, the one
    /// whose contact was answered before left aside. At the first contact
    /// with a face that the ball approaches, the ball bounces, remembers the
    /// obstacle, and the tick ends. A contact with a face that the ball
    /// does not approach is remembered and not answered: a bounce there would
    /// send the ball into the obstacle. Without a contact the remembered
    /// obstacle is forgotten once the ball no longer touches it. The ball
    /// goes on until nothing remains.
    pub open spec fn travelled(
        self,
        remaining: Direction,
        obstacles: Seq<Obstacle>,
        rules: Rules,
    ) -> (Ball, Outcome)
        decreases magnitude(remaining.x) + magnitude(remaining.y),
    {
        let step = stride(remaining, self.radius as int);
        let moved = self.displaced(step);
        let hit = first_hit(moved.position@, self.radius as int, obstacles, self.touching, 0);
        if hit is Some && approaches(self.velocity@, hit.unwrap().1) {
            let (i, side) = hit.unwrap();
            (
                Ball { touching: Some(i), ..moved.bounced(Contact::Face(side), rules) },
                Outcome::Bounced { obstacle: i, side },
            )
        } else {
            let free = moved.let_pass(hit, obstacles);
            let left = remaining.minus(step);
            if left.is_zero() || self.radius <= 0 {
                (free, Outcome::Moved)
            } else {
                proof {
                    lemma_stride(remaining, self.radius as int);
                }
                free.travelled(left, obstacles, rules)
            }
        }
    }

    /// How the ball after a tick, `self`, stands to the ball before it. Where
    /// the ball only moved, its velocity and speed are what they were. Where
    /// it bounced, it approached the struck face before and leads away from
    /// it now, and velocity and speed are those of one bounce off that face:
    /// the speed has grown once at most.
    pub open spec fn answered(self, before: Ball, outcome: Outcome, rules: Rules) -> bool {
        &&& self.radius == before.radius
        &&& match outcome {
            Outcome::Moved => self.velocity == before.velocity && self.speed == before.speed,
            Outcome::Bounced { obstacle, side } => {
                &&& approaches(before.velocity@, side)
                &&& !approaches(self.velocity@, side)
                &&& self.velocity@ == reflected(
                    before.velocity@,
                    Contact::Face(side),
                    before.speed,
                    rules,
                ).0
                &&& self.speed == next_speed(before.speed, side, rules)
                &&& self.touching == Some(obstacle)
            },
        }
    }

    /// Advances the ball by one tick: it moves by its velocity and bounces
    /// off the first obstacle that it runs into on the way.
    ///
    /// The ball must be valid, and its speed state must have room for one
    /// more bounce: `try_tick` tests both.
    pub fn tick(&mut self, obstacles: &Vec<Obstacle>, rules: Rules) -> (outcome: Outcome)
        requires
            old(self).wf(),
            old(self).speed.has_room(rules.escalation),
        ensures
            (*final(self), outcome) == old(self).travelled(old(self).velocity@, obstacles@, rules),
            final(self).wf(),
            final(self).answered(*old(self), outcome, rules),
            outcome is Moved ==> final(self).position == old(self).displaced(
                old(self).velocity@,
            ).position,
    {
        proof {
            lemma_travel_answers_once(*self, self.velocity@, obstacles@, rules);
            lemma_travel_moves_all_the_way(*self, self.velocity@, obstacles@, rules);
        }
        let mut rx: i64 = self.velocity.x as i64;
        let mut ry: i64 = self.velocity.y as i64;
        loop
            invariant
                self.wf(),
                self.speed.has_room(rules.escalation),
                -MAX_SPEED <= rx <= MAX_SPEED,
                -MAX_SPEED <= ry <= MAX_SPEED,
                old(self).travelled(old(self).velocity@, obstacles@, rules) == self.travelled(
                    Direction { x: rx as int, y: ry as int },
                    obstacles@,
                    rules,
                ),
                old(self).travelled(old(self).velocity@, obstacles@, rules).0.answered(
                    *old(self),
                    old(self).travelled(old(self).velocity@, obstacles@, rules).1,
                    rules,
                ),
                old(self).travelled(old(self).velocity@, obstacles@, rules).1 is Moved ==> old(
                    self,
                ).travelled(old(self).velocity@, obstacles@, rules).0.position == old(
                    self,
                ).displaced(old(self).velocity@).position,
            decreases magnitude(rx as int) + magnitude(ry as int),
        {
            proof {
                lemma_stride(Direction { x: rx as int, y: ry as int }, self.radius as int);
            }
            let step: Vector = next_stride(rx, ry, self.radius);
            self.displace(step);
            let skip: Option<usize> = self.touching;
            match self.first_contact(obstacles, skip) {
                Some((i, side)) => {
                    if is_approaching(self.velocity, side) {
                        self.bounce(Contact::Face(side), rules);
                        self.touching = Some(i);
                        return Outcome::Bounced { obstacle: i, side };
                    }
                    self.touching = Some(i);
                },
                None => {
                    if !self.is_touching(obstacles, skip) {
                        self.touching = None;
                    }
                },
            }
            rx = rx - step.x as i64;
            ry = ry - step.y as i64;
            if rx == 0 && ry == 0 {
                return Outcome::Moved;
            }
        }
    }

    /// Advances the ball by one tick where it is valid and its speed state
    /// has room for one more bounce; says `None`, and leaves the ball as it
    /// is, where not. A host that gets `None` has reached the end of what
    /// the library can speed up, and ends the round.
    pub fn try_tick(&mut self, obstacles: &Vec<Obstacle>, rules: Rules) -> (outcome: Option<
        Outcome,
    >)
        ensures
            (old(self).wf() && old(self).speed.has_room(rules.escalation)) ==> (outcome matches Some(
                o,
            ) && (*final(self), o) == old(self).travelled(
                old(self).velocity@,
                obstacles@,
                rules,
            )),
            !(old(self).wf() && old(self).speed.has_room(rules.escalation)) ==> (outcome is None
                && *final(self) == *old(self)),
    {
        if self.is_valid() && self.speed.can_escalate(rules.escalation) {
            Some(self.tick(obstacles, rules))
        } else {
            None
        }
    }
}

/// A tick answers one contact at most: see `Ball::answered`.
pub proof fn lemma_travel_answers_once(
    ball: Ball,
    remaining: Direction,
    obstacles: Seq<Obstacle>,
    rules: Rules,
)
    requires
        ball.wf(),
        ball.speed.has_room(rules.escalation),
    ensures
        ball.travelled(remaining, obstacles, rules).0.answered(
            ball,
            ball.travelled(remaining, obstacles, rules).1,
            rules,
        ),
    decreases magnitude(remaining.x) + magnitude(remaining.y),
{
    let step = stride(remaining, ball.radius as int);
    let moved = ball.displaced(step);
    let hit = first_hit(moved.position@, ball.radius as int, obstacles, ball.touching, 0);
    if hit is Some && approaches(ball.velocity@, hit.unwrap().1) {
        let side = hit.unwrap().1;
        lemma_bounce_leads_away(ball.velocity@, side, ball.speed, rules);
        lemma_reflected_fits(ball.velocity@, Contact::Face(side), ball.speed, rules);
    } else {
        let left = remaining.minus(step);
        if !left.is_zero() {
            lemma_stride(remaining, ball.radius as int);
            let free = moved.let_pass(hit, obstacles);
            lemma_travel_answers_once(free, left, obstacles, rules);
        }
    }
}

/// A tick without a bounce moves the ball by its whole velocity: the
/// strides add up to it.
pub proof fn lemma_travel_moves_all_the_way(
    ball: Ball,
    remaining: Direction,
    obstacles: Seq<Obstacle>,
    rules: Rules,
)
    requires
        ball.wf(),
    ensures
        ball.travelled(remaining, obstacles, rules).1 is Moved ==> ball.travelled(
            remaining,
            obstacles,
            rules,
        ).0.position == ball.displaced(remaining).position,
    decreases magnitude(remaining.x) + magnitude(remaining.y),
{
    let step = stride(remaining, ball.radius as int);
    let moved = ball.displaced(step);
    let hit = first_hit(moved.position@, ball.radius as int, obstacles, ball.touching, 0);
    lemma_stride(remaining, ball.radius as int);
    if !(hit is Some && approaches(ball.velocity@, hit.unwrap().1)) {
        let left = remaining.minus(step);
        if !left.is_zero() {
            let free = moved.let_pass(hit, obstacles);
            lemma_travel_moves_all_the_way(free, left, obstacles, rules);
        }
    }
}

fn next_stride(rx: i64, ry: i64, radius: i32) -> (step: Vector)
    requires
        radius > 0,
        -MAX_SPEED <= rx <= MAX_SPEED,
        -MAX_SPEED <= ry <= MAX_SPEED,
    ensures
        step@ == stride(Direction { x: rx as int, y: ry as int }, radius as int),
{
    let length: u32 = if radius as u32 > MAX_SPEED {
        MAX_SPEED
    } else {
        radius as u32
    };
    assert(0 <= rx * rx <= 0x100_0000_0000 && 0 <= ry * ry <= 0x100_0000_0000 && 0 <= length
        * length <= 0x100_0000_0000) by (nonlinear_arith)
        requires
            -0x10_0000 <= rx <= 0x10_0000,
            -0x10_0000 <= ry <= 0x10_0000,
            0 <= length <= 0x10_0000,
    ;
    let norm_sq: i64 = rx * rx + ry * ry;
    let length_sq: i64 = (length as i64) * (length as i64);
    if norm_sq <= length_sq {
        Vector { x: rx as i32, y: ry as i32 }
    } else {
        let scaled: Vector = rescale(rx, ry, length);
        if scaled.is_zero() {
            dominant(rx, ry).normal()
        } else {
            scaled
        }
    }
}

} // verus!
