//! The ball: where it is, how it moves, and which contact it has already
//! answered.

use crate::detect::Obstacle;
use crate::error::InvalidInput;
use crate::reflect::{
    can_reflect, is_within_speed_limit, reflect, reflected, within_speed_limit, Contact, Rules,
};
use crate::scale::{is_as_long_as, lemma_rescaled_length, rescale, rescaled};
use crate::side::Side;
use crate::speed::SpeedState;
use crate::vector::{lemma_view_round_trip, Direction, Vector};
use vstd::prelude::*;

verus! {

/// A moving circular body.
#[derive(Clone, Copy, Debug, PartialEq, Eq, Structural)]
pub struct Ball {
    /// Centre of the ball.
    pub position: Vector,
    /// Displacement per tick.
    pub velocity: Vector,
    pub radius: i32,
    pub speed: SpeedState,
    /// Index of the obstacle whose contact has been dealt with, by a bounce
    /// or by letting a ball pass that was leaving, and has not ended since.
    pub touching: Option<usize>,
}

/// `v` moved into the range of a coordinate.
pub open spec fn clamped_coordinate(v: int) -> i32 {
    if v < i32::MIN {
        i32::MIN
    } else if v > i32::MAX {
        i32::MAX
    } else {
        v as i32
    }
}

/// The first obstacle from index `from` on, other than `skip`, that has an
/// area and that a ball of the given radius centred at `p` touches, with
/// the face struck.
pub open spec fn first_hit(
    p: Direction,
    radius: int,
    obstacles: Seq<Obstacle>,
    skip: Option<usize>,
    from: int,
) -> Option<(usize, Side)>
    decreases obstacles.len() - from,
{
    if from < 0 || from >= obstacles.len() {
        None
    } else if qualifies(p, radius, obstacles, skip, from) {
        Some((from as usize, obstacles[from].struck_face(p)))
    } else {
        first_hit(p, radius, obstacles, skip, from + 1)
    }
}

/// Whether the obstacle with index `skip`, if there is one and it has an
/// area, is touched by a ball of the given radius centred at `p`.
pub open spec fn still_touching(
    p: Direction,
    radius: int,
    obstacles: Seq<Obstacle>,
    skip: Option<usize>,
) -> bool {
    match skip {
        Some(k) => k < obstacles.len() && obstacles[k as int].wf() && obstacles[k as int].touches(
            p,
            radius,
        ),
        None => false,
    }
}

/// Whether the obstacle with index `j` is one that `first_hit` may report:
/// it is not `skip`, has an area, and is touched.
pub open spec fn qualifies(
    p: Direction,
    radius: int,
    obstacles: Seq<Obstacle>,
    skip: Option<usize>,
    j: int,
) -> bool {
    &&& 0 <= j < obstacles.len()
    &&& skip != Some(j as usize)
    &&& obstacles[j].wf()
    &&& obstacles[j].touches(p, radius)
}

/// `first_hit` reports the lowest index from `from` on that qualifies, with
/// the face struck there, and nothing exactly where no index qualifies.
pub proof fn lemma_first_hit(
    p: Direction,
    radius: int,
    obstacles: Seq<Obstacle>,
    skip: Option<usize>,
    from: int,
)
    requires
        0 <= from,
        obstacles.len() <= usize::MAX,
    ensures
        match first_hit(p, radius, obstacles, skip, from) {
            Some((i, side)) => {
                &&& from <= i
                &&& qualifies(p, radius, obstacles, skip, i as int)
                &&& side == obstacles[i as int].struck_face(p)
                &&& forall|j: int| from <= j < i ==> !qualifies(p, radius, obstacles, skip, j)
            },
            None => forall|j: int| from <= j ==> !qualifies(p, radius, obstacles, skip, j),
        },
    decreases obstacles.len() - from,
{
    if from < obstacles.len() && !qualifies(p, radius, obstacles, skip, from) {
        lemma_first_hit(p, radius, obstacles, skip, from + 1);
    }
}

impl Ball {
    /// The radius is positive, the speed state is within its limit, and so
    /// is each coordinate of the velocity.
    pub open spec fn wf(self) -> bool {
        self.radius > 0 && self.speed.wf() && within_speed_limit(self.velocity@)
    }

    /// The ball after a bounce at `contact`: velocity and speed state are
    /// those that `reflected` gives, all else is unchanged.
    pub open spec fn bounced(self, contact: Contact, rules: Rules) -> Ball {
        let out = reflected(self.velocity@, contact, self.speed, rules);
        Ball { velocity: out.0.to_vector(), speed: out.1, ..self }
    }

    /// The ball moved by `step`, each coordinate of the position stopping at
    /// the end of the coordinate range.
    pub open spec fn displaced(self, step: Direction) -> Ball {
        Ball {
            position: Vector {
                x: clamped_coordinate(self.position.x + step.x),
                y: clamped_coordinate(self.position.y + step.y),
            },
            ..self
        }
    }

    /// A ball at `position` that moves along `direction` at the speed of
    /// `speed` and is in no contact.
    ///
    /// A radius that is not positive is rejected as `Radius`, and otherwise
    /// a speed state beyond its limit as `Speed`.
    pub fn new(position: Vector, direction: Vector, radius: i32, speed: SpeedState) -> (made:
        Result<Ball, InvalidInput>)
        ensures
            radius <= 0 ==> made == Err::<Ball, InvalidInput>(InvalidInput::Radius),
            (radius > 0 && !speed.wf()) ==> made == Err::<Ball, InvalidInput>(InvalidInput::Speed),
            (radius > 0 && speed.wf()) ==> made == Ok::<Ball, InvalidInput>(
                Ball {
                    position,
                    velocity: rescaled(direction@, speed.units()).to_vector(),
                    radius,
                    speed,
                    touching: None,
                },
            ),
            made matches Ok(ball) ==> ball.wf() && (!direction@.is_zero() ==> is_as_long_as(
                ball.velocity@,
                speed.units(),
            )),
    {
        if radius <= 0 {
            return Err(InvalidInput::Radius);
        }
        if !speed.is_valid() {
            return Err(InvalidInput::Speed);
        }
        let length: u32 = speed.whole_units();
        let velocity: Vector = rescale(direction.x as i64, direction.y as i64, length);
        proof {
            lemma_view_round_trip(velocity, rescaled(direction@, length as int));
            if !direction@.is_zero() {
                lemma_rescaled_length(direction@, length as int);
            }
        }
        Ok(Ball { position, velocity, radius, speed, touching: None })
    }

    /// Whether the ball is one that `bounce` and `tick` take: see `wf`.
    pub fn is_valid(&self) -> (valid: bool)
        ensures
            valid == self.wf(),
    {
        self.radius > 0 && self.speed.is_valid() && is_within_speed_limit(self.velocity)
    }

    /// Turns the ball at a contact: see `reflect`.
    pub fn bounce(&mut self, contact: Contact, rules: Rules)
        requires
            old(self).radius > 0,
            can_reflect(old(self).velocity@, contact, old(self).speed, rules),
        ensures
            *final(self) == old(self).bounced(contact, rules),
            final(self).wf(),
            final(self).velocity@ == reflected(
                old(self).velocity@,
                contact,
                old(self).speed,
                rules,
            ).0,
            !old(self).velocity@.is_zero() ==> is_as_long_as(
                final(self).velocity@,
                final(self).speed.units(),
            ),
    {
        let out: (Vector, SpeedState) = reflect(self.velocity, contact, self.speed, rules);
        proof {
            lemma_view_round_trip(
                out.0,
                reflected(old(self).velocity@, contact, old(self).speed, rules).0,
            );
        }
        self.velocity = out.0;
        self.speed = out.1;
    }

    /// Moves the ball by `step`.
    pub fn displace(&mut self, step: Vector)
        ensures
            *final(self) == old(self).displaced(step@),
    {
        let x: i64 = self.position.x as i64 + step.x as i64;
        let y: i64 = self.position.y as i64 + step.y as i64;
        self.position = Vector { x: clamp_coordinate(x), y: clamp_coordinate(y) };
    }

    /// The first obstacle other than `skip` that the ball touches, with the
    /// face struck. Obstacles without an area are passed over.
    pub fn first_contact(&self, obstacles: &Vec<Obstacle>, skip: Option<usize>) -> (hit: Option<
        (usize, Side),
    >)
        requires
            self.radius > 0,
        ensures
            hit == first_hit(self.position@, self.radius as int, obstacles@, skip, 0),
    {
        let mut i: usize = 0;
        while i < obstacles.len()
            invariant
                i <= obstacles.len(),
                self.radius > 0,
                first_hit(self.position@, self.radius as int, obstacles@, skip, 0) == first_hit(
                    self.position@,
                    self.radius as int,
                    obstacles@,
                    skip,
                    i as int,
                ),
            decreases obstacles.len() - i,
        {
            let skipped: bool = match skip {
                Some(k) => k == i,
                None => false,
            };
            if !skipped && obstacles[i].is_valid() {
                if obstacles[i].is_touched(self.position, self.radius) {
                    return Some((i, obstacles[i].face_struck(self.position)));
                }
            }
            i += 1;
        }
        None
    }

    /// Whether the ball still touches the obstacle with index `skip`.
    pub fn is_touching(&self, obstacles: &Vec<Obstacle>, skip: Option<usize>) -> (touching: bool)
        requires
            self.radius > 0,
        ensures
            touching == still_touching(self.position@, self.radius as int, obstacles@, skip),
    {
        match skip {
            Some(k) => {
                if k < obstacles.len() && obstacles[k].is_valid() {
                    obstacles[k].is_touched(self.position, self.radius)
                } else {
                    false
                }
            },
            None => false,
        }
    }
}

fn clamp_coordinate(v: i64) -> (c: i32)
    ensures
        c == clamped_coordinate(v as int),
{
    if v < i32::MIN as i64 {
        i32::MIN
    } else if v > i32::MAX as i64 {
        i32::MAX
    } else {
        v as i32
    }
}

} // verus!
