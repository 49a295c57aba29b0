//! What a contact does to the ball: the velocity is mirrored about the
//! contact normal, the speed grows by the rule in force, and the mirrored
//! direction is given the new speed.

use crate::mirror::{lemma_mirror_keeps_length, mirrored};
use crate::scale::{is_as_long_as, lemma_rescaled_length, rescale, rescaled, MAX_SPEED};
use crate::side::{dominant, dominant_side, Side};
use crate::speed::{Escalation, SpeedState};
use crate::vector::{lemma_norm_sq_positive, magnitude, Direction, Vector};
use vstd::prelude::*;

verus! {

/// Largest coordinate, in magnitude, of a contact normal handed in by the
/// host. A normal is a direction only: its length does not matter.
///
/// The limit is one of the machine, not of the game: the mirror image of a
/// velocity about a normal `n` has coordinates up to `6 * |n|^2` times those
/// of the velocity, and with both limits it stays below `MAX_DIRECTION`. A
/// unit normal times 1024, rounded, is within less than a tenth of a degree
/// of the unit normal.
pub const MAX_NORMAL: i32 = 1024;

/// How the velocity is turned at a contact.
#[derive(Clone, Copy, Debug, PartialEq, Eq, Structural)]
pub enum ReflectionPolicy {
    /// The velocity coordinate across the struck face changes sign.
    AxisFlip,
    /// The velocity is mirrored about the contact normal, whatever its
    /// direction.
    Mirror,
}

/// The two choices that make up a controller.
#[derive(Clone, Copy, Debug, PartialEq, Eq, Structural)]
pub struct Rules {
    pub reflection: ReflectionPolicy,
    pub escalation: Escalation,
}

impl Rules {
    /// Whether a bounce off `side` makes the ball faster. Under the flat
    /// rule with axis flips only the left and right faces do; under every
    /// other pair of rules each bounce does.
    pub open spec fn escalates(self, side: Side) -> bool {
        side.is_horizontal() || !(self.reflection is AxisFlip && self.escalation is Flat)
    }

    /// Whether a bounce off `side` makes the ball faster.
    pub fn escalates_on(self, side: Side) -> (faster: bool)
        ensures
            faster == self.escalates(side),
    {
        if side.horizontal() {
            true
        } else {
            match (self.reflection, self.escalation) {
                (ReflectionPolicy::AxisFlip, Escalation::Flat) => false,
                _ => true,
            }
        }
    }
}

/// What is known of one contact between the ball and an obstacle.
#[derive(Clone, Copy, Debug, PartialEq, Eq, Structural)]
pub enum Contact {
    /// The face that the ball struck.
    Face(Side),
    /// A normal of the contact, pointing from the obstacle to the ball, as a
    /// physics engine reports it. It need not have unit length, and may be
    /// the zero vector where the engine found none.
    Normal(Vector),
}

impl Contact {
    /// A reported normal has no coordinate beyond `MAX_NORMAL`.
    pub open spec fn wf(self) -> bool {
        match self {
            Contact::Face(_) => true,
            Contact::Normal(n) => -MAX_NORMAL <= n.x <= MAX_NORMAL && -MAX_NORMAL <= n.y
                <= MAX_NORMAL,
        }
    }

    /// The contact with the given normal; `None` where a coordinate of the
    /// normal is beyond `MAX_NORMAL`.
    pub fn from_normal(normal: Vector) -> (contact: Option<Contact>)
        ensures
            Contact::Normal(normal).wf() ==> contact == Some(Contact::Normal(normal)),
            !Contact::Normal(normal).wf() ==> contact is None,
    {
        if -MAX_NORMAL <= normal.x && normal.x <= MAX_NORMAL && -MAX_NORMAL <= normal.y && normal.y
            <= MAX_NORMAL {
            Some(Contact::Normal(normal))
        } else {
            None
        }
    }

    /// Whether the contact is one that `reflect` takes: see `wf`.
    pub fn is_valid(self) -> (valid: bool)
        ensures
            valid == self.wf(),
    {
        match self {
            Contact::Face(_) => true,
            Contact::Normal(n) => -MAX_NORMAL <= n.x && n.x <= MAX_NORMAL && -MAX_NORMAL <= n.y
                && n.y <= MAX_NORMAL,
        }
    }

    /// The face that counts as struck. For a reported normal it is the face
    /// nearest to the normal; for the zero normal it is the face that the
    /// ball, moving with `velocity`, runs into along its main axis of
    /// motion.
    pub open spec fn struck_side(self, velocity: Direction) -> Side {
        match self {
            Contact::Face(side) => side,
            Contact::Normal(n) => if n@.is_zero() {
                dominant_side(velocity.times(-1))
            } else {
                dominant_side(n@)
            },
        }
    }

    /// The normal about which the velocity is mirrored: the reported one
    /// under `Mirror` where it is not zero, and the unit normal of the struck
    /// face otherwise.
    pub open spec fn effective_normal(
        self,
        velocity: Direction,
        policy: ReflectionPolicy,
    ) -> Direction {
        match self {
            Contact::Normal(n) => if policy is Mirror && !n@.is_zero() {
                n@
            } else {
                self.struck_side(velocity).outward()
            },
            Contact::Face(side) => side.outward(),
        }
    }

    /// The face that counts as struck by a ball that moves with `velocity`.
    pub fn side(self, velocity: Vector) -> (side: Side)
        ensures
            side == self.struck_side(velocity@),
    {
        match self {
            Contact::Face(side) => side,
            Contact::Normal(n) => {
                if n.is_zero() {
                    dominant(-(velocity.x as i64), -(velocity.y as i64))
                } else {
                    dominant(n.x as i64, n.y as i64)
                }
            },
        }
    }

    /// The normal about which the velocity is mirrored.
    pub fn normal(self, velocity: Vector, policy: ReflectionPolicy) -> (n: Vector)
        requires
            self.wf(),
        ensures
            n@ == self.effective_normal(velocity@, policy),
            !n@.is_zero(),
            -MAX_NORMAL <= n.x <= MAX_NORMAL,
            -MAX_NORMAL <= n.y <= MAX_NORMAL,
    {
        match self {
            Contact::Face(side) => side.normal(),
            Contact::Normal(n) => {
                match policy {
                    ReflectionPolicy::Mirror => {
                        if n.is_zero() {
                            self.side(velocity).normal()
                        } else {
                            n
                        }
                    },
                    ReflectionPolicy::AxisFlip => self.side(velocity).normal(),
                }
            },
        }
    }
}

/// Whether no coordinate of `v` is beyond `MAX_SPEED`.
pub open spec fn within_speed_limit(v: Direction) -> bool {
    magnitude(v.x) <= MAX_SPEED && magnitude(v.y) <= MAX_SPEED
}

/// Whether no coordinate of `v` is beyond `MAX_SPEED`, as `reflect` asks of
/// a velocity.
pub fn is_within_speed_limit(v: Vector) -> (within: bool)
    ensures
        within == within_speed_limit(v@),
{
    -(MAX_SPEED as i64) <= v.x as i64 && v.x as i64 <= MAX_SPEED as i64 && -(MAX_SPEED as i64)
        <= v.y as i64 && v.y as i64 <= MAX_SPEED as i64
}

/// The speed state after a bounce off `side`.
pub open spec fn next_speed(state: SpeedState, side: Side, rules: Rules) -> SpeedState {
    if rules.escalates(side) {
        state.escalated(rules.escalation)
    } else {
        state
    }
}

/// Velocity and speed state after a contact: the speed state is escalated
/// where the rules say so, and the new velocity points along the mirrored
/// old one and has the new speed.
pub open spec fn reflected(
    velocity: Direction,
    contact: Contact,
    state: SpeedState,
    rules: Rules,
) -> (Direction, SpeedState) {
    let next = next_speed(state, contact.struck_side(velocity), rules);
    let direction = mirrored(velocity, contact.effective_normal(velocity, rules.reflection));
    (rescaled(direction, next.units()), next)
}

/// Whether velocity, contact and speed state are within the limits of the
/// machine arithmetic, and the speed state stays so where this contact makes
/// the ball faster.
pub open spec fn can_reflect(
    velocity: Direction,
    contact: Contact,
    state: SpeedState,
    rules: Rules,
) -> bool {
    &&& within_speed_limit(velocity)
    &&& contact.wf()
    &&& state.wf()
    &&& rules.escalates(contact.struck_side(velocity)) ==> state.has_room(rules.escalation)
}

/// No coordinate of the velocity after a contact is beyond the new speed,
/// so that it fits a `Vector`.
pub proof fn lemma_reflected_fits(
    velocity: Direction,
    contact: Contact,
    state: SpeedState,
    rules: Rules,
)
    requires
        state.wf(),
        rules.escalates(contact.struck_side(velocity)) ==> state.has_room(rules.escalation),
    ensures
        within_speed_limit(reflected(velocity, contact, state, rules).0),
        reflected(velocity, contact, state, rules).0.fits(),
        reflected(velocity, contact, state, rules).0.to_vector()@ == reflected(
            velocity,
            contact,
            state,
            rules,
        ).0,
        reflected(velocity, contact, state, rules).1.wf(),
{
    let out = reflected(velocity, contact, state, rules);
    let direction = mirrored(velocity, contact.effective_normal(velocity, rules.reflection));
    if !direction.is_zero() {
        lemma_rescaled_length(direction, out.1.units());
    }
}

/// Turns the ball at a contact. The speed state is escalated where the
/// rules say so; the velocity is mirrored about the contact normal and given
/// the new speed in whole units, each coordinate rounded toward zero.
///
/// The new velocity of a moving ball is as long as the new speed up to that
/// rounding: never longer, and short by less than one unit in each
/// coordinate. A ball at rest stays at rest.
///
/// The velocity is mirrored whichever way the ball moves, also where it
/// already leaves the obstacle; `Ball::tick` turns only a ball that
/// approaches the struck face.
pub fn reflect(velocity: Vector, contact: Contact, state: SpeedState, rules: Rules) -> (out: (
    Vector,
    SpeedState,
))
    requires
        can_reflect(velocity@, contact, state, rules),
    ensures
        out.0@ == reflected(velocity@, contact, state, rules).0,
        out.1 == reflected(velocity@, contact, state, rules).1,
        out.1.wf(),
        within_speed_limit(out.0@),
        !velocity@.is_zero() ==> is_as_long_as(out.0@, out.1.units()),
        velocity@.is_zero() ==> out.0@.is_zero(),
{
    let side: Side = contact.side(velocity);
    let next: SpeedState = if rules.escalates_on(side) {
        state.escalate(rules.escalation)
    } else {
        state
    };
    let speed: u32 = next.whole_units();
    let n: Vector = contact.normal(velocity, rules.reflection);
    let nx: i64 = n.x as i64;
    let ny: i64 = n.y as i64;
    let vx: i64 = velocity.x as i64;
    let vy: i64 = velocity.y as i64;
    assert(0 <= nx * nx <= 0x10_0000 && 0 <= ny * ny <= 0x10_0000 && -0x4000_0000 <= vx * nx
        <= 0x4000_0000 && -0x4000_0000 <= vy * ny <= 0x4000_0000) by (nonlinear_arith)
        requires
            -1024 <= nx <= 1024,
            -1024 <= ny <= 1024,
            -0x10_0000 <= vx <= 0x10_0000,
            -0x10_0000 <= vy <= 0x10_0000,
    ;
    let nn: i64 = nx * nx + ny * ny;
    let vn: i64 = vx * nx + vy * ny;
    assert(-0x200_0000_0000 <= nn * vx <= 0x200_0000_0000 && -0x200_0000_0000 <= nn * vy
        <= 0x200_0000_0000 && -0x200_0000_0000 <= vn * nx <= 0x200_0000_0000 && -0x200_0000_0000
        <= vn * ny <= 0x200_0000_0000) by (nonlinear_arith)
        requires
            0 <= nn <= 0x20_0000,
            -0x8000_0000 <= vn <= 0x8000_0000,
            -1024 <= nx <= 1024,
            -1024 <= ny <= 1024,
            -0x10_0000 <= vx <= 0x10_0000,
            -0x10_0000 <= vy <= 0x10_0000,
    ;
    let rx: i64 = nn * vx - 2 * (vn * nx);
    let ry: i64 = nn * vy - 2 * (vn * ny);
    proof {
        let d = mirrored(velocity@, n@);
        assert(2 * (vn * nx) == 2 * vn * nx && 2 * (vn * ny) == 2 * vn * ny) by (nonlinear_arith);
        assert(d == Direction { x: rx as int, y: ry as int });
        lemma_mirror_keeps_length(velocity@, n@);
        if !d.is_zero() {
            lemma_rescaled_length(d, speed as int);
        }
        if velocity@.is_zero() {
            lemma_norm_sq_positive(velocity@);
            lemma_norm_sq_positive(d);
            assert(n@.norm_sq() * n@.norm_sq() * 0 == 0) by (nonlinear_arith);
        }
    }
    (rescale(rx, ry, speed), next)
}

/// Turns the ball at a contact where velocity, contact and speed state are
/// within the limits, and the new speed stays so; says `None` where they
/// are not.
pub fn try_reflect(velocity: Vector, contact: Contact, state: SpeedState, rules: Rules) -> (out:
    Option<(Vector, SpeedState)>)
    ensures
        can_reflect(velocity@, contact, state, rules) ==> (out matches Some(turned) && turned.0@
            == reflected(velocity@, contact, state, rules).0 && turned.1 == reflected(
            velocity@,
            contact,
            state,
            rules,
        ).1),
        !can_reflect(velocity@, contact, state, rules) ==> out is None,
{
    if !is_within_speed_limit(velocity) || !contact.is_valid() || !state.is_valid() {
        return None;
    }
    if rules.escalates_on(contact.side(velocity)) && !state.can_escalate(rules.escalation) {
        return None;
    }
    Some(reflect(velocity, contact, state, rules))
}

} // verus!
