//! The four faces of an axis-aligned rectangle.

use crate::vector::{magnitude, Direction, Vector};
use vstd::prelude::*;

verus! {

/// A face of an axis-aligned rectangle, named by the direction in which it
/// looks; `Top` looks toward greater `y`.
#[derive(Clone, Copy, Debug, PartialEq, Eq, Structural)]
pub enum Side {
    Left,
    Right,
    Top,
    Bottom,
}

impl Side {
    /// The unit normal that points away from the rectangle through this
    /// face.
    pub open spec fn outward(self) -> Direction {
        match self {
            Side::Left => Direction { x: -1, y: 0 },
            Side::Right => Direction { x: 1, y: 0 },
            Side::Top => Direction { x: 0, y: 1 },
            Side::Bottom => Direction { x: 0, y: -1 },
        }
    }

    /// Whether the face is a left or a right one, so that a bounce off it
    /// turns the horizontal motion round.
    pub open spec fn is_horizontal(self) -> bool {
        self is Left || self is Right
    }

    /// The unit normal that points away from the rectangle through this
    /// face.
    pub fn normal(self) -> (n: Vector)
        ensures
            n@ == self.outward(),
    {
        match self {
            Side::Left => Vector { x: -1, y: 0 },
            Side::Right => Vector { x: 1, y: 0 },
            Side::Top => Vector { x: 0, y: 1 },
            Side::Bottom => Vector { x: 0, y: -1 },
        }
    }

    /// Whether the face is a left or a right one.
    pub fn horizontal(self) -> (h: bool)
        ensures
            h == self.is_horizontal(),
    {
        match self {
            Side::Left => true,
            Side::Right => true,
            Side::Top => false,
            Side::Bottom => false,
        }
    }
}

/// The scalar product with the outward normal of a face is the coordinate
/// across that face, with its sign turned for the left and bottom faces.
pub proof fn lemma_dot_outward(d: Direction, side: Side)
    ensures
        d.dot(side.outward()) == (match side {
            Side::Left => -d.x,
            Side::Right => d.x,
            Side::Top => d.y,
            Side::Bottom => -d.y,
        }),
{
    match side {
        Side::Left => lemma_dot_axis(d.x, d.y, -1),
        Side::Right => lemma_dot_axis(d.x, d.y, 1),
        Side::Top => lemma_dot_axis(d.y, d.x, 1),
        Side::Bottom => lemma_dot_axis(d.y, d.x, -1),
    }
}

proof fn lemma_dot_axis(across: int, along: int, n: int)
    by (nonlinear_arith)
    requires
        n == 1 || n == -1,
    ensures
        across * n + along * 0 == n * across,
        along * 0 + across * n == n * across,
        n == 1 ==> n * across == across,
        n == -1 ==> n * across == -across,
{
}

/// The face whose outward normal is nearest to `n`: the axis on which `n`
/// is longer decides, the horizontal one where both are equal, and the sign
/// on that axis picks the face (`Right` and `Top` for zero).
pub open spec fn dominant_side(n: Direction) -> Side {
    if magnitude(n.x) >= magnitude(n.y) {
        if n.x < 0 {
            Side::Left
        } else {
            Side::Right
        }
    } else {
        if n.y < 0 {
            Side::Bottom
        } else {
            Side::Top
        }
    }
}

pub(crate) fn dominant(x: i64, y: i64) -> (side: Side)
    requires
        x > i64::MIN,
        y > i64::MIN,
    ensures
        side == dominant_side(Direction { x: x as int, y: y as int }),
{
    let ax: i64 = if x < 0 {
        -x
    } else {
        x
    };
    let ay: i64 = if y < 0 {
        -y
    } else {
        y
    };
    if ax >= ay {
        if x < 0 {
            Side::Left
        } else {
            Side::Right
        }
    } else {
        if y < 0 {
            Side::Bottom
        } else {
            Side::Top
        }
    }
}

} // verus!
