//! Plane vectors: the machine type and the mathematical one that contracts
//! speak of.

use vstd::prelude::*;

verus! {

/// A vector of the plane with unbounded integer coordinates. A `Vector` is
/// viewed as one, and the laws of reflection are stated over this type.
pub struct Direction {
    pub x: int,
    pub y: int,
}

impl Direction {
    /// Scalar product.
    pub open spec fn dot(self, other: Direction) -> int {
        self.x * other.x + self.y * other.y
    }

    /// Third coordinate of the vector product: zero exactly for parallel
    /// vectors.
    pub open spec fn cross(self, other: Direction) -> int {
        self.x * other.y - self.y * other.x
    }

    /// Square of the Euclidean length.
    pub open spec fn norm_sq(self) -> int {
        self.x * self.x + self.y * self.y
    }

    pub open spec fn is_zero(self) -> bool {
        self.x == 0 && self.y == 0
    }

    pub open spec fn plus(self, other: Direction) -> Direction {
        Direction { x: self.x + other.x, y: self.y + other.y }
    }

    pub open spec fn times(self, factor: int) -> Direction {
        Direction { x: factor * self.x, y: factor * self.y }
    }

    pub open spec fn minus(self, other: Direction) -> Direction {
        Direction { x: self.x - other.x, y: self.y - other.y }
    }

    /// Whether both coordinates fit a `Vector`.
    pub open spec fn fits(self) -> bool {
        i32::MIN <= self.x <= i32::MAX && i32::MIN <= self.y <= i32::MAX
    }

    /// The `Vector` with these coordinates, for a direction that fits one.
    pub open spec fn to_vector(self) -> Vector {
        Vector { x: self.x as i32, y: self.y as i32 }
    }
}

/// Absolute value.
pub open spec fn magnitude(a: int) -> int {
    if a < 0 {
        -a
    } else {
        a
    }
}

/// A point or a displacement in the host's length unit.
#[derive(Clone, Copy, Debug, PartialEq, Eq, Structural)]
pub struct Vector {
    pub x: i32,
    pub y: i32,
}

impl View for Vector {
    type V = Direction;

    open spec fn view(&self) -> Direction {
        Direction { x: self.x as int, y: self.y as int }
    }
}

impl Vector {
    pub fn new(x: i32, y: i32) -> (v: Vector)
        ensures
            v.x == x,
            v.y == y,
    {
        Vector { x, y }
    }

    /// Whether both coordinates are zero.
    pub fn is_zero(&self) -> (zero: bool)
        ensures
            zero == self@.is_zero(),
    {
        self.x == 0 && self.y == 0
    }
}

/// A vector is the `Vector` of its view, and a direction that fits is the
/// view of its `Vector`.
pub proof fn lemma_view_round_trip(v: Vector, d: Direction)
    ensures
        v@.fits(),
        v@.to_vector() == v,
        d.fits() ==> d.to_vector()@ == d,
{
}

/// The squared length is never negative, and is zero only for the zero
/// vector.
pub proof fn lemma_norm_sq_positive(d: Direction)
    ensures
        d.norm_sq() >= 0,
        d.norm_sq() == 0 <==> d.is_zero(),
        d.x * d.x <= d.norm_sq(),
        d.y * d.y <= d.norm_sq(),
{
    assert(d.x * d.x >= 0 && (d.x * d.x == 0 <==> d.x == 0)) by (nonlinear_arith);
    assert(d.y * d.y >= 0 && (d.y * d.y == 0 <==> d.y == 0)) by (nonlinear_arith);
}

} // verus!
