//! The mirror image of a vector about a contact normal, and the laws that
//! it obeys.

use crate::algebra::{
    common_factor, cross_times_coordinate, cross_times_third, mirror_coordinate_times, mul_assoc,
    mul_dist, mul_rotate, mul_sign, mul_zero, parallel_projection, perpendicular_cross_square,
    square_of_mirror_coordinate, square_of_sum, stretched_mirror_coordinate,
};
use crate::scale::{lemma_rescaled_ignores_length, rescaled};
use crate::side::Side;
use crate::vector::{lemma_norm_sq_positive, Direction};
use vstd::prelude::*;

verus! {

/// The mirror image of `v` about the line across the normal `n`, stretched
/// by the squared length of `n`: `(n.n) v - 2 (v.n) n`. For a unit normal it
/// is the mirror image itself, `v - 2 (v.n) n`.
pub open spec fn mirrored(v: Direction, n: Direction) -> Direction {
    Direction {
        x: n.norm_sq() * v.x - 2 * v.dot(n) * n.x,
        y: n.norm_sq() * v.y - 2 * v.dot(n) * n.y,
    }
}

/// Mirroring keeps the length, up to the stretch by the normal's squared
/// length.
pub proof fn lemma_mirror_keeps_length(v: Direction, n: Direction)
    ensures
        mirrored(v, n).norm_sq() == n.norm_sq() * n.norm_sq() * v.norm_sq(),
        (!v.is_zero() && !n.is_zero()) ==> !mirrored(v, n).is_zero(),
{
    let a = n.norm_sq();
    let p = v.dot(n);
    let vv = v.norm_sq();
    square_of_mirror_coordinate(a, p, v.x, n.x);
    square_of_mirror_coordinate(a, p, v.y, n.y);
    mul_dist(a * a, v.x * v.x, v.y * v.y);
    mul_dist(a * p, v.x * n.x, v.y * n.y);
    mul_dist(p * p, n.x * n.x, n.y * n.y);
    mul_rotate(a, p, p);
    mul_assoc(p, p, a);
    assert((a * p) * p == (p * p) * a);
    lemma_norm_sq_positive(v);
    lemma_norm_sq_positive(n);
    lemma_norm_sq_positive(mirrored(v, n));
    if !v.is_zero() && !n.is_zero() {
        assert(a * a * vv > 0) by (nonlinear_arith)
            requires
                a > 0,
                vv > 0,
        ;
    }
}

/// Mirroring turns the part of a vector along the normal round and keeps
/// its size, up to the stretch by the normal's squared length: a vector
/// that leads against the normal has an image that leads along it.
pub proof fn lemma_mirror_turns_normal_part(v: Direction, n: Direction)
    ensures
        mirrored(v, n).dot(n) == -(n.norm_sq() * v.dot(n)),
        (v.dot(n) < 0 && !n.is_zero()) ==> mirrored(v, n).dot(n) > 0,
{
    let a = n.norm_sq();
    let p = v.dot(n);
    mirror_coordinate_times(a, v.x, p, n.x, n.x);
    mirror_coordinate_times(a, v.y, p, n.y, n.y);
    mul_dist(a, v.x * n.x, v.y * n.y);
    mul_dist(p, n.x * n.x, n.y * n.y);
    mul_sign(p, a);
    lemma_norm_sq_positive(n);
    if p < 0 && !n.is_zero() {
        assert(a * p < 0) by (nonlinear_arith)
            requires
                a > 0,
                p < 0,
        ;
    }
}

/// Mirroring about the unit normal of a face changes the sign of the
/// coordinate across that face and leaves the other as it is.
pub proof fn lemma_face_mirror_flips_axis(v: Direction, side: Side)
    ensures
        mirrored(v, side.outward()) == (if side.is_horizontal() {
            Direction { x: -v.x, y: v.y }
        } else {
            Direction { x: v.x, y: -v.y }
        }),
{
    match side {
        Side::Left => lemma_axis_mirror(v.x, v.y, -1, 0),
        Side::Right => lemma_axis_mirror(v.x, v.y, 1, 0),
        Side::Top => lemma_axis_mirror(v.y, v.x, 1, 0),
        Side::Bottom => lemma_axis_mirror(v.y, v.x, -1, 0),
    }
}

/// The mirror image about a unit normal along the first axis.
proof fn lemma_axis_mirror(across: int, along: int, n: int, zero: int)
    by (nonlinear_arith)
    requires
        n == 1 || n == -1,
        zero == 0,
    ensures
        (n * n + zero * zero) * across - 2 * (across * n + along * zero) * n == -across,
        (n * n + zero * zero) * along - 2 * (across * n + along * zero) * zero == along,
        (zero * zero + n * n) * across - 2 * (along * zero + across * n) * n == -across,
        (zero * zero + n * n) * along - 2 * (along * zero + across * n) * zero == along,
{
}

/// Mirroring about two perpendicular normals in turn reverses the vector,
/// up to the stretch by both squared lengths.
pub proof fn lemma_perpendicular_mirrors_reverse(v: Direction, n1: Direction, n2: Direction)
    requires
        n1.dot(n2) == 0,
    ensures
        mirrored(mirrored(v, n1), n2) == v.times(-(n1.norm_sq() * n2.norm_sq())),
{
    let a = n1.norm_sq();
    let b = n2.norm_sq();
    let p = v.dot(n1);
    let q = v.dot(n2);
    let g = n1.dot(n2);
    let r = mirrored(v, n1);
    let s = mirrored(r, n2);
    // The first image has the scalar product a q with the second normal.
    mirror_coordinate_times(a, v.x, p, n1.x, n2.x);
    mirror_coordinate_times(a, v.y, p, n1.y, n2.y);
    mul_dist(a, v.x * n2.x, v.y * n2.y);
    mul_dist(p, n1.x * n2.x, n1.y * n2.y);
    mul_zero(p, g);
    assert(r.dot(n2) == a * q);
    lemma_perpendicular_frame(v, n1, n2);
    lemma_second_mirror(a, b, p, q, v.x, n1.x, n2.x, r.x, s.x);
    lemma_second_mirror(a, b, p, q, v.y, n1.y, n2.y, r.y, s.y);
}

/// One coordinate of the second of two mirror images, given the first and
/// the split of the vector along the two normals.
proof fn lemma_second_mirror(
    a: int,
    b: int,
    p: int,
    q: int,
    v: int,
    n1: int,
    n2: int,
    r: int,
    s: int,
)
    requires
        r == a * v - 2 * p * n1,
        s == b * r - 2 * (a * q) * n2,
        (b * p) * n1 + (a * q) * n2 == (a * b) * v,
    ensures
        s == (-(a * b)) * v,
{
    stretched_mirror_coordinate(a, b, v, p, n1);
    mul_sign(a * q, n2);
    mul_sign(a * b, v);
}

/// A vector is the sum of its parts along two perpendicular vectors:
/// `|n2|^2 (v.n1) n1 + |n1|^2 (v.n2) n2 == |n1|^2 |n2|^2 v`.
proof fn lemma_perpendicular_frame(v: Direction, n1: Direction, n2: Direction)
    requires
        n1.dot(n2) == 0,
    ensures
        (n2.norm_sq() * v.dot(n1)) * n1.x + (n1.norm_sq() * v.dot(n2)) * n2.x == (n1.norm_sq()
            * n2.norm_sq()) * v.x,
        (n2.norm_sq() * v.dot(n1)) * n1.y + (n1.norm_sq() * v.dot(n2)) * n2.y == (n1.norm_sq()
            * n2.norm_sq()) * v.y,
{
    let ax = n1.x;
    let ay = n1.y;
    let bx = n2.x;
    let by = n2.y;
    let a = n1.norm_sq();
    let b = n2.norm_sq();
    let p = v.dot(n1);
    let q = v.dot(n2);
    let g = n1.dot(n2);
    let c = ax * by - ay * bx;
    cross_times_coordinate(ax, ay, bx, by);
    cross_times_third(ax, ay, bx, by, v.x, v.y);
    perpendicular_cross_square(ax, ay, bx, by);
    mul_zero(ax, g);
    mul_zero(ay, g);
    mul_zero(bx, g);
    mul_zero(by, g);
    // x: c by == ax b, c ay == -(a bx), c vx == p by - q ay
    lemma_frame_coordinate(a, b, c, p, q, v.x, ax, bx, by, ay);
    // y: c (-bx) == ay b, c (-ax) == -(a by), c vy == p (-bx) - q (-ax)
    mul_sign(c, bx);
    mul_sign(c, ax);
    mul_sign(p, bx);
    mul_sign(q, ax);
    lemma_frame_coordinate(a, b, c, p, q, v.y, ay, by, -bx, -ax);
}

/// One coordinate of the split along two perpendicular vectors.
proof fn lemma_frame_coordinate(
    a: int,
    b: int,
    c: int,
    p: int,
    q: int,
    v: int,
    n1: int,
    n2: int,
    m: int,
    k: int,
)
    requires
        c * v == p * m - q * k,
        c * m == n1 * b,
        c * k == -(a * n2),
        c * c == a * b,
    ensures
        (b * p) * n1 + (a * q) * n2 == (a * b) * v,
{
    mul_rotate(b, p, n1);
    mul_rotate(a, q, n2);
    mul_sign(q, c * k);
    mul_sign(q, a * n2);
    common_factor(c, p, m, q, k);
    mul_assoc(c, c, v);
}

/// Mirroring a vector about a normal that it is parallel to reverses it, up
/// to the stretch by the normal's squared length.
pub proof fn lemma_mirror_along_normal_reverses(v: Direction, n: Direction)
    requires
        v.cross(n) == 0,
    ensures
        mirrored(v, n) == v.times(-n.norm_sq()),
{
    let a = n.norm_sq();
    let p = v.dot(n);
    parallel_projection(v.x, v.y, n.x, n.y);
    mul_sign(p, n.x);
    mul_sign(p, n.y);
    mul_sign(a, v.x);
    mul_sign(a, v.y);
}

/// For a vector along the sum of two perpendicular normals, the mirror
/// image about the one normal and then the other is the mirror image about
/// their sum, once both are given the same speed: either way the vector is
/// turned right round. The law speaks of exact mirror images: it does not
/// cover a rounding between the first image and the second.
pub proof fn lemma_two_mirrors_as_one(v: Direction, n1: Direction, n2: Direction, speed: int)
    requires
        0 <= speed,
        n1.dot(n2) == 0,
        !n1.is_zero(),
        !n2.is_zero(),
        v.cross(n1.plus(n2)) == 0,
    ensures
        rescaled(mirrored(mirrored(v, n1), n2), speed) == rescaled(
            mirrored(v, n1.plus(n2)),
            speed,
        ),
        rescaled(mirrored(v, n1.plus(n2)), speed) == rescaled(v.times(-1), speed),
{
    let sum = n1.plus(n2);
    let back = v.times(-1);
    let a = n1.norm_sq() * n2.norm_sq();
    let b = sum.norm_sq();
    lemma_norm_sq_positive(n1);
    lemma_norm_sq_positive(n2);
    lemma_norm_sq_positive(sum);
    assert(a > 0) by (nonlinear_arith)
        requires
            a == n1.norm_sq() * n2.norm_sq(),
            n1.norm_sq() > 0,
            n2.norm_sq() > 0,
    ;
    square_of_sum(n1.x, n2.x);
    square_of_sum(n1.y, n2.y);
    assert(b == n1.norm_sq() + n2.norm_sq());
    lemma_perpendicular_mirrors_reverse(v, n1, n2);
    lemma_mirror_along_normal_reverses(v, sum);
    mul_sign(a, v.x);
    mul_sign(a, v.y);
    mul_sign(b, v.x);
    mul_sign(b, v.y);
    assert(v.times(-a) == back.times(a));
    assert(v.times(-b) == back.times(b));
    lemma_rescaled_ignores_length(back, a, speed);
    lemma_rescaled_ignores_length(back, b, speed);
}

} // verus!
