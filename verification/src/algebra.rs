//! Small facts about products of integers, from which the laws of
//! reflection are put together.

use vstd::prelude::*;

verus! {

pub(crate) proof fn mul_assoc(a: int, b: int, c: int)
    by (nonlinear_arith)
    ensures
        (a * b) * c == a * (b * c),
{
}

pub(crate) proof fn mul_swap(a: int, b: int, c: int)
    by (nonlinear_arith)
    ensures
        a * (b * c) == b * (a * c),
{
}

pub(crate) proof fn mul_rotate(a: int, b: int, c: int)
    by (nonlinear_arith)
    ensures
        (a * b) * c == b * (c * a),
        (a * b) * c == b * (a * c),
{
}

pub(crate) proof fn mul_dist(a: int, x: int, y: int)
    by (nonlinear_arith)
    ensures
        a * (x + y) == a * x + a * y,
        a * (x - y) == a * x - a * y,
        (x + y) * a == x * a + y * a,
        (x - y) * a == x * a - y * a,
{
}

pub(crate) proof fn mul_sign(k: int, m: int)
    by (nonlinear_arith)
    ensures
        (2 * k) * m == 2 * (k * m),
        (-k) * m == -(k * m),
        k * (-m) == -(k * m),
        k * m == m * k,
{
}

pub(crate) proof fn mul_zero(k: int, z: int)
    by (nonlinear_arith)
    requires
        z == 0,
    ensures
        k * z == 0,
        z * k == 0,
{
}

/// `(a x)(b y) == (a b)(x y) == (a y)(b x)`.
pub(crate) proof fn product_of_products(a: int, x: int, b: int, y: int)
    ensures
        (a * x) * (b * y) == (a * b) * (x * y),
        (a * x) * (b * y) == (a * y) * (b * x),
{
    mul_assoc(a, x, b * y);
    mul_swap(x, b, y);
    mul_assoc(a, b, x * y);
    mul_sign(x, y);
    mul_assoc(a, y, b * x);
    mul_swap(y, b, x);
    mul_assoc(a, b, y * x);
}

/// Squares keep the order of numbers on one side of zero.
pub(crate) proof fn squares_keep_order(a: int, b: int)
    by (nonlinear_arith)
    requires
        (0 <= a <= b) || (b <= a <= 0),
    ensures
        a * a <= b * b,
        a != b ==> a * a < b * b,
{
}

pub(crate) proof fn square_of_difference(p: int, q: int)
    by (nonlinear_arith)
    ensures
        (p - 2 * q) * (p - 2 * q) == p * p - 4 * (p * q) + 4 * (q * q),
        (p - q) * (p - q) == p * p - 2 * (p * q) + q * q,
{
}

pub(crate) proof fn square_of_sum(p: int, q: int)
    by (nonlinear_arith)
    ensures
        (p + q) * (p + q) == p * p + 2 * (p * q) + q * q,
{
}

/// For parallel vectors, `(v.n) n == |n|^2 v`.
pub(crate) proof fn parallel_projection(vx: int, vy: int, nx: int, ny: int)
    requires
        vx * ny == vy * nx,
    ensures
        (vx * nx + vy * ny) * nx == (nx * nx + ny * ny) * vx,
        (vx * nx + vy * ny) * ny == (nx * nx + ny * ny) * vy,
{
    mul_dist(nx, vx * nx, vy * ny);
    mul_dist(ny, vx * nx, vy * ny);
    mul_assoc(vx, nx, nx);
    mul_rotate(vy, ny, nx);
    mul_swap(ny, vx, ny);
    mul_rotate(vx, nx, ny);
    mul_swap(nx, vy, nx);
    mul_assoc(vy, ny, ny);
    mul_dist(vx, nx * nx, ny * ny);
    mul_dist(vy, nx * nx, ny * ny);
    mul_sign(vx, nx * nx + ny * ny);
    mul_sign(vy, nx * nx + ny * ny);
}

pub(crate) proof fn product_of_sums(a1: int, a2: int, b1: int, b2: int)
    by (nonlinear_arith)
    ensures
        (a1 + a2) * (b1 + b2) == a1 * b1 + a1 * b2 + a2 * b1 + a2 * b2,
{
}

/// `(a x - 2 p n)^2 == a^2 x^2 - 4 (a p)(x n) + 4 p^2 n^2`.
pub(crate) proof fn square_of_mirror_coordinate(a: int, p: int, x: int, n: int)
    ensures
        (a * x - 2 * p * n) * (a * x - 2 * p * n) == (a * a) * (x * x) - 4 * ((a * p) * (x * n))
            + 4 * ((p * p) * (n * n)),
{
    mul_sign(p, n);
    square_of_difference(a * x, p * n);
    product_of_products(a, x, a, x);
    product_of_products(a, x, p, n);
    product_of_products(p, n, p, n);
}

/// `(a x - 2 p n) m == a (x m) - 2 (p (n m))`.
pub(crate) proof fn mirror_coordinate_times(a: int, x: int, p: int, n: int, m: int)
    by (nonlinear_arith)
    ensures
        (a * x - 2 * p * n) * m == a * (x * m) - 2 * (p * (n * m)),
{
}

/// `b (a x - 2 p n) == (a b) x - 2 ((b p) n)`.
pub(crate) proof fn stretched_mirror_coordinate(a: int, b: int, x: int, p: int, n: int)
    by (nonlinear_arith)
    ensures
        b * (a * x - 2 * p * n) == (a * b) * x - 2 * ((b * p) * n),
{
}

/// `p (c m) - q (c k) == c (p m - q k)`.
pub(crate) proof fn common_factor(c: int, p: int, m: int, q: int, k: int)
    by (nonlinear_arith)
    ensures
        p * (c * m) - q * (c * k) == c * (p * m - q * k),
{
}

/// The vector product `c` of `(ax, ay)` and `(bx, by)`, times one of their
/// coordinates, in terms of their squared lengths and their scalar product.
pub(crate) proof fn cross_times_coordinate(ax: int, ay: int, bx: int, by: int)
    ensures
        (ax * by - ay * bx) * by == ax * (bx * bx + by * by) - bx * (ax * bx + ay * by),
        (ax * by - ay * bx) * ay == ax * (ax * bx + ay * by) - (ax * ax + ay * ay) * bx,
        (ax * by - ay * bx) * bx == by * (ax * bx + ay * by) - ay * (bx * bx + by * by),
        (ax * by - ay * bx) * ax == (ax * ax + ay * ay) * by - ay * (ax * bx + ay * by),
{
    cross_times_second(ax, ay, bx, by);
    cross_times_first(ax, ay, bx, by);
    cross_times_second(bx, by, ax, ay);
    cross_times_first(bx, by, ax, ay);
    mul_sign(ax, by);
    mul_sign(ay, bx);
    mul_sign(ax, bx);
    mul_sign(ay, by);
    mul_sign(bx * ay - by * ax, ay);
    mul_sign(ax * by - ay * bx, ay);
    mul_sign(bx * ay - by * ax, ax);
    mul_sign(ax * by - ay * bx, ax);
    mul_sign(ax * ax + ay * ay, bx);
    mul_sign(ax * ax + ay * ay, by);
}

proof fn cross_times_second(ax: int, ay: int, bx: int, by: int)
    by (nonlinear_arith)
    ensures
        (ax * by - ay * bx) * by == ax * (bx * bx + by * by) - bx * (ax * bx + ay * by),
{
}

proof fn cross_times_first(ax: int, ay: int, bx: int, by: int)
    by (nonlinear_arith)
    ensures
        (ax * by - ay * bx) * bx == by * (ax * bx + ay * by) - ay * (bx * bx + by * by),
{
}

/// The vector product of `(ax, ay)` and `(bx, by)` times a coordinate of a
/// third vector, in terms of the scalar products with that vector.
pub(crate) proof fn cross_times_third(ax: int, ay: int, bx: int, by: int, vx: int, vy: int)
    by (nonlinear_arith)
    ensures
        (ax * by - ay * bx) * vx == (vx * ax + vy * ay) * by - (vx * bx + vy * by) * ay,
        (ax * by - ay * bx) * vy == (vx * bx + vy * by) * ax - (vx * ax + vy * ay) * bx,
{
}

/// For perpendicular vectors the square of the vector product is the
/// product of the squared lengths.
pub(crate) proof fn perpendicular_cross_square(ax: int, ay: int, bx: int, by: int)
    requires
        ax * bx + ay * by == 0,
    ensures
        (ax * by - ay * bx) * (ax * by - ay * bx) == (ax * ax + ay * ay) * (bx * bx + by * by),
{
    let u = ax * by;
    let w = ay * bx;
    let x = ax * bx;
    let y = ay * by;
    square_of_difference(u, w);
    product_of_sums(ax * ax, ay * ay, bx * bx, by * by);
    product_of_products(ax, by, ax, by);
    product_of_products(ay, bx, ay, bx);
    product_of_products(ax, by, ay, bx);
    product_of_products(ax, ax, bx, bx);
    product_of_products(ay, ay, by, by);
    // (ax ax)(bx bx) == x x, (ay ay)(by by) == y y, u w == x y
    mul_dist(x, x, y);
    mul_dist(y, x, y);
    mul_zero(x, x + y);
    mul_zero(y, x + y);
    mul_sign(x, y);
}

} // verus!
