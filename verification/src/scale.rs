//! Giving a direction a length: the velocity that points along a direction
//! and has a given speed, rounded toward zero coordinate by coordinate.

use crate::algebra::squares_keep_order;
use crate::vector::{lemma_norm_sq_positive, magnitude, Direction, Vector};
use vstd::prelude::*;

verus! {

/// Largest speed, and largest velocity coordinate, that the library takes:
/// 2^20 length units per tick.
///
/// The limit is one of the machine, not of the game. Scaling compares
/// `m * m * |d|^2` with `c * c * speed * speed` in 128 bits, for a direction
/// `d` with a coordinate `c`. A mirrored velocity has coordinates up to
/// `6 * MAX_NORMAL^2 * MAX_SPEED`, below 2^43, so that `c * c` stays below
/// 2^86 and `|d|^2` below 2^87; with a speed of 2^20 at most both products
/// stay below 2^127.
pub const MAX_SPEED: u32 = 1_048_576;

/// Largest coordinate of a direction that can be scaled: 2^43, which leaves
/// room for `6 * MAX_NORMAL^2 * MAX_SPEED`.
pub const MAX_DIRECTION: i64 = 8_796_093_022_208;

/// The largest `m` in `0..=bound` with `m * m * den <= num`, and zero where
/// there is none.
pub open spec fn root_quotient(num: int, den: int, bound: int) -> int
    decreases bound,
{
    if bound <= 0 {
        0
    } else if bound * bound * den <= num {
        bound
    } else {
        root_quotient(num, den, bound - 1)
    }
}

/// Whether `m` is the integer part of the square root of `num / den`.
pub open spec fn is_root_quotient(num: int, den: int, m: int) -> bool {
    &&& 0 <= m
    &&& m * m * den <= num
    &&& num < (m + 1) * (m + 1) * den
}

/// One coordinate of the vector of length `speed` along a direction whose
/// squared length is `norm_sq`: the coordinate `c` of the direction times
/// `speed` over the direction's length, rounded toward zero.
pub open spec fn scaled_component(c: int, norm_sq: int, speed: int) -> int {
    let m = root_quotient(c * c * (speed * speed), norm_sq, speed);
    if c < 0 {
        -m
    } else {
        m
    }
}

/// The vector along `d` of length `speed`, each coordinate rounded toward
/// zero. The zero direction gives the zero vector.
pub open spec fn rescaled(d: Direction, speed: int) -> Direction {
    if d.is_zero() {
        Direction { x: 0, y: 0 }
    } else {
        Direction {
            x: scaled_component(d.x, d.norm_sq(), speed),
            y: scaled_component(d.y, d.norm_sq(), speed),
        }
    }
}

proof fn lemma_product_monotone(a: int, b: int, den: int)
    by (nonlinear_arith)
    requires
        a <= b,
        0 <= den,
    ensures
        a * den <= b * den,
{
}

proof fn lemma_cancel_positive(a: int, b: int, den: int)
    by (nonlinear_arith)
    requires
        a * den <= b * den,
        0 < den,
    ensures
        a <= b,
{
}

proof fn lemma_cancel_positive_strict(a: int, b: int, den: int)
    by (nonlinear_arith)
    requires
        a * den < b * den,
        0 < den,
    ensures
        a < b,
{
}

/// `root_quotient` is the integer part of the root whenever the bound lies
/// above it.
pub proof fn lemma_root_quotient(num: int, den: int, bound: int)
    requires
        0 <= bound,
        0 <= num,
        0 < den,
        num < (bound + 1) * (bound + 1) * den,
    ensures
        is_root_quotient(num, den, root_quotient(num, den, bound)),
        root_quotient(num, den, bound) <= bound,
    decreases bound,
{
    if bound <= 0 {
        assert(0 * 0 * den == 0 && (0 + 1) * (0 + 1) * den == den) by (nonlinear_arith);
    } else if bound * bound * den <= num {
    } else {
        let below: int = bound - 1;
        assert((below + 1) * (below + 1) * den == bound * bound * den);
        lemma_root_quotient(num, den, below);
    }
}

/// At most one number is the integer part of the root.
pub proof fn lemma_root_quotient_unique(num: int, den: int, m1: int, m2: int)
    requires
        0 < den,
        is_root_quotient(num, den, m1),
        is_root_quotient(num, den, m2),
    ensures
        m1 == m2,
{
    if m1 < m2 {
        squares_keep_order(m1 + 1, m2);
        lemma_product_monotone((m1 + 1) * (m1 + 1), m2 * m2, den);
    } else if m2 < m1 {
        squares_keep_order(m2 + 1, m1);
        lemma_product_monotone((m2 + 1) * (m2 + 1), m1 * m1, den);
    }
}

/// What `scaled_component` is, without its recursion: its sign is that of
/// `c`, and its magnitude is the integer part of `|c| * speed` over the
/// direction's length.
pub proof fn lemma_scaled_component(c: int, norm_sq: int, speed: int)
    requires
        0 <= speed,
        c * c <= norm_sq,
        0 < norm_sq,
    ensures
        is_root_quotient(
            c * c * (speed * speed),
            norm_sq,
            magnitude(scaled_component(c, norm_sq, speed)),
        ),
        magnitude(scaled_component(c, norm_sq, speed)) <= speed,
        c >= 0 ==> scaled_component(c, norm_sq, speed) >= 0,
        c <= 0 ==> scaled_component(c, norm_sq, speed) <= 0,
{
    let den = norm_sq;
    let ss: int = speed * speed;
    let num = c * c * ss;
    assert(0 <= num && num <= den * ss) by (nonlinear_arith)
        requires
            num == c * c * ss,
            0 <= ss,
            c * c <= den,
    ;
    assert(den * ss < (speed + 1) * (speed + 1) * den) by (nonlinear_arith)
        requires
            ss == speed * speed,
            0 < den,
            0 <= speed,
    ;
    lemma_root_quotient(num, den, speed);
    if c == 0 {
        assert(num == 0) by (nonlinear_arith)
            requires
                num == c * c * ss,
                c == 0,
        ;
        assert(0 * 0 * den == 0 && (0 + 1) * (0 + 1) * den == den) by (nonlinear_arith);
        lemma_root_quotient_unique(num, den, root_quotient(num, den, speed), 0);
    }
}

/// Where the speed is no more than the direction's length, scaling
/// shortens: no coordinate grows.
pub proof fn lemma_scaled_component_shorter(c: int, norm_sq: int, speed: int)
    requires
        0 <= speed,
        c * c <= norm_sq,
        0 < norm_sq,
        speed * speed <= norm_sq,
    ensures
        magnitude(scaled_component(c, norm_sq, speed)) <= magnitude(c),
{
    lemma_scaled_component(c, norm_sq, speed);
    let m = magnitude(scaled_component(c, norm_sq, speed));
    let a = magnitude(c);
    let ss: int = speed * speed;
    if m > a {
        squares_keep_order(a + 1, m);
        assert(a * a == c * c) by (nonlinear_arith)
            requires
                a == c || a == -c,
        ;
        assert(m * m * norm_sq > c * c * ss) by (nonlinear_arith)
            requires
                m * m >= (a + 1) * (a + 1),
                a * a == c * c,
                0 <= ss <= norm_sq,
                0 < norm_sq,
                0 <= a,
        ;
    }
}

/// Whether `v` is as long as `speed`, up to the rounding of its coordinates
/// toward zero: not longer, and less than one unit shorter in each
/// coordinate.
pub open spec fn is_as_long_as(v: Direction, speed: int) -> bool {
    &&& v.norm_sq() <= speed * speed
    &&& speed * speed < (magnitude(v.x) + 1) * (magnitude(v.x) + 1) + (magnitude(v.y) + 1) * (
    magnitude(v.y) + 1)
}

/// The scaled vector is as long as the speed, and no coordinate of it is
/// beyond the speed.
pub proof fn lemma_rescaled_length(d: Direction, speed: int)
    requires
        0 <= speed,
        !d.is_zero(),
    ensures
        is_as_long_as(rescaled(d, speed), speed),
        magnitude(rescaled(d, speed).x) <= speed,
        magnitude(rescaled(d, speed).y) <= speed,
{
    lemma_norm_sq_positive(d);
    lemma_scaled_component(d.x, d.norm_sq(), speed);
    lemma_scaled_component(d.y, d.norm_sq(), speed);
    let den = d.norm_sq();
    let ss: int = speed * speed;
    let v = rescaled(d, speed);
    let mx = magnitude(v.x);
    let my = magnitude(v.y);
    assert(v.x * v.x == mx * mx) by (nonlinear_arith)
        requires
            mx == v.x || mx == -v.x,
    ;
    assert(v.y * v.y == my * my) by (nonlinear_arith)
        requires
            my == v.y || my == -v.y,
    ;
    assert((mx * mx + my * my) * den <= ss * den) by (nonlinear_arith)
        requires
            mx * mx * den <= d.x * d.x * ss,
            my * my * den <= d.y * d.y * ss,
            den == d.x * d.x + d.y * d.y,
    ;
    lemma_cancel_positive(mx * mx + my * my, ss, den);
    assert(ss * den < ((mx + 1) * (mx + 1) + (my + 1) * (my + 1)) * den) by (nonlinear_arith)
        requires
            d.x * d.x * ss < (mx + 1) * (mx + 1) * den,
            d.y * d.y * ss < (my + 1) * (my + 1) * den,
            den == d.x * d.x + d.y * d.y,
    ;
    lemma_cancel_positive_strict(ss, (mx + 1) * (mx + 1) + (my + 1) * (my + 1), den);
}

/// Only the direction counts: stretching `d` by a positive factor leaves the
/// scaled vector unchanged.
pub proof fn lemma_rescaled_ignores_length(d: Direction, factor: int, speed: int)
    requires
        0 <= speed,
        0 < factor,
    ensures
        rescaled(d.times(factor), speed) == rescaled(d, speed),
{
    let e = d.times(factor);
    assert(e.is_zero() <==> d.is_zero()) by (nonlinear_arith)
        requires
            e.x == factor * d.x,
            e.y == factor * d.y,
            0 < factor,
    ;
    if !d.is_zero() {
        lemma_norm_sq_positive(d);
        let ff = factor * factor;
        assert(e.norm_sq() == ff * d.norm_sq()) by (nonlinear_arith)
            requires
                e.x == factor * d.x,
                e.y == factor * d.y,
                ff == factor * factor,
                d.norm_sq() == d.x * d.x + d.y * d.y,
                e.norm_sq() == e.x * e.x + e.y * e.y,
        ;
        lemma_component_ignores_length(d.x, d.norm_sq(), factor, speed);
        lemma_component_ignores_length(d.y, d.norm_sq(), factor, speed);
    }
}

proof fn lemma_component_ignores_length(c: int, den: int, factor: int, speed: int)
    requires
        0 <= speed,
        0 < factor,
        c * c <= den,
        0 < den,
    ensures
        scaled_component(factor * c, factor * factor * den, speed) == scaled_component(
            c,
            den,
            speed,
        ),
{
    let k = factor * c;
    let ff = factor * factor;
    let ss: int = speed * speed;
    assert(0 < ff) by (nonlinear_arith)
        requires
            ff == factor * factor,
            0 < factor,
    ;
    assert(k * k == ff * (c * c)) by (nonlinear_arith)
        requires
            k == factor * c,
            ff == factor * factor,
    ;
    assert(0 < ff * den && k * k <= ff * den) by (nonlinear_arith)
        requires
            k * k == ff * (c * c),
            0 < ff,
            0 < den,
            c * c <= den,
    ;
    lemma_scaled_component(c, den, speed);
    lemma_scaled_component(k, ff * den, speed);
    let m = magnitude(scaled_component(c, den, speed));
    let n = magnitude(scaled_component(k, ff * den, speed));
    // n is the root for the stretched pair; dividing by factor^2 shows that
    // it is the root for the unstretched pair too.
    assert(n * n * den * ff <= c * c * ss * ff && c * c * ss * ff < (n + 1) * (n + 1) * den * ff)
        by (nonlinear_arith)
        requires
            n * n * (ff * den) <= k * k * ss,
            k * k * ss < (n + 1) * (n + 1) * (ff * den),
            k * k == ff * (c * c),
    ;
    lemma_cancel_positive(n * n * den, c * c * ss, ff);
    lemma_cancel_positive_strict(c * c * ss, (n + 1) * (n + 1) * den, ff);
    lemma_root_quotient_unique(c * c * ss, den, m, n);
    assert((k < 0 <==> c < 0) && (k == 0 <==> c == 0)) by (nonlinear_arith)
        requires
            k == factor * c,
            0 < factor,
    ;
}

/// Largest squared length of a direction that can be scaled: 2^87.
pub const MAX_NORM_SQ: u128 = 154_742_504_910_672_534_362_390_528;

fn scale_component(c: i64, norm_sq: u128, speed: u32) -> (m: i32)
    requires
        -MAX_DIRECTION <= c <= MAX_DIRECTION,
        speed <= MAX_SPEED,
        0 < norm_sq <= MAX_NORM_SQ,
        c * c <= norm_sq,
    ensures
        m == scaled_component(c as int, norm_sq as int, speed as int),
        -(speed as int) <= m <= speed,
{
    let a: u128 = if c < 0 {
        (-c) as u128
    } else {
        c as u128
    };
    let s: u128 = speed as u128;
    assert(a * a == c * c && a * a <= 0x40_0000_0000_0000_0000_0000) by (nonlinear_arith)
        requires
            a == c || a == -c,
            a <= 0x800_0000_0000,
    ;
    assert(s * s <= 0x100_0000_0000) by (nonlinear_arith)
        requires
            s <= 0x10_0000,
    ;
    assert(a * a * (s * s) <= 0x4000_0000_0000_0000_0000_0000_0000_0000) by (nonlinear_arith)
        requires
            a * a <= 0x40_0000_0000_0000_0000_0000,
            s * s <= 0x100_0000_0000,
    ;
    let num: u128 = a * a * (s * s);
    let mut lo: u128 = 0;
    let mut hi: u128 = s + 1;
    proof {
        lemma_scaled_component(c as int, norm_sq as int, speed as int);
        assert(0 * 0 * norm_sq == 0) by (nonlinear_arith);
        assert(num <= norm_sq * (s * s) < (s + 1) * (s + 1) * norm_sq) by (nonlinear_arith)
            requires
                num == a * a * (s * s),
                a * a <= norm_sq,
                0 < norm_sq,
        ;
    }
    while hi - lo > 1
        invariant
            lo < hi <= s + 1,
            s <= 0x10_0000,
            0 < norm_sq <= MAX_NORM_SQ,
            lo * lo * norm_sq <= num,
            num < hi * hi * norm_sq,
        decreases hi - lo,
    {
        let mid: u128 = lo + (hi - lo) / 2;
        assert(mid * mid <= 0x100_0000_0000) by (nonlinear_arith)
            requires
                mid <= 0x10_0000,
        ;
        assert(mid * mid * norm_sq <= 0x8000_0000_0000_0000_0000_0000_0000_0000)
            by (nonlinear_arith)
            requires
                mid * mid <= 0x100_0000_0000,
                norm_sq <= 0x80_0000_0000_0000_0000_0000,
        ;
        if mid * mid * norm_sq <= num {
            lo = mid;
        } else {
            hi = mid;
        }
    }
    proof {
        assert(hi == lo + 1);
        lemma_root_quotient_unique(
            c * c * (speed * speed),
            norm_sq as int,
            lo as int,
            magnitude(scaled_component(c as int, norm_sq as int, speed as int)),
        );
    }
    let m: i32 = lo as i32;
    if c < 0 {
        -m
    } else {
        m
    }
}

/// The vector along `(dx, dy)` of length `speed`, each coordinate rounded
/// toward zero.
pub(crate) fn rescale(dx: i64, dy: i64, speed: u32) -> (v: Vector)
    requires
        -MAX_DIRECTION <= dx <= MAX_DIRECTION,
        -MAX_DIRECTION <= dy <= MAX_DIRECTION,
        speed <= MAX_SPEED,
    ensures
        v@ == rescaled(Direction { x: dx as int, y: dy as int }, speed as int),
        -(speed as int) <= v.x <= speed,
        -(speed as int) <= v.y <= speed,
{
    if dx == 0 && dy == 0 {
        return Vector { x: 0, y: 0 };
    }
    let ax: u128 = if dx < 0 {
        (-dx) as u128
    } else {
        dx as u128
    };
    let ay: u128 = if dy < 0 {
        (-dy) as u128
    } else {
        dy as u128
    };
    assert(ax * ax == dx * dx && ax * ax <= 0x40_0000_0000_0000_0000_0000) by (nonlinear_arith)
        requires
            ax == dx || ax == -dx,
            ax <= 0x800_0000_0000,
    ;
    assert(ay * ay == dy * dy && ay * ay <= 0x40_0000_0000_0000_0000_0000) by (nonlinear_arith)
        requires
            ay == dy || ay == -dy,
            ay <= 0x800_0000_0000,
    ;
    let norm_sq: u128 = ax * ax + ay * ay;
    proof {
        lemma_norm_sq_positive(Direction { x: dx as int, y: dy as int });
    }
    let x: i32 = scale_component(dx, norm_sq, speed);
    let y: i32 = scale_component(dy, norm_sq, speed);
    Vector { x, y }
}

/// The velocity of magnitude `speed` that points along `direction`, each
/// coordinate rounded toward zero; `None` where `speed` is above
/// `MAX_SPEED`.
pub fn scale_to_speed(direction: Vector, speed: u32) -> (velocity: Option<Vector>)
    ensures
        speed > MAX_SPEED ==> velocity is None,
        speed <= MAX_SPEED ==> (velocity matches Some(v) && v@ == rescaled(
            direction@,
            speed as int,
        )),
{
    if speed > MAX_SPEED {
        None
    } else {
        Some(rescale(direction.x as i64, direction.y as i64, speed))
    }
}

} // verus!
