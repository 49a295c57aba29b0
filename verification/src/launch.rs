//! Choice of the direction in which a fresh ball is served.
//!
//! Angles are counted in thousandths of a degree, anticlockwise from the
//! positive x axis. A serve never points within thirty degrees of the x axis:
//! the two bands around 0 and 180 degrees are excluded.

use crate::scale::{lemma_scaled_component, rescaled};
use crate::vector::{lemma_norm_sq_positive, magnitude, Direction, Vector};
use rand::Rng;
use vstd::prelude::*;

verus! {

/// Thousandths of a degree in one degree.
pub const UNITS_PER_DEGREE: u32 = 1000;

/// First angle of the band that points up the screen (30 degrees).
pub const UPPER_BAND_START: u32 = 30_000;

/// End of the upper band, itself excluded (150 degrees).
pub const UPPER_BAND_END: u32 = 150_000;

/// First angle of the band that points down the screen (210 degrees).
pub const LOWER_BAND_START: u32 = 210_000;

/// End of the lower band, itself excluded (330 degrees).
pub const LOWER_BAND_END: u32 = 330_000;

/// One of the two ranges of angles from which a serve is drawn.
#[derive(Clone, Copy, Debug, PartialEq, Eq, Structural)]
pub enum Band {
    /// From 30 degrees up to, but not including, 150 degrees.
    Upper,
    /// From 210 degrees up to, but not including, 330 degrees.
    Lower,
}

/// Whether `angle` is a direction in which a ball may be served.
pub open spec fn angle_allowed(angle: int) -> bool {
    UPPER_BAND_START <= angle < UPPER_BAND_END || LOWER_BAND_START <= angle < LOWER_BAND_END
}

impl Band {
    /// First angle of the band.
    pub open spec fn spec_start(self) -> int {
        match self {
            Band::Upper => UPPER_BAND_START as int,
            Band::Lower => LOWER_BAND_START as int,
        }
    }

    /// End of the band, itself excluded.
    pub open spec fn spec_end(self) -> int {
        match self {
            Band::Upper => UPPER_BAND_END as int,
            Band::Lower => LOWER_BAND_END as int,
        }
    }

    /// Whether `angle` lies in this band.
    pub open spec fn contains(self, angle: int) -> bool {
        self.spec_start() <= angle < self.spec_end()
    }

    /// The band that a drawn selector stands for: zero is the upper band,
    /// every other value the lower one.
    pub fn from_selector(selector: u32) -> (band: Band)
        ensures
            band == (if selector == 0 { Band::Upper } else { Band::Lower }),
    {
        if selector == 0 {
            Band::Upper
        } else {
            Band::Lower
        }
    }

    /// First angle of the band.
    pub fn start(self) -> (angle: u32)
        ensures
            angle == self.spec_start(),
    {
        match self {
            Band::Upper => UPPER_BAND_START,
            Band::Lower => LOWER_BAND_START,
        }
    }

    /// End of the band, itself excluded.
    pub fn end(self) -> (angle: u32)
        ensures
            angle == self.spec_end(),
    {
        match self {
            Band::Upper => UPPER_BAND_END,
            Band::Lower => LOWER_BAND_END,
        }
    }
}

/// Every angle of either band is allowed, and every allowed angle lies in
/// exactly one band.
pub proof fn lemma_bands_cover_allowed(angle: int)
    ensures
        angle_allowed(angle) <==> (Band::Upper.contains(angle) || Band::Lower.contains(angle)),
        !(Band::Upper.contains(angle) && Band::Lower.contains(angle)),
{
}

/// Whether `angle` is a direction in which a ball may be served.
pub fn is_launch_angle(angle: u32) -> (allowed: bool)
    ensures
        allowed == angle_allowed(angle as int),
{
    (UPPER_BAND_START <= angle && angle < UPPER_BAND_END) || (LOWER_BAND_START <= angle && angle
        < LOWER_BAND_END)
}

/// Whether a serve along `d` keeps out of the excluded bands: whether `d`
/// makes an angle of more than thirty degrees with the x axis, so that its
/// rise is more than half its length. No direction with whole coordinates
/// lies on the edge of a band, so nothing need be said of the edges.
pub open spec fn direction_allowed(d: Direction) -> bool {
    3 * (d.y * d.y) > d.x * d.x
}

/// Whether a serve along `direction` keeps out of the excluded bands.
pub fn is_launch_direction(direction: Vector) -> (allowed: bool)
    ensures
        allowed == direction_allowed(direction@),
{
    let x: i64 = direction.x as i64;
    let y: i64 = direction.y as i64;
    assert(0 <= x * x <= 0x4000_0000_0000_0000 && 0 <= y * y <= 0x4000_0000_0000_0000)
        by (nonlinear_arith)
        requires
            -0x8000_0000 <= x <= 0x8000_0000,
            -0x8000_0000 <= y <= 0x8000_0000,
    ;
    3 * ((y * y) as i128) > (x * x) as i128
}

/// A ball served along an allowed direction rises or falls with at least
/// half its speed, up to the rounding of its velocity.
pub proof fn lemma_allowed_serve_is_steep(d: Direction, speed: int)
    requires
        direction_allowed(d),
        0 <= speed,
    ensures
        2 * magnitude(rescaled(d, speed).y) + 1 >= speed,
{
    lemma_norm_sq_positive(d);
    let yy = d.y * d.y;
    let den = d.norm_sq();
    let m = magnitude(rescaled(d, speed).y);
    assert(yy > 0) by (nonlinear_arith)
        requires
            yy == d.y * d.y,
            3 * yy > d.x * d.x,
            d.x * d.x >= 0,
    ;
    lemma_scaled_component(d.y, den, speed);
    if speed >= 2 * (m + 1) {
        assert(yy * (speed * speed) >= (m + 1) * (m + 1) * den) by (nonlinear_arith)
            requires
                speed >= 2 * (m + 1),
                m >= 0,
                yy > 0,
                den < 4 * yy,
                den > 0,
        ;
    }
}

/// Draws one value from `low..high` with the thread-local generator of the
/// `rand` crate (`rand::rng()` and `Rng::random_range`).
///
/// Believed without proof: the value lies in the half-open range. Which value
/// comes is left open. `random_range` panics on an empty range, which the
/// precondition excludes. The generator itself panics where the operating
/// system hands it no entropy, at its first use or at a reseed; no
/// precondition can exclude that.
#[verifier::external_body]
fn random_in_range(low: u32, high: u32) -> (value: u32)
    requires
        low < high,
    ensures
        low <= value < high,
{
    rand::rng().random_range(low..high)
}

/// Draws a serve direction: first one of the two bands, each equally likely,
/// then an angle within that band.
///
/// Whatever the generator hands back, the angle is an allowed one.
pub fn random_launch_angle() -> (angle: u32)
    ensures
        angle_allowed(angle as int),
{
    let selector: u32 = random_in_range(0, 2);
    let band: Band = Band::from_selector(selector);
    random_in_range(band.start(), band.end())
}

} // verus!
