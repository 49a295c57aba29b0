//! Why an input is turned away.

use vstd::prelude::*;

verus! {

/// An input that the library rejects at its boundary.
#[derive(Clone, Copy, Debug, PartialEq, Eq, Structural)]
pub enum InvalidInput {
    /// The ball's radius is zero or negative.
    Radius,
    /// A half-extent of an obstacle is zero or negative.
    Extents,
    /// A speed or a speed step is above `MAX_SPEED`.
    Speed,
}

} // verus!
