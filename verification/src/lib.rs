//! Ball motion and collision response for a Pong-like arena game.
//!
//! A ball moves through a field of axis-aligned rectangles: walls, paddles,
//! gutters. Each tick it advances by its velocity; where it runs into an
//! obstacle, its velocity is mirrored at the contact and its speed grows.
//!
//! All quantities are integers in a fixed-point unit chosen by the host:
//! positions, extents and velocities share one length unit, speeds are kept
//! in 2^64 parts of that unit, and angles are counted in thousandths of a
//! degree. Two things round, each by less than one unit toward zero: the
//! scaling of a direction to a speed, coordinate by coordinate, and the
//! growth of the speed step by a tenth, which rounds to a whole number of
//! parts.

mod algebra;
/// The walls around the field.
pub mod arena;
/// The ball and its search for contacts.
pub mod ball;
/// Contact between a ball and one rectangle.
pub mod detect;
/// Inputs that are turned away.
pub mod error;
/// The direction of a serve.
pub mod launch;
/// Mirror images and their laws.
pub mod mirror;
/// The answer to a contact.
pub mod reflect;
/// Directions made to a given length.
pub mod scale;
/// Faces of a rectangle.
pub mod side;
/// Speed and its growth.
pub mod speed;
/// One step of the simulation.
pub mod tick;
/// Plane vectors.
pub mod vector;
