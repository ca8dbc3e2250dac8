//! Drift-free accumulation of 3D vectors.
//!
//! Components are carried as IEEE-754 binary64 bit patterns. What is exact
//! on the pattern is done here: the 24-byte little-endian layout used for
//! deterministic snapshots, numeric equality, negation, and the magnitude
//! test that steers compensated summation. What rounds is asked of an
//! arithmetic unit that the host supplies, and every contract states its
//! result over the answers of that unit.
//!
//! ```ignore
//! let mut position = Vec3Accumulator::new();
//! position.add_scaled(velocity, dt, &unit);
//! let now = position.resolve(&unit);
//! ```
pub mod accumulator;
pub mod arith;
pub mod binary64;
pub mod compensated;
pub mod history;
pub mod magnitude;
pub mod vec3;

pub use accumulator::Vec3Accumulator;
pub use arith::Op;
pub use compensated::Neumaier;
pub use vec3::Vec3;
