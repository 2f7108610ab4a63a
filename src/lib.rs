//! Isometric camera control on a tile grid, in exact integer arithmetic.
//!
//! Angles are counted in millidegrees, durations in microseconds, and
//! interpolation fractions in millionths, so every step of the camera's
//! spin sequencer is reproducible bit for bit and proved in full.
pub mod angle;
pub mod collision;
pub mod minimap;
pub mod spin;
pub mod world;
