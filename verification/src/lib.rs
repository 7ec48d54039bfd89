//! Verified core of a minimal flocking ("boid") simulation.
//!
//! Point agents move each frame toward the centroid of the flock
//! (cohesion only).  Coordinates, speeds and durations are held in
//! fixed-point integers so that every step of the per-frame update,
//! the frame clock and the loop driver carries an exact contract.
//! Windowing, input polling and drawing are a presentation boundary
//! that a thin unverified shell supplies around this crate.

pub mod fixed;
pub mod vector2;
pub mod flock;
pub mod clock;
pub mod driver;
