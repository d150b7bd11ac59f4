//! Simulation core of a side-scrolling arcade shooter: a spaceship fires
//! missiles at asteroids that drift leftwards in horizontal lanes.
//!
//! Quantities that are fractional by nature (velocities, directions,
//! accelerations) are fixed-point numbers counted in hundredths, so that
//! every step of the simulation is exact integer arithmetic.

pub mod asteroid;
pub mod game;
pub mod helper;
pub mod missile;
pub mod physics;
pub mod random;
pub mod rectangle;
pub mod settings;
pub mod time;
