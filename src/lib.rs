//! A small membrane simulation: point-like lipids repel each other through a
//! soft short-range potential and move by semi-implicit Euler steps.
//!
//! All quantities are fixed-point integers: one unit of length or time is
//! `SCALE` steps of the integer grid, so that every step is exact integer
//! arithmetic whose result the contracts pin down.

pub mod vector;
pub mod force;
pub mod simulation;
pub mod laws;

pub use vector::{Vec3, SCALE, LIMIT};
pub use force::{CUTOFF, MIN_DIST, STRENGTH};
pub use simulation::{Simulation, Lipid, Protein, Frame, DT, MAX_LIPIDS, SPAN, LAYER, JITTER};
