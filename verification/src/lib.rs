//! Physics and collision core of a tilting-labyrinth ball game.
//!
//! A board tilts on two axes, a ball rolls under tilt-driven acceleration,
//! and the ball must reach a goal region while avoiding holes and bouncing
//! off rectangular walls and the board edges.
//!
//! All quantities are fixed-point integers:
//! - positions and lengths in milli-units (one thousandth of a board unit),
//! - velocities in milli-units per second,
//! - board tilt angles in micro-radians,
//! - timestamps and durations in milliseconds,
//! - the bounce coefficient in per-mille.

pub mod fixed;
pub mod geom;
pub mod level;
pub mod game;
pub mod fall;
pub mod laws;
pub mod config;

