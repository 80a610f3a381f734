//! Simulation core of a vertically scrolling arcade shooter: pixel-exact
//! sprite collision, an occupancy grid over a streamed tile map, and
//! footprint-aware path planning.
//!
//! Everything is counted in whole numbers: world lengths in millipixels,
//! angles in milliradians.

pub mod config;
pub mod units;
pub mod geometry;
pub mod collision;
mod random;
pub mod generator;
pub mod streamer;
pub mod occupancy;
pub mod planner;
pub mod footprint;
pub mod actor;
pub mod spawn;
