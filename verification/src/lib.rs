//! Verified core of a probability-distribution visualizer.
//!
//! The library models the numeric heart of a catalog of distribution
//! charts: exact combinatorial evaluation of discrete probability mass
//! functions, parameter validation with cross-parameter clamping cascades,
//! summary statistics with explicit degenerate values, deterministic
//! sampling grids, and the layout plan a chart renderer follows.  Values
//! that the surrounding user interface treats as reals are carried here as
//! exact integer micro-units (millionths), so every computation below is
//! exact integer arithmetic with proved bounds.

pub mod combin;
pub mod continuous;
pub mod controller;
pub mod discrete;
pub mod laws;
pub mod model;
pub mod parse;
pub mod ratio;
pub mod render;
pub mod sampling;
pub mod scheduler;
