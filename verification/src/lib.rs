//! Fixed-point steering for a two-dimensional flight sandbox.
//!
//! Lengths, speeds and accelerations are integers counting thousandths of a
//! world unit; ratios are thousandths; angles are millionths of a half turn.
//! Every quantity is exact, so each contract states the value that a function
//! returns, not an approximation of it.

pub mod agent;
pub mod angle;
pub mod arrival;
pub mod marker;
pub mod orientation;
pub mod overlay;
pub mod root;
pub mod schedule;
pub mod steering;
pub mod thrust;
pub mod vector;
pub mod world;
