//! The engine that runs a lattice model frame by frame.

pub mod pacing;
pub mod physics;
