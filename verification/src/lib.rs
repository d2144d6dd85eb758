//! Phase: an Ising lattice that is stepped while it is drawn.
//!
//! The crate is the engine of the simulation. It holds
//! - [`gpu_random`]: a counter-based random number generator that needs
//!   nothing wider than 32-bit integers and keeps one independent stream per
//!   lattice cell;
//! - [`binary32`]: the few operations on floating-point numbers that the
//!   lattice update needs, done exactly on their bit patterns;
//! - [`kernel`]: the update of one cell, a Metropolis step on a periodic
//!   lattice;
//! - [`gpu`]: the engine that runs the kernel over the whole lattice between
//!   two buffers, the pacing of steps per frame, and the contents of the
//!   buffers that the display reads;
//! - [`simulation`]: the parameters that a user interface adjusts while the
//!   engine runs;
//! - [`error`]: what can go wrong when an engine is set up.
//!
//! A window, a clock, a device and floating-point arithmetic are the
//! caller's: the engine takes durations as integers and probabilities as bit
//! patterns, and hands out bytes.

pub mod binary32;
pub mod error;
pub mod gpu;
pub mod gpu_random;
pub mod kernel;
pub mod simulation;
