//! Errors of the engine and of the device that displays it.

use vstd::prelude::*;

verus! {

/// What can go wrong while an engine or its display is set up. Nothing can go
/// wrong later: a step either completes or the run is broken.
#[derive(Debug, PartialEq, Eq)]
pub enum WGPUError {
    /// No suitable adapter was found.
    NoAdapter,
    /// No suitable device among this many.
    NoVulkanDevice(usize),
    /// A buffer of this many elements of this many bytes each is larger than
    /// one allocation can be.
    BufferSizeOverflow(usize, usize),
    /// Mapped memory is smaller than expected.
    InsufficientMappedMemory { mapped: u64, expected: u64 },
    /// The kernel module of this name was not found.
    KernelNotFound(String),
    /// The device has no compute queue.
    NoComputeQueue,
    /// Any other failure, in words.
    Other(String),
}

} // verus!
