//! A binary32 number that one thread writes while another reads it.

use std::sync::atomic::AtomicU32;
use std::sync::atomic::Ordering;
use vstd::prelude::*;

verus! {

/// A cell that holds the pattern of one binary32 number and supports only
/// loading and storing, both as single relaxed atomic accesses: a load never
/// sees a torn value, and nothing is promised about how accesses to two cells
/// are ordered. No contract speaks of the value in the cell, since another
/// thread may replace it at any time.
pub struct AtomicF32(AtomicU32);

impl AtomicF32 {
    /// A cell that holds `bits`.
    pub fn new(bits: u32) -> Self {
        AtomicF32(AtomicU32::new(bits))
    }

    /// The pattern that the cell holds at the moment of the call.
    pub fn load(&self) -> u32 {
        self.0.load(Ordering::Relaxed)
    }

    /// Replaces the pattern in the cell.
    pub fn store(&self, bits: u32) {
        self.0.store(bits, Ordering::Relaxed)
    }
}

} // verus!
