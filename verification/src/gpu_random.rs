//! Counter-based random numbers for massively parallel use, restricted to
//! 32-bit integer arithmetic.
//!
//! A generator is a plain record. Every draw takes the key of the stream as an
//! argument and keeps none of it, so a cell of a lattice can own one record
//! and derive its key from its own index: no two cells ever share state.

use vstd::prelude::*;

use crate::binary32::{encodes_unit_fraction, unit_fraction_pattern, FRACTION_MASK};

pub mod philox;
pub mod widening_mul;

verus! {

/// A source of random words that is advanced with a caller-supplied key.
pub trait GPURng: Clone {
    /// The word that the next draw with `key` returns.
    spec fn peek_u32(&self, key: [u32; 2]) -> u32;

    /// The generator after one draw with `key`.
    spec fn after_u32(&self, key: [u32; 2]) -> Self;

    /// Draws one 32-bit word.
    fn next_u32(&mut self, key: [u32; 2]) -> (word: u32)
        ensures
            word == old(self).peek_u32(key),
            *final(self) == old(self).after_u32(key),
    ;

    /// Draws one number of `[0, 1)` and returns its binary32 pattern: the low
    /// 23 bits of a word, read as a multiple of 2^-23.
    fn next_f32(&mut self, key: [u32; 2]) -> (bits: u32)
        ensures
            bits == unit_fraction_pattern(old(self).peek_u32(key) & FRACTION_MASK),
            encodes_unit_fraction(bits, old(self).peek_u32(key) & FRACTION_MASK),
            *final(self) == old(self).after_u32(key),
    ;
}

} // verus!
