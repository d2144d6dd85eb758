//! What an engine tells the display about its buffers, and what it puts in
//! them.
//!
//! A buffer that the display reads is an array of 32-bit words laid out as the
//! machine lays them out in memory. The conversion from words to bytes is that
//! of the `bytemuck` crate: no byte is copied or reordered, the words are only
//! looked at as bytes.

use vstd::prelude::*;
use vstd::slice::slice_to_vec;

use crate::kernel::{pattern_of_spin, spin_pattern, IsingCtx};

pub mod ising;

verus! {

/// A buffer of an engine that a fragment routine reads.
#[derive(Debug, Clone, Copy, PartialEq, Eq)]
pub enum EngineBuffer {
    /// The size of the lattice and the parameters of the model.
    Context,
    /// The values of the cells, as of the last completed step.
    Values,
}

/// One buffer that the fragment routine named by a [`FragmentInfo`] reads.
#[derive(Debug, Clone, Copy, PartialEq, Eq)]
pub struct FragmentEntry {
    pub binding: u32,
    pub buffer: EngineBuffer,
    pub uniform: bool,
}

/// What the display needs to draw an engine's lattice: the name of the
/// fragment routine that colours it, and the buffers that the routine reads.
/// The display reads the buffers and never writes them.
pub struct FragmentInfo {
    pub fragment_entry_point: &'static str,
    pub entries: Vec<FragmentEntry>,
}

/// The word that four bytes from place `4 * i` on encode, least significant
/// byte first.
pub open spec fn word_low_first(bytes: Seq<u8>, i: int) -> int {
    bytes[4 * i] + bytes[4 * i + 1] * 0x100 + bytes[4 * i + 2] * 0x1_0000 + bytes[4 * i + 3]
        * 0x100_0000
}

/// The word that four bytes from place `4 * i` on encode, most significant
/// byte first.
pub open spec fn word_high_first(bytes: Seq<u8>, i: int) -> int {
    bytes[4 * i + 3] + bytes[4 * i + 2] * 0x100 + bytes[4 * i + 1] * 0x1_0000 + bytes[4 * i]
        * 0x100_0000
}

/// The bytes are the words as they lie in memory: four bytes per word, the
/// words in their order, and each word in the byte order of the machine,
/// which is the same for all of them.
pub open spec fn memory_image(bytes: Seq<u8>, words: Seq<u32>) -> bool {
    &&& bytes.len() == 4 * words.len()
    &&& {
        ||| forall|i: int| 0 <= i < words.len() ==> word_low_first(bytes, i) == #[trigger] words[i]
        ||| forall|i: int|
            0 <= i < words.len() ==> word_high_first(bytes, i) == #[trigger] words[i]
    }
}

/// The memory of a slice of words, seen as bytes.
///
/// This is `bytemuck::cast_slice` from `u32` to `u8`. Trusted: the result has
/// four bytes for each word and holds the words in memory order, each in the
/// byte order of the machine. The cast cannot fail, since a byte has no
/// alignment to meet and every length is a whole number of bytes.
#[verifier::external_body]
fn words_as_bytes(words: &[u32]) -> (bytes: &[u8])
    ensures
        memory_image(bytes@, words@),
{
    bytemuck::cast_slice(words)
}

/// The memory of a record of four words, seen as bytes.
///
/// This is `bytemuck::bytes_of` on an array of four `u32`. Trusted: the
/// result has sixteen bytes and holds the four words in memory order, each in
/// the byte order of the machine.
#[verifier::external_body]
fn record_as_bytes(record: &[u32; 4]) -> (bytes: &[u8])
    ensures
        memory_image(bytes@, record@),
{
    bytemuck::bytes_of(record)
}

/// The words of a parameter snapshot, in the order in which the fragment
/// routine reads them.
pub open spec fn context_words(ising: IsingCtx) -> Seq<u32> {
    seq![ising.width, ising.height, ising.temperature, ising.external_field]
}

/// The contents of the context buffer for a parameter snapshot: the two sizes
/// and the two parameters, sixteen bytes in all.
pub fn context_bytes(ising: &IsingCtx) -> (bytes: Vec<u8>)
    ensures
        memory_image(bytes@, context_words(*ising)),
        bytes@.len() == 16,
{
    let record: [u32; 4] = [ising.width, ising.height, ising.temperature, ising.external_field];
    proof {
        assert(record@ =~= context_words(*ising));
    }
    slice_to_vec(record_as_bytes(&record))
}

/// The contents of the value buffer for a lattice: for each cell the binary32
/// pattern of its spin.
pub fn values_bytes(values: &[i8]) -> (bytes: Vec<u8>)
    ensures
        memory_image(bytes@, values@.map_values(|v: i8| spin_pattern(v))),
        bytes@.len() == 4 * values@.len(),
{
    let mut words: Vec<u32> = Vec::new();
    let mut i: usize = 0;
    while i < values.len()
        invariant
            i <= values@.len(),
            words@ == values@.take(i as int).map_values(|v: i8| spin_pattern(v)),
        decreases values@.len() - i,
    {
        words.push(pattern_of_spin(values[i]));
        i = i + 1;
        proof {
            assert(words@ =~= values@.take(i as int).map_values(|v: i8| spin_pattern(v)));
        }
    }
    proof {
        assert(values@.take(values@.len() as int) =~= values@);
    }
    slice_to_vec(words_as_bytes(words.as_slice()))
}

} // verus!
