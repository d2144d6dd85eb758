//! The Philox 4x32 generator: a block of four words is produced from a
//! four-word counter and a two-word key by a fixed number of rounds, each made
//! of two widening multiplications, a few exclusive-ors and a permutation.

use vstd::prelude::*;
use vstd::wrapping::u32_specs::wrapping_add;

use crate::binary32::{unit_fraction_bits, unit_fraction_pattern, FRACTION_MASK};
use crate::gpu_random::widening_mul::{product_high, product_low, widening_mul_u32};
use crate::gpu_random::GPURng;

verus! {

/// Multiplier applied to word 0 of the counter.
pub const PHILOX_M0: u32 = 0xD251_1F53;

/// Multiplier applied to word 2 of the counter.
pub const PHILOX_M1: u32 = 0xCD9E_8D57;

/// Increment of word 0 of the key from one round to the next.
pub const WEYL_0: u32 = 0x9E37_79B9;

/// Increment of word 1 of the key from one round to the next.
pub const WEYL_1: u32 = 0xBB67_AE85;

/// Number of rounds of a generator that was not given another.
pub const DEFAULT_ROUNDS: u32 = 7;

/// Cursor value of a generator that holds no block or no cached pair yet.
pub const EXHAUSTED: u32 = 0xFFFF_FFFF;

/// One round applied to a counter.
pub open spec fn philox_round(counter: [u32; 4], key: [u32; 2]) -> [u32; 4] {
    [
        (product_high(PHILOX_M1, counter[2]) as u32) ^ key[0] ^ counter[1],
        product_low(PHILOX_M1, counter[2]) as u32,
        (product_high(PHILOX_M0, counter[0]) as u32) ^ key[1] ^ counter[3],
        product_low(PHILOX_M0, counter[0]) as u32,
    ]
}

/// The key of the round that follows a round with `key`.
pub open spec fn next_round_key(key: [u32; 2]) -> [u32; 2] {
    [wrapping_add(key[0], WEYL_0), wrapping_add(key[1], WEYL_1)]
}

/// The counter after `rounds` rounds that start with `key`.
pub open spec fn philox_block(counter: [u32; 4], key: [u32; 2], rounds: nat) -> [u32; 4]
    decreases rounds,
{
    if rounds == 0 {
        counter
    } else {
        philox_block(philox_round(counter, key), next_round_key(key), (rounds - 1) as nat)
    }
}

/// The four words of a 128-bit seed, least significant first.
pub open spec fn seed_words(seed: u128) -> [u32; 4] {
    [
        (seed % 0x1_0000_0000) as u32,
        ((seed / 0x1_0000_0000) % 0x1_0000_0000) as u32,
        ((seed / 0x1_0000_0000_0000_0000) % 0x1_0000_0000) as u32,
        (seed / 0x1_0000_0000_0000_0000_0000_0000) as u32,
    ]
}

/// The two words of a 64-bit key, least significant first.
pub open spec fn key_words(key: u64) -> [u32; 2] {
    [(key % 0x1_0000_0000) as u32, (key / 0x1_0000_0000) as u32]
}

/// One stream of the generator, as a plain record.
///
/// `counter` holds the current block once one was generated. `current_u32`
/// counts the words of the block that were handed out; any value above 3
/// means that the next draw generates a new block first. `normal` holds the
/// binary32 patterns of a cached pair of normal samples and `current_normal`
/// counts how many of the two were handed out, any value above 1 meaning
/// none is left. `key` is the key the stream was made with; the draws use the
/// key they are called with.
#[derive(Debug, Clone, Copy, PartialEq, Eq)]
pub struct Philox4x32 {
    pub counter: [u32; 4],
    pub normal: [u32; 2],
    pub current_u32: u32,
    pub current_normal: u32,
    pub key: [u32; 2],
    pub rounds: u32,
}

impl Philox4x32 {
    /// The stream that `new_u32` makes from a seed and a key.
    pub open spec fn fresh(seed: [u32; 4], key: [u32; 2]) -> Philox4x32 {
        Philox4x32 {
            counter: seed,
            normal: [0u32, 0u32],
            current_u32: EXHAUSTED,
            current_normal: EXHAUSTED,
            key,
            rounds: DEFAULT_ROUNDS,
        }
    }

    /// Both cursors are in the range that the operations keep them in.
    pub open spec fn wf(&self) -> bool {
        &&& (self.current_u32 <= 4 || self.current_u32 == EXHAUSTED)
        &&& (self.current_normal <= 2 || self.current_normal == EXHAUSTED)
    }

    /// The next draw has to generate a block.
    pub open spec fn block_exhausted(&self) -> bool {
        self.current_u32 > 3
    }

    /// The block that a generation with `key` produces.
    pub open spec fn block(&self, key: [u32; 2]) -> [u32; 4] {
        philox_block(self.counter, key, self.rounds as nat)
    }

    /// A cached normal sample is left.
    pub open spec fn normal_cached(&self) -> bool {
        self.current_normal <= 1
    }

    /// The pattern of the uniform sample that the next draw with `key` gives.
    pub open spec fn peek_f32(&self, key: [u32; 2]) -> u32 {
        unit_fraction_pattern(self.peek_u32(key) & FRACTION_MASK)
    }

    /// A stream from a 128-bit seed and a 64-bit key, each split into 32-bit
    /// words, least significant first.
    pub fn new(seed: u128, key: u64) -> (rng: Self)
        ensures
            rng == Self::fresh(seed_words(seed), key_words(key)),
            rng.wf(),
    {
        let s0: u32 = (seed & 0xFFFF_FFFF) as u32;
        let s1: u32 = ((seed >> 32) & 0xFFFF_FFFF) as u32;
        let s2: u32 = ((seed >> 64) & 0xFFFF_FFFF) as u32;
        let s3: u32 = (seed >> 96) as u32;
        let k0: u32 = (key & 0xFFFF_FFFF) as u32;
        let k1: u32 = (key >> 32) as u32;
        proof {
            assert((seed & 0xFFFF_FFFF) as u32 == (seed % 0x1_0000_0000) as u32) by (bit_vector);
            assert(((seed >> 32) & 0xFFFF_FFFF) as u32 == ((seed / 0x1_0000_0000)
                % 0x1_0000_0000) as u32) by (bit_vector);
            assert(((seed >> 64) & 0xFFFF_FFFF) as u32 == ((seed / 0x1_0000_0000_0000_0000)
                % 0x1_0000_0000) as u32) by (bit_vector);
            assert((seed >> 96) as u32 == (seed / 0x1_0000_0000_0000_0000_0000_0000) as u32)
                by (bit_vector);
            assert((key & 0xFFFF_FFFF) as u32 == (key % 0x1_0000_0000) as u32) by (bit_vector);
            assert((key >> 32) as u32 == (key / 0x1_0000_0000) as u32) by (bit_vector);
        }
        let seed_array: [u32; 4] = [s0, s1, s2, s3];
        let key_array: [u32; 2] = [k0, k1];
        proof {
            assert(seed_array@ =~= seed_words(seed)@);
            assert(key_array@ =~= key_words(key)@);
        }
        Self::new_u32(seed_array, key_array)
    }

    /// A stream from a seed and a key given in words. It holds no block yet:
    /// the first draw generates one.
    pub fn new_u32(seed: [u32; 4], key: [u32; 2]) -> (rng: Self)
        ensures
            rng == Self::fresh(seed, key),
            rng.wf(),
    {
        let normal: [u32; 2] = [0, 0];
        proof {
            assert(normal@ =~= [0u32, 0u32]@);
        }
        Philox4x32 {
            counter: seed,
            normal,
            current_u32: EXHAUSTED,
            current_normal: EXHAUSTED,
            key,
            rounds: DEFAULT_ROUNDS,
        }
    }

    /// The same stream with another number of rounds per block.
    pub fn with_rounds(self, rounds: u32) -> (rng: Self)
        ensures
            rng == (Philox4x32 { rounds, ..self }),
            self.wf() ==> rng.wf(),
    {
        let mut rng = self;
        rng.rounds = rounds;
        rng
    }

    /// Replaces the key that the stream carries.
    pub fn set_key(&mut self, key: [u32; 2])
        ensures
            *final(self) == (Philox4x32 { key, ..*old(self) }),
            old(self).wf() ==> final(self).wf(),
    {
        self.key = key;
    }

    /// Generates the next block from the counter and `key`, and marks all four
    /// of its words as not yet handed out.
    fn next(&mut self, key: [u32; 2])
        ensures
            *final(self) == (Philox4x32 {
                counter: old(self).block(key),
                current_u32: 0,
                ..*old(self)
            }),
    {
        let mut counter: [u32; 4] = self.counter;
        let mut round_key: [u32; 2] = key;
        let rounds: u32 = self.rounds;
        let mut done: u32 = 0;
        while done < rounds
            invariant
                done <= rounds,
                philox_block(counter, round_key, (rounds - done) as nat) == philox_block(
                    self.counter,
                    key,
                    rounds as nat,
                ),
            decreases rounds - done,
        {
            let (lo0, hi0): (u32, u32) = widening_mul_u32(PHILOX_M0, counter[0]);
            let (lo1, hi1): (u32, u32) = widening_mul_u32(PHILOX_M1, counter[2]);
            let mixed: [u32; 4] = [
                hi1 ^ round_key[0] ^ counter[1],
                lo1,
                hi0 ^ round_key[1] ^ counter[3],
                lo0,
            ];
            let bumped: [u32; 2] = [
                round_key[0].wrapping_add(WEYL_0),
                round_key[1].wrapping_add(WEYL_1),
            ];
            proof {
                assert(mixed@ =~= philox_round(counter, round_key)@);
                assert(bumped@ =~= next_round_key(round_key)@);
            }
            counter = mixed;
            round_key = bumped;
            done = done + 1;
        }
        self.counter = counter;
        self.current_u32 = 0;
    }

    /// Hands out the next cached normal sample, if one is left.
    pub fn take_normal(&mut self) -> (sample: Option<u32>)
        ensures
            old(self).normal_cached() ==> sample == Some(
                old(self).normal[old(self).current_normal as int],
            ) && *final(self) == (Philox4x32 {
                current_normal: (old(self).current_normal + 1) as u32,
                ..*old(self)
            }),
            !old(self).normal_cached() ==> sample.is_none() && *final(self) == *old(self),
            old(self).wf() ==> final(self).wf(),
    {
        if self.current_normal > 1 {
            None
        } else {
            let sample: u32 = self.normal[self.current_normal as usize];
            self.current_normal = self.current_normal + 1;
            Some(sample)
        }
    }

    /// Stores a fresh pair of normal samples, none of them handed out.
    pub fn refill_normal(&mut self, pair: [u32; 2])
        ensures
            *final(self) == (Philox4x32 { normal: pair, current_normal: 0, ..*old(self) }),
            old(self).wf() ==> final(self).wf(),
    {
        self.normal = pair;
        self.current_normal = 0;
    }

    /// One standard normal sample, as a binary32 pattern.
    ///
    /// While a cached sample is left it is handed out and nothing is drawn.
    /// Otherwise two uniform samples are drawn with `key` and given to
    /// `transform`, which turns them into a pair of independent normal samples
    /// (the cosine and the sine branch of the Box-Muller transform); the first
    /// of the pair is returned and the second stays cached for the next call.
    pub fn next_standard_normal<F: Fn(u32, u32) -> [u32; 2]>(
        &mut self,
        key: [u32; 2],
        transform: F,
    ) -> (sample: u32)
        requires
            !old(self).normal_cached() ==> call_requires(
                transform,
                (old(self).peek_f32(key), old(self).after_u32(key).peek_f32(key)),
            ),
        ensures
            old(self).normal_cached() ==> sample == old(self).normal[old(
                self,
            ).current_normal as int] && *final(self) == (Philox4x32 {
                current_normal: (old(self).current_normal + 1) as u32,
                ..*old(self)
            }),
            !old(self).normal_cached() ==> call_ensures(
                transform,
                (old(self).peek_f32(key), old(self).after_u32(key).peek_f32(key)),
                final(self).normal,
            ) && sample == final(self).normal[0] && *final(self) == (Philox4x32 {
                normal: final(self).normal,
                current_normal: 1,
                ..old(self).after_u32(key).after_u32(key)
            }),
            old(self).wf() ==> final(self).wf(),
    {
        match self.take_normal() {
            Some(sample) => sample,
            None => {
                let first: u32 = self.next_f32(key);
                let second: u32 = self.next_f32(key);
                let pair: [u32; 2] = transform(first, second);
                self.refill_normal(pair);
                self.current_normal = 1;
                pair[0]
            },
        }
    }
}

/// A draw leaves the cursor of the block between 1 and 4, whatever it was
/// before, and does not touch the cache of normal samples, the carried key
/// or the number of rounds.
pub proof fn law_draw_keeps_cursors(rng: Philox4x32, key: [u32; 2])
    ensures
        1 <= rng.after_u32(key).current_u32 <= 4,
        rng.after_u32(key).normal == rng.normal,
        rng.after_u32(key).current_normal == rng.current_normal,
        rng.after_u32(key).key == rng.key,
        rng.after_u32(key).rounds == rng.rounds,
        rng.wf() ==> rng.after_u32(key).wf(),
        !rng.block_exhausted() ==> rng.after_u32(key).counter == rng.counter,
        rng.block_exhausted() ==> rng.after_u32(key).counter == rng.block(key),
{
}

/// A draw is decided by the counter, the cursor of the block, the number of
/// rounds and the key of the call: the key that a stream carries and its
/// cache of normal samples play no part. A caller that holds these four can
/// put any stream at the same position.
pub proof fn law_draw_is_positioned(a: Philox4x32, b: Philox4x32, key: [u32; 2])
    requires
        a.counter == b.counter,
        a.current_u32 == b.current_u32,
        a.rounds == b.rounds,
    ensures
        a.peek_u32(key) == b.peek_u32(key),
        a.peek_f32(key) == b.peek_f32(key),
        a.after_u32(key).counter == b.after_u32(key).counter,
        a.after_u32(key).current_u32 == b.after_u32(key).current_u32,
{
}

impl GPURng for Philox4x32 {
    open spec fn peek_u32(&self, key: [u32; 2]) -> u32 {
        if self.block_exhausted() {
            self.block(key)[0]
        } else {
            self.counter[self.current_u32 as int]
        }
    }

    open spec fn after_u32(&self, key: [u32; 2]) -> Philox4x32 {
        if self.block_exhausted() {
            Philox4x32 { counter: self.block(key), current_u32: 1, ..*self }
        } else {
            Philox4x32 { current_u32: (self.current_u32 + 1) as u32, ..*self }
        }
    }

    /// One word of the current block; a block of which all four words were
    /// handed out is replaced first by the one generated with `key`.
    fn next_u32(&mut self, key: [u32; 2]) -> (word: u32) {
        if self.current_u32 > 3 {
            self.next(key);
        }
        let word: u32 = self.counter[self.current_u32 as usize];
        self.current_u32 = self.current_u32 + 1;
        word
    }

    fn next_f32(&mut self, key: [u32; 2]) -> (bits: u32) {
        let word: u32 = self.next_u32(key);
        let mantissa: u32 = word & FRACTION_MASK;
        proof {
            assert(word & 0x007F_FFFF < 0x0080_0000) by (bit_vector);
        }
        unit_fraction_bits(mantissa)
    }
}

} // verus!
