//! The update of one lattice cell.
//!
//! The lattice is a torus of spins, each +1 or -1, stored row by row. One
//! step proposes a spin for the cell, drawn at random, and keeps it with a
//! probability that depends on the energies of the present and the proposed
//! state among the four neighbours. The probability is a floating-point
//! quantity: it reaches the kernel as a table of binary32 patterns, one for
//! each combination of present spin, proposed spin and neighbour sum, computed
//! once per batch of steps from the temperature and the field.
//!
//! Of the policies for a reset the kernel has the uniform one: each cell gets
//! +1 or -1 with equal probability, whatever the temperature. A proposal is
//! drawn the same way, independently of the present spin.

use vstd::arithmetic::div_mod::{lemma_mod_add_multiples_vanish, lemma_small_mod};
use vstd::arithmetic::power2::pow2;
use vstd::prelude::*;

use crate::binary32::{
    biased_exponent,
    fraction,
    is_nan,
    lemma_unit_fraction_below_half,
    less,
    less_than,
    scaled_value,
    unit_fraction_pattern,
    HALF_BITS,
    HIDDEN_BIT,
    MINUS_ONE_BITS,
    ONE_BITS,
};
use crate::gpu_random::philox::{key_words, Philox4x32};
use crate::gpu_random::GPURng;

verus! {

/// Number of entries of an acceptance table.
pub const CASES: usize = 20;

/// Size of the lattice and the two parameters of the model, the temperature
/// and the strength of the external field, as binary32 patterns.
#[derive(Debug, Clone, Copy, PartialEq, Eq)]
pub struct IsingCtx {
    pub width: u32,
    pub height: u32,
    pub temperature: u32,
    pub external_field: u32,
}

/// Pattern of the least temperature that the model is run at, 1e-6. At a
/// temperature of zero the acceptance probability would be a quotient by
/// zero; the model takes every temperature that is not above this one, and
/// every pattern that is no number, for this one.
pub const TEMPERATURE_EPSILON: u32 = 0x3586_37BD;

/// The temperature that the model is run at when `temperature` is set.
pub open spec fn effective_temperature(temperature: u32) -> u32 {
    if less(TEMPERATURE_EPSILON, temperature) {
        temperature
    } else {
        TEMPERATURE_EPSILON
    }
}

impl IsingCtx {
    /// Number of cells of the lattice.
    pub open spec fn cells(&self) -> int {
        self.width * self.height
    }

    /// The same parameters with the temperature that the model is run at.
    pub fn clamped(self) -> (ising: IsingCtx)
        ensures
            ising == (IsingCtx { temperature: effective_temperature(self.temperature), ..self }),
            ising.temperature == TEMPERATURE_EPSILON || less(
                TEMPERATURE_EPSILON,
                ising.temperature,
            ),
    {
        if less_than(TEMPERATURE_EPSILON, self.temperature) {
            self
        } else {
            IsingCtx {
                width: self.width,
                height: self.height,
                temperature: TEMPERATURE_EPSILON,
                external_field: self.external_field,
            }
        }
    }
}

/// The value is one of the two spins.
pub open spec fn is_spin(v: i8) -> bool {
    v == 1 || v == -1
}

/// The binary32 pattern of a spin, as the display reads it: that of 1.0 for
/// +1 and that of -1.0 for -1. Any other value gets the pattern of zero.
pub open spec fn spin_pattern(v: i8) -> u32 {
    if v == 1 {
        ONE_BITS
    } else if v == -1 {
        MINUS_ONE_BITS
    } else {
        0
    }
}

/// Every value of the buffer is a spin.
pub open spec fn all_spins(vals: Seq<i8>) -> bool {
    forall|i: int| 0 <= i < vals.len() ==> is_spin(#[trigger] vals[i])
}

/// The coordinate before `x` on a ring of `size` places.
pub open spec fn wrap_previous(x: int, size: int) -> int {
    if x == 0 {
        size - 1
    } else {
        x - 1
    }
}

/// The coordinate after `x` on a ring of `size` places.
pub open spec fn wrap_next(x: int, size: int) -> int {
    if x == size - 1 {
        0
    } else {
        x + 1
    }
}

/// Place of the cell `(ix, iy)` in a buffer of rows of `width` cells.
pub open spec fn cell_index(width: int, ix: int, iy: int) -> int {
    ix + width * iy
}

/// Places of the left, right, upper and lower neighbour of the cell
/// `(ix, iy)`, in this order. The lattice is periodic in both directions.
pub open spec fn neighbour_indices(width: int, height: int, ix: int, iy: int) -> Seq<int> {
    seq![
        cell_index(width, wrap_previous(ix, width), iy),
        cell_index(width, wrap_next(ix, width), iy),
        cell_index(width, ix, wrap_next(iy, height)),
        cell_index(width, ix, wrap_previous(iy, height)),
    ]
}

/// The negated sum of the four neighbours' spins.
pub open spec fn neighbour_sum(vals: Seq<i8>, width: int, height: int, ix: int, iy: int) -> int {
    let n = neighbour_indices(width, height, ix, iy);
    -(vals[n[0]] + vals[n[1]] + vals[n[2]] + vals[n[3]])
}

/// The key of the stream of the cell at place `i`: the place, as two words.
pub open spec fn cell_key(i: int) -> [u32; 2] {
    key_words(i as u64)
}

/// The spin that a uniform sample of `[0, 1)` stands for: +1 below one half,
/// -1 from one half on.
pub open spec fn proposal(sample: u32) -> i8 {
    if less(sample, HALF_BITS) {
        1i8
    } else {
        -1i8
    }
}

/// The three values name an entry of an acceptance table: two spins and a sum
/// that four spins can have.
pub open spec fn is_case(v: i8, vc: i8, s: i8) -> bool {
    &&& is_spin(v)
    &&& is_spin(vc)
    &&& (s == -4 || s == -2 || s == 0 || s == 2 || s == 4)
}

/// Place of a case in an acceptance table.
pub open spec fn case_index(v: i8, vc: i8, s: i8) -> int {
    (v + 1) / 2 * 10 + (vc + 1) / 2 * 5 + (s + 4) / 2
}

/// For each case, the binary32 pattern of the probability with which the
/// proposed spin replaces the present one.
#[derive(Debug, Clone, Copy, PartialEq, Eq)]
pub struct AcceptanceTable {
    pub probabilities: [u32; 20],
}

impl AcceptanceTable {
    /// The pattern stored for a case.
    pub open spec fn probability(&self, v: i8, vc: i8, s: i8) -> u32 {
        self.probabilities[case_index(v, vc, s)]
    }

    /// A proposal `vc` for a cell of spin `v` and neighbour sum `s` is kept
    /// when the uniform sample `r` is below the probability of the case.
    pub open spec fn accepted(&self, v: i8, vc: i8, s: i8, r: u32) -> bool {
        less(r, self.probability(v, vc, s))
    }

    /// Place of a case in the table.
    pub fn index_of(v: i8, vc: i8, s: i8) -> (index: usize)
        requires
            is_case(v, vc, s),
        ensures
            index == case_index(v, vc, s),
            index < CASES,
    {
        let row: usize = if v == 1 {
            10
        } else {
            0
        };
        let column: usize = if vc == 1 {
            5
        } else {
            0
        };
        let offset: usize = if s == -4 {
            0
        } else if s == -2 {
            1
        } else if s == 0 {
            2
        } else if s == 2 {
            3
        } else {
            4
        };
        row + column + offset
    }

    /// The case stored at a place of the table.
    pub fn case_at(index: usize) -> (case: (i8, i8, i8))
        requires
            index < CASES,
        ensures
            is_case(case.0, case.1, case.2),
            case_index(case.0, case.1, case.2) == index,
    {
        let v: i8 = if index >= 10 {
            1
        } else {
            -1
        };
        let rest: usize = index % 10;
        let vc: i8 = if rest >= 5 {
            1
        } else {
            -1
        };
        let offset: usize = rest % 5;
        let s: i8 = if offset == 0 {
            -4
        } else if offset == 1 {
            -2
        } else if offset == 2 {
            0
        } else if offset == 3 {
            2
        } else {
            4
        };
        (v, vc, s)
    }

    /// The table of a parameter snapshot: `probability` is asked once for each
    /// case, in the order of the table, and its answers are stored.
    pub fn build<F: Fn(IsingCtx, i8, i8, i8) -> u32>(
        ising: IsingCtx,
        probability: F,
    ) -> (table: Self)
        requires
            forall|v: i8, vc: i8, s: i8|
                is_case(v, vc, s) ==> call_requires(probability, (ising, v, vc, s)),
        ensures
            forall|v: i8, vc: i8, s: i8|
                is_case(v, vc, s) ==> call_ensures(
                    probability,
                    (ising, v, vc, s),
                    #[trigger] table.probability(v, vc, s),
                ),
    {
        let mut probabilities: [u32; 20] = [0; 20];
        let mut index: usize = 0;
        while index < CASES
            invariant
                index <= CASES,
                forall|v: i8, vc: i8, s: i8|
                    is_case(v, vc, s) ==> call_requires(probability, (ising, v, vc, s)),
                forall|v: i8, vc: i8, s: i8|
                    is_case(v, vc, s) && case_index(v, vc, s) < index ==> call_ensures(
                        probability,
                        (ising, v, vc, s),
                        #[trigger] probabilities[case_index(v, vc, s)],
                    ),
            decreases CASES - index,
        {
            let (v, vc, s): (i8, i8, i8) = Self::case_at(index);
            let bits: u32 = probability(ising, v, vc, s);
            let ghost before = probabilities;
            probabilities[index] = bits;
            proof {
                assert forall|v2: i8, vc2: i8, s2: i8|
                    is_case(v2, vc2, s2) && case_index(v2, vc2, s2) < index + 1
                    implies call_ensures(
                    probability,
                    (ising, v2, vc2, s2),
                    #[trigger] probabilities[case_index(v2, vc2, s2)],
                ) by {
                    let place = case_index(v2, vc2, s2);
                    if place == index {
                        lemma_case_index_injective(v, vc, s, v2, vc2, s2);
                    } else {
                        assert(probabilities[place] == before[place]);
                    }
                }
            }
            index = index + 1;
        }
        AcceptanceTable { probabilities }
    }

    /// Whether the proposal of a case is kept for the uniform sample `r`.
    pub fn accepts(&self, v: i8, vc: i8, s: i8, r: u32) -> (keep: bool)
        requires
            is_case(v, vc, s),
        ensures
            keep == self.accepted(v, vc, s, r),
    {
        let index: usize = Self::index_of(v, vc, s);
        less_than(r, self.probabilities[index])
    }
}

/// Two cases at the same place of the table are the same case.
pub proof fn lemma_case_index_injective(v: i8, vc: i8, s: i8, v2: i8, vc2: i8, s2: i8)
    requires
        is_case(v, vc, s),
        is_case(v2, vc2, s2),
        case_index(v, vc, s) == case_index(v2, vc2, s2),
    ensures
        v == v2,
        vc == vc2,
        s == s2,
{
}

/// What a reset makes of a cell: the spin, and the stream after the draw.
pub open spec fn reset_cell(rng: Philox4x32, key: [u32; 2]) -> (i8, Philox4x32) {
    (proposal(rng.peek_f32(key)), rng.after_u32(key))
}

/// What a step makes of a cell of spin `v` whose neighbours sum to `s`: the
/// new spin, and the stream after its two draws. The first draw proposes a
/// spin, the second decides whether the proposal is kept.
pub open spec fn step_cell(
    v: i8,
    s: i8,
    rng: Philox4x32,
    key: [u32; 2],
    table: AcceptanceTable,
) -> (i8, Philox4x32) {
    let vc = proposal(rng.peek_f32(key));
    let drawn = rng.after_u32(key);
    let r = drawn.peek_f32(key);
    (
        if table.accepted(v, vc, s, r) {
            vc
        } else {
            v
        },
        drawn.after_u32(key),
    )
}

/// What a step makes of the cell at place `i` of a lattice: the cell reads
/// its own spin and those of its neighbours in `vals`, and draws from its own
/// stream with its own key.
pub open spec fn stepped_cell(
    vals: Seq<i8>,
    rngs: Seq<Philox4x32>,
    width: int,
    height: int,
    table: AcceptanceTable,
    i: int,
) -> (i8, Philox4x32) {
    step_cell(
        vals[i],
        neighbour_sum(vals, width, height, i % width, i / width) as i8,
        rngs[i],
        cell_key(i),
        table,
    )
}

/// On a periodic lattice the cells of the first column have their left
/// neighbour in the last column and those of the last column their right
/// neighbour in the first, and the rows wrap in the same way; a corner wraps
/// in both directions. Everywhere else a neighbour is one column or one row
/// away. The neighbour before a coordinate is `(x + size - 1) % size`, the one
/// after it `(x + 1) % size`.
pub proof fn law_neighbours_wrap(width: int, height: int, ix: int, iy: int)
    requires
        0 <= ix < width,
        0 <= iy < height,
    ensures
        ix == 0 ==> neighbour_indices(width, height, ix, iy)[0] == cell_index(
            width,
            width - 1,
            iy,
        ),
        ix > 0 ==> neighbour_indices(width, height, ix, iy)[0] == cell_index(width, ix - 1, iy),
        ix == width - 1 ==> neighbour_indices(width, height, ix, iy)[1] == cell_index(
            width,
            0,
            iy,
        ),
        ix < width - 1 ==> neighbour_indices(width, height, ix, iy)[1] == cell_index(
            width,
            ix + 1,
            iy,
        ),
        iy == height - 1 ==> neighbour_indices(width, height, ix, iy)[2] == cell_index(
            width,
            ix,
            0,
        ),
        iy < height - 1 ==> neighbour_indices(width, height, ix, iy)[2] == cell_index(
            width,
            ix,
            iy + 1,
        ),
        iy == 0 ==> neighbour_indices(width, height, ix, iy)[3] == cell_index(
            width,
            ix,
            height - 1,
        ),
        iy > 0 ==> neighbour_indices(width, height, ix, iy)[3] == cell_index(width, ix, iy - 1),
        wrap_previous(ix, width) == (ix + width - 1) % width,
        wrap_next(ix, width) == (ix + 1) % width,
        wrap_previous(iy, height) == (iy + height - 1) % height,
        wrap_next(iy, height) == (iy + 1) % height,
        forall|k: int|
            0 <= k < 4 ==> 0 <= #[trigger] neighbour_indices(width, height, ix, iy)[k] < width
                * height,
{
    lemma_wrap_is_modular(ix, width);
    lemma_wrap_is_modular(iy, height);
    lemma_cell_index_bounds(width, height, wrap_previous(ix, width), iy);
    lemma_cell_index_bounds(width, height, wrap_next(ix, width), iy);
    lemma_cell_index_bounds(width, height, ix, wrap_next(iy, height));
    lemma_cell_index_bounds(width, height, ix, wrap_previous(iy, height));
}

/// Stepping to the coordinate before or after on a ring is adding `size - 1`
/// or 1 modulo `size`.
pub proof fn lemma_wrap_is_modular(x: int, size: int)
    requires
        0 <= x < size,
    ensures
        wrap_previous(x, size) == (x + size - 1) % size,
        wrap_next(x, size) == (x + 1) % size,
        0 <= wrap_previous(x, size) < size,
        0 <= wrap_next(x, size) < size,
{
    if x == 0 {
        lemma_small_mod((size - 1) as nat, size as nat);
    } else {
        lemma_mod_add_multiples_vanish(x - 1, size);
        lemma_small_mod((x - 1) as nat, size as nat);
    }
    if x == size - 1 {
        vstd::arithmetic::div_mod::lemma_mod_self_0(size);
    } else {
        lemma_small_mod((x + 1) as nat, size as nat);
    }
}

/// A proposal is fair: of the 2^23 equally likely uniform samples, the lower
/// half stands for +1 and the upper half for -1.
pub proof fn law_proposal_is_fair(m: u32)
    requires
        m < HIDDEN_BIT,
    ensures
        proposal(unit_fraction_pattern(m)) == 1 <==> m < 0x40_0000,
        proposal(unit_fraction_pattern(m)) == -1 <==> m >= 0x40_0000,
{
    lemma_unit_fraction_below_half(m);
}

/// A cell draws exactly twice per step, whatever its spin, its neighbours
/// and the table are; a reset draws once.
pub proof fn law_draws_per_cell(
    v: i8,
    s: i8,
    rng: Philox4x32,
    key: [u32; 2],
    table: AcceptanceTable,
)
    ensures
        step_cell(v, s, rng, key, table).1 == rng.after_u32(key).after_u32(key),
        reset_cell(rng, key).1 == rng.after_u32(key),
        is_spin(v) ==> is_spin(step_cell(v, s, rng, key, table).0),
        is_spin(reset_cell(rng, key).0),
{
}

/// The lattice has a buffer place for each cell, and the cell is on it.
pub open spec fn on_lattice(ising: IsingCtx, ix: u32, iy: u32) -> bool {
    &&& ix < ising.width
    &&& iy < ising.height
    &&& ising.cells() <= usize::MAX
}

/// A cell's place is inside the buffer, and rows do not overlap.
pub proof fn lemma_cell_index_bounds(width: int, height: int, ix: int, iy: int)
    requires
        0 <= ix < width,
        0 <= iy < height,
    ensures
        0 <= width * iy <= cell_index(width, ix, iy) < width * height,
        cell_index(width, ix, iy) % width == ix,
        cell_index(width, ix, iy) / width == iy,
{
    assert(0 <= width * iy && width * iy + width <= width * height) by (nonlinear_arith)
        requires
            0 <= iy < height,
            0 < width,
    ;
    vstd::arithmetic::div_mod::lemma_fundamental_div_mod_converse(ix + width * iy, width, iy, ix);
}

/// The coordinate before `x` on a ring of `size` places, by modular
/// arithmetic.
pub fn ring_previous(x: u32, size: u32) -> (r: u32)
    requires
        x < size,
    ensures
        r == wrap_previous(x as int, size as int),
        r < size,
{
    let wide: u64 = (x as u64 + size as u64 - 1) % (size as u64);
    proof {
        if x == 0 {
            lemma_small_mod((size - 1) as nat, size as nat);
        } else {
            lemma_mod_add_multiples_vanish(x - 1, size as int);
            lemma_small_mod((x - 1) as nat, size as nat);
        }
    }
    wide as u32
}

/// The coordinate after `x` on a ring of `size` places, by modular
/// arithmetic.
pub fn ring_next(x: u32, size: u32) -> (r: u32)
    requires
        x < size,
    ensures
        r == wrap_next(x as int, size as int),
        r < size,
{
    let wide: u64 = (x as u64 + 1) % (size as u64);
    proof {
        if x == size - 1 {
            vstd::arithmetic::div_mod::lemma_mod_self_0(size as int);
        } else {
            lemma_small_mod((x + 1) as nat, size as nat);
        }
    }
    wide as u32
}

/// Place of a cell in the buffers.
pub fn index_of_cell(ising: &IsingCtx, ix: u32, iy: u32) -> (i: usize)
    requires
        on_lattice(*ising, ix, iy),
    ensures
        i == cell_index(ising.width as int, ix as int, iy as int),
        i < ising.cells(),
{
    proof {
        lemma_cell_index_bounds(ising.width as int, ising.height as int, ix as int, iy as int);
    }
    ix as usize + ising.width as usize * iy as usize
}

/// Places of the left, right, upper and lower neighbour of a cell.
pub fn neighbours(ising: &IsingCtx, ix: u32, iy: u32) -> (n: [usize; 4])
    requires
        on_lattice(*ising, ix, iy),
    ensures
        forall|k: int|
            0 <= k < 4 ==> #[trigger] n[k] == neighbour_indices(
                ising.width as int,
                ising.height as int,
                ix as int,
                iy as int,
            )[k],
        forall|k: int| 0 <= k < 4 ==> #[trigger] n[k] < ising.cells(),
{
    let left: usize = index_of_cell(ising, ring_previous(ix, ising.width), iy);
    let right: usize = index_of_cell(ising, ring_next(ix, ising.width), iy);
    let up: usize = index_of_cell(ising, ix, ring_next(iy, ising.height));
    let down: usize = index_of_cell(ising, ix, ring_previous(iy, ising.height));
    [left, right, up, down]
}

/// The key of the stream of the cell at place `i`.
pub fn key_of_cell(i: usize) -> (key: [u32; 2])
    ensures
        key == cell_key(i as int),
{
    let wide: u64 = i as u64;
    let low: u32 = (wide & 0xFFFF_FFFF) as u32;
    let high: u32 = (wide >> 32) as u32;
    proof {
        assert((wide & 0xFFFF_FFFF) as u32 == (wide % 0x1_0000_0000) as u32) by (bit_vector);
        assert((wide >> 32) as u32 == (wide / 0x1_0000_0000) as u32) by (bit_vector);
    }
    let key: [u32; 2] = [low, high];
    proof {
        assert(key@ =~= cell_key(i as int)@);
    }
    key
}

/// The binary32 pattern of a spin.
pub fn pattern_of_spin(v: i8) -> (bits: u32)
    ensures
        bits == spin_pattern(v),
{
    if v == 1 {
        ONE_BITS
    } else if v == -1 {
        MINUS_ONE_BITS
    } else {
        0
    }
}

/// The pattern of a spin encodes the spin exactly.
pub proof fn law_spin_pattern_is_exact(v: i8)
    requires
        is_spin(v),
    ensures
        scaled_value(spin_pattern(v)) == v * pow2(149),
        !is_nan(spin_pattern(v)),
{
    vstd::arithmetic::power2::lemma2_to64();
    vstd::arithmetic::power2::lemma_pow2_adds(23, 126);
    assert(biased_exponent(ONE_BITS) == 127 && fraction(ONE_BITS) == 0);
    assert(biased_exponent(MINUS_ONE_BITS) == 127 && fraction(MINUS_ONE_BITS) == 0);
}

/// The spin that a uniform sample of `[0, 1)` stands for.
pub fn spin_of_sample(sample: u32) -> (v: i8)
    ensures
        v == proposal(sample),
        is_spin(v),
{
    if less_than(sample, HALF_BITS) {
        1
    } else {
        -1
    }
}

/// Resets the cell `(ix, iy)`: draws once from the cell's stream and stores
/// the spin that the sample stands for. No other cell and no other stream is
/// touched.
pub fn ising_reset(
    ix: u32,
    iy: u32,
    ising: &IsingCtx,
    vals: &mut [i8],
    rngs: &mut [Philox4x32],
)
    requires
        on_lattice(*ising, ix, iy),
        old(vals)@.len() == ising.cells(),
        old(rngs)@.len() == ising.cells(),
    ensures
        ({
            let i = cell_index(ising.width as int, ix as int, iy as int);
            let cell = reset_cell(old(rngs)@[i], cell_key(i));
            &&& final(vals)@ == old(vals)@.update(i, cell.0)
            &&& final(rngs)@ == old(rngs)@.update(i, cell.1)
            &&& is_spin(cell.0)
        }),
{
    let i: usize = index_of_cell(ising, ix, iy);
    let key: [u32; 2] = key_of_cell(i);
    let sample: u32 = rngs[i].next_f32(key);
    vals[i] = spin_of_sample(sample);
}

/// Steps the cell `(ix, iy)`: reads the cell and its four neighbours in
/// `vals`, draws twice from the cell's stream, and writes the cell's new spin
/// to `new_vals`. No other place of `new_vals` and no other stream is touched.
pub fn ising_step(
    ix: u32,
    iy: u32,
    ising: &IsingCtx,
    table: &AcceptanceTable,
    vals: &[i8],
    new_vals: &mut [i8],
    rngs: &mut [Philox4x32],
)
    requires
        on_lattice(*ising, ix, iy),
        vals@.len() == ising.cells(),
        old(new_vals)@.len() == ising.cells(),
        old(rngs)@.len() == ising.cells(),
        all_spins(vals@),
    ensures
        ({
            let i = cell_index(ising.width as int, ix as int, iy as int);
            let s = neighbour_sum(
                vals@,
                ising.width as int,
                ising.height as int,
                ix as int,
                iy as int,
            );
            let cell = step_cell(vals@[i], s as i8, old(rngs)@[i], cell_key(i), *table);
            &&& final(new_vals)@ == old(new_vals)@.update(i, cell.0)
            &&& final(rngs)@ == old(rngs)@.update(i, cell.1)
            &&& is_spin(cell.0)
        }),
{
    let i: usize = index_of_cell(ising, ix, iy);
    let n: [usize; 4] = neighbours(ising, ix, iy);
    let key: [u32; 2] = key_of_cell(i);
    proof {
        assert(n[0] < ising.cells() && n[1] < ising.cells() && n[2] < ising.cells() && n[3]
            < ising.cells());
        assert(is_spin(vals@[n[0] as int]) && is_spin(vals@[n[1] as int]) && is_spin(
            vals@[n[2] as int],
        ) && is_spin(vals@[n[3] as int]));
    }

    let v: i8 = vals[i];
    let vc: i8 = spin_of_sample(rngs[i].next_f32(key));
    let s: i8 = -(vals[n[0]] + vals[n[1]] + vals[n[2]] + vals[n[3]]);

    let r: u32 = rngs[i].next_f32(key);
    if table.accepts(v, vc, s, r) {
        new_vals[i] = vc;
    } else {
        new_vals[i] = v;
    }
}

} // verus!
