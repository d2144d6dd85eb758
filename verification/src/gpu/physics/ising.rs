//! The engine of the lattice model.
//!
//! The engine owns two value buffers of one place per cell and one random
//! stream per cell. At any time one buffer is current: it holds the lattice as
//! of the last completed step and is the only one that is read. A step reads
//! the current buffer, writes every cell of the other one, and only then makes
//! that one current. No cell's new value depends on another cell's new value,
//! so the cells of a step can be updated in any order.

use std::sync::Arc;
use vstd::prelude::*;

use crate::binary32::less;
use crate::error::WGPUError;
use crate::gpu::pacing::{PacingModel, PacingState};
use crate::gpu::physics::{
    memory_image,
    values_bytes,
    EngineBuffer,
    FragmentEntry,
    FragmentInfo,
};
use crate::gpu_random::philox::{seed_words, Philox4x32};
use crate::gpu_random::GPURng;
use crate::kernel::{
    all_spins,
    cell_index,
    cell_key,
    is_case,
    is_spin,
    ising_reset,
    ising_step,
    lemma_cell_index_bounds,
    reset_cell,
    spin_pattern,
    stepped_cell,
    AcceptanceTable,
    IsingCtx,
    TEMPERATURE_EPSILON,
};
use crate::simulation::atomic_f32::AtomicF32;

verus! {

/// Bytes of one record of the stream buffer, the largest element that the
/// engine allocates per cell.
pub const STREAM_BYTES: usize = 44;

/// Name of the fragment routine that colours the lattice.
pub const FRAGMENT_ENTRY_POINT: &'static str = "ising_fragment";

/// The most bytes that one buffer can have: half the address space.
pub open spec fn buffer_limit() -> int {
    (usize::MAX / 2) as int
}

/// A lattice of this size can be allocated: its stream buffer, which is the
/// largest, is within the limit.
pub open spec fn lattice_fits(width: u32, height: u32) -> bool {
    width * height * STREAM_BYTES <= buffer_limit()
}

/// The number of cells as reported by an error: the number itself where it
/// can be represented, and the greatest representable number otherwise.
pub open spec fn reported_cells(width: u32, height: u32) -> usize {
    if width * height <= usize::MAX {
        (width * height) as usize
    } else {
        usize::MAX
    }
}

/// What an engine holds.
///
/// `slots` are the two value buffers and `current` says which of them is
/// current.
pub struct EngineState {
    pub width: u32,
    pub height: u32,
    pub slots: Seq<Seq<i8>>,
    pub current: int,
    pub rngs: Seq<Philox4x32>,
    pub pacing: PacingModel,
}

impl EngineState {
    /// Number of cells.
    pub open spec fn cells(self) -> int {
        self.width * self.height
    }

    /// The current buffer: the lattice as of the last completed step.
    pub open spec fn values(self) -> Seq<i8> {
        self.slots[self.current]
    }

    /// Both buffers and the stream buffer have one place per cell, the
    /// current buffer holds spins only, and each stream carries the key of
    /// its cell.
    pub open spec fn wf(self) -> bool {
        &&& self.cells() <= usize::MAX
        &&& self.slots.len() == 2
        &&& self.slots[0].len() == self.cells()
        &&& self.slots[1].len() == self.cells()
        &&& (self.current == 0 || self.current == 1)
        &&& self.rngs.len() == self.cells()
        &&& all_spins(self.values())
        &&& forall|i: int| 0 <= i < self.cells() ==> (#[trigger] self.rngs[i]).key == cell_key(i)
        &&& self.pacing.wf()
    }

    /// The values that one step writes, each computed from the current buffer
    /// and the cell's own stream.
    pub open spec fn stepped_values(self, table: AcceptanceTable) -> Seq<i8> {
        Seq::new(
            self.cells() as nat,
            |i: int|
                stepped_cell(
                    self.values(),
                    self.rngs,
                    self.width as int,
                    self.height as int,
                    table,
                    i,
                ).0,
        )
    }

    /// The streams after one step: each has made the two draws of its cell.
    pub open spec fn stepped_rngs(self, table: AcceptanceTable) -> Seq<Philox4x32> {
        Seq::new(
            self.cells() as nat,
            |i: int|
                stepped_cell(
                    self.values(),
                    self.rngs,
                    self.width as int,
                    self.height as int,
                    table,
                    i,
                ).1,
        )
    }

    /// The engine after one step: the new values stand in the buffer that was
    /// not current, which is current now; the buffer that was read is as it
    /// was.
    pub open spec fn after_step(self, table: AcceptanceTable) -> EngineState {
        EngineState {
            slots: self.slots.update(1 - self.current, self.stepped_values(table)),
            current: 1 - self.current,
            rngs: self.stepped_rngs(table),
            ..self
        }
    }

    /// The engine after a batch of steps with one table.
    pub open spec fn after_steps(self, table: AcceptanceTable, repetitions: nat) -> EngineState
        decreases repetitions,
    {
        if repetitions == 0 {
            self
        } else {
            self.after_step(table).after_steps(table, (repetitions - 1) as nat)
        }
    }

    /// The engine after a reset: every cell of the current buffer is drawn
    /// anew from the cell's stream.
    pub open spec fn after_reset(self) -> EngineState {
        EngineState {
            slots: self.slots.update(
                self.current,
                Seq::new(self.cells() as nat, |i: int| reset_cell(self.rngs[i], cell_key(i)).0),
            ),
            rngs: Seq::new(self.cells() as nat, |i: int| reset_cell(self.rngs[i], cell_key(i)).1),
            ..self
        }
    }

    /// The engine before its first reset: both buffers filled with zeros,
    /// and for each cell a fresh stream of the run's seed and the cell's key.
    pub open spec fn allocated(seed: u128, width: u32, height: u32) -> EngineState {
        EngineState {
            width,
            height,
            slots: seq![
                Seq::new((width * height) as nat, |i: int| 0i8),
                Seq::new((width * height) as nat, |i: int| 0i8),
            ],
            current: 0,
            rngs: Seq::new(
                (width * height) as nat,
                |i: int| Philox4x32::fresh(seed_words(seed), cell_key(i)),
            ),
            pacing: PacingModel::initial(),
        }
    }

    /// The engine as `new` makes it: allocated, then reset once.
    pub open spec fn initial(seed: u128, width: u32, height: u32) -> EngineState {
        Self::allocated(seed, width, height).after_reset()
    }

    /// The engine after a frame: a batch of as many steps as the pacing asks
    /// for, and then the frame's duration recorded.
    pub open spec fn after_frame(self, table: AcceptanceTable, frame_nanos: u64) -> EngineState {
        EngineState {
            pacing: self.pacing.record(frame_nanos),
            ..self.after_steps(table, self.pacing.steps as nat)
        }
    }
}

/// A step keeps an engine well formed.
pub proof fn lemma_step_keeps_wf(state: EngineState, table: AcceptanceTable)
    requires
        state.wf(),
    ensures
        state.after_step(table).wf(),
{
    let after = state.after_step(table);
    assert forall|i: int| 0 <= i < after.values().len() implies is_spin(
        #[trigger] after.values()[i],
    ) by {
        lemma_stepped_cell_is_spin(state, table, i);
    }
    assert forall|i: int| 0 <= i < after.cells() implies (#[trigger] after.rngs[i]).key
        == cell_key(i) by {
        assert(state.rngs[i].key == cell_key(i));
    }
}

/// The value that a step writes to a cell is a spin.
pub proof fn lemma_stepped_cell_is_spin(state: EngineState, table: AcceptanceTable, i: int)
    requires
        state.wf(),
        0 <= i < state.cells(),
    ensures
        is_spin(
            stepped_cell(
                state.values(),
                state.rngs,
                state.width as int,
                state.height as int,
                table,
                i,
            ).0,
        ),
{
    assert(is_spin(state.values()[i]));
}

/// A batch of steps keeps an engine well formed.
pub proof fn law_steps_keep_engine_valid(state: EngineState, table: AcceptanceTable, repetitions: nat)
    requires
        state.wf(),
    ensures
        state.after_steps(table, repetitions).wf(),
    decreases repetitions,
{
    if repetitions > 0 {
        lemma_step_keeps_wf(state, table);
        law_steps_keep_engine_valid(state.after_step(table), table, (repetitions - 1) as nat);
    }
}

/// A step is double buffered. The buffer that was current is not written,
/// the other one becomes current, and what it holds then was computed, cell by
/// cell, from the buffer that was current before the step.
pub proof fn law_step_is_double_buffered(state: EngineState, table: AcceptanceTable)
    requires
        state.wf(),
    ensures
        state.after_step(table).current == 1 - state.current,
        state.after_step(table).slots[state.current] == state.slots[state.current],
        state.after_step(table).values() == state.stepped_values(table),
        state.after_step(table).values().len() == state.values().len(),
        all_spins(state.after_step(table).values()),
{
    lemma_step_keeps_wf(state, table);
}

/// A step reads nothing but the current buffer and the streams: two engines
/// that agree on these write the same values, whatever their other buffers
/// hold.
pub proof fn law_step_reads_current_only(a: EngineState, b: EngineState, table: AcceptanceTable)
    requires
        a.wf(),
        b.wf(),
        a.width == b.width,
        a.height == b.height,
        a.values() == b.values(),
        a.rngs == b.rngs,
    ensures
        a.after_step(table).values() == b.after_step(table).values(),
        a.after_step(table).rngs == b.after_step(table).rngs,
{
    assert(a.stepped_values(table) =~= b.stepped_values(table));
    assert(a.stepped_rngs(table) =~= b.stepped_rngs(table));
}

/// The cells of a step do not depend on each other: the new value and the
/// new stream of a cell are those of the cell's own update on the lattice as
/// it was before the step, in whatever order the cells are taken.
pub proof fn law_cells_are_independent(state: EngineState, table: AcceptanceTable, i: int)
    requires
        state.wf(),
        0 <= i < state.cells(),
    ensures
        state.after_step(table).values()[i] == stepped_cell(
            state.values(),
            state.rngs,
            state.width as int,
            state.height as int,
            table,
            i,
        ).0,
        state.after_step(table).rngs[i] == state.rngs[i].after_u32(cell_key(i)).after_u32(
            cell_key(i),
        ),
{
}

/// After a batch of steps the buffers have changed roles once per step.
pub proof fn law_steps_alternate_buffers(
    state: EngineState,
    table: AcceptanceTable,
    repetitions: nat,
)
    requires
        state.wf(),
    ensures
        state.after_steps(table, repetitions).current == (state.current + repetitions) % 2,
    decreases repetitions,
{
    if repetitions > 0 {
        lemma_step_keeps_wf(state, table);
        law_steps_alternate_buffers(state.after_step(table), table, (repetitions - 1) as nat);
    }
}

/// A batch of steps touches neither the size of the lattice nor the pacing.
pub proof fn lemma_steps_keep_frame(state: EngineState, table: AcceptanceTable, repetitions: nat)
    ensures
        state.after_steps(table, repetitions).width == state.width,
        state.after_steps(table, repetitions).height == state.height,
        state.after_steps(table, repetitions).pacing == state.pacing,
    decreases repetitions,
{
    if repetitions > 0 {
        lemma_steps_keep_frame(state.after_step(table), table, (repetitions - 1) as nat);
    }
}

/// Runs the reset kernel on every cell of a lattice.
fn dispatch_reset(ising: &IsingCtx, vals: &mut [i8], rngs: &mut [Philox4x32])
    requires
        ising.cells() <= usize::MAX,
        old(vals)@.len() == ising.cells(),
        old(rngs)@.len() == ising.cells(),
    ensures
        final(vals)@ == Seq::new(
            ising.cells() as nat,
            |i: int| reset_cell(old(rngs)@[i], cell_key(i)).0,
        ),
        final(rngs)@ == Seq::new(
            ising.cells() as nat,
            |i: int| reset_cell(old(rngs)@[i], cell_key(i)).1,
        ),
        all_spins(final(vals)@),
{
    let ghost width = ising.width as int;
    let ghost height = ising.height as int;
    let mut iy: u32 = 0;
    while iy < ising.height
        invariant
            iy <= ising.height,
            width == ising.width,
            height == ising.height,
            ising.cells() <= usize::MAX,
            vals@.len() == ising.cells(),
            rngs@.len() == ising.cells(),
            forall|j: int|
                0 <= j < width * iy ==> #[trigger] vals@[j] == reset_cell(
                    old(rngs)@[j],
                    cell_key(j),
                ).0 && is_spin(vals@[j]),
            forall|j: int|
                0 <= j < width * iy ==> #[trigger] rngs@[j] == reset_cell(
                    old(rngs)@[j],
                    cell_key(j),
                ).1,
            forall|j: int| width * iy <= j < ising.cells() ==> #[trigger] rngs@[j] == old(rngs)@[j],
        decreases ising.height - iy,
    {
        let mut ix: u32 = 0;
        while ix < ising.width
            invariant
                ix <= ising.width,
                iy < ising.height,
                width == ising.width,
                height == ising.height,
                ising.cells() <= usize::MAX,
                vals@.len() == ising.cells(),
                rngs@.len() == ising.cells(),
                forall|j: int|
                    0 <= j < cell_index(width, ix as int, iy as int) ==> #[trigger] vals@[j]
                        == reset_cell(old(rngs)@[j], cell_key(j)).0 && is_spin(vals@[j]),
                forall|j: int|
                    0 <= j < cell_index(width, ix as int, iy as int) ==> #[trigger] rngs@[j]
                        == reset_cell(old(rngs)@[j], cell_key(j)).1,
                forall|j: int|
                    cell_index(width, ix as int, iy as int) <= j < ising.cells()
                        ==> #[trigger] rngs@[j] == old(rngs)@[j],
            decreases ising.width - ix,
        {
            proof {
                lemma_cell_index_bounds(width, height, ix as int, iy as int);
            }
            ising_reset(ix, iy, ising, vals, rngs);
            ix = ix + 1;
        }
        proof {
            lemma_row_end(width, iy as int);
        }
        iy = iy + 1;
    }
    proof {
        assert(vals@ =~= Seq::new(
            ising.cells() as nat,
            |i: int| reset_cell(old(rngs)@[i], cell_key(i)).0,
        ));
        assert(rngs@ =~= Seq::new(
            ising.cells() as nat,
            |i: int| reset_cell(old(rngs)@[i], cell_key(i)).1,
        ));
    }
}

/// The place after the last cell of a row is the first place of the next row.
proof fn lemma_row_end(width: int, iy: int)
    ensures
        cell_index(width, width, iy) == width * (iy + 1),
        cell_index(width, 0, iy) == width * iy,
{
    assert(width + width * iy == width * (iy + 1)) by (nonlinear_arith);
}

/// Runs the step kernel on every cell of a lattice: all reads in `vals`, all
/// writes in `new_vals`.
fn dispatch_step(
    ising: &IsingCtx,
    table: &AcceptanceTable,
    vals: &[i8],
    new_vals: &mut [i8],
    rngs: &mut [Philox4x32],
)
    requires
        ising.cells() <= usize::MAX,
        vals@.len() == ising.cells(),
        old(new_vals)@.len() == ising.cells(),
        old(rngs)@.len() == ising.cells(),
        all_spins(vals@),
    ensures
        final(new_vals)@ == Seq::new(
            ising.cells() as nat,
            |i: int|
                stepped_cell(
                    vals@,
                    old(rngs)@,
                    ising.width as int,
                    ising.height as int,
                    *table,
                    i,
                ).0,
        ),
        final(rngs)@ == Seq::new(
            ising.cells() as nat,
            |i: int|
                stepped_cell(
                    vals@,
                    old(rngs)@,
                    ising.width as int,
                    ising.height as int,
                    *table,
                    i,
                ).1,
        ),
{
    let ghost width = ising.width as int;
    let ghost height = ising.height as int;
    let mut iy: u32 = 0;
    while iy < ising.height
        invariant
            iy <= ising.height,
            width == ising.width,
            height == ising.height,
            ising.cells() <= usize::MAX,
            vals@.len() == ising.cells(),
            new_vals@.len() == ising.cells(),
            rngs@.len() == ising.cells(),
            all_spins(vals@),
            forall|j: int|
                0 <= j < width * iy ==> #[trigger] new_vals@[j] == stepped_cell(
                    vals@,
                    old(rngs)@,
                    width,
                    height,
                    *table,
                    j,
                ).0,
            forall|j: int|
                0 <= j < width * iy ==> #[trigger] rngs@[j] == stepped_cell(
                    vals@,
                    old(rngs)@,
                    width,
                    height,
                    *table,
                    j,
                ).1,
            forall|j: int| width * iy <= j < ising.cells() ==> #[trigger] rngs@[j] == old(rngs)@[j],
        decreases ising.height - iy,
    {
        let mut ix: u32 = 0;
        while ix < ising.width
            invariant
                ix <= ising.width,
                iy < ising.height,
                width == ising.width,
                height == ising.height,
                ising.cells() <= usize::MAX,
                vals@.len() == ising.cells(),
                new_vals@.len() == ising.cells(),
                rngs@.len() == ising.cells(),
                all_spins(vals@),
                forall|j: int|
                    0 <= j < cell_index(width, ix as int, iy as int) ==> #[trigger] new_vals@[j]
                        == stepped_cell(vals@, old(rngs)@, width, height, *table, j).0,
                forall|j: int|
                    0 <= j < cell_index(width, ix as int, iy as int) ==> #[trigger] rngs@[j]
                        == stepped_cell(vals@, old(rngs)@, width, height, *table, j).1,
                forall|j: int|
                    cell_index(width, ix as int, iy as int) <= j < ising.cells()
                        ==> #[trigger] rngs@[j] == old(rngs)@[j],
            decreases ising.width - ix,
        {
            proof {
                lemma_cell_index_bounds(width, height, ix as int, iy as int);
            }
            ising_step(ix, iy, ising, table, vals, new_vals, rngs);
            ix = ix + 1;
        }
        proof {
            lemma_row_end(width, iy as int);
        }
        iy = iy + 1;
    }
    proof {
        assert(new_vals@ =~= Seq::new(
            ising.cells() as nat,
            |i: int| stepped_cell(vals@, old(rngs)@, width, height, *table, i).0,
        ));
        assert(rngs@ =~= Seq::new(
            ising.cells() as nat,
            |i: int| stepped_cell(vals@, old(rngs)@, width, height, *table, i).1,
        ));
    }
}

/// The engine of the lattice model.
pub struct IsingPipeline {
    vals_buffer: Vec<i8>,
    new_vals_buffer: Vec<i8>,
    swapped: bool,
    rngs: Vec<Philox4x32>,
    width: u32,
    height: u32,
    temperature: Arc<AtomicF32>,
    external_field: Arc<AtomicF32>,
    pacing: PacingState,
}

impl View for IsingPipeline {
    type V = EngineState;

    closed spec fn view(&self) -> EngineState {
        EngineState {
            width: self.width,
            height: self.height,
            slots: seq![self.vals_buffer@, self.new_vals_buffer@],
            current: if self.swapped {
                1
            } else {
                0
            },
            rngs: self.rngs@,
            pacing: self.pacing@,
        }
    }
}

impl IsingPipeline {
    /// The cells that the engine reads the temperature and the field from.
    pub closed spec fn parameter_cells(&self) -> (Arc<AtomicF32>, Arc<AtomicF32>) {
        (self.temperature, self.external_field)
    }

    /// Allocates an engine for a lattice of `width` by `height` cells and
    /// resets it once. The cell at place `i` gets the stream of `seed` and
    /// the key `i`. A lattice whose stream buffer would be larger than one
    /// allocation can be is refused before anything is allocated.
    pub fn new(
        seed: u128,
        width: u32,
        height: u32,
        temperature: Arc<AtomicF32>,
        external_field: Arc<AtomicF32>,
    ) -> (made: Result<Self, WGPUError>)
        ensures
            lattice_fits(width, height) ==> made.is_ok() && made.unwrap()@ == EngineState::initial(
                seed,
                width,
                height,
            ) && made.unwrap()@.wf() && made.unwrap().parameter_cells() == (
                temperature,
                external_field,
            ),
            !lattice_fits(width, height) ==> made == Err::<Self, WGPUError>(
                WGPUError::BufferSizeOverflow(reported_cells(width, height), STREAM_BYTES),
            ),
    {
        proof {
            assert(width * height <= 0xFFFF_FFFF * 0xFFFF_FFFF) by (nonlinear_arith)
                requires
                    0 <= width <= 0xFFFF_FFFF,
                    0 <= height <= 0xFFFF_FFFF,
            ;
        }
        let cells: u128 = width as u128 * height as u128;
        let limit: usize = usize::MAX / 2;
        let per_cell: u128 = STREAM_BYTES as u128;
        assert(per_cell == 44);
        if cells * per_cell > limit as u128 {
            let reported: usize = if cells <= usize::MAX as u128 {
                cells as usize
            } else {
                usize::MAX
            };
            return Err(WGPUError::BufferSizeOverflow(reported, STREAM_BYTES));
        }
        let count: usize = cells as usize;
        let ising = IsingCtx {
            width,
            height,
            temperature: temperature.load(),
            external_field: external_field.load(),
        };

        let mut vals_buffer: Vec<i8> = Vec::new();
        let mut new_vals_buffer: Vec<i8> = Vec::new();
        let mut rngs: Vec<Philox4x32> = Vec::new();
        let mut i: usize = 0;
        while i < count
            invariant
                i <= count,
                count == width * height,
                vals_buffer@ == Seq::new(i as nat, |j: int| 0i8),
                new_vals_buffer@ == Seq::new(i as nat, |j: int| 0i8),
                rngs@ == Seq::new(
                    i as nat,
                    |j: int| Philox4x32::fresh(seed_words(seed), cell_key(j)),
                ),
            decreases count - i,
        {
            vals_buffer.push(0);
            new_vals_buffer.push(0);
            rngs.push(Philox4x32::new(seed, i as u64));
            i = i + 1;
            proof {
                assert(vals_buffer@ =~= Seq::new(i as nat, |j: int| 0i8));
                assert(new_vals_buffer@ =~= Seq::new(i as nat, |j: int| 0i8));
                assert(rngs@ =~= Seq::new(
                    i as nat,
                    |j: int| Philox4x32::fresh(seed_words(seed), cell_key(j)),
                ));
            }
        }
        let ghost allocated = EngineState::allocated(seed, width, height);
        proof {
            assert(allocated.slots[0] =~= vals_buffer@);
            assert(allocated.rngs =~= rngs@);
        }
        dispatch_reset(&ising, vals_buffer.as_mut_slice(), rngs.as_mut_slice());
        let made = IsingPipeline {
            vals_buffer,
            new_vals_buffer,
            swapped: false,
            rngs,
            width,
            height,
            temperature,
            external_field,
            pacing: PacingState::new(),
        };
        proof {
            let initial = EngineState::initial(seed, width, height);
            assert(made@.slots =~= initial.slots);
            assert(made@.rngs =~= initial.rngs);
            assert(made@ == initial);
        }
        Ok(made)
    }

    /// Width of the lattice, in cells.
    pub fn width(&self) -> (width: u32)
        ensures
            width == self@.width,
    {
        self.width
    }

    /// Height of the lattice, in cells.
    pub fn height(&self) -> (height: u32)
        ensures
            height == self@.height,
    {
        self.height
    }

    /// The number of lattice steps that the next frame runs.
    pub fn steps_per_frame(&self) -> (steps: usize)
        ensures
            steps == self@.pacing.steps,
    {
        self.pacing.steps_per_frame()
    }

    /// The lattice as of the last completed step, row by row. This is never
    /// the buffer that a step is writing.
    pub fn current_buffer(&self) -> (values: &[i8])
        ensures
            values@ == self@.values(),
    {
        if self.swapped {
            self.new_vals_buffer.as_slice()
        } else {
            self.vals_buffer.as_slice()
        }
    }

    /// The contents of the value buffer that the display reads: the lattice
    /// as of the last completed step, each spin as the binary32 pattern of
    /// its number.
    pub fn values_bytes(&self) -> (bytes: Vec<u8>)
        ensures
            memory_image(bytes@, self@.values().map_values(|v: i8| spin_pattern(v))),
            bytes@.len() == 4 * self@.values().len(),
    {
        values_bytes(self.current_buffer())
    }

    /// The streams of the cells, in the order of the cells.
    pub fn streams(&self) -> (rngs: &[Philox4x32])
        ensures
            rngs@ == self@.rngs,
    {
        self.rngs.as_slice()
    }

    /// The size of the lattice together with the temperature and the field
    /// as they are at the moment of the call. Each of the two is read once;
    /// they need not stem from the same moment.
    pub fn snapshot(&self) -> (ising: IsingCtx)
        ensures
            ising.width == self@.width,
            ising.height == self@.height,
    {
        IsingCtx {
            width: self.width,
            height: self.height,
            temperature: self.temperature.load(),
            external_field: self.external_field.load(),
        }
    }

    /// Draws every cell of the current buffer anew.
    pub fn reset(&mut self)
        requires
            old(self)@.wf(),
        ensures
            final(self)@ == old(self)@.after_reset(),
            final(self)@.wf(),
            final(self).parameter_cells() == old(self).parameter_cells(),
    {
        let ising: IsingCtx = self.snapshot();
        if self.swapped {
            dispatch_reset(&ising, self.new_vals_buffer.as_mut_slice(), self.rngs.as_mut_slice());
        } else {
            dispatch_reset(&ising, self.vals_buffer.as_mut_slice(), self.rngs.as_mut_slice());
        }
        proof {
            let after = old(self)@.after_reset();
            assert(self@.slots =~= after.slots);
            assert(self@.rngs =~= after.rngs);
            assert forall|i: int| 0 <= i < after.cells() implies (#[trigger] after.rngs[i]).key
                == cell_key(i) by {
                assert(old(self)@.rngs[i].key == cell_key(i));
            }
        }
    }

    /// Runs one step: every cell is updated from the current buffer into the
    /// other one, and then the two change roles.
    fn step_once(&mut self, ising: &IsingCtx, table: &AcceptanceTable)
        requires
            old(self)@.wf(),
            ising.width == old(self)@.width,
            ising.height == old(self)@.height,
        ensures
            final(self)@ == old(self)@.after_step(*table),
            final(self)@.wf(),
            final(self).parameter_cells() == old(self).parameter_cells(),
    {
        if self.swapped {
            dispatch_step(
                ising,
                table,
                self.new_vals_buffer.as_slice(),
                self.vals_buffer.as_mut_slice(),
                self.rngs.as_mut_slice(),
            );
        } else {
            dispatch_step(
                ising,
                table,
                self.vals_buffer.as_slice(),
                self.new_vals_buffer.as_mut_slice(),
                self.rngs.as_mut_slice(),
            );
        }
        self.swapped = !self.swapped;
        proof {
            let after = old(self)@.after_step(*table);
            assert(self@.slots =~= after.slots);
            assert(self@.rngs =~= after.rngs);
            lemma_step_keeps_wf(old(self)@, *table);
        }
    }

    /// Runs `repetitions` steps, all with the same table: the parameters that
    /// the table was computed from hold for the whole batch.
    pub fn step(&mut self, repetitions: usize, table: &AcceptanceTable)
        requires
            old(self)@.wf(),
        ensures
            final(self)@ == old(self)@.after_steps(*table, repetitions as nat),
            final(self)@.wf(),
            final(self).parameter_cells() == old(self).parameter_cells(),
    {
        let ising: IsingCtx = self.snapshot();
        let mut done: usize = 0;
        while done < repetitions
            invariant
                done <= repetitions,
                self@.wf(),
                self.parameter_cells() == old(self).parameter_cells(),
                ising.width == self@.width,
                ising.height == self@.height,
                self@.after_steps(*table, (repetitions - done) as nat) == old(self)@.after_steps(
                    *table,
                    repetitions as nat,
                ),
            decreases repetitions - done,
        {
            self.step_once(&ising, table);
            done = done + 1;
        }
    }

    /// Advances the engine by one frame. The parameters are read once, a
    /// temperature that is not above the least one is replaced by the least
    /// one, and `probability` is asked for the acceptance probability of each
    /// case under them; then as many steps are run as the pacing asks for, all
    /// with these probabilities; then `frame_nanos`, the time that the frame
    /// before this one took, is recorded, which may change the number of
    /// steps of the frames to come. The snapshot and the table that were used
    /// are returned.
    pub fn update<F: Fn(IsingCtx, i8, i8, i8) -> u32>(
        &mut self,
        frame_nanos: u64,
        probability: F,
    ) -> (used: (IsingCtx, AcceptanceTable))
        requires
            old(self)@.wf(),
            forall|ising: IsingCtx, v: i8, vc: i8, s: i8|
                is_case(v, vc, s) ==> call_requires(probability, (ising, v, vc, s)),
        ensures
            used.0.width == old(self)@.width,
            used.0.height == old(self)@.height,
            used.0.temperature == TEMPERATURE_EPSILON || less(
                TEMPERATURE_EPSILON,
                used.0.temperature,
            ),
            forall|v: i8, vc: i8, s: i8|
                is_case(v, vc, s) ==> call_ensures(
                    probability,
                    (used.0, v, vc, s),
                    #[trigger] used.1.probability(v, vc, s),
                ),
            final(self)@ == old(self)@.after_frame(used.1, frame_nanos),
            final(self)@.wf(),
            final(self).parameter_cells() == old(self).parameter_cells(),
    {
        let ising: IsingCtx = self.snapshot().clamped();
        let table: AcceptanceTable = AcceptanceTable::build(ising, probability);
        let repetitions: usize = self.pacing.steps_per_frame();
        self.step(repetitions, &table);
        proof {
            lemma_steps_keep_frame(old(self)@, table, repetitions as nat);
        }
        self.pacing.record(frame_nanos);
        (ising, table)
    }

    /// What the display needs: the fragment routine of the model, and the two
    /// buffers it reads, the context as a uniform and the values as storage.
    pub fn wgpu_fragment_info(&self) -> (info: FragmentInfo)
        ensures
            info.fragment_entry_point@ == FRAGMENT_ENTRY_POINT@,
            info.entries@ == seq![
                FragmentEntry { binding: 0, buffer: EngineBuffer::Context, uniform: true },
                FragmentEntry { binding: 1, buffer: EngineBuffer::Values, uniform: false },
            ],
    {
        let mut entries: Vec<FragmentEntry> = Vec::new();
        entries.push(FragmentEntry { binding: 0, buffer: EngineBuffer::Context, uniform: true });
        entries.push(FragmentEntry { binding: 1, buffer: EngineBuffer::Values, uniform: false });
        proof {
            assert(entries@ =~= seq![
                FragmentEntry { binding: 0, buffer: EngineBuffer::Context, uniform: true },
                FragmentEntry { binding: 1, buffer: EngineBuffer::Values, uniform: false },
            ]);
        }
        FragmentInfo { fragment_entry_point: FRAGMENT_ENTRY_POINT, entries }
    }
}

} // verus!
