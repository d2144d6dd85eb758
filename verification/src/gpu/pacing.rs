//! Frame pacing: how many lattice steps to run per rendered frame so that a
//! frame takes about a sixtieth of a second.
//!
//! The controller keeps the durations of the last ten frames in a ring. Each
//! time the ring has been filled once more it compares their mean with the
//! target: below the target one more step per frame is run, above the target
//! by more than a twentieth one fewer, and in between nothing changes. The
//! gap keeps the count from oscillating between two neighbours. Durations are
//! whole nanoseconds, and the mean is compared by comparing the sum of the
//! ten with ten times the bound, which is exact.

use vstd::prelude::*;

verus! {

/// Number of frame durations in the ring.
pub const WINDOW: usize = 10;

/// The duration of a frame that is aimed at: 16.7 ms.
pub const TARGET_FRAME_NANOS: u64 = 16_700_000;

/// The duration above which a frame counts as too slow: the target and a
/// twentieth of it.
pub const UPPER_FRAME_NANOS: u64 = 17_535_000;

/// Fewest steps per frame.
pub const MIN_STEPS: usize = 1;

/// Most steps per frame.
pub const MAX_STEPS: usize = 10;

/// Sum of a sequence of durations.
pub open spec fn total(durations: Seq<u64>) -> int
    decreases durations.len(),
{
    if durations.len() == 0 {
        0
    } else {
        total(durations.drop_last()) + durations.last()
    }
}

/// The step count that follows `steps` once a window with the given sum of
/// durations is complete.
pub open spec fn adjusted(steps: int, window_total: int) -> int {
    if window_total < WINDOW * TARGET_FRAME_NANOS {
        if steps + 1 <= MAX_STEPS {
            steps + 1
        } else {
            MAX_STEPS as int
        }
    } else if window_total > WINDOW * UPPER_FRAME_NANOS {
        if steps - 1 >= MIN_STEPS {
            steps - 1
        } else {
            MIN_STEPS as int
        }
    } else {
        steps
    }
}

/// What a pacing controller holds: the ring, the place of the next duration
/// in it, and the current step count.
pub struct PacingModel {
    pub history: Seq<u64>,
    pub cursor: int,
    pub steps: int,
}

impl PacingModel {
    /// The ring has its ten places, the cursor is on one of them and the step
    /// count is within its bounds.
    pub open spec fn wf(self) -> bool {
        &&& self.history.len() == WINDOW
        &&& 0 <= self.cursor < WINDOW
        &&& MIN_STEPS <= self.steps <= MAX_STEPS
    }

    /// The controller before the first frame: one step per frame.
    pub open spec fn initial() -> PacingModel {
        PacingModel { history: Seq::new(WINDOW as nat, |i: int| 0u64), cursor: 0, steps: 1 }
    }

    /// The controller after a frame of the given duration.
    pub open spec fn record(self, frame_nanos: u64) -> PacingModel {
        let history = self.history.update(self.cursor, frame_nanos);
        if self.cursor + 1 == WINDOW {
            PacingModel { history, cursor: 0, steps: adjusted(self.steps, total(history)) }
        } else {
            PacingModel { history, cursor: self.cursor + 1, steps: self.steps }
        }
    }

    /// The controller after a run of frames, the first of `frames` first.
    pub open spec fn record_all(self, frames: Seq<u64>) -> PacingModel
        decreases frames.len(),
    {
        if frames.len() == 0 {
            self
        } else {
            self.record_all(frames.drop_last()).record(frames.last())
        }
    }
}

/// A sum of durations lies between the count times the least and the count
/// times the greatest of them.
pub proof fn lemma_total_bounds(durations: Seq<u64>, low: int, high: int)
    requires
        forall|i: int| 0 <= i < durations.len() ==> low <= #[trigger] durations[i] <= high,
    ensures
        durations.len() * low <= total(durations) <= durations.len() * high,
    decreases durations.len(),
{
    if durations.len() > 0 {
        let front = durations.drop_last();
        lemma_total_bounds(front, low, high);
        assert(low <= durations[durations.len() - 1] <= high);
        assert(durations.len() * low == front.len() * low + low) by (nonlinear_arith)
            requires
                durations.len() == front.len() + 1,
        ;
        assert(durations.len() * high == front.len() * high + high) by (nonlinear_arith)
            requires
                durations.len() == front.len() + 1,
        ;
    }
}

/// Recording one run of frames after another is recording their
/// concatenation.
pub proof fn lemma_record_all_concat(state: PacingModel, first: Seq<u64>, second: Seq<u64>)
    ensures
        state.record_all(first + second) == state.record_all(first).record_all(second),
    decreases second.len(),
{
    if second.len() == 0 {
        assert(first + second =~= first);
    } else {
        assert((first + second).drop_last() =~= first + second.drop_last());
        lemma_record_all_concat(state, first, second.drop_last());
    }
}

/// Within a window, recording only fills the ring from its start.
proof fn lemma_partial_window(state: PacingModel, frames: Seq<u64>)
    requires
        state.wf(),
        state.cursor == 0,
        frames.len() < WINDOW,
    ensures
        state.record_all(frames) == (PacingModel {
            history: Seq::new(
                WINDOW as nat,
                |i: int|
                    if i < frames.len() {
                        frames[i]
                    } else {
                        state.history[i]
                    },
            ),
            cursor: frames.len() as int,
            steps: state.steps,
        }),
    decreases frames.len(),
{
    let filled = Seq::new(
        WINDOW as nat,
        |i: int|
            if i < frames.len() {
                frames[i]
            } else {
                state.history[i]
            },
    );
    if frames.len() == 0 {
        assert(filled =~= state.history);
    } else {
        let front = frames.drop_last();
        lemma_partial_window(state, front);
        let before = state.record_all(front);
        assert(before.history.update(before.cursor, frames.last()) =~= filled);
    }
}

/// A whole window recorded from the start of the ring replaces the ring by
/// the window and adjusts the step count once, by the window's sum.
pub proof fn lemma_window(state: PacingModel, frames: Seq<u64>)
    requires
        state.wf(),
        state.cursor == 0,
        frames.len() == WINDOW,
    ensures
        state.record_all(frames) == (PacingModel {
            history: frames,
            cursor: 0,
            steps: adjusted(state.steps, total(frames)),
        }),
        state.record_all(frames).wf(),
{
    let front = frames.drop_last();
    lemma_partial_window(state, front);
    let before = state.record_all(front);
    assert(before.history.update(before.cursor, frames.last()) =~= frames);
}

/// While every frame is faster than the target, each completed window raises
/// the step count by one until it stands at its maximum: after `windows`
/// windows it is the least of `steps + windows` and ten.
pub proof fn law_fast_frames_raise_steps(state: PacingModel, frames: Seq<u64>, windows: nat)
    requires
        state.wf(),
        state.cursor == 0,
        frames.len() == windows * WINDOW,
        forall|i: int| 0 <= i < frames.len() ==> #[trigger] frames[i] < TARGET_FRAME_NANOS,
    ensures
        state.record_all(frames).wf(),
        state.record_all(frames).cursor == 0,
        state.record_all(frames).steps == if state.steps + windows <= MAX_STEPS {
            state.steps + windows
        } else {
            MAX_STEPS as int
        },
        state.record_all(frames).steps >= state.steps,
    decreases windows,
{
    if windows > 0 {
        let split = frames.len() - WINDOW;
        let earlier = frames.take(split);
        let last = frames.skip(split);
        assert(frames =~= earlier + last);
        lemma_record_all_concat(state, earlier, last);
        law_fast_frames_raise_steps(state, earlier, (windows - 1) as nat);
        let before = state.record_all(earlier);
        lemma_window(before, last);
        lemma_total_bounds(last, 0, TARGET_FRAME_NANOS - 1);
    }
}

/// While every frame is slower than the upper bound, each completed window
/// lowers the step count by one until it stands at its minimum: after
/// `windows` windows it is the greatest of `steps - windows` and one.
pub proof fn law_slow_frames_lower_steps(state: PacingModel, frames: Seq<u64>, windows: nat)
    requires
        state.wf(),
        state.cursor == 0,
        frames.len() == windows * WINDOW,
        forall|i: int| 0 <= i < frames.len() ==> #[trigger] frames[i] > UPPER_FRAME_NANOS,
    ensures
        state.record_all(frames).wf(),
        state.record_all(frames).cursor == 0,
        state.record_all(frames).steps == if state.steps - windows >= MIN_STEPS {
            state.steps - windows
        } else {
            MIN_STEPS as int
        },
        state.record_all(frames).steps <= state.steps,
    decreases windows,
{
    if windows > 0 {
        let split = frames.len() - WINDOW;
        let earlier = frames.take(split);
        let last = frames.skip(split);
        assert(frames =~= earlier + last);
        lemma_record_all_concat(state, earlier, last);
        law_slow_frames_lower_steps(state, earlier, (windows - 1) as nat);
        let before = state.record_all(earlier);
        lemma_window(before, last);
        lemma_total_bounds(last, UPPER_FRAME_NANOS + 1, 0xFFFF_FFFF_FFFF_FFFF);
    }
}

/// While every frame lies between the target and the upper bound, both
/// included, the step count stays what it is.
pub proof fn law_frames_in_band_keep_steps(state: PacingModel, frames: Seq<u64>, windows: nat)
    requires
        state.wf(),
        state.cursor == 0,
        frames.len() == windows * WINDOW,
        forall|i: int|
            0 <= i < frames.len() ==> TARGET_FRAME_NANOS <= #[trigger] frames[i]
                <= UPPER_FRAME_NANOS,
    ensures
        state.record_all(frames).wf(),
        state.record_all(frames).cursor == 0,
        state.record_all(frames).steps == state.steps,
    decreases windows,
{
    if windows > 0 {
        let split = frames.len() - WINDOW;
        let earlier = frames.take(split);
        let last = frames.skip(split);
        assert(frames =~= earlier + last);
        lemma_record_all_concat(state, earlier, last);
        law_frames_in_band_keep_steps(state, earlier, (windows - 1) as nat);
        let before = state.record_all(earlier);
        lemma_window(before, last);
        lemma_total_bounds(last, TARGET_FRAME_NANOS as int, UPPER_FRAME_NANOS as int);
    }
}

/// Frames that are not faster than the target never raise the step count.
pub proof fn law_frames_at_target_never_raise_steps(
    state: PacingModel,
    frames: Seq<u64>,
    windows: nat,
)
    requires
        state.wf(),
        state.cursor == 0,
        frames.len() == windows * WINDOW,
        forall|i: int| 0 <= i < frames.len() ==> #[trigger] frames[i] >= TARGET_FRAME_NANOS,
    ensures
        state.record_all(frames).wf(),
        state.record_all(frames).cursor == 0,
        state.record_all(frames).steps <= state.steps,
    decreases windows,
{
    if windows > 0 {
        let split = frames.len() - WINDOW;
        let earlier = frames.take(split);
        let last = frames.skip(split);
        assert(frames =~= earlier + last);
        lemma_record_all_concat(state, earlier, last);
        law_frames_at_target_never_raise_steps(state, earlier, (windows - 1) as nat);
        let before = state.record_all(earlier);
        lemma_window(before, last);
        lemma_total_bounds(last, TARGET_FRAME_NANOS as int, 0xFFFF_FFFF_FFFF_FFFF);
    }
}

/// Frames that are not slower than the upper bound never lower the step
/// count.
pub proof fn law_frames_at_bound_never_lower_steps(
    state: PacingModel,
    frames: Seq<u64>,
    windows: nat,
)
    requires
        state.wf(),
        state.cursor == 0,
        frames.len() == windows * WINDOW,
        forall|i: int| 0 <= i < frames.len() ==> #[trigger] frames[i] <= UPPER_FRAME_NANOS,
    ensures
        state.record_all(frames).wf(),
        state.record_all(frames).cursor == 0,
        state.record_all(frames).steps >= state.steps,
    decreases windows,
{
    if windows > 0 {
        let split = frames.len() - WINDOW;
        let earlier = frames.take(split);
        let last = frames.skip(split);
        assert(frames =~= earlier + last);
        lemma_record_all_concat(state, earlier, last);
        law_frames_at_bound_never_lower_steps(state, earlier, (windows - 1) as nat);
        let before = state.record_all(earlier);
        lemma_window(before, last);
        lemma_total_bounds(last, 0, UPPER_FRAME_NANOS as int);
    }
}

/// Whatever the frames, the step count stays within its bounds, and a frame
/// that does not complete a window leaves it alone.
pub proof fn law_record_keeps_bounds(state: PacingModel, frame_nanos: u64)
    requires
        state.wf(),
    ensures
        state.record(frame_nanos).wf(),
        state.cursor + 1 < WINDOW ==> state.record(frame_nanos).steps == state.steps,
        state.record(frame_nanos).steps - state.steps <= 1,
        state.steps - state.record(frame_nanos).steps <= 1,
{
}

/// The pacing controller of an engine.
pub struct PacingState {
    time_history: [u64; 10],
    current_time: usize,
    step_per_frames: usize,
}

impl View for PacingState {
    type V = PacingModel;

    closed spec fn view(&self) -> PacingModel {
        PacingModel {
            history: self.time_history@,
            cursor: self.current_time as int,
            steps: self.step_per_frames as int,
        }
    }
}

impl PacingState {
    #[verifier::type_invariant]
    spec fn inv(self) -> bool {
        &&& self.current_time < WINDOW
        &&& MIN_STEPS <= self.step_per_frames <= MAX_STEPS
    }

    /// A controller that has seen no frame: one step per frame.
    pub fn new() -> (pacing: Self)
        ensures
            pacing@ == PacingModel::initial(),
            pacing@.wf(),
    {
        let time_history: [u64; 10] = [0; 10];
        let pacing = PacingState { time_history, current_time: 0, step_per_frames: 1 };
        proof {
            assert(pacing@.history =~= PacingModel::initial().history);
        }
        pacing
    }

    /// The number of lattice steps to run in the next frame.
    pub fn steps_per_frame(&self) -> (steps: usize)
        ensures
            steps == self@.steps,
            MIN_STEPS <= steps <= MAX_STEPS,
    {
        proof {
            use_type_invariant(self);
        }
        self.step_per_frames
    }

    /// Records the duration of the frame that was just rendered. The step
    /// count changes only when this completes a window of ten frames, so a
    /// new count never applies to the frame it was measured in.
    pub fn record(&mut self, frame_nanos: u64)
        ensures
            final(self)@ == old(self)@.record(frame_nanos),
            final(self)@.wf(),
    {
        proof {
            use_type_invariant(&*self);
        }
        self.time_history[self.current_time] = frame_nanos;
        if self.current_time + 1 < WINDOW {
            self.current_time = self.current_time + 1;
        } else {
            self.current_time = 0;
            let window_total: u128 = self.window_total();
            if window_total < 167_000_000 {
                if self.step_per_frames < MAX_STEPS {
                    self.step_per_frames = self.step_per_frames + 1;
                }
            } else if window_total > 175_350_000 {
                if self.step_per_frames > MIN_STEPS {
                    self.step_per_frames = self.step_per_frames - 1;
                }
            }
        }
    }

    /// Sum of the durations in the ring.
    fn window_total(&self) -> (sum: u128)
        ensures
            sum == total(self.time_history@),
    {
        let mut sum: u128 = 0;
        let mut i: usize = 0;
        while i < WINDOW
            invariant
                i <= WINDOW,
                sum == total(self.time_history@.take(i as int)),
                sum <= i * 0xFFFF_FFFF_FFFF_FFFF,
            decreases WINDOW - i,
        {
            proof {
                assert(self.time_history@.take(i + 1).drop_last() =~= self.time_history@.take(
                    i as int,
                ));
            }
            sum = sum + self.time_history[i] as u128;
            i = i + 1;
        }
        proof {
            assert(self.time_history@.take(WINDOW as int) =~= self.time_history@);
        }
        sum
    }
}

} // verus!
