use phase::gpu::pacing::{
    PacingState, MAX_STEPS, MIN_STEPS, TARGET_FRAME_NANOS, UPPER_FRAME_NANOS, WINDOW,
};

fn run(pacing: &mut PacingState, frames: usize, nanos: u64) {
    for _ in 0..frames {
        pacing.record(nanos);
    }
}

#[test]
fn a_new_controller_runs_one_step_per_frame() {
    let pacing = PacingState::new();
    assert_eq!(pacing.steps_per_frame(), 1);
    assert_eq!(MIN_STEPS, 1);
    assert_eq!(MAX_STEPS, 10);
    assert_eq!(WINDOW, 10);
    assert_eq!(TARGET_FRAME_NANOS, 16_700_000);
    assert_eq!(UPPER_FRAME_NANOS, 17_535_000);
    assert_eq!(UPPER_FRAME_NANOS as f64, TARGET_FRAME_NANOS as f64 * 1.05);
}

#[test]
fn fast_frames_raise_the_steps_window_by_window_up_to_ten() {
    let mut pacing = PacingState::new();
    for window in 1..=15usize {
        for frame in 0..WINDOW {
            assert_eq!(pacing.steps_per_frame(), window.min(MAX_STEPS));
            pacing.record(10_000_000);
            if frame + 1 < WINDOW {
                assert_eq!(pacing.steps_per_frame(), window.min(MAX_STEPS));
            }
        }
        assert_eq!(pacing.steps_per_frame(), (window + 1).min(MAX_STEPS));
    }
    assert_eq!(pacing.steps_per_frame(), 10);
}

#[test]
fn slow_frames_lower_the_steps_window_by_window_down_to_one() {
    let mut pacing = PacingState::new();
    run(&mut pacing, 90, 1_000_000);
    assert_eq!(pacing.steps_per_frame(), 10);
    for window in 1..=12usize {
        run(&mut pacing, WINDOW, 20_000_000);
        assert_eq!(pacing.steps_per_frame(), 10usize.saturating_sub(window).max(MIN_STEPS));
    }
    assert_eq!(pacing.steps_per_frame(), 1);
}

#[test]
fn frames_inside_the_band_keep_the_steps() {
    let mut pacing = PacingState::new();
    run(&mut pacing, 40, 1_000_000);
    assert_eq!(pacing.steps_per_frame(), 5);
    for nanos in [TARGET_FRAME_NANOS, 17_000_000, 17_500_000, UPPER_FRAME_NANOS] {
        run(&mut pacing, 3 * WINDOW, nanos);
        assert_eq!(pacing.steps_per_frame(), 5);
    }
}

#[test]
fn the_bounds_of_the_band_are_exact() {
    let mut pacing = PacingState::new();
    run(&mut pacing, 40, 1_000_000);
    assert_eq!(pacing.steps_per_frame(), 5);
    run(&mut pacing, WINDOW, TARGET_FRAME_NANOS - 1);
    assert_eq!(pacing.steps_per_frame(), 6);
    run(&mut pacing, WINDOW, UPPER_FRAME_NANOS + 1);
    assert_eq!(pacing.steps_per_frame(), 5);
    // Nine frames on the target and one a nanosecond faster: the mean is below.
    run(&mut pacing, WINDOW - 1, TARGET_FRAME_NANOS);
    pacing.record(TARGET_FRAME_NANOS - 1);
    assert_eq!(pacing.steps_per_frame(), 6);
    // Nine frames on the upper bound and one a nanosecond slower: above.
    run(&mut pacing, WINDOW - 1, UPPER_FRAME_NANOS);
    pacing.record(UPPER_FRAME_NANOS + 1);
    assert_eq!(pacing.steps_per_frame(), 5);
}

#[test]
fn the_mean_of_the_window_decides_not_the_single_frame() {
    let mut pacing = PacingState::new();
    // One very slow frame among nine fast ones: the mean is 25.9 ms.
    pacing.record(250_000_000);
    run(&mut pacing, WINDOW - 1, 1_000_000);
    assert_eq!(pacing.steps_per_frame(), 1);
    run(&mut pacing, 2 * WINDOW, 1_000_000);
    assert_eq!(pacing.steps_per_frame(), 3);
    pacing.record(170_000_000);
    run(&mut pacing, WINDOW - 1, 1_000_000);
    assert_eq!(pacing.steps_per_frame(), 2);
}

#[test]
fn the_longest_durations_do_not_overflow_the_sum() {
    let mut pacing = PacingState::new();
    run(&mut pacing, 20, 1_000_000);
    assert_eq!(pacing.steps_per_frame(), 3);
    run(&mut pacing, WINDOW, u64::MAX);
    assert_eq!(pacing.steps_per_frame(), 2);
}
