use dulums::budget::{FrameAction, TimeBudget, NANOS_PER_SECOND};

#[test]
fn paused_budget_ignores_frames() {
    let mut b = TimeBudget::new(1_000_000);
    assert!(!b.is_simulating());
    assert_eq!(b.frame(16_000_000), FrameAction::Idle);
    assert_eq!(b.budget_ns(), 0);
}

#[test]
fn frame_runs_whole_steps_and_keeps_remainder() {
    let mut b = TimeBudget::new(1_000_000);
    b.set_simulating(true);
    assert_eq!(b.frame(16_500_000), FrameAction::Run(16));
    assert_eq!(b.budget_ns(), 500_000);
    assert_eq!(b.frame(600_000), FrameAction::Run(1));
    assert_eq!(b.budget_ns(), 100_000);
    assert!(b.is_simulating());
}

#[test]
fn frame_shorter_than_step_runs_nothing() {
    let mut b = TimeBudget::new(10_000_000);
    b.set_simulating(true);
    assert_eq!(b.frame(4_000_000), FrameAction::Run(0));
    assert_eq!(b.frame(4_000_000), FrameAction::Run(0));
    assert_eq!(b.frame(4_000_000), FrameAction::Run(1));
    assert_eq!(b.budget_ns(), 2_000_000);
}

#[test]
fn slow_frame_discards_budget_and_pauses() {
    let mut b = TimeBudget::new(1_000_000);
    b.set_simulating(true);
    assert_eq!(b.frame(1_500_000), FrameAction::Run(1));
    assert_eq!(b.frame(NANOS_PER_SECOND + 1), FrameAction::Halted);
    assert_eq!(b.budget_ns(), 0);
    assert!(!b.is_simulating());
    assert_eq!(b.frame(1_000_000), FrameAction::Idle);
    b.set_simulating(true);
    assert_eq!(b.frame(3_000_000), FrameAction::Run(3));
}

#[test]
fn budget_reaching_a_second_halts() {
    let mut b = TimeBudget::new(NANOS_PER_SECOND);
    b.set_simulating(true);
    assert_eq!(b.frame(600_000_000), FrameAction::Run(0));
    assert_eq!(b.frame(400_000_000), FrameAction::Halted);
    assert_eq!(b.budget_ns(), 0);
}

#[test]
fn changing_step_keeps_budget() {
    let mut b = TimeBudget::new(4_000_000);
    b.set_simulating(true);
    assert_eq!(b.frame(3_000_000), FrameAction::Run(0));
    b.set_step_ns(1_000_000);
    assert_eq!(b.step_ns(), 1_000_000);
    assert_eq!(b.budget_ns(), 3_000_000);
    assert_eq!(b.frame(0), FrameAction::Run(3));
    assert_eq!(b.budget_ns(), 0);
}

#[test]
fn step_size_tenfold_smaller_runs_tenfold_more_steps() {
    let mut coarse = TimeBudget::new(10_000_000);
    let mut fine = TimeBudget::new(1_000_000);
    coarse.set_simulating(true);
    fine.set_simulating(true);
    let mut coarse_steps = 0u64;
    let mut fine_steps = 0u64;
    for _ in 0..50 {
        if let FrameAction::Run(n) = coarse.frame(20_000_000) {
            coarse_steps += n;
        }
        if let FrameAction::Run(n) = fine.frame(20_000_000) {
            fine_steps += n;
        }
    }
    assert_eq!(coarse_steps * 10, fine_steps);
}
