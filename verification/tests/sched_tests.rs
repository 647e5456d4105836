use fire::sched::{clamp_fps, remaining_sleep_ns, SchedulerState};

#[test]
fn fps_clamps_to_supported_range() {
    assert_eq!(clamp_fps(200), 120);
    assert_eq!(clamp_fps(5), 15);
    assert_eq!(clamp_fps(30), 30);
    assert_eq!(clamp_fps(15), 15);
    assert_eq!(clamp_fps(120), 120);
    assert_eq!(clamp_fps(0), 15);
}

#[test]
fn new_scheduler_derives_step_from_fps() {
    let s = SchedulerState::new(30);
    assert_eq!(s.step_ns, 33_333_333);
    assert_eq!(s.accumulated_ns, 0);
    let s = SchedulerState::new(120);
    assert_eq!(s.step_ns, 8_333_333);
}

#[test]
fn advance_consumes_whole_steps_and_carries_remainder() {
    let mut s = SchedulerState::new(30);
    // 100 ms at a 33,333,333 ns step yields 3 steps, 1 ns left over
    assert_eq!(s.advance(100_000_000), 3);
    assert_eq!(s.accumulated_ns, 1);
}

#[test]
fn advance_clamps_stall_and_caps_steps() {
    let mut s = SchedulerState::new(30);
    // a 1 s stall clamps to 0.25 s; 250 ms / 33.3 ms = 7.5 capped at 5
    assert_eq!(s.advance(1_000_000_000), 5);
    assert_eq!(s.accumulated_ns, 250_000_000 - 5 * 33_333_333);
    // the surplus carries into the next iteration
    assert_eq!(s.advance(0), 2);
    assert_eq!(s.accumulated_ns, 83_333_335 - 2 * 33_333_333);
}

#[test]
fn advance_below_one_step_runs_nothing() {
    let mut s = SchedulerState::new(30);
    assert_eq!(s.advance(10_000_000), 0);
    assert_eq!(s.accumulated_ns, 10_000_000);
    assert_eq!(s.advance(23_333_333), 1);
    assert_eq!(s.accumulated_ns, 0);
}

#[test]
fn sleep_is_interval_remainder_or_zero() {
    assert_eq!(remaining_sleep_ns(10, 33), 23);
    assert_eq!(remaining_sleep_ns(33, 33), 0);
    assert_eq!(remaining_sleep_ns(50, 33), 0);
    assert_eq!(remaining_sleep_ns(0, 33), 33);
}
