use fire::control::{
    clear_screen_sequence, default_dimensions, is_cancel_key, run_physics,
    session_enter_sequence, session_restore_sequence,
};
use fire::field::{simulate_step, HeatField};
use fire::rng::Rng;
use fire::sched::SchedulerState;

#[test]
fn interrupt_and_escape_bytes_request_cancellation() {
    assert!(is_cancel_key(&vec![3]));
    assert!(is_cancel_key(&vec![27]));
    assert!(is_cancel_key(&vec![27, b'q']));
    assert!(is_cancel_key(&vec![3, 0, 0]));
}

#[test]
fn csi_sequences_and_plain_keys_do_not_cancel() {
    assert!(!is_cancel_key(&vec![]));
    assert!(!is_cancel_key(&vec![b'a']));
    // an arrow key arrives as ESC [ A
    assert!(!is_cancel_key(&vec![27, b'[', b'A']));
}

#[test]
fn session_escape_sequences() {
    assert_eq!(session_enter_sequence(), b"\x1b[?1049h\x1b[?25l\x1b[2J\x1b[H".to_vec());
    assert_eq!(session_restore_sequence(), b"\x1b[0m\x1b[?25h\x1b[?1049l".to_vec());
    assert_eq!(clear_screen_sequence(), b"\x1b[2J".to_vec());
}

#[test]
fn default_size_fallback() {
    assert_eq!(default_dimensions(), (80, 24));
}

#[test]
fn run_physics_executes_exactly_the_scheduled_steps() {
    // 100 ms at 30 FPS: three physics steps, identical to stepping thrice
    let mut f = HeatField::new(10, 4).unwrap();
    let mut r = Rng::with_seed(9);
    let mut s = SchedulerState::new(30);
    let steps = run_physics(&mut f, &mut r, &mut s, 100_000_000);
    assert_eq!(steps, 3);

    let mut f2 = HeatField::new(10, 4).unwrap();
    let mut r2 = Rng::with_seed(9);
    for _ in 0..3 {
        simulate_step(&mut f2, &mut r2);
    }
    assert_eq!(f.cells, f2.cells);
    assert_eq!(r.0, r2.0);
}

#[test]
fn run_physics_below_one_step_leaves_field_untouched() {
    let mut f = HeatField::new(10, 4).unwrap();
    let mut r = Rng::with_seed(9);
    let mut s = SchedulerState::new(30);
    assert_eq!(run_physics(&mut f, &mut r, &mut s, 1_000_000), 0);
    assert!(f.cells.iter().all(|&c| c == 0));
    assert_eq!(s.accumulated_ns, 1_000_000);
}

#[test]
fn cancellation_at_iteration_boundary_restores_terminal() {
    // a termination request arriving mid-sleep is observed at the next
    // iteration boundary; the captured output must end with the restore
    // bytes (reset, show cursor, primary screen)
    let mut captured: Vec<u8> = Vec::new();
    captured.extend_from_slice(&session_enter_sequence());
    let mut f = HeatField::new(10, 4).unwrap();
    let mut r = Rng::with_seed(5);
    let mut s = SchedulerState::new(30);
    let codes = fire::theme::precompile_color_codes(&fire::theme::Theme::standard());
    let mut frame = Vec::new();
    let mut cancel_flag = false;
    let mut iterations = 0;
    loop {
        iterations += 1;
        run_physics(&mut f, &mut r, &mut s, 33_333_333);
        fire::render::render(&f, &codes, true, &mut frame);
        captured.extend_from_slice(&frame);
        if cancel_flag {
            break;
        }
        // the "signal" lands during the pacing sleep of iteration one
        cancel_flag = true;
    }
    captured.extend_from_slice(&session_restore_sequence());
    assert_eq!(iterations, 2);
    let tail = b"\x1b[0m\x1b[?25h\x1b[?1049l";
    assert!(captured.len() >= tail.len());
    assert_eq!(&captured[captured.len() - tail.len()..], tail);
}
