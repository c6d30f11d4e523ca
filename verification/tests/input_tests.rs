use friendly_filer::input::{
    apply_key, frame_input, normalise, InputAction, InputState, KeyCode, KeyEvent, KeyEventKind,
    KEY_HOLD_TIMEOUT_NANOS,
};

/// Shift not held.
const NONE: bool = false;
/// Shift held.
const SHIFT: bool = true;

/// An arbitrary point on the monotonic clock, in nanoseconds.
const T0: u64 = 5_000_000_000;

const MILLI: u64 = 1_000_000;

fn press(code: KeyCode, shift: bool) -> KeyEvent {
    KeyEvent { code, shift, kind: KeyEventKind::Press }
}

fn repeat(code: KeyCode) -> KeyEvent {
    KeyEvent { code, shift: false, kind: KeyEventKind::Repeat }
}

fn release(code: KeyCode) -> KeyEvent {
    KeyEvent { code, shift: false, kind: KeyEventKind::Release }
}

#[test]
fn apply_key_w_marks_forward_held() {
    let mut st = InputState::new();
    let t0 = T0;
    let action = apply_key(&mut st, press(KeyCode::Char('w'), NONE), t0);
    assert!(action.is_none());
    assert!(st.is_held(KeyCode::Char('w'), t0));
    assert!(!st.shift_held());
}

#[test]
fn apply_key_shift_w_marks_run() {
    let mut st = InputState::new();
    let t0 = T0;
    apply_key(&mut st, press(KeyCode::Char('w'), SHIFT), t0);
    assert!(st.shift_held());
}

#[test]
fn apply_key_uppercase_w_also_marks_run() {
    // Some terminals deliver 'W' as Char('W') with no SHIFT bit.
    let mut st = InputState::new();
    let t0 = T0;
    apply_key(&mut st, press(KeyCode::Char('W'), NONE), t0);
    assert!(st.is_held(KeyCode::Char('w'), t0));
    assert!(st.shift_held());
}

#[test]
fn apply_key_f1_returns_toggle() {
    let mut st = InputState::new();
    let t0 = T0;
    let action = apply_key(&mut st, press(KeyCode::F(1), NONE), t0);
    assert_eq!(action, Some(InputAction::ToggleFpsOff));
}

#[test]
fn apply_key_esc_returns_quit() {
    let mut st = InputState::new();
    let t0 = T0;
    let action = apply_key(&mut st, press(KeyCode::Esc, NONE), t0);
    assert_eq!(action, Some(InputAction::Quit));
}

#[test]
fn apply_key_q_returns_quit() {
    let mut st = InputState::new();
    let t0 = T0;
    let action = apply_key(&mut st, press(KeyCode::Char('q'), NONE), t0);
    assert_eq!(action, Some(InputAction::Quit));
}

#[test]
fn apply_key_space_returns_jump() {
    let mut st = InputState::new();
    let t0 = T0;
    let action = apply_key(&mut st, press(KeyCode::Char(' '), NONE), t0);
    assert_eq!(action, Some(InputAction::Jump));
}

#[test]
fn apply_key_unmapped_does_nothing() {
    let mut st = InputState::new();
    let t0 = T0;
    let action = apply_key(&mut st, press(KeyCode::Char('z'), NONE), t0);
    assert!(action.is_none());
    assert!(st.tracks_no_keys());
}

#[test]
fn release_drops_key_from_held_table() {
    let mut st = InputState::new();
    let t0 = T0;
    apply_key(&mut st, press(KeyCode::Char('w'), NONE), t0);
    assert!(st.is_held(KeyCode::Char('w'), t0));
    apply_key(&mut st, release(KeyCode::Char('w')), t0);
    assert!(!st.is_held(KeyCode::Char('w'), t0));
}

#[test]
fn held_expires_after_timeout() {
    let mut st = InputState::new();
    let t0 = T0;
    apply_key(&mut st, press(KeyCode::Char('w'), NONE), t0);
    let later = t0 + KEY_HOLD_TIMEOUT_NANOS + MILLI;
    assert!(!st.is_held(KeyCode::Char('w'), later));
}

#[test]
fn held_lasts_exactly_the_timeout() {
    let mut st = InputState::new();
    apply_key(&mut st, press(KeyCode::Up, NONE), T0);
    assert!(st.is_held(KeyCode::Up, T0 + KEY_HOLD_TIMEOUT_NANOS));
    assert!(!st.is_held(KeyCode::Up, T0 + KEY_HOLD_TIMEOUT_NANOS + 1));
    // A time before the press counts as no time passed.
    assert!(st.is_held(KeyCode::Up, T0 - 10 * MILLI));
}

#[test]
fn repeat_refreshes_the_held_time() {
    let mut st = InputState::new();
    apply_key(&mut st, press(KeyCode::Left, NONE), T0);
    apply_key(&mut st, repeat(KeyCode::Left), T0 + 100 * MILLI);
    assert!(st.is_held(KeyCode::Left, T0 + 200 * MILLI));
}

#[test]
fn one_shot_keys_do_not_enter_the_table() {
    let mut st = InputState::new();
    assert_eq!(apply_key(&mut st, press(KeyCode::Char('Q'), NONE), T0), Some(InputAction::Quit));
    assert_eq!(apply_key(&mut st, press(KeyCode::F(2), NONE), T0), None);
    assert_eq!(apply_key(&mut st, press(KeyCode::Other, NONE), T0), None);
    assert!(st.tracks_no_keys());
    // Releases never produce an action.
    assert_eq!(apply_key(&mut st, release(KeyCode::Esc), T0), None);
}

#[test]
fn releasing_last_wasd_key_clears_run() {
    let mut st = InputState::new();
    apply_key(&mut st, press(KeyCode::Char('w'), SHIFT), T0);
    apply_key(&mut st, press(KeyCode::Char('d'), SHIFT), T0);
    apply_key(&mut st, release(KeyCode::Char('w')), T0);
    assert!(st.shift_held());
    apply_key(&mut st, release(KeyCode::Char('D')), T0);
    assert!(!st.shift_held());
    assert!(st.tracks_no_keys());
}

#[test]
fn arrow_press_keeps_the_shift_flag() {
    let mut st = InputState::new();
    apply_key(&mut st, press(KeyCode::Char('a'), SHIFT), T0);
    apply_key(&mut st, press(KeyCode::Right, NONE), T0);
    assert!(st.shift_held());
}

#[test]
fn normalise_lowers_letters_only() {
    assert_eq!(normalise(KeyCode::Char('W')), KeyCode::Char('w'));
    assert_eq!(normalise(KeyCode::Char('w')), KeyCode::Char('w'));
    assert_eq!(normalise(KeyCode::Char(' ')), KeyCode::Char(' '));
    assert_eq!(normalise(KeyCode::Up), KeyCode::Up);
}

#[test]
fn frame_input_reports_held_axes_and_actions() {
    let mut st = InputState::new();
    apply_key(&mut st, press(KeyCode::Char('w'), SHIFT), T0);
    apply_key(&mut st, press(KeyCode::Char('a'), SHIFT), T0);
    apply_key(&mut st, press(KeyCode::Right, NONE), T0);
    apply_key(&mut st, press(KeyCode::Down, NONE), T0);
    let actions = vec![InputAction::Jump, InputAction::Quit];
    let f = frame_input(&mut st, T0 + 50 * MILLI, &actions);
    assert_eq!(f.forward, 1);
    assert_eq!(f.strafe, -1);
    assert_eq!(f.yaw_delta, 1);
    assert_eq!(f.pitch_delta, -1);
    assert!(f.run);
    assert!(f.jump);
    assert!(f.quit);
    assert!(!f.toggle_fps_off);
}

#[test]
fn opposite_keys_cancel() {
    let mut st = InputState::new();
    apply_key(&mut st, press(KeyCode::Char('w'), NONE), T0);
    apply_key(&mut st, press(KeyCode::Char('s'), NONE), T0);
    apply_key(&mut st, press(KeyCode::Left, NONE), T0);
    apply_key(&mut st, press(KeyCode::Right, NONE), T0);
    let f = frame_input(&mut st, T0, &Vec::new());
    assert_eq!(f.forward, 0);
    assert_eq!(f.yaw_delta, 0);
    assert!(!f.run && !f.jump && !f.quit && !f.toggle_fps_off);
}

#[test]
fn frame_input_prunes_expired_keys_and_clears_run() {
    let mut st = InputState::new();
    apply_key(&mut st, press(KeyCode::Char('w'), SHIFT), T0);
    apply_key(&mut st, press(KeyCode::Up, NONE), T0 + 100 * MILLI);
    let f = frame_input(&mut st, T0 + 150 * MILLI, &Vec::new());
    // W expired, Up is still held.
    assert_eq!(f.forward, 0);
    assert_eq!(f.pitch_delta, 1);
    assert!(!f.run);
    assert!(!st.shift_held());
    assert!(!st.tracks_no_keys());
    let f = frame_input(&mut st, T0 + 400 * MILLI, &Vec::new());
    assert_eq!(f.pitch_delta, 0);
    assert!(st.tracks_no_keys());
}

#[test]
fn f1_during_frame_toggles() {
    let mut st = InputState::new();
    let f = frame_input(&mut st, T0, &vec![InputAction::ToggleFpsOff]);
    assert!(f.toggle_fps_off);
    assert!(!f.jump);
}

#[test]
fn second_snapshot_at_same_time_agrees() {
    let mut st = InputState::new();
    // S was last seen long ago; D, pressed last with Shift, is held.
    apply_key(&mut st, press(KeyCode::Char('s'), NONE), T0 - 200 * MILLI);
    apply_key(&mut st, press(KeyCode::Char('d'), SHIFT), T0);
    let now = T0 + 10 * MILLI;
    let first = frame_input(&mut st, now, &vec![InputAction::Jump]);
    let second = frame_input(&mut st, now, &vec![InputAction::Jump]);
    assert_eq!(first, second);
    assert_eq!(first.strafe, 1);
    assert_eq!(first.forward, 0);
    assert!(first.run);
}

#[test]
fn upper_and_lower_case_presses_track_the_same_key() {
    let mut upper = InputState::new();
    let mut lower = InputState::new();
    apply_key(&mut upper, press(KeyCode::Char('A'), NONE), T0);
    apply_key(&mut lower, press(KeyCode::Char('a'), NONE), T0);
    assert!(upper.is_held(KeyCode::Char('a'), T0));
    assert!(lower.is_held(KeyCode::Char('a'), T0));
    assert!(!upper.is_held(KeyCode::Char('A'), T0));
    // Releasing the other case drops it too.
    apply_key(&mut upper, release(KeyCode::Char('a')), T0);
    apply_key(&mut lower, release(KeyCode::Char('A')), T0);
    assert!(upper.tracks_no_keys() && lower.tracks_no_keys());
}
