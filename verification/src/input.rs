//! Keyboard input: key events folded into a held-key tracker, and the
//! per-frame snapshot of movement intents taken from it.
//!
//! The tracker remembers when each motion key was last seen (pressed or
//! auto-repeated). A key counts as held while its last-seen time is within
//! [`KEY_HOLD_TIMEOUT_NANOS`] of the current time, which makes motion
//! independent of the terminal's key-repeat rate. A release event drops the
//! key at once. One-shot actions (F1, Esc / q, Space) are reported on the
//! press itself and never enter the table.
//!
//! Times are nanoseconds on a monotonic clock chosen by the caller.

use vstd::prelude::*;
use crate::enemy::{ascii_lower, to_ascii_lower};

verus! {

/// How long, in nanoseconds, a key counts as held after its most recent
/// press / repeat event: 120 ms, longer than a typical terminal key-repeat
/// interval, short enough that releasing a key stops motion quickly.
pub const KEY_HOLD_TIMEOUT_NANOS: u64 = 120_000_000;

/// Cap on the number of terminal events drained in one frame poll.
pub const MAX_EVENTS_PER_FRAME: usize = 128;

/// The keys that the input layer tells apart. Every other key of the
/// terminal is `Other`.
#[derive(Debug, Clone, Copy, PartialEq, Eq, Structural)]
pub enum KeyCode {
    Char(char),
    F(u8),
    Up,
    Down,
    Left,
    Right,
    Esc,
    Other,
}

/// Whether an event is a press, an auto-repeat or a release.
#[derive(Debug, Clone, Copy, PartialEq, Eq, Structural)]
pub enum KeyEventKind {
    Press,
    Repeat,
    Release,
}

/// One key event: which key, whether Shift was down, and its kind.
#[derive(Debug, Clone, Copy, PartialEq, Eq, Structural)]
pub struct KeyEvent {
    pub code: KeyCode,
    pub shift: bool,
    pub kind: KeyEventKind,
}

/// One-shot action produced by a press that does not go through the
/// held-key table.
#[derive(Debug, Clone, Copy, PartialEq, Eq, Structural)]
pub enum InputAction {
    /// Space was pressed.
    Jump,
    /// F1 was pressed.
    ToggleFpsOff,
    /// Esc or q was pressed.
    Quit,
}

/// The actions of one frame. The four axes are each -1, 0 or +1.
#[derive(Debug, Clone, Copy, PartialEq, Eq, Structural)]
pub struct FrameInput {
    /// Net forward intent. W held = +1, S held = -1, both / neither = 0.
    pub forward: i8,
    /// Net strafe intent. D held = +1, A held = -1.
    pub strafe: i8,
    /// Shift held while a WASD key is held: run.
    pub run: bool,
    /// A jump was requested this frame (Space pressed).
    pub jump: bool,
    /// Net yaw delta. Right held = +1, Left held = -1.
    pub yaw_delta: i8,
    /// Net pitch delta. Up held = +1, Down held = -1.
    pub pitch_delta: i8,
    /// F1 was pressed: toggle FPS OFF.
    pub toggle_fps_off: bool,
    /// Esc or q was pressed: request a clean shutdown.
    pub quit: bool,
}

/// Letter keys are tracked in lower case, so `'W'` and `'w'` are one key.
pub open spec fn spec_normalise(code: KeyCode) -> KeyCode {
    match code {
        KeyCode::Char(c) => KeyCode::Char(ascii_lower(c)),
        other => other,
    }
}

/// The table slot of a motion key (W, A, S, D and the four arrows).
pub open spec fn motion_slot(code: KeyCode) -> Option<int> {
    match code {
        KeyCode::Char('w') => Some(0),
        KeyCode::Char('a') => Some(1),
        KeyCode::Char('s') => Some(2),
        KeyCode::Char('d') => Some(3),
        KeyCode::Up => Some(4),
        KeyCode::Down => Some(5),
        KeyCode::Left => Some(6),
        KeyCode::Right => Some(7),
        _ => None,
    }
}

/// Motion keys: the ones whose presses are tracked.
pub open spec fn is_motion(code: KeyCode) -> bool {
    motion_slot(code) is Some
}

/// The lower-case WASD keys.
pub open spec fn is_wasd(code: KeyCode) -> bool {
    code == KeyCode::Char('w') || code == KeyCode::Char('a') || code == KeyCode::Char('s')
        || code == KeyCode::Char('d')
}

/// The upper-case WASD keys, as some terminals deliver them with Shift.
pub open spec fn is_upper_wasd(code: KeyCode) -> bool {
    code == KeyCode::Char('W') || code == KeyCode::Char('A') || code == KeyCode::Char('S')
        || code == KeyCode::Char('D')
}

/// What the tracker holds: the last-seen time of each tracked key, and
/// whether the latest WASD press carried Shift.
pub struct InputStateView {
    pub last_seen: Map<KeyCode, u64>,
    pub shift_held: bool,
}

/// `now - then`, or zero if `then` is later.
pub open spec fn elapsed(now: u64, then: u64) -> int {
    if now >= then {
        now - then
    } else {
        0
    }
}

/// Whether `code` counts as held at `now` in tracker state `s`.
pub open spec fn held(s: InputStateView, code: KeyCode, now: u64) -> bool {
    s.last_seen.contains_key(code) && elapsed(now, s.last_seen[code]) <= KEY_HOLD_TIMEOUT_NANOS
}

/// Whether any WASD key is tracked in `s`.
pub open spec fn tracks_wasd(s: InputStateView) -> bool {
    exists|k: KeyCode| #[trigger] s.last_seen.contains_key(k) && is_wasd(k)
}

/// The state and action after folding event `ev`, seen at `now`, into `s`.
///
/// - A release removes the (normalised) key from the table; releasing the
///   last tracked WASD key also clears the Shift flag.
/// - A press or repeat of a motion key records `now` for it; for a WASD key
///   the Shift flag becomes "Shift bit set or letter upper-case".
/// - Space, F1, Esc and q produce their one-shot action and leave the state
///   as it was; any other key does nothing.
pub open spec fn spec_apply_key(s: InputStateView, ev: KeyEvent, now: u64) -> (
    InputStateView,
    Option<InputAction>,
) {
    let code = spec_normalise(ev.code);
    if ev.kind == KeyEventKind::Release {
        let table = s.last_seen.remove(code);
        let shift = if is_wasd(code) && !tracks_wasd(InputStateView { last_seen: table, shift_held: s.shift_held }) {
            false
        } else {
            s.shift_held
        };
        (InputStateView { last_seen: table, shift_held: shift }, None)
    } else if is_motion(code) {
        let shift = if is_wasd(code) {
            ev.shift || is_upper_wasd(ev.code)
        } else {
            s.shift_held
        };
        (InputStateView { last_seen: s.last_seen.insert(code, now), shift_held: shift }, None)
    } else if code == KeyCode::Char(' ') {
        (s, Some(InputAction::Jump))
    } else if code == KeyCode::F(1) {
        (s, Some(InputAction::ToggleFpsOff))
    } else if code == KeyCode::Esc || code == KeyCode::Char('q') {
        (s, Some(InputAction::Quit))
    } else {
        (s, None)
    }
}

/// +1 if `code` is held at `now`, else 0.
pub open spec fn axis(s: InputStateView, code: KeyCode, now: u64) -> int {
    if held(s, code, now) {
        1
    } else {
        0
    }
}

/// The table after dropping every entry that is no longer held at `now`.
pub open spec fn pruned(s: InputStateView, now: u64) -> Map<KeyCode, u64> {
    s.last_seen.restrict(Set::new(|k: KeyCode| held(s, k, now)))
}

/// Whether any WASD key is held at `now`.
pub open spec fn any_wasd_held(s: InputStateView, now: u64) -> bool {
    held(s, KeyCode::Char('w'), now) || held(s, KeyCode::Char('a'), now) || held(
        s,
        KeyCode::Char('s'),
        now,
    ) || held(s, KeyCode::Char('d'), now)
}

/// The frame snapshot taken from state `s` at `now`, with the one-shot
/// actions that arrived during the frame.
pub open spec fn spec_frame_input(s: InputStateView, now: u64, actions: Seq<InputAction>) -> FrameInput {
    FrameInput {
        forward: (axis(s, KeyCode::Char('w'), now) - axis(s, KeyCode::Char('s'), now)) as i8,
        strafe: (axis(s, KeyCode::Char('d'), now) - axis(s, KeyCode::Char('a'), now)) as i8,
        run: s.shift_held && any_wasd_held(s, now),
        jump: actions.contains(InputAction::Jump),
        yaw_delta: (axis(s, KeyCode::Right, now) - axis(s, KeyCode::Left, now)) as i8,
        pitch_delta: (axis(s, KeyCode::Up, now) - axis(s, KeyCode::Down, now)) as i8,
        toggle_fps_off: actions.contains(InputAction::ToggleFpsOff),
        quit: actions.contains(InputAction::Quit),
    }
}

/// Persistent input state carried across frames: the last time each motion
/// key was seen, plus the Shift flag of the latest WASD press.
///
/// Only the eight motion keys are ever tracked, so the table is a fixed
/// array with one slot per motion key rather than a hash map: a key cannot
/// occur twice, lookups need no hashing, and its view is still the map from
/// tracked key to last-seen time.
pub struct InputState {
    /// Slot `i` holds the last-seen time of the motion key with
    /// `motion_slot == i`, if that key is tracked.
    key_last_seen: [Option<u64>; 8],
    shift_held: bool,
}

/// The key kept in table slot `i`.
pub open spec fn slot_key(i: int) -> KeyCode {
    if i == 0 {
        KeyCode::Char('w')
    } else if i == 1 {
        KeyCode::Char('a')
    } else if i == 2 {
        KeyCode::Char('s')
    } else if i == 3 {
        KeyCode::Char('d')
    } else if i == 4 {
        KeyCode::Up
    } else if i == 5 {
        KeyCode::Down
    } else if i == 6 {
        KeyCode::Left
    } else {
        KeyCode::Right
    }
}

impl View for InputState {
    type V = InputStateView;

    closed spec fn view(&self) -> InputStateView {
        InputStateView {
            last_seen: Map::new(
                |k: KeyCode| is_motion(k) && self.key_last_seen@[motion_slot(k).unwrap()] is Some,
                |k: KeyCode| self.key_last_seen@[motion_slot(k).unwrap()].unwrap(),
            ),
            shift_held: self.shift_held,
        }
    }
}

proof fn lemma_slot_key(i: int)
    requires
        0 <= i < 8,
    ensures
        motion_slot(slot_key(i)) == Some(i),
{
}

/// The slot of `code`, if it is a motion key.
fn slot_of(code: KeyCode) -> (slot: Option<usize>)
    ensures
        match slot {
            Some(i) => motion_slot(code) == Some(i as int),
            None => motion_slot(code) is None,
        },
{
    match code {
        KeyCode::Char('w') => Some(0),
        KeyCode::Char('a') => Some(1),
        KeyCode::Char('s') => Some(2),
        KeyCode::Char('d') => Some(3),
        KeyCode::Up => Some(4),
        KeyCode::Down => Some(5),
        KeyCode::Left => Some(6),
        KeyCode::Right => Some(7),
        _ => None,
    }
}

/// Collapse letter casing so `'W'` and `'w'` are the same tracked key. All
/// other codes pass through unchanged.
pub fn normalise(code: KeyCode) -> (n: KeyCode)
    ensures
        n == spec_normalise(code),
{
    match code {
        KeyCode::Char(c) => KeyCode::Char(to_ascii_lower(c)),
        other => other,
    }
}

impl InputState {
    /// A tracker with no key held and Shift not set.
    pub fn new() -> (s: Self)
        ensures
            s@.last_seen == Map::<KeyCode, u64>::empty(),
            !s@.shift_held,
    {
        let s = InputState { key_last_seen: [None; 8], shift_held: false };
        assert(s@.last_seen =~= Map::<KeyCode, u64>::empty());
        s
    }

    /// Is `code` currently considered held at time `now`?
    pub fn is_held(&self, code: KeyCode, now: u64) -> (b: bool)
        ensures
            b == held(self@, code, now),
    {
        match slot_of(code) {
            Some(i) => match self.key_last_seen[i] {
                Some(t) => {
                    let d: u64 = if now >= t {
                        now - t
                    } else {
                        0
                    };
                    d <= KEY_HOLD_TIMEOUT_NANOS
                },
                None => false,
            },
            None => false,
        }
    }

    /// Held check as a contribution to an axis: 1 or 0.
    fn axis(&self, code: KeyCode, now: u64) -> (a: i8)
        ensures
            a == axis(self@, code, now),
    {
        if self.is_held(code, now) {
            1
        } else {
            0
        }
    }

    /// Whether the latest WASD press carried Shift.
    pub fn shift_held(&self) -> (b: bool)
        ensures
            b == self@.shift_held,
    {
        self.shift_held
    }

    /// Whether no key at all is tracked.
    pub fn tracks_no_keys(&self) -> (b: bool)
        ensures
            b == self@.last_seen.is_empty(),
    {
        let mut i: usize = 0;
        while i < 8
            invariant
                i <= 8,
                forall|j: int| 0 <= j < i ==> self.key_last_seen@[j] is None,
            decreases 8 - i,
        {
            if self.key_last_seen[i].is_some() {
                proof {
                    lemma_slot_key(i as int);
                    assert(self@.last_seen.contains_key(slot_key(i as int)));
                }
                return false;
            }
            i = i + 1;
        }
        assert(self@.last_seen =~= Map::<KeyCode, u64>::empty());
        true
    }

    /// Whether any WASD key is tracked.
    fn tracks_any_wasd(&self) -> (b: bool)
        ensures
            b == tracks_wasd(self@),
    {
        let b = self.key_last_seen[0].is_some() || self.key_last_seen[1].is_some()
            || self.key_last_seen[2].is_some() || self.key_last_seen[3].is_some();
        proof {
            if b {
                let i: int = if self.key_last_seen@[0] is Some {
                    0
                } else if self.key_last_seen@[1] is Some {
                    1
                } else if self.key_last_seen@[2] is Some {
                    2
                } else {
                    3
                };
                lemma_slot_key(i);
                assert(self@.last_seen.contains_key(slot_key(i)) && is_wasd(slot_key(i)));
            } else {
                assert forall|k: KeyCode| #[trigger] self@.last_seen.contains_key(k) implies !is_wasd(k) by {}
            }
        }
        b
    }
}

impl Default for InputState {
    fn default() -> (s: Self)
        ensures
            s@.last_seen == Map::<KeyCode, u64>::empty(),
            !s@.shift_held,
    {
        InputState::new()
    }
}


/// Motion keys sit in distinct slots, and the WASD keys in the first four.
proof fn lemma_motion_slot_facts(k1: KeyCode, k2: KeyCode)
    ensures
        (motion_slot(k1) is Some && motion_slot(k1) == motion_slot(k2)) ==> k1 == k2,
        is_wasd(k1) <==> (motion_slot(k1) is Some && motion_slot(k1).unwrap() < 4),
        motion_slot(k1) matches Some(i) ==> 0 <= i < 8 && slot_key(i) == k1,
{
}

/// Whether the key spelled by `code` (as delivered, before lower-casing) is
/// an upper-case W, A, S or D.
fn is_upper_wasd_code(code: KeyCode) -> (b: bool)
    ensures
        b == is_upper_wasd(code),
{
    match code {
        KeyCode::Char(c) => c == 'W' || c == 'A' || c == 'S' || c == 'D',
        _ => false,
    }
}

/// Fold a single key event into the tracker, returning the one-shot action
/// it triggers, if any. Motion keys update the last-seen table as a side
/// effect and return `None`; a release drops the released key from the
/// table at once.
pub fn apply_key(state: &mut InputState, ev: KeyEvent, now: u64) -> (action: Option<InputAction>)
    ensures
        (final(state)@, action) == spec_apply_key(old(state)@, ev, now),
{
    let code = normalise(ev.code);
    let ghost s0 = state@;
    let slot = slot_of(code);
    proof {
        lemma_motion_slot_facts(code, code);
    }
    if ev.kind == KeyEventKind::Release {
        if let Some(i) = slot {
            state.key_last_seen[i] = None;
        }
        assert(state@.last_seen =~= s0.last_seen.remove(code)) by {
            assert forall|k: KeyCode| true implies (state@.last_seen.contains_key(k)
                == s0.last_seen.remove(code).contains_key(k)) && (state@.last_seen.contains_key(k)
                ==> state@.last_seen[k] == s0.last_seen.remove(code)[k]) by {
                lemma_motion_slot_facts(k, code);
            }
        }
        let wasd = match slot {
            Some(i) => i < 4,
            None => false,
        };
        if wasd && !state.tracks_any_wasd() {
            state.shift_held = false;
        }
        return None;
    }
    match slot {
        Some(i) => {
            state.key_last_seen[i] = Some(now);
            if i < 4 {
                state.shift_held = ev.shift || is_upper_wasd_code(ev.code);
            }
            assert(state@.last_seen =~= s0.last_seen.insert(code, now)) by {
                assert forall|k: KeyCode| true implies (state@.last_seen.contains_key(k)
                    == s0.last_seen.insert(code, now).contains_key(k)) && (
                state@.last_seen.contains_key(k) ==> state@.last_seen[k] == s0.last_seen.insert(
                    code,
                    now,
                )[k]) by {
                    lemma_motion_slot_facts(k, code);
                }
            }
            None
        },
        None => {
            if code == KeyCode::Char(' ') {
                Some(InputAction::Jump)
            } else if code == KeyCode::F(1) {
                Some(InputAction::ToggleFpsOff)
            } else if code == KeyCode::Esc || code == KeyCode::Char('q') {
                Some(InputAction::Quit)
            } else {
                None
            }
        },
    }
}

/// Whether `action` occurs in `actions`.
fn contains_action(actions: &Vec<InputAction>, action: InputAction) -> (b: bool)
    ensures
        b == actions@.contains(action),
{
    let mut i: usize = 0;
    while i < actions.len()
        invariant
            i <= actions.len(),
            forall|j: int| 0 <= j < i ==> actions@[j] != action,
        decreases actions.len() - i,
    {
        if actions[i] == action {
            return true;
        }
        i = i + 1;
    }
    false
}

/// End a frame at time `now`: drop every table entry that is no longer
/// held, clear the Shift flag unless a WASD key is still held, and snapshot
/// the held keys into a [`FrameInput`], together with the one-shot
/// `actions` collected during the frame.
pub fn frame_input(state: &mut InputState, now: u64, actions: &Vec<InputAction>) -> (f: FrameInput)
    ensures
        final(state)@.last_seen == pruned(old(state)@, now),
        final(state)@.shift_held == (old(state)@.shift_held && any_wasd_held(old(state)@, now)),
        f == spec_frame_input(old(state)@, now, actions@),
{
    let ghost s0 = state@;
    let forward = state.axis(KeyCode::Char('w'), now) - state.axis(KeyCode::Char('s'), now);
    let strafe = state.axis(KeyCode::Char('d'), now) - state.axis(KeyCode::Char('a'), now);
    let yaw_delta = state.axis(KeyCode::Right, now) - state.axis(KeyCode::Left, now);
    let pitch_delta = state.axis(KeyCode::Up, now) - state.axis(KeyCode::Down, now);
    let any_wasd = state.is_held(KeyCode::Char('w'), now) || state.is_held(KeyCode::Char('a'), now)
        || state.is_held(KeyCode::Char('s'), now) || state.is_held(KeyCode::Char('d'), now);
    let mut i: usize = 0;
    while i < 8
        invariant
            i <= 8,
            state.shift_held == s0.shift_held,
            forall|j: int|
                0 <= j < 8 ==> #[trigger] state.key_last_seen@[j] == if j < i && (s0.last_seen.contains_key(slot_key(j))
                    && !held(s0, slot_key(j), now)) {
                    None
                } else {
                    old(state).key_last_seen@[j]
                },
            s0 == old(state)@,
        decreases 8 - i,
    {
        if let Some(t) = state.key_last_seen[i] {
            let d: u64 = if now >= t {
                now - t
            } else {
                0
            };
            proof {
                lemma_slot_key(i as int);
            }
            if d > KEY_HOLD_TIMEOUT_NANOS {
                state.key_last_seen[i] = None;
            }
        }
        i = i + 1;
    }
    assert(state@.last_seen =~= pruned(s0, now)) by {
        assert forall|k: KeyCode| true implies (state@.last_seen.contains_key(k) == pruned(
            s0,
            now,
        ).contains_key(k)) && (state@.last_seen.contains_key(k) ==> state@.last_seen[k] == pruned(
            s0,
            now,
        )[k]) by {
            lemma_motion_slot_facts(k, k);
        }
    }
    if !any_wasd {
        state.shift_held = false;
    }
    FrameInput {
        forward,
        strafe,
        run: state.shift_held && any_wasd,
        jump: contains_action(actions, InputAction::Jump),
        yaw_delta,
        pitch_delta,
        toggle_fps_off: contains_action(actions, InputAction::ToggleFpsOff),
        quit: contains_action(actions, InputAction::Quit),
    }
}

/// The held-key table only ever tracks motion keys (W, A, S, D and the
/// arrows), whatever events reached it.
pub proof fn lemma_tracks_only_motion_keys(state: &InputState)
    ensures
        forall|k: KeyCode| #[trigger] state@.last_seen.contains_key(k) ==> is_motion(k),
{
}

/// A motion key pressed (or repeated) at time `t` counts as held exactly
/// while no more than the hold timeout has passed since `t`.
pub proof fn lemma_press_holds_until_timeout(s: InputStateView, ev: KeyEvent, t: u64, now: u64)
    requires
        ev.kind != KeyEventKind::Release,
        is_motion(spec_normalise(ev.code)),
    ensures
        held(spec_apply_key(s, ev, t).0, spec_normalise(ev.code), now) <==> (now <= t || now - t
            <= 120_000_000),
        spec_apply_key(s, ev, t).0.last_seen.contains_key(spec_normalise(ev.code)),
        spec_apply_key(s, ev, t).0.last_seen[spec_normalise(ev.code)] == t,
        spec_apply_key(s, ev, t).1 is None,
{
}

/// A release drops the released key at once: it is not held at any time
/// afterwards, until it is pressed again.
pub proof fn lemma_release_drops_key(s: InputStateView, ev: KeyEvent, t: u64, now: u64)
    requires
        ev.kind == KeyEventKind::Release,
    ensures
        !held(spec_apply_key(s, ev, t).0, spec_normalise(ev.code), now),
        spec_apply_key(s, ev, t).1 is None,
{
}

/// An event touches only its own key: every other key keeps its entry (or
/// its absence) in the table.
pub proof fn lemma_event_touches_only_its_key(s: InputStateView, ev: KeyEvent, t: u64, k: KeyCode)
    requires
        k != spec_normalise(ev.code),
    ensures
        spec_apply_key(s, ev, t).0.last_seen.contains_key(k) == s.last_seen.contains_key(k),
        s.last_seen.contains_key(k) ==> spec_apply_key(s, ev, t).0.last_seen[k] == s.last_seen[k],
{
}

/// Keys that are not motion keys never change the tracker; Space, F1, Esc
/// and q presses report their action, every other such key reports none.
pub proof fn lemma_non_motion_press_keeps_state(s: InputStateView, ev: KeyEvent, t: u64)
    requires
        ev.kind != KeyEventKind::Release,
        !is_motion(spec_normalise(ev.code)),
    ensures
        spec_apply_key(s, ev, t).0 == s,
        spec_apply_key(s, ev, t).1 == (if spec_normalise(ev.code) == KeyCode::Char(' ') {
            Some(InputAction::Jump)
        } else if spec_normalise(ev.code) == KeyCode::F(1) {
            Some(InputAction::ToggleFpsOff)
        } else if spec_normalise(ev.code) == KeyCode::Esc || spec_normalise(ev.code)
            == KeyCode::Char('q') {
            Some(InputAction::Quit)
        } else {
            None
        }),
{
}

/// Letter case does not matter for the table or the action: an event for
/// an upper-case letter has the effect of the same event for its lower-case
/// letter.
pub proof fn lemma_letter_case_is_ignored(s: InputStateView, ev: KeyEvent, c: char, t: u64)
    requires
        'A' <= c <= 'Z',
        ev.code == KeyCode::Char(c),
    ensures
        spec_apply_key(s, ev, t).0.last_seen == spec_apply_key(
            s,
            KeyEvent { code: KeyCode::Char(ascii_lower(c)), ..ev },
            t,
        ).0.last_seen,
        spec_apply_key(s, ev, t).1 == spec_apply_key(
            s,
            KeyEvent { code: KeyCode::Char(ascii_lower(c)), ..ev },
            t,
        ).1,
{
    assert(ascii_lower(ascii_lower(c)) == ascii_lower(c));
}

/// The frame snapshot's axes are each -1, 0 or +1, and running is only
/// reported while a WASD key is held.
pub proof fn lemma_frame_input_bounded(s: InputStateView, now: u64, actions: Seq<InputAction>)
    ensures
        ({
            let f = spec_frame_input(s, now, actions);
            &&& -1 <= f.forward <= 1
            &&& -1 <= f.strafe <= 1
            &&& -1 <= f.yaw_delta <= 1
            &&& -1 <= f.pitch_delta <= 1
            &&& f.run ==> any_wasd_held(s, now)
        }),
{
}

/// After a frame ends at `now`, every key left in the table is held at
/// `now`, and a key held at `now` is still in it: pruning drops exactly the
/// expired entries.
pub proof fn lemma_pruned_table_is_held_set(s: InputStateView, now: u64, k: KeyCode)
    ensures
        pruned(s, now).contains_key(k) <==> held(s, k, now),
        pruned(s, now).contains_key(k) ==> held(
            InputStateView { last_seen: pruned(s, now), shift_held: s.shift_held },
            k,
            now,
        ),
{
}

/// Pruning changes nothing the frame can see: a snapshot taken again at the
/// same time from the pruned state reports the same intents.
pub proof fn lemma_frame_input_stable_under_pruning(
    s: InputStateView,
    now: u64,
    actions: Seq<InputAction>,
)
    ensures
        spec_frame_input(
            InputStateView {
                last_seen: pruned(s, now),
                shift_held: s.shift_held && any_wasd_held(s, now),
            },
            now,
            actions,
        ) == spec_frame_input(s, now, actions),
{
    let p = InputStateView {
        last_seen: pruned(s, now),
        shift_held: s.shift_held && any_wasd_held(s, now),
    };
    assert forall|k: KeyCode| held(p, k, now) == held(s, k, now) by {}
}

/// A press or repeat of a WASD key sets the Shift flag from that event
/// alone: its Shift bit, or the letter arriving in upper case. The flag
/// before the event does not matter.
pub proof fn lemma_wasd_press_samples_shift(
    s: InputStateView,
    other: InputStateView,
    ev: KeyEvent,
    t: u64,
)
    requires
        ev.kind != KeyEventKind::Release,
        spec_normalise(ev.code) == KeyCode::Char('w') || spec_normalise(ev.code) == KeyCode::Char(
            'a',
        ) || spec_normalise(ev.code) == KeyCode::Char('s') || spec_normalise(ev.code)
            == KeyCode::Char('d'),
    ensures
        spec_apply_key(s, ev, t).0.shift_held == (ev.shift || ev.code == KeyCode::Char('W')
            || ev.code == KeyCode::Char('A') || ev.code == KeyCode::Char('S') || ev.code
            == KeyCode::Char('D')),
        spec_apply_key(s, ev, t).0.shift_held == spec_apply_key(other, ev, t).0.shift_held,
{
}

/// Each axis of the snapshot is the difference of its two keys' held
/// states: `+1` for the positive key alone, `-1` for the negative key
/// alone, `0` for both or neither.
pub proof fn lemma_frame_axes_are_key_differences(
    s: InputStateView,
    now: u64,
    actions: Seq<InputAction>,
)
    ensures
        ({
            let f = spec_frame_input(s, now, actions);
            let w = held(s, KeyCode::Char('w'), now);
            let a = held(s, KeyCode::Char('a'), now);
            let sk = held(s, KeyCode::Char('s'), now);
            let d = held(s, KeyCode::Char('d'), now);
            let up = held(s, KeyCode::Up, now);
            let down = held(s, KeyCode::Down, now);
            let left = held(s, KeyCode::Left, now);
            let right = held(s, KeyCode::Right, now);
            &&& f.forward == (if w && !sk {
                1
            } else if sk && !w {
                -1
            } else {
                0
            })
            &&& f.strafe == (if d && !a {
                1
            } else if a && !d {
                -1
            } else {
                0
            })
            &&& f.yaw_delta == (if right && !left {
                1
            } else if left && !right {
                -1
            } else {
                0
            })
            &&& f.pitch_delta == (if up && !down {
                1
            } else if down && !up {
                -1
            } else {
                0
            })
            &&& f.run == (s.shift_held && (w || a || sk || d))
            &&& f.jump == actions.contains(InputAction::Jump)
            &&& f.toggle_fps_off == actions.contains(InputAction::ToggleFpsOff)
            &&& f.quit == actions.contains(InputAction::Quit)
        }),
{
}

/// Releasing a WASD key clears the Shift flag exactly when no WASD key is
/// left in the table; releasing any other key leaves the flag alone.
pub proof fn lemma_release_clears_shift_with_last_wasd(s: InputStateView, ev: KeyEvent, t: u64)
    requires
        ev.kind == KeyEventKind::Release,
    ensures
        ({
            let code = spec_normalise(ev.code);
            let after = spec_apply_key(s, ev, t).0;
            let wasd = code == KeyCode::Char('w') || code == KeyCode::Char('a') || code
                == KeyCode::Char('s') || code == KeyCode::Char('d');
            let left = after.last_seen.contains_key(KeyCode::Char('w'))
                || after.last_seen.contains_key(KeyCode::Char('a'))
                || after.last_seen.contains_key(KeyCode::Char('s'))
                || after.last_seen.contains_key(KeyCode::Char('d'));
            &&& !after.last_seen.contains_key(code)
            &&& after.shift_held == if wasd && !left {
                false
            } else {
                s.shift_held
            }
        }),
{
    let code = spec_normalise(ev.code);
    let after = spec_apply_key(s, ev, t).0;
    let v = InputStateView { last_seen: s.last_seen.remove(code), shift_held: s.shift_held };
    assert(after.last_seen == v.last_seen);
    if tracks_wasd(v) {
        let k = choose|k: KeyCode| #[trigger] v.last_seen.contains_key(k) && is_wasd(k);
        assert(after.last_seen.contains_key(k));
    } else {
        assert(!after.last_seen.contains_key(KeyCode::Char('w')));
        assert(!after.last_seen.contains_key(KeyCode::Char('a')));
        assert(!after.last_seen.contains_key(KeyCode::Char('s')));
        assert(!after.last_seen.contains_key(KeyCode::Char('d')));
    }
}

} // verus!
