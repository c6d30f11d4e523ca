use friendly_filer::disc::DiscState;
use friendly_filer::hud::{Hud, Mode};
use friendly_filer::menu::{MenuContext, Operation};
use friendly_filer::player::{is_crashed, DEFAULT_MAX_HP};

#[test]
fn idle_state_is_ready() {
    assert!(DiscState::Idle.is_ready());
}

#[test]
fn flying_or_returning_state_is_not_ready() {
    assert!(!DiscState::Flying.is_ready());
    assert!(!DiscState::Returning.is_ready());
}

#[test]
fn is_crashed_only_when_hp_zero() {
    assert!(!is_crashed(DEFAULT_MAX_HP));
    assert!(!is_crashed(1));
    assert!(is_crashed(0));
}

#[test]
fn hud_and_menu_values_compare() {
    let hud = Hud { hp: DEFAULT_MAX_HP, score: 0, crash_count: 0, mode: Mode::Fps };
    assert_eq!(hud.mode, Mode::Fps);
    assert_ne!(Mode::FpsOff, Mode::Frozen);
    assert_ne!(Operation::Delete, Operation::Cancel);
    assert_eq!(MenuContext::Monolith, MenuContext::Monolith);
    assert_eq!(DEFAULT_MAX_HP, 10);
}
