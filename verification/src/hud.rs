//! Heads-up display state: the values the always-on overlay shows.

use vstd::prelude::*;

verus! {

/// Runtime mode. FPS features can be toggled off (F1) for a calm
/// file-manager experience, and `/` puts the world into [`Mode::Frozen`]
/// (time-stop) for rename / new-file / fuzzy-search input.
#[derive(Debug, Clone, Copy, PartialEq, Eq, Structural)]
pub enum Mode {
    /// Normal FPS gameplay.
    Fps,
    /// Enemies static, cross-hair selection only.
    FpsOff,
    /// Time stopped for text input / fuzzy search.
    Frozen,
    /// HP hit zero. "SYSTEM ERROR" glitch is playing. Respawn imminent.
    Crashed,
}

/// HUD state. Mirrors the relevant player and scoring values so the
/// renderer does not need to reach back into the player on every frame.
#[derive(Debug, Clone, Copy)]
pub struct Hud {
    pub hp: u32,
    pub score: u64,
    pub crash_count: u32,
    pub mode: Mode,
}

} // verus!
