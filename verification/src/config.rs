//! Runtime configuration: its shape and its default values.

use vstd::prelude::*;

verus! {

/// How the player aims. Defaults to keyboard so that SSH / tmux sessions,
/// where mouse capture is unreliable, stay usable.
#[derive(Debug, Clone, Copy, PartialEq, Eq, Structural)]
pub enum AimStyle {
    Keyboard,
    Mouse,
}

/// Top-level configuration.
///
/// - `lod_individual_max`: above this enemy count, the renderer switches to
///   "individual + faded background" mode.
/// - `lod_faded_max`: above this, it switches to full swarm aggregation.
/// - `aim`: input style, see [`AimStyle`].
/// - `startup_fps_on`: whether FPS gameplay is enabled on launch.
#[derive(Debug, Clone, Copy)]
pub struct Config {
    pub lod_individual_max: usize,
    pub lod_faded_max: usize,
    pub aim: AimStyle,
    pub startup_fps_on: bool,
}

/// Enemy count up to which every enemy is drawn on its own.
pub const DEFAULT_LOD_INDIVIDUAL_MAX: usize = 20;

/// Enemy count up to which the faded-background mode is used.
pub const DEFAULT_LOD_FADED_MAX: usize = 100;

impl Config {
    /// The configuration used when no config file overrides it.
    pub open spec fn spec_default() -> Config {
        Config {
            lod_individual_max: DEFAULT_LOD_INDIVIDUAL_MAX,
            lod_faded_max: DEFAULT_LOD_FADED_MAX,
            aim: AimStyle::Keyboard,
            startup_fps_on: true,
        }
    }
}

impl Default for Config {
    fn default() -> (c: Self)
        ensures
            c == Config::spec_default(),
    {
        Config {
            lod_individual_max: DEFAULT_LOD_INDIVIDUAL_MAX,
            lod_faded_max: DEFAULT_LOD_FADED_MAX,
            aim: AimStyle::Keyboard,
            startup_fps_on: true,
        }
    }
}

} // verus!
