//! TRON colour palette, each colour an `(r, g, b)` triple: black (void),
//! blue (grid, ally UI, identified files), red (enemies, warnings, lock-on)
//! and a muted gray for the faces of geometric props. The semantic aliases
//! name the role a colour plays at the call site.

use vstd::prelude::*;

verus! {

/// Deep-space background, slightly warmer than pure black.
pub const BG_BLACK: (u8, u8, u8) = (8, 8, 12);

/// The TRON signature cyan-blue: floor grid, wall rims, portal frames, HUD.
pub const GRID_BLUE: (u8, u8, u8) = (79, 195, 247);

/// Hostile red: enemy wireframes, lock-on brackets, warnings.
pub const ENEMY_RED: (u8, u8, u8) = (255, 61, 61);

/// Neutral gray for the shaded faces of props; always behind a blue
/// outline.
pub const GEOMETRY_GRAY: (u8, u8, u8) = (58, 58, 58);

/// HUD text, ally markers, identified-file name plates.
pub const UI_BLUE: (u8, u8, u8) = GRID_BLUE;

/// Warnings, low-HP flashes, "dangerous path" seal indicators.
pub const WARN_RED: (u8, u8, u8) = ENEMY_RED;

/// The lock-on brackets that frame an enemy while the disc is returning.
pub const LOCK_RED: (u8, u8, u8) = ENEMY_RED;

/// Secondary UI gray: HUD sub-text and the monolith / portal panel faces.
pub const UI_GRAY: (u8, u8, u8) = GEOMETRY_GRAY;

} // verus!
