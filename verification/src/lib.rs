//! friendly-filer: the simulation layer of a TRON-styled first-person file
//! manager, verified with Verus.
//!
//! Files of the current directory become enemies, subfolders portals; the
//! player throws an identity disc to pick a target and an operation menu
//! opens on its return. This crate holds the logic of that layer that can be
//! stated over integers, characters and strings: configuration defaults,
//! file classification and hit points, the keyboard input tracker, the
//! dangerous-path guard, the arena tile grid and the demo frame drawing.

pub mod config;
pub mod enemy;
pub mod input;
pub mod portal;
pub mod disc;
pub mod hud;
pub mod menu;
pub mod palette;
pub mod player;
pub mod scene;
pub mod demo;
