//! The operation menu's action set and the kinds of target it acts on.

use vstd::prelude::*;

verus! {

/// A single menu action.
///
/// `Info` shows metadata without altering the file. `Cancel` closes the
/// menu and lets the disc reset without performing any operation.
#[derive(Debug, Clone, Copy, PartialEq, Eq, Structural)]
pub enum Operation {
    Open,
    Rename,
    Move,
    Copy,
    Delete,
    Info,
    Cancel,
}

/// Which kind of target the menu is currently acting on. Determines which
/// entries are shown / disabled, and which animation plays afterward.
#[derive(Debug, Clone, Copy, PartialEq, Eq, Structural)]
pub enum MenuContext {
    /// A single identified file.
    File,
    /// A swarm bulk selection (many files aggregated by extension / size).
    Swarm,
    /// A subfolder portal.
    Folder,
    /// The current folder's monolith (`new file` / `new folder` live here).
    Monolith,
}

} // verus!
