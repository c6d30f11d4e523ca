//! The identity disc's life cycle. The disc must come back to the player
//! before the next throw is permitted, which paces combat.

use vstd::prelude::*;

verus! {

/// Life-cycle of the disc.
#[derive(Debug, Clone, Copy, PartialEq, Eq, Structural)]
pub enum DiscState {
    /// Held by the player, ready to throw.
    Idle,
    /// In flight toward / past enemies. Bouncing.
    Flying,
    /// Boomerang-ing back to the player. Not yet catchable.
    Returning,
}

impl DiscState {
    /// `true` if the player is allowed to throw a disc in this state: only
    /// while it is held.
    pub fn is_ready(self) -> (ready: bool)
        ensures
            ready == (self == DiscState::Idle),
    {
        match self {
            DiscState::Idle => true,
            _ => false,
        }
    }
}

} // verus!
