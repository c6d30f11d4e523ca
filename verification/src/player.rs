//! Player hit points.

use vstd::prelude::*;

verus! {

/// Default starting hit points. Balanced against the enemy HP scale
/// (capped at 5) so that a few unlucky lunges can down the player, but the
/// steady state is survivable.
pub const DEFAULT_MAX_HP: u32 = 10;

/// Whether a player with `hp` hit points is in the "crash" state: exactly
/// when no hit point is left.
pub fn is_crashed(hp: u32) -> (crashed: bool)
    ensures
        crashed == (hp == 0),
{
    hp == 0
}

} // verus!
