use vstd::prelude::*;

verus! {

/// Hit points of a freshly spawned player.
pub const MAX_HP: u32 = 100;

/// Hit points that one successful shot takes from its target.
pub const DAMAGE_PER_SHOT: u32 = 25;

/// A player the server has not heard from for more than this many whole
/// seconds is dropped.
pub const PLAYER_TIMEOUT_SECS: u64 = 5;

} // verus!
