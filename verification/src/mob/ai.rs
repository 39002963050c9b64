//! Mob AI states.

use vstd::prelude::*;

verus! {

/// AI state for a mob.
#[derive(Debug, Clone, Copy, PartialEq, Eq, Structural)]
pub enum MobAiState {
    /// Idle at spawn, looking for targets
    Idle,
    /// Moving towards target player
    Aggro,
    /// In attack range, attacking
    Attack,
    /// Returning to spawn point
    Return,
}

} // verus!
