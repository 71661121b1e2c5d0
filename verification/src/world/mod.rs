//! The tile world: tile kinds, the tile map and pathfinding, and whether the
//! player has died.

pub mod astar;
pub mod map;
pub mod tile;

use vstd::prelude::*;

verus! {

/// Set when the player's health runs out, so the game-over screen can tell a
/// death from the ending.
#[derive(Clone, Copy, PartialEq, Eq, Debug, Structural)]
pub struct PlayerDied(pub bool);

impl Default for PlayerDied {
    fn default() -> (d: Self)
        ensures
            !d.0,
    {
        PlayerDied(false)
    }
}

} // verus!
