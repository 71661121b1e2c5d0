use vstd::prelude::*;

verus! {

/// The kind of a single tile of the world grid.
#[derive(Debug, Clone, Copy, PartialEq, Eq, Structural)]
pub enum TileType {
    Floor,
    Wall,
    Door,
    Exit,
}

/// Every tile but a wall can be walked on.
pub open spec fn spec_walkable(t: TileType) -> bool {
    t != TileType::Wall
}

impl TileType {
    /// Whether an entity may stand on a tile of this kind.
    pub fn is_walkable(self) -> (b: bool)
        ensures
            b == spec_walkable(self),
    {
        match self {
            TileType::Floor | TileType::Door | TileType::Exit => true,
            TileType::Wall => false,
        }
    }
}

} // verus!
