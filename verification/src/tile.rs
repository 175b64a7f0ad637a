//! The per-cell state of the dungeon grid.

use vstd::prelude::*;

verus! {

/// One grid cell: whether it can be entered, whether it is opaque to the
/// visibility oracle, and whether it has ever been visible to the viewer.
#[derive(Clone, Copy, Debug, PartialEq, Eq, Structural)]
pub struct Tile {
    /// The cell cannot be occupied or entered.
    pub blocked: bool,
    /// The cell is opaque to the visibility oracle.
    pub block_sight: bool,
    /// The cell has been visible to the viewer at some earlier tick.
    /// Monotonic: once true it is never reset.
    pub explored: bool,
}

impl Tile {
    /// Excavated floor: walkable, transparent, not yet seen.
    pub open spec fn empty_spec() -> Tile {
        Tile { blocked: false, block_sight: false, explored: false }
    }

    /// Unexcavated rock: impassable, opaque, not yet seen.
    pub open spec fn wall_spec() -> Tile {
        Tile { blocked: true, block_sight: true, explored: false }
    }

    /// A tile is walkable exactly when it does not block sight: rock is both
    /// impassable and opaque, floor is neither.
    pub open spec fn wf(self) -> bool {
        self.blocked == self.block_sight
    }

    pub fn empty() -> (t: Tile)
        ensures
            t == Tile::empty_spec(),
    {
        Tile { blocked: false, block_sight: false, explored: false }
    }

    pub fn wall() -> (t: Tile)
        ensures
            t == Tile::wall_spec(),
    {
        Tile { blocked: true, block_sight: true, explored: false }
    }
}

} // verus!
