//! The 2D tile grid, indexed column-first as `map[x][y]`, and the session
//! state that owns it.

use vstd::prelude::*;

use crate::tile::Tile;

verus! {

/// The mathematical view of a grid: the sequence of its columns.
pub open spec fn gview(g: Vec<Vec<Tile>>) -> Seq<Seq<Tile>> {
    Seq::new(g@.len(), |x: int| g@[x]@)
}

/// Number of columns.
pub open spec fn gwidth(g: Seq<Seq<Tile>>) -> int {
    g.len() as int
}

/// Number of rows, read off the first column; 0 for an empty grid.
pub open spec fn gheight(g: Seq<Seq<Tile>>) -> int {
    if g.len() == 0 {
        0
    } else {
        g[0].len() as int
    }
}

/// The grid is rectangular: every column has the same length.
pub open spec fn grid_wf(g: Seq<Seq<Tile>>) -> bool {
    forall|x: int| 0 <= x < g.len() ==> (#[trigger] g[x]).len() == gheight(g)
}

/// `(x, y)` indexes a cell of the grid.
pub open spec fn in_bounds(g: Seq<Seq<Tile>>, x: int, y: int) -> bool {
    0 <= x < gwidth(g) && 0 <= y < gheight(g)
}

/// A `w` by `h` grid made entirely of unexcavated rock.
pub open spec fn all_wall(w: int, h: int) -> Seq<Seq<Tile>> {
    Seq::new(w as nat, |x: int| Seq::new(h as nat, |y: int| Tile::wall_spec()))
}

/// Builds the all-wall starting grid of a generation run.
pub fn wall_grid(width: i32, height: i32) -> (g: Vec<Vec<Tile>>)
    requires
        0 < width,
        0 <= height,
    ensures
        gview(g) == all_wall(width as int, height as int),
        grid_wf(gview(g)),
        gwidth(gview(g)) == width,
        gheight(gview(g)) == height,
{
    let mut g: Vec<Vec<Tile>> = Vec::new();
    let mut x: i32 = 0;
    while x < width
        invariant
            0 <= x <= width,
            g@.len() == x,
            forall|i: int| 0 <= i < x ==> (#[trigger] g@[i])@ =~= Seq::new(
                height as nat,
                |y: int| Tile::wall_spec(),
            ),
        decreases width - x,
    {
        let mut col: Vec<Tile> = Vec::new();
        let mut y: i32 = 0;
        while y < height
            invariant
                0 <= y <= height,
                col@.len() == y,
                forall|j: int| 0 <= j < y ==> col@[j] == Tile::wall_spec(),
            decreases height - y,
        {
            col.push(Tile::wall());
            y = y + 1;
        }
        assert(col@ =~= Seq::new(height as nat, |j: int| Tile::wall_spec()));
        g.push(col);
        x = x + 1;
    }
    assert(gview(g) =~~= all_wall(width as int, height as int));
    g
}

/// The session state of one dungeon level: it owns the grid.
pub struct Game {
    pub map: Vec<Vec<Tile>>,
}

impl Game {
    /// The owned grid is rectangular.
    pub open spec fn wf(self) -> bool {
        grid_wf(gview(self.map))
    }

    pub open spec fn width(self) -> int {
        gwidth(gview(self.map))
    }

    pub open spec fn height(self) -> int {
        gheight(gview(self.map))
    }

    /// The tile at `(x, y)`.
    pub open spec fn tile_at(self, x: int, y: int) -> Tile {
        gview(self.map)[x][y]
    }
}

} // verus!
