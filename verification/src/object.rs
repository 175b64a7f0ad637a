//! The uniform entity type: viewer, monsters and anything else drawn on the
//! grid, distinguished by data only.

use vstd::prelude::*;
use vstd::string::StringExecFns;

use crate::grid::{gview, Game};
use crate::render::ColorRgb;

verus! {

/// One entity: a position, a display glyph and color, a name tag, whether it
/// blocks movement, and whether it is alive.
#[derive(Debug)]
pub struct Object {
    pub x: i32,
    pub y: i32,
    pub char: char,
    pub color: ColorRgb,
    pub name: String,
    pub blocks: bool,
    pub alive: bool,
}

impl Object {
    /// Creates an entity at `(x, y)`; it starts not alive.
    pub fn new(x: i32, y: i32, char: char, name: &str, color: ColorRgb, blocks: bool) -> (o:
        Object)
        ensures
            o.x == x,
            o.y == y,
            o.char == char,
            o.color == color,
            o.name@ == name@,
            o.blocks == blocks,
            o.alive == false,
    {
        Object { x, y, char, color, name: String::from_str(name), blocks, alive: false }
    }

    /// Moves the entity by the given delta iff the target cell lies inside
    /// the grid and is not blocked; an out-of-bounds target counts as
    /// blocked, and the entity stays put.
    pub fn move_by(&mut self, dx: i32, dy: i32, game: &Game)
        requires
            game.wf(),
            game.width() <= i32::MAX,
            game.height() <= i32::MAX,
        ensures
            ({
                let nx = old(self).x + dx;
                let ny = old(self).y + dy;
                if 0 <= nx < game.width() && 0 <= ny < game.height() && !game.tile_at(
                    nx,
                    ny,
                ).blocked {
                    final (self).x == nx && final (self).y == ny
                } else {
                    final (self).x == old(self).x && final (self).y == old(self).y
                }
            }),
            final (self).char == old(self).char,
            final (self).color == old(self).color,
            final (self).name == old(self).name,
            final (self).blocks == old(self).blocks,
            final (self).alive == old(self).alive,
    {
        let nx = self.x as i64 + dx as i64;
        let ny = self.y as i64 + dy as i64;
        let w = game.map.len();
        proof {
            assert(w == game.width());
        }
        if 0 <= nx && nx < w as i64 {
            let xi = nx as usize;
            proof {
                assert(gview(game.map)[xi as int] == game.map@[xi as int]@);
                assert(gview(game.map)[xi as int].len() == game.height());
            }
            if 0 <= ny && ny < game.map[xi].len() as i64 {
                let yi = ny as usize;
                proof {
                    assert(game.tile_at(nx as int, ny as int) == game.map@[xi as int]@[yi as int]);
                }
                if !game.map[xi][yi].blocked {
                    self.x = nx as i32;
                    self.y = ny as i32;
                }
            }
        }
    }

    /// The entity's position.
    pub fn pos(&self) -> (p: (i32, i32))
        ensures
            p == (self.x, self.y),
    {
        (self.x, self.y)
    }

    /// Places the entity at `(x, y)`.
    pub fn set_pos(&mut self, x: i32, y: i32)
        ensures
            final (self).x == x,
            final (self).y == y,
            final (self).char == old(self).char,
            final (self).color == old(self).color,
            final (self).name == old(self).name,
            final (self).blocks == old(self).blocks,
            final (self).alive == old(self).alive,
    {
        self.x = x;
        self.y = y;
    }
}

} // verus!
