//! The queryable rendering state of a tile: the three-state visibility model
//! and the fixed colors the external renderer reads for each state.

use vstd::prelude::*;

use crate::tile::Tile;

verus! {

/// A plain RGB color handed through to the external renderer.
#[derive(Clone, Copy, Debug, PartialEq, Eq, Structural)]
pub struct ColorRgb {
    pub r: u8,
    pub g: u8,
    pub b: u8,
}

/// The three observable per-tile states of the visibility model.
#[derive(Clone, Copy, Debug, PartialEq, Eq, Structural)]
pub enum VisState {
    /// Never seen: rendered as nothing.
    Unknown,
    /// Seen at some earlier tick but not currently visible.
    Remembered,
    /// Currently visible to the viewer.
    Visible,
}

pub open spec fn color_dark_wall() -> ColorRgb {
    ColorRgb { r: 0, g: 0, b: 100 }
}

pub open spec fn color_light_wall() -> ColorRgb {
    ColorRgb { r: 130, g: 110, b: 50 }
}

pub open spec fn color_dark_ground() -> ColorRgb {
    ColorRgb { r: 50, g: 50, b: 150 }
}

pub open spec fn color_light_ground() -> ColorRgb {
    ColorRgb { r: 200, g: 180, b: 50 }
}

/// Color of a spawned orc.
pub open spec fn color_desaturated_green() -> ColorRgb {
    ColorRgb { r: 63, g: 127, b: 63 }
}

/// Color of a spawned troll.
pub open spec fn color_darker_green() -> ColorRgb {
    ColorRgb { r: 0, g: 127, b: 0 }
}

/// The fixed background color for a tile: "lit" when currently visible,
/// "dark" when merely remembered, picked by whether the tile blocks sight.
pub open spec fn tile_color_spec(visible: bool, wall: bool) -> ColorRgb {
    if visible {
        if wall {
            color_light_wall()
        } else {
            color_light_ground()
        }
    } else {
        if wall {
            color_dark_wall()
        } else {
            color_dark_ground()
        }
    }
}

/// The visibility state of a tile, given its `explored` flag after this
/// tick's update: visible wins over remembered, and a tile never seen is
/// unknown.
pub open spec fn vis_state_spec(explored: bool, visible: bool) -> VisState {
    if visible {
        VisState::Visible
    } else if explored {
        VisState::Remembered
    } else {
        VisState::Unknown
    }
}

/// Returns the background color for a tile in the given visibility situation.
pub fn tile_color(visible: bool, wall: bool) -> (c: ColorRgb)
    ensures
        c == tile_color_spec(visible, wall),
{
    if visible {
        if wall {
            ColorRgb { r: 130, g: 110, b: 50 }
        } else {
            ColorRgb { r: 200, g: 180, b: 50 }
        }
    } else {
        if wall {
            ColorRgb { r: 0, g: 0, b: 100 }
        } else {
            ColorRgb { r: 50, g: 50, b: 150 }
        }
    }
}

/// Classifies a tile under the three-state visibility model, given the
/// current oracle verdict; the tile's `explored` flag must already include
/// this tick's update.
pub fn vis_state(explored: bool, visible: bool) -> (s: VisState)
    ensures
        s == vis_state_spec(explored, visible),
{
    if visible {
        VisState::Visible
    } else if explored {
        VisState::Remembered
    } else {
        VisState::Unknown
    }
}

/// The color to draw a tile with, or `None` when it is still unknown and the
/// renderer must leave it blank. `explored` is read after this tick's update,
/// so a currently visible tile is always drawn.
pub fn tile_draw_color(t: &Tile, visible: bool) -> (c: Option<ColorRgb>)
    ensures
        c == (if visible || t.explored {
            Some(tile_color_spec(visible, t.block_sight))
        } else {
            None::<ColorRgb>
        }),
{
    if visible || t.explored {
        Some(tile_color(visible, t.block_sight))
    } else {
        None
    }
}

} // verus!
