//! Core of a procedurally generated 2D dungeon level: a grid of tiles carved
//! by a randomized room-placement algorithm, a shared entity collection, and a
//! per-tile visibility/exploration tracker kept in sync with an external
//! field-of-view oracle.

#![verifier::loop_isolation(false)]

use vstd::prelude::*;

pub mod control;
pub mod fov;
pub mod geometry;
pub mod grid;
pub mod mapgen;
pub mod object;
pub mod rng;
pub mod render;
pub mod tile;

verus! {

/// Default grid width, in tiles.
pub const MAP_WIDTH: i32 = 80;

/// Default grid height, in tiles.
pub const MAP_HEIGHT: i32 = 45;

/// Largest side length a sampled room rectangle may have.
pub const ROOM_MAX_SIZE: i32 = 10;

/// Smallest side length a sampled room rectangle may have.
pub const ROOM_MIN_SIZE: i32 = 6;

/// Fixed room-attempt budget of one generation run.
pub const MAX_ROOMS: i32 = 30;

/// Largest number of secondary entities placed in one room.
pub const MAX_ROOM_MONSTERS: i32 = 3;

/// Radius handed to the field-of-view oracle on each recomputation.
pub const TORCH_RADIUS: i32 = 10;

/// Index of the viewer in the shared entity collection.
pub const PLAYER: usize = 0;

} // verus!
