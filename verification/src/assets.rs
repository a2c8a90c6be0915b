//! Dimensions of the tile sprite sheet.

use vstd::prelude::*;

verus! {

/// The side of a tile, in pixels.
pub const TILE_SIZE: u32 = 70;

/// The number of tile columns in the sprite sheet.
pub const SHEET_W: u16 = 28;

/// The number of tile rows in the sprite sheet.
pub const SHEET_H: u16 = 59;

} // verus!
