//! The level generator of the map module: tiles, features and their layout.

pub mod brushes;
pub mod level_graph;

use vstd::prelude::*;

verus! {

/// The side of a chunk of the level, in tiles.
pub const CHUNK_SIZE: usize = 32;

/// A tile position in the level.
#[derive(Clone, Copy, PartialEq, Eq, Debug, Hash, Structural)]
pub struct Place {
    pub x: i32,
    pub y: i32,
}

impl Place {
    /// The position `(x, y)`.
    pub fn new(x: i32, y: i32) -> (r: Self)
        ensures
            r.x == x,
            r.y == y,
    {
        Place { x, y }
    }
}

} // verus!
