//! Level geometry and tile logic for a 2D platformer: integer boxes, the
//! sprite-sheet layout of tiles, the feature schema of a generated level, the
//! brushes that lay the features down, the auto-tiling of terrain, the
//! generator of islands, and the graph of a level's zones.

pub mod helpers;
pub mod assets;
pub mod brushes;
pub mod map;
pub mod spatial;
pub mod open_ranges;
pub mod world;
pub mod gen;
pub mod random;
