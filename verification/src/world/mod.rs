//! The world that the game is played in: its zones and features, and the
//! brushes that generate it.

pub mod brushes;
pub mod feature;
pub mod tiles;
pub mod render;
pub mod mushroom_caps;
