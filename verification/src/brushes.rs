//! Ground and igloo tiles of the first tile set, and their numbers in the
//! sprite sheet (row-major, `SHEET_W` tiles to a row).

use vstd::prelude::*;
use vstd::std_specs::convert::FromSpecImpl;
use crate::assets::{SHEET_H, SHEET_W};

verus! {

#[derive(Clone, Copy, PartialEq, Eq, Debug, Structural)]
pub enum LR {
    Left,
    Right,
}

#[derive(Clone, Copy, PartialEq, Eq, Debug, Structural)]
pub enum LMR {
    Left,
    Mid,
    Right,
}

#[derive(Clone, Copy, PartialEq, Eq, Debug, Structural)]
pub enum Slope {
    UpRight,
    DownLeft,
}

#[derive(Clone, Copy, PartialEq, Eq, Debug, Structural)]
pub enum GroundTileType {
    PlainBlock,
    Block,
    Ground(LMR),
    Concave(LR),
    Convex(LR),
    Interior,
    Slope(Slope),
    SlopeInt(Slope),
    LedgeBlock,
    Ledge(LMR),
    LedgeCap(LR),
}

/// The column of a ground tile type within its set's row.
pub open spec fn ground_tile_index(g: GroundTileType) -> u16 {
    match g {
        GroundTileType::PlainBlock => 1,
        GroundTileType::Block => 0,
        GroundTileType::Ground(LMR::Left) => 15,
        GroundTileType::Ground(LMR::Mid) => 16,
        GroundTileType::Ground(LMR::Right) => 17,
        GroundTileType::Concave(LR::Left) => 5,
        GroundTileType::Concave(LR::Right) => 6,
        GroundTileType::Convex(LR::Left) => 3,
        GroundTileType::Convex(LR::Right) => 4,
        GroundTileType::Interior => 2,
        GroundTileType::Slope(Slope::DownLeft) => 14,
        GroundTileType::Slope(Slope::UpRight) => 11,
        GroundTileType::SlopeInt(Slope::DownLeft) => 13,
        GroundTileType::SlopeInt(Slope::UpRight) => 12,
        GroundTileType::LedgeBlock => 7,
        GroundTileType::Ledge(LMR::Left) => 8,
        GroundTileType::Ledge(LMR::Mid) => 9,
        GroundTileType::Ledge(LMR::Right) => 10,
        GroundTileType::LedgeCap(LR::Left) => 18,
        GroundTileType::LedgeCap(LR::Right) => 19,
    }
}

impl From<GroundTileType> for u16 {
    fn from(g: GroundTileType) -> (r: u16) {
        match g {
            GroundTileType::PlainBlock => 1,
            GroundTileType::Block => 0,
            GroundTileType::Ground(LMR::Left) => 15,
            GroundTileType::Ground(LMR::Mid) => 16,
            GroundTileType::Ground(LMR::Right) => 17,
            GroundTileType::Concave(LR::Left) => 5,
            GroundTileType::Concave(LR::Right) => 6,
            GroundTileType::Convex(LR::Left) => 3,
            GroundTileType::Convex(LR::Right) => 4,
            GroundTileType::Interior => 2,
            GroundTileType::Slope(Slope::DownLeft) => 14,
            GroundTileType::Slope(Slope::UpRight) => 11,
            GroundTileType::SlopeInt(Slope::DownLeft) => 13,
            GroundTileType::SlopeInt(Slope::UpRight) => 12,
            GroundTileType::LedgeBlock => 7,
            GroundTileType::Ledge(LMR::Left) => 8,
            GroundTileType::Ledge(LMR::Mid) => 9,
            GroundTileType::Ledge(LMR::Right) => 10,
            GroundTileType::LedgeCap(LR::Left) => 18,
            GroundTileType::LedgeCap(LR::Right) => 19,
        }
    }
}

impl FromSpecImpl<GroundTileType> for u16 {
    open spec fn obeys_from_spec() -> bool {
        true
    }

    open spec fn from_spec(v: GroundTileType) -> u16 {
        ground_tile_index(v)
    }
}

#[derive(Clone, Copy, PartialEq, Eq, Debug, Structural)]
pub enum GroundSet {
    Grass,
    Sand,
    Snow,
    Stone,
    Dirt,
    Castle,
    Cake,
    Choco,
    Tundra,
    Metal,
}

/// The sprite-sheet row of a ground set.
pub open spec fn ground_set_index(g: GroundSet) -> u16 {
    match g {
        GroundSet::Grass => 21,
        GroundSet::Sand => 23,
        GroundSet::Snow => 24,
        GroundSet::Stone => 22,
        GroundSet::Dirt => 20,
        GroundSet::Castle => 19,
        GroundSet::Cake => 25,
        GroundSet::Choco => 27,
        GroundSet::Tundra => 31,
        GroundSet::Metal => 32,
    }
}

impl From<GroundSet> for u16 {
    fn from(g: GroundSet) -> (r: u16) {
        match g {
            GroundSet::Grass => 21,
            GroundSet::Sand => 23,
            GroundSet::Snow => 24,
            GroundSet::Stone => 22,
            GroundSet::Dirt => 20,
            GroundSet::Castle => 19,
            GroundSet::Cake => 25,
            GroundSet::Choco => 27,
            GroundSet::Tundra => 31,
            GroundSet::Metal => 32,
        }
    }
}

impl FromSpecImpl<GroundSet> for u16 {
    open spec fn obeys_from_spec() -> bool {
        true
    }

    open spec fn from_spec(v: GroundSet) -> u16 {
        ground_set_index(v)
    }
}

#[derive(Clone, Copy, PartialEq, Eq, Debug, Structural)]
pub enum IglooPiece {
    Top(LMR),
    Interior,
    InteriorAlt,
    Door,
}

/// The offset of an igloo piece from the igloo block of the sheet.
pub open spec fn igloo_piece_index(t: IglooPiece) -> u16 {
    match t {
        IglooPiece::Top(LMR::Left) => 0,
        IglooPiece::Top(LMR::Mid) => 1,
        IglooPiece::Top(LMR::Right) => 2,
        IglooPiece::Interior => SHEET_W,
        IglooPiece::InteriorAlt => (1 + SHEET_W) as u16,
        IglooPiece::Door => (2 + SHEET_W) as u16,
    }
}

impl From<IglooPiece> for u16 {
    fn from(t: IglooPiece) -> (r: u16) {
        match t {
            IglooPiece::Top(LMR::Left) => 0,
            IglooPiece::Top(LMR::Mid) => 1,
            IglooPiece::Top(LMR::Right) => 2,
            IglooPiece::Interior => SHEET_W,
            IglooPiece::InteriorAlt => 1 + SHEET_W,
            IglooPiece::Door => 2 + SHEET_W,
        }
    }
}

impl FromSpecImpl<IglooPiece> for u16 {
    open spec fn obeys_from_spec() -> bool {
        true
    }

    open spec fn from_spec(v: IglooPiece) -> u16 {
        igloo_piece_index(v)
    }
}

#[derive(Clone, Copy, PartialEq, Eq, Debug, Structural)]
pub enum Tile {
    Ground(GroundTileType, GroundSet),
    Igloo(IglooPiece),
    Air,
}

/// The number of a tile in the sprite sheet: a ground tile is its type's
/// column in its set's row, an igloo piece is offset from column 20 of row 14.
pub open spec fn tile_index(t: Tile) -> int {
    match t {
        Tile::Air => 0,
        Tile::Ground(g, s) => ground_tile_index(g) + SHEET_W * ground_set_index(s),
        Tile::Igloo(piece) => 20 + SHEET_W * 14 + igloo_piece_index(piece),
    }
}

impl From<Tile> for u16 {
    fn from(t: Tile) -> (r: u16) {
        match t {
            Tile::Air => 0,
            Tile::Ground(t, s) => u16::from(t) + SHEET_W * u16::from(s),
            Tile::Igloo(piece) => 20 + SHEET_W * 14 + u16::from(piece),
        }
    }
}

impl FromSpecImpl<Tile> for u16 {
    open spec fn obeys_from_spec() -> bool {
        true
    }

    open spec fn from_spec(v: Tile) -> u16 {
        tile_index(v) as u16
    }
}

/// Every tile's number names a cell of the sprite sheet: it is below
/// `SHEET_W * SHEET_H`.
pub proof fn lemma_tile_index_in_sheet(t: Tile)
    ensures
        0 <= tile_index(t) < SHEET_W * SHEET_H,
{
}

} // verus!
