//! Tiles of the sprite sheet and their cells, zones, features, and the
//! level generator's brushes.

pub mod features;
pub mod tiling;
pub mod tiles;
pub mod render;

use vstd::prelude::*;
use vstd::std_specs::convert::FromSpecImpl;
use crate::assets::{SHEET_H, SHEET_W};

verus! {

/// The number that a variant adds to a sprite-sheet coordinate, as its `u16`
/// conversion gives it.
pub trait SheetOffset {
    spec fn offset(self) -> int;
}

/// The sprite-sheet cell (column, row) of a tile or of a part of one, as its
/// `(u16, u16)` conversion gives it.
pub trait SheetCell {
    spec fn cell(self) -> (int, int);
}

/// `u16::from` on a `bool` is `1` for `true` and `0` for `false`.
pub assume_specification[ <u16 as core::convert::From<bool>>::from ](b: bool) -> (r: u16)
    ensures
        r == (if b { 1u16 } else { 0u16 }),
;

impl SheetOffset for bool {
    open spec fn offset(self) -> int {
        if self { 1 } else { 0 }
    }
}

type Index = (u16, u16);

type Alt = bool;

#[derive(Clone, Copy, PartialEq, Eq, Debug, Structural)]
pub enum Alt3 {
    Alt0,
    Alt1,
    Alt2,
}

/// The sprite-sheet offset that a `Alt3` stands for.
pub open spec fn alt3_offset(a: Alt3) -> int {
    match a {
        Alt3::Alt0 => 0,
        Alt3::Alt1 => 1,
        Alt3::Alt2 => 2,
    }
}

impl From<Alt3> for u16 {
    fn from(a: Alt3) -> (ret: u16) {
        match a {
            Alt3::Alt0 => {
                return 0;
            },
            Alt3::Alt1 => {
                return 1;
            },
            Alt3::Alt2 => {
                return 2;
            },
        }
    }
}

impl FromSpecImpl<Alt3> for u16 {
    open spec fn obeys_from_spec() -> bool {
        true
    }

    open spec fn from_spec(v: Alt3) -> u16 {
        alt3_offset(v) as u16
    }
}

#[derive(Clone, Copy, PartialEq, Eq, Debug, Structural)]
pub enum Alt5 {
    Alt0,
    Alt1,
    Alt2,
    Alt3,
    Alt4,
}

/// The sprite-sheet offset that a `Alt5` stands for.
pub open spec fn alt5_offset(a: Alt5) -> int {
    match a {
        Alt5::Alt0 => 0,
        Alt5::Alt1 => 1,
        Alt5::Alt2 => 2,
        Alt5::Alt3 => 3,
        Alt5::Alt4 => 4,
    }
}

impl From<Alt5> for u16 {
    fn from(a: Alt5) -> (ret: u16) {
        match a {
            Alt5::Alt0 => {
                return 0;
            },
            Alt5::Alt1 => {
                return 1;
            },
            Alt5::Alt2 => {
                return 2;
            },
            Alt5::Alt3 => {
                return 3;
            },
            Alt5::Alt4 => {
                return 4;
            },
        }
    }
}

impl FromSpecImpl<Alt5> for u16 {
    open spec fn obeys_from_spec() -> bool {
        true
    }

    open spec fn from_spec(v: Alt5) -> u16 {
        alt5_offset(v) as u16
    }
}

#[derive(Clone, Copy, PartialEq, Eq, Debug, Structural)]
pub enum Terrain {
    Cake,
    Choco,
    Metal,
    Tundra,
    Castle,
    Dirt,
    Grass,
    Stone,
    Sand,
    Snow,
    Industrial,
}

/// The sprite-sheet cell (column, row) of a `Terrain`.
pub open spec fn terrain_cell(t: Terrain) -> (int, int) {
    match t {
        Terrain::Cake => (0, 0),
        Terrain::Choco => (0, 4),
        Terrain::Metal => (0, 8),
        Terrain::Tundra => (0, 12),
        Terrain::Castle => (0, 16),
        Terrain::Dirt => (0, 20),
        Terrain::Grass => (0, 24),
        Terrain::Stone => (0, 28),
        Terrain::Sand => (0, 32),
        Terrain::Snow => (0, 36),
        Terrain::Industrial => (0, 40),
    }
}

impl From<Terrain> for Index {
    fn from(t: Terrain) -> (ret: Index) {
        match t {
            Terrain::Cake => {
                return (0, 0);
            },
            Terrain::Choco => {
                return (0, 4);
            },
            Terrain::Metal => {
                return (0, 8);
            },
            Terrain::Tundra => {
                return (0, 12);
            },
            Terrain::Castle => {
                return (0, 16);
            },
            Terrain::Dirt => {
                return (0, 20);
            },
            Terrain::Grass => {
                return (0, 24);
            },
            Terrain::Stone => {
                return (0, 28);
            },
            Terrain::Sand => {
                return (0, 32);
            },
            Terrain::Snow => {
                return (0, 36);
            },
            Terrain::Industrial => {
                return (0, 40);
            },
        }
    }
}

impl FromSpecImpl<Terrain> for Index {
    open spec fn obeys_from_spec() -> bool {
        true
    }

    open spec fn from_spec(v: Terrain) -> Index {
        (terrain_cell(v).0 as u16, terrain_cell(v).1 as u16)
    }
}

#[derive(Clone, Copy, PartialEq, Eq, Debug, Structural)]
pub enum LR {
    L,
    R,
}

/// The other side.
pub open spec fn spec_flip(lr: LR) -> LR {
    match lr {
        LR::L => LR::R,
        LR::R => LR::L,
    }
}

impl LR {
    /// The other side.
    pub fn flip(self) -> (r: LR)
        ensures
            r == spec_flip(self),
    {
        match self {
            LR::L => LR::R,
            LR::R => LR::L,
        }
    }
}

/// The sprite-sheet offset that a `LR` stands for.
pub open spec fn lr_offset(lr: LR) -> int {
    match lr {
        LR::L => 0,
        LR::R => 1,
    }
}

impl From<LR> for u16 {
    fn from(lr: LR) -> (ret: u16) {
        match lr {
            LR::L => {
                return 0;
            },
            LR::R => {
                return 1;
            },
        }
    }
}

impl FromSpecImpl<LR> for u16 {
    open spec fn obeys_from_spec() -> bool {
        true
    }

    open spec fn from_spec(v: LR) -> u16 {
        lr_offset(v) as u16
    }
}

/// The direction, as `-1`, `0` or `1`, of a `LR`.
pub open spec fn lr_sign(lr: LR) -> int {
    match lr {
        LR::L => -1,
        LR::R => 1,
    }
}

impl From<LR> for i32 {
    fn from(lr: LR) -> (ret: i32) {
        match lr {
            LR::L => {
                return -1;
            },
            LR::R => {
                return 1;
            },
        }
    }
}

impl FromSpecImpl<LR> for i32 {
    open spec fn obeys_from_spec() -> bool {
        true
    }

    open spec fn from_spec(v: LR) -> i32 {
        lr_sign(v) as i32
    }
}

#[derive(Clone, Copy, PartialEq, Eq, Debug, Structural)]
pub enum LMR {
    L,
    M,
    R,
}

/// The sprite-sheet offset that a `LMR` stands for.
pub open spec fn lmr_offset(lmr: LMR) -> int {
    match lmr {
        LMR::L => 0,
        LMR::M => 1,
        LMR::R => 2,
    }
}

impl From<LMR> for u16 {
    fn from(lmr: LMR) -> (ret: u16) {
        match lmr {
            LMR::L => {
                return 0;
            },
            LMR::M => {
                return 1;
            },
            LMR::R => {
                return 2;
            },
        }
    }
}

impl FromSpecImpl<LMR> for u16 {
    open spec fn obeys_from_spec() -> bool {
        true
    }

    open spec fn from_spec(v: LMR) -> u16 {
        lmr_offset(v) as u16
    }
}

/// The direction, as `-1`, `0` or `1`, of a `LMR`.
pub open spec fn lmr_sign(lmr: LMR) -> int {
    match lmr {
        LMR::L => -1,
        LMR::M => 0,
        LMR::R => 1,
    }
}

impl From<LMR> for i32 {
    fn from(lmr: LMR) -> (ret: i32) {
        match lmr {
            LMR::L => {
                return -1;
            },
            LMR::M => {
                return 0;
            },
            LMR::R => {
                return 1;
            },
        }
    }
}

impl FromSpecImpl<LMR> for i32 {
    open spec fn obeys_from_spec() -> bool {
        true
    }

    open spec fn from_spec(v: LMR) -> i32 {
        lmr_sign(v) as i32
    }
}

#[derive(Clone, Copy, PartialEq, Eq, Debug, Structural)]
pub enum TB {
    T,
    B,
}

/// The sprite-sheet offset that a `TB` stands for.
pub open spec fn tb_offset(tb: TB) -> int {
    match tb {
        TB::T => 0,
        TB::B => 1,
    }
}

impl From<TB> for u16 {
    fn from(tb: TB) -> (ret: u16) {
        match tb {
            TB::T => {
                return 0;
            },
            TB::B => {
                return 1;
            },
        }
    }
}

impl FromSpecImpl<TB> for u16 {
    open spec fn obeys_from_spec() -> bool {
        true
    }

    open spec fn from_spec(v: TB) -> u16 {
        tb_offset(v) as u16
    }
}

/// The direction, as `-1`, `0` or `1`, of a `TB`.
pub open spec fn tb_sign(tb: TB) -> int {
    match tb {
        TB::T => 1,
        TB::B => -1,
    }
}

impl From<TB> for i32 {
    fn from(tb: TB) -> (ret: i32) {
        match tb {
            TB::T => {
                return 1;
            },
            TB::B => {
                return -1;
            },
        }
    }
}

impl FromSpecImpl<TB> for i32 {
    open spec fn obeys_from_spec() -> bool {
        true
    }

    open spec fn from_spec(v: TB) -> i32 {
        tb_sign(v) as i32
    }
}

#[derive(Clone, Copy, PartialEq, Eq, Debug, Structural)]
pub enum TMB {
    T,
    M,
    B,
}

/// The sprite-sheet offset that a `TMB` stands for.
pub open spec fn tmb_offset(tmb: TMB) -> int {
    match tmb {
        TMB::T => 0,
        TMB::M => 1,
        TMB::B => 2,
    }
}

impl From<TMB> for u16 {
    fn from(tmb: TMB) -> (ret: u16) {
        match tmb {
            TMB::T => {
                return 0;
            },
            TMB::M => {
                return 1;
            },
            TMB::B => {
                return 2;
            },
        }
    }
}

impl FromSpecImpl<TMB> for u16 {
    open spec fn obeys_from_spec() -> bool {
        true
    }

    open spec fn from_spec(v: TMB) -> u16 {
        tmb_offset(v) as u16
    }
}

/// The direction, as `-1`, `0` or `1`, of a `TMB`.
pub open spec fn tmb_sign(tmb: TMB) -> int {
    match tmb {
        TMB::T => 1,
        TMB::M => 0,
        TMB::B => -1,
    }
}

impl From<TMB> for i32 {
    fn from(tmb: TMB) -> (ret: i32) {
        match tmb {
            TMB::T => {
                return 1;
            },
            TMB::M => {
                return 0;
            },
            TMB::B => {
                return -1;
            },
        }
    }
}

impl FromSpecImpl<TMB> for i32 {
    open spec fn obeys_from_spec() -> bool {
        true
    }

    open spec fn from_spec(v: TMB) -> i32 {
        tmb_sign(v) as i32
    }
}

#[derive(Clone, Copy, PartialEq, Eq, Debug, Structural)]
pub enum LRTB {
    L,
    R,
    T,
    B,
}

#[derive(Clone, Copy, PartialEq, Eq, Debug, Structural)]
pub enum TerrainTile {
    RoundLedge(LR),
    OverLedge(LR),
    SlopeLedge(LR),
    BlockLedge(LR),
    BlockFace(LMR, TMB),
    Slope(LR),
    SlopeInt(LR),
    Cap(LR),
    FaceInt(LR, TB),
    RockSlope(LR, TB),
    Block,
    BareBlock,
    Single,
    SingleBare,
    SingleHalf(Alt),
    Half(Alt, LMR),
    Jagged,
}

/// The sprite-sheet cell (column, row) of a `TerrainTile`.
pub open spec fn terrain_tile_cell(t: TerrainTile) -> (int, int) {
    match t {
        TerrainTile::RoundLedge(lr) => (0 + lr.offset(), 0),
        TerrainTile::OverLedge(lr) => (2 + lr.offset(), 0),
        TerrainTile::SlopeLedge(lr) => (4 + lr.offset(), 0),
        TerrainTile::BlockLedge(lr) => (6 + lr.offset(), 0),
        TerrainTile::BlockFace(lmr, tmb) => (lmr.offset(), 1 + tmb.offset()),
        TerrainTile::Slope(lr) => (3 + lr.offset(), 1),
        TerrainTile::SlopeInt(lr) => (3 + lr.offset(), 2),
        TerrainTile::Cap(lr) => (6 + lr.offset(), 3),
        TerrainTile::FaceInt(lr, tb) => (5 + lr.offset(), 2 - tb.offset()),
        TerrainTile::RockSlope(lr, tb) => (9 + lr.offset(), 2 + tb.offset()),
        TerrainTile::Block => (8, 2),
        TerrainTile::BareBlock => (3, 3),
        TerrainTile::Single => (4, 3),
        TerrainTile::SingleBare => (5, 3),
        TerrainTile::SingleHalf(a) => (8, a.offset()),
        TerrainTile::Half(a, lmr) => (9 + lmr.offset(), a.offset()),
        TerrainTile::Jagged => (8, 3),
    }
}

impl From<TerrainTile> for Index {
    fn from(t: TerrainTile) -> (ret: Index) {
        match t {
            TerrainTile::RoundLedge(lr) => {
                return (0 + u16::from(lr), 0);
            },
            TerrainTile::OverLedge(lr) => {
                return (2 + u16::from(lr), 0);
            },
            TerrainTile::SlopeLedge(lr) => {
                return (4 + u16::from(lr), 0);
            },
            TerrainTile::BlockLedge(lr) => {
                return (6 + u16::from(lr), 0);
            },
            TerrainTile::BlockFace(lmr, tmb) => {
                return (u16::from(lmr), 1 + u16::from(tmb));
            },
            TerrainTile::Slope(lr) => {
                return (3 + u16::from(lr), 1);
            },
            TerrainTile::SlopeInt(lr) => {
                return (3 + u16::from(lr), 2);
            },
            TerrainTile::Cap(lr) => {
                return (6 + u16::from(lr), 3);
            },
            TerrainTile::FaceInt(lr, tb) => {
                return (5 + u16::from(lr), 2 - u16::from(tb));
            },
            TerrainTile::RockSlope(lr, tb) => {
                return (9 + u16::from(lr), 2 + u16::from(tb));
            },
            TerrainTile::Block => {
                return (8, 2);
            },
            TerrainTile::BareBlock => {
                return (3, 3);
            },
            TerrainTile::Single => {
                return (4, 3);
            },
            TerrainTile::SingleBare => {
                return (5, 3);
            },
            TerrainTile::SingleHalf(a) => {
                return (8, u16::from(a));
            },
            TerrainTile::Half(a, lmr) => {
                return (9 + u16::from(lmr), u16::from(a));
            },
            TerrainTile::Jagged => {
                return (8, 3);
            },
        }
    }
}

impl FromSpecImpl<TerrainTile> for Index {
    open spec fn obeys_from_spec() -> bool {
        true
    }

    open spec fn from_spec(v: TerrainTile) -> Index {
        (terrain_tile_cell(v).0 as u16, terrain_tile_cell(v).1 as u16)
    }
}

#[derive(Clone, Copy, PartialEq, Eq, Debug, Structural)]
pub enum RockType {
    Sandstone,
    Slate,
    Stone,
}

/// The sprite-sheet cell (column, row) of a `RockType`.
pub open spec fn rock_type_cell(rt: RockType) -> (int, int) {
    match rt {
        RockType::Sandstone => (12, 0),
        RockType::Slate => (12, 3),
        RockType::Stone => (12, 6),
    }
}

impl From<RockType> for Index {
    fn from(rt: RockType) -> (ret: Index) {
        match rt {
            RockType::Sandstone => {
                return (12, 0);
            },
            RockType::Slate => {
                return (12, 3);
            },
            RockType::Stone => {
                return (12, 6);
            },
        }
    }
}

impl FromSpecImpl<RockType> for Index {
    open spec fn obeys_from_spec() -> bool {
        true
    }

    open spec fn from_spec(v: RockType) -> Index {
        (rock_type_cell(v).0 as u16, rock_type_cell(v).1 as u16)
    }
}

#[derive(Clone, Copy, PartialEq, Eq, Debug, Structural)]
pub enum Roof {
    Brick,
    Slate,
    Straw,
}

/// The sprite-sheet cell (column, row) of a `Roof`.
pub open spec fn roof_cell(r: Roof) -> (int, int) {
    match r {
        Roof::Brick => (16, 0),
        Roof::Slate => (16, 3),
        Roof::Straw => (16, 6),
    }
}

impl From<Roof> for Index {
    fn from(r: Roof) -> (ret: Index) {
        match r {
            Roof::Brick => {
                return (16, 0);
            },
            Roof::Slate => {
                return (16, 3);
            },
            Roof::Straw => {
                return (16, 6);
            },
        }
    }
}

impl FromSpecImpl<Roof> for Index {
    open spec fn obeys_from_spec() -> bool {
        true
    }

    open spec fn from_spec(v: Roof) -> Index {
        (roof_cell(v).0 as u16, roof_cell(v).1 as u16)
    }
}

#[derive(Clone, Copy, PartialEq, Eq, Debug, Structural)]
pub enum CaveTile {
    Slope(LR, TB),
    Spike(TB),
    Jagged(TB),
    BigRock,
    SmallRock,
}

/// The sprite-sheet cell (column, row) of a `CaveTile`.
pub open spec fn cave_tile_cell(c: CaveTile) -> (int, int) {
    match c {
        CaveTile::Slope(lr, tb) => (19 + lr.offset(), tb.offset()),
        CaveTile::Spike(tb) => (21, tb.offset()),
        CaveTile::Jagged(tb) => (22, tb.offset()),
        CaveTile::BigRock => (23, 0),
        CaveTile::SmallRock => (23, 1),
    }
}

impl From<CaveTile> for Index {
    fn from(c: CaveTile) -> (ret: Index) {
        match c {
            CaveTile::Slope(lr, tb) => {
                return (19 + u16::from(lr), u16::from(tb));
            },
            CaveTile::Spike(tb) => {
                return (21, u16::from(tb));
            },
            CaveTile::Jagged(tb) => {
                return (22, u16::from(tb));
            },
            CaveTile::BigRock => {
                return (23, 0);
            },
            CaveTile::SmallRock => {
                return (23, 1);
            },
        }
    }
}

impl FromSpecImpl<CaveTile> for Index {
    open spec fn obeys_from_spec() -> bool {
        true
    }

    open spec fn from_spec(v: CaveTile) -> Index {
        (cave_tile_cell(v).0 as u16, cave_tile_cell(v).1 as u16)
    }
}

#[derive(Clone, Copy, PartialEq, Eq, Debug, Structural)]
pub enum Cave {
    Dirt,
    Stone,
}

#[derive(Clone, Copy, PartialEq, Eq, Debug, Structural)]
pub enum Color4 {
    Y,
    R,
    G,
    B,
}

/// The sprite-sheet offset that a `Color4` stands for.
pub open spec fn color4_offset(c: Color4) -> int {
    match c {
        Color4::Y => 0,
        Color4::R => 1,
        Color4::G => 2,
        Color4::B => 3,
    }
}

impl From<Color4> for u16 {
    fn from(c: Color4) -> (ret: u16) {
        match c {
            Color4::Y => {
                return 0;
            },
            Color4::R => {
                return 1;
            },
            Color4::G => {
                return 2;
            },
            Color4::B => {
                return 3;
            },
        }
    }
}

impl FromSpecImpl<Color4> for u16 {
    open spec fn obeys_from_spec() -> bool {
        true
    }

    open spec fn from_spec(v: Color4) -> u16 {
        color4_offset(v) as u16
    }
}

#[derive(Clone, Copy, PartialEq, Eq, Debug, Structural)]
pub enum TreeTile {
    Top { snow: bool },
    PineBranch { snow: bool, lr: LR, double: bool },
    PineTrunk,
}

/// The sprite-sheet cell (column, row) of a `TreeTile`.
pub open spec fn tree_tile_cell(tt: TreeTile) -> (int, int) {
    match tt {
        TreeTile::Top { snow } => (17, 16 + snow.offset()),
        TreeTile::PineBranch { snow, lr, double } => (
            20 + lr.offset() - 2 * snow.offset(),
            16 + double.offset(),
        ),
        TreeTile::PineTrunk => (22, 17),
    }
}

impl From<TreeTile> for Index {
    fn from(tt: TreeTile) -> (ret: Index) {
        match tt {
            TreeTile::Top { snow } => {
                return (17, 16 + u16::from(snow));
            },
            TreeTile::PineBranch { snow, lr, double } => {
                return (
                20 + u16::from(lr) - 2 * u16::from(snow),
                16 + u16::from(double),
            );
            },
            TreeTile::PineTrunk => {
                return (22, 17);
            },
        }
    }
}

impl FromSpecImpl<TreeTile> for Index {
    open spec fn obeys_from_spec() -> bool {
        true
    }

    open spec fn from_spec(v: TreeTile) -> Index {
        (tree_tile_cell(v).0 as u16, tree_tile_cell(v).1 as u16)
    }
}

#[derive(Clone, Copy, PartialEq, Eq, Debug, Structural)]
pub enum MushroomStyle {
    Caramel,
    Brown,
    Red,
    White,
}

/// The mushroom style numbered `n`, in declaration order.
pub open spec fn spec_mushroom_style_from_u64(n: u64) -> Option<MushroomStyle> {
    if n == 0 {
        Some(MushroomStyle::Caramel)
    } else if n == 1 {
        Some(MushroomStyle::Brown)
    } else if n == 2 {
        Some(MushroomStyle::Red)
    } else if n == 3 {
        Some(MushroomStyle::White)
    } else {
        None
    }
}

impl MushroomStyle {
    /// The number of styles.
    pub const CARDINALITY: u64 = 4;

    /// The style numbered `n`, in declaration order.
    pub fn from_u64(n: u64) -> (r: Option<MushroomStyle>)
        ensures
            r == spec_mushroom_style_from_u64(n),
    {
        if n == 0 {
            Some(MushroomStyle::Caramel)
        } else if n == 1 {
            Some(MushroomStyle::Brown)
        } else if n == 2 {
            Some(MushroomStyle::Red)
        } else if n == 3 {
            Some(MushroomStyle::White)
        } else {
            None
        }
    }
}

#[derive(Clone, Copy, PartialEq, Eq, Debug, Structural)]
pub enum Tile {
    Air,

    Terrain(Terrain, TerrainTile),
    MetalTri,
    MetalYellowSquare,

    Building(RockType, LMR, TMB),
    BuildingInt(RockType, Alt),
    Roof(Roof, LMR, TB),

    Cave(Cave, CaveTile),

    BigSnowball,
    SmallSnowball,
    GroundSnowball,
    SnowPile,

    GreenArrow(LRTB),

    MetalFence(LMR),
    MetalUpper,
    MetalUpperWire {
        long: bool,
    },
    GirderSmall {
        bolts: bool,
    },
    Girder {
        bolts: bool,
    },
    GirderHoles {
        bolts: bool,
    },
    Railing(Alt),
    Beam(LR),
    Strut(LR, TB),
    Hook(TB),

    Gummy(Color4),
    Cherry,
    Heart,
    Cone,
    CookieBlackWhite,
    CookieBeigeBrown,
    CookieBeigePink,
    IcecreamBeige,
    IcecreamWhite,
    IcecreamPink,
    IcecreamBrown,
    WaferWhite,
    WaferPink,
    WaferBrown,
    GummyWormHookGreenYellow,
    GummyWormLoopGreenYellow,
    GummyWormTailGreenYellow,
    GummyWormHookRedWhite,
    GummyWormLoopRedWhite,
    GummyWormTailRedWhite,
    CandyPoleBrown(TB),
    CandyPoleGreen(TB),
    CandyPolePink(TB),
    CandyPoleRed(TB),
    LittleCandyCaneRed,
    CandyCaneBaseRed,
    CandyCaneTopRed(Alt),
    LittleCandyCaneGreen,
    CandyCaneBaseGreen,
    CandyCaneTopGreen(Alt),
    LittleCandyCanePink,
    CandyCaneBasePink,
    CandyCaneTopPink(Alt),
    LollipopStickWhite,
    LollipopStickBeige,
    LollipopStickBrown,
    LollipopBaseBeige,
    LollipopBasePink,
    LollipopGreen,
    LollipopRed,
    LollipopYellow,
    LollipopGreenSwirl(Alt),
    LollipopRedSwirl(Alt),

    MetalBoxWire(Alt),
    MetalBoxCross(Alt),
    MetalBoxSlash(Alt),
    MetalBoxBlank(Alt),

    SlimeSingle(TB),
    Slime(LMR, TB),
    SlimeBubble(TB),

    PineTree(TreeTile),
    TrunkStraight,
    TrunkFork(LR),
    TrunkDeadFork,
    TrunkKnotBranch(LR),
    TrunkBranch(LMR),
    TrunkBase,
    TrunkBaseNarrow,
    TrunkBaseSnow,
    TrunkBaseSnowPile,

    LavaWave,
    LavaSingle,
    Lava,
    WaterWave,
    WaterSingle,
    Water,
    IceWaterWave,
    IceWaterSingle,
    IceWater,
    SparklingWaterWave,
    SparklingWaterSingle,
    SparklingWater,
    DeepWater(Alt),
    IceBlock,
    SparkleIceBlock,
    IceHalf,
    SparkleIceHalf,

    MushroomBlock(MushroomStyle, Alt, LMR),
    MushroomStemBlock(MushroomStyle, Alt),
    MushroomStemTop(Alt),
    MushroomStemLeaf,
    MushroomStemRing(Alt),
    MushroomStem,
    MushroomStemBase(Alt),
    MushroomWhite(Alt),
    MushroomRed(Alt),
    MushroomBrown(Alt),

    BrickBlock,
    StoneBlock,
    CrateBlank,
    CrateSlash,
    CrateCross,
    CrateSquareBang,
    CrateTriangleBang,
    BangBox {
        empty: bool,
        alt: Alt,
    },
    CoinBox {
        empty: bool,
        alt: Alt,
    },
    TriangleBangBoxAlt {
        empty: bool,
    },

    CrenellationOverhang(LR, Alt),
    Crenellation(Alt),
    CrenellationBroken(Alt),
    CrenellationHalf,
    CrenellationHalfBroken,
    CrenellationHalfOpen,

    SnowSlope(LR),
    SnowPileBig,
    SnowPileSmall,
    SnowPileLow(LMR),
    SnowDrift,
    Icicle(TB, Alt3),

    Gate(LMR, TB, Alt),
    GateDoor(LMR, TB, Alt),
    GateSpikes(LMR, TB),
    GateBars(LMR, TB),

    GrassTuft,
    Cactus,
    Sapling,
    SaplingTall,
    IceTuft,
    IceCrystal,
    PurpleCrystal,
    Moss,
    IceMoss,
    Rock,
    IceRock(Alt),
    MossRock(Alt),
    FrozenShrub,
    StoneSpike,
    StoneSpike2(TB),
    IglooTop(LMR),
    IglooInterior(Alt),
    IglooDoor,

    Laser,
    Laser2,
    Fireball,
    Brick(Alt),
    StoneBrick(Alt),
    Star,

    TranslucentWindow(Color4),
    TranslucentWindowBox(Color4),
    BarrelSide(Color4),
    Barrel(Color4),
    LightStick(Color4),
    Light(Color4),
    Key(Color4),
    Crystal(Color4),
    FlagFrame1(Color4),
    FlagFrame2(Color4),
    FallenFlag(Color4),
    Button {
        pressed: bool,
        color: Color4,
    },
    Lock(Color4),
    LaserLever(LR, Color4),
    LaserSpark(Color4),
    LaserBeamH(Color4),
    LaserBeamV(Color4),
    TranslucentBarrel(Color4),
    Zapper(LRTB, Alt),
    Lever(LMR),
    Chain,
    Weight,
    WeightChain,
    Spring,
    SpringUp,
    Grinder(Alt),
    HalfGrinder(Alt),

    CoinBronze,
    CoinSilver,
    CoinGold,
    SwordBronze,
    SwordSilver,
    SwordGold,
    ShieldBronze,
    ShieldSilver,
    ShieldGold,
    PurpleGun,
    PurpleGunFiring,
    SilverGun,
    SilverGunFiring,
    Bomb,
    BombFlash,

    Chimney(Alt3),
    SignBed {
        hanging: bool,
    },
    SignCoin {
        hanging: bool,
    },
    SignMug {
        hanging: bool,
    },
    TorchHolder,
    Torch(LR),
    Umbrella {
        open: bool,
    },
    Clock,
    WeatherVane,
    Shade(Alt3),
    RopeVHook,
    RopeH,
    RopeV,
    Fence(Alt),
    FenceBroken,
    FenceLow,
    FenceOpen,
    FenceLowerHalf,
    FenceLower,
    Bridge,
    BridgeLog,
    SignExit,
    SignArrow(LR),
    SignBlank,

    DoorwayGrey(TB),
    DoorwayBeige(TB),
    DoorLockedGrey(TB),
    DoorLockedBeige(TB),
    DoorInsetBeige(TB),
    DoorTopWindow,
    DoorBeige,
    WindowOpenHalf,
    WindowStainedHalf,
    WindowOpen,
    Window(Alt3),
    HighWindowOpen(TMB),
    HighWindow(TMB, Alt3),

    CastleWindowOpenSmall(Alt),
    CastleWindowShutSmall(Alt),
    CastleWindowOpen(Alt),
    CastleWindowShut(Alt),
    CastleWindowOpenHigh(Alt, TMB),
    CastleWindowShutHigh(Alt, TMB),
    CastleWindowOpenSlit(Alt, TMB),
    CastleWindowShutSlit(Alt, TMB),
    CastleWindowOpenHighAlt(Alt),
    CastleWindowShutHighAlt(Alt),
    CastleWindowOpenSlitAlt(Alt),
    CastleWindowShutSlitAlt(Alt),

    BannerSmallRed(TMB, Alt),
    BannerSmallGreen(TMB, Alt),
    TapestryMidRed(Alt5),
    TapestryMidGreen(Alt5),
    TapestryBottomRed(Alt),
    TapestryBottomGreen(Alt),
    BannerRed(Alt5),
    BannerGreen(Alt5),

    FlagWoodRedFrame1(LR),
    FlagWoodRedFrame2(LR),
    FlagWoodGreenFrame1(LR),
    FlagWoodGreenFrame2(LR),
    FlagWoodLongRedFrame1(LR),
    FlagWoodLongRedFrame2(LR),
    FlagWoodLongGreenFrame1(LR),
    FlagWoodLongGreenFrame2(LR),
    FlagWoodTipRedFrame1(LR),
    FlagWoodTipRedFrame2(LR),
    FlagWoodTipGreenFrame1(LR),
    FlagWoodTipGreenFrame2(LR),
    FlagpoleTop(LMR),
    Flagpole(LMR),
    FlagpoleAlt(Alt),
    FallenFlagRed(LR),
    FallenFlagGreen(LR),
    FlagBase(Alt),
    TorchWood(LR),

    Console {
        lmr: Option<LMR>,
        on: bool,
        knobs: bool,
    },
    ConsoleButtons(LMR),
    ConsoleButtonsSmall(LMR),
    Shelves(TB),
    ShelvesNarrow(TB),
    Pillar(TMB),
    BangSticker,
    DiamondSticker,
    CoinSticker,
    TapeYellow(Alt5),
    TapeRed(Alt5),

    CrenellationsBrickTop(LMR),
    CrenellationsBrick(LMR),

    TapestryHolder(LR),
    TapestryTopRed,
    TapestryTopGreen,

    CastleStoneWall(Alt3),
    Castle(Alt, LMR, TMB),
    CastleBeamSlash(Alt, LMR),
    CastleBeamCross(Alt, LMR),
    CastleBeamSlats(Alt, TMB),
    CastleSlash(Alt, TMB),
    CastleBeamSlashV(Alt, TB),
    CastleSlat(Alt),

    CastleRoof(Alt, Alt),
    CastleRoofPeak(Alt, LR),
    CastleRoofSlope(Alt, LR),
    CastleRoofBend(Alt, LR),
    CastleRoofPeakBase(Alt, LR),
    CastleRoofLow(Alt, LR),
    CastleRoofLowCont(Alt, LR),
}

/// The cells of the tiles `Air` to `SmallSnowball`; other tiles are sent to the first cell.
pub open spec fn tile_cell_group0(t: Tile) -> (int, int) {
    match t {
        Tile::Air => (12, 32),
        Tile::Terrain(t, tt) => {
                let (x1, y1): (int, int) = t.cell();
                let (x2, y2): (int, int) = tt.cell();
                (x1 + x2, y1 + y2)
            },
        Tile::MetalTri => (7, 9),
        Tile::MetalYellowSquare => (7, 10),
        Tile::Building(rt, lmb, tmb) => (
                rt.cell().0 + lmb.offset(),
                rt.cell().1 + tmb.offset(),
            ),
        Tile::BuildingInt(rt, a) => (rt.cell().0 + 3, rt.cell().1 + a.offset()),
        Tile::Roof(r, lmr, tb) => (
                r.cell().0 + lmr.offset(),
                r.cell().1 + tb.offset(),
            ),
        Tile::Cave(c, ct) => (
                ct.cell().0,
                ct.cell().1
                    + match c {
                        Cave::Dirt => 0int,
                        Cave::Stone => 2int,
                    },
            ),
        Tile::BigSnowball => (23, 4),
        Tile::SmallSnowball => (22, 5),
        _ => (0, 0),
    }
}

/// The cell of a tile among `Air` to `SmallSnowball`.
fn tile_index_group0(t: Tile) -> (ret: Index)
    ensures
        ret.0 == tile_cell_group0(t).0,
        ret.1 == tile_cell_group0(t).1,
{
    match t {
        Tile::Air => {
            return (12, 32);
        },
        Tile::Terrain(t, tt) => {
            return {
                let (x1, y1) = Index::from(t);
                let (x2, y2) = Index::from(tt);
                (x1 + x2, y1 + y2)
            };
        },
        Tile::MetalTri => {
            return (7, 9);
        },
        Tile::MetalYellowSquare => {
            return (7, 10);
        },
        Tile::Building(rt, lmb, tmb) => {
            return (
                Index::from(rt).0 + u16::from(lmb),
                Index::from(rt).1 + u16::from(tmb),
            );
        },
        Tile::BuildingInt(rt, a) => {
            return (Index::from(rt).0 + 3, Index::from(rt).1 + u16::from(a));
        },
        Tile::Roof(r, lmr, tb) => {
            return (
                Index::from(r).0 + u16::from(lmr),
                Index::from(r).1 + u16::from(tb),
            );
        },
        Tile::Cave(c, ct) => {
            return (
                Index::from(ct).0,
                Index::from(ct).1
                    + match c {
                        Cave::Dirt => 0,
                        Cave::Stone => 2,
                    },
            );
        },
        Tile::BigSnowball => {
            return (23, 4);
        },
        Tile::SmallSnowball => {
            return (22, 5);
        },
        _ => {
            return (0, 0);
        },
    }
}

/// The cells of the tiles `GroundSnowball` to `Railing`; other tiles are sent to the first cell.
pub open spec fn tile_cell_group1(t: Tile) -> (int, int) {
    match t {
        Tile::GroundSnowball => (21, 5),
        Tile::SnowPile => (22, 4),
        Tile::GreenArrow(lrtb) => match lrtb {
                LRTB::L => (22, 6),
                LRTB::R => (24, 6),
                LRTB::T => (23, 5),
                LRTB::B => (23, 7),
            },
        Tile::MetalFence(lmr) => (24 + lmr.offset(), 0),
        Tile::MetalUpper => (24, 1),
        Tile::MetalUpperWire { long } => (25 + long.offset(), 1),
        Tile::GirderSmall { bolts } => (24 + bolts.offset(), 2),
        Tile::Girder { bolts } => (26 + bolts.offset(), 3),
        Tile::GirderHoles { bolts } => (24 + bolts.offset(), 2),
        Tile::Railing(a) => (26 + a.offset(), 2),
        _ => (0, 0),
    }
}

/// The cell of a tile among `GroundSnowball` to `Railing`.
fn tile_index_group1(t: Tile) -> (ret: Index)
    ensures
        ret.0 == tile_cell_group1(t).0,
        ret.1 == tile_cell_group1(t).1,
{
    match t {
        Tile::GroundSnowball => {
            return (21, 5);
        },
        Tile::SnowPile => {
            return (22, 4);
        },
        Tile::GreenArrow(lrtb) => {
            return match lrtb {
                LRTB::L => (22, 6),
                LRTB::R => (24, 6),
                LRTB::T => (23, 5),
                LRTB::B => (23, 7),
            };
        },
        Tile::MetalFence(lmr) => {
            return (24 + u16::from(lmr), 0);
        },
        Tile::MetalUpper => {
            return (24, 1);
        },
        Tile::MetalUpperWire { long } => {
            return (25 + u16::from(long), 1);
        },
        Tile::GirderSmall { bolts } => {
            return (24 + u16::from(bolts), 2);
        },
        Tile::Girder { bolts } => {
            return (26 + u16::from(bolts), 3);
        },
        Tile::GirderHoles { bolts } => {
            return (24 + u16::from(bolts), 2);
        },
        Tile::Railing(a) => {
            return (26 + u16::from(a), 2);
        },
        _ => {
            return (0, 0);
        },
    }
}

/// The cells of the tiles `Beam` to `CookieBeigePink`; other tiles are sent to the first cell.
pub open spec fn tile_cell_group2(t: Tile) -> (int, int) {
    match t {
        Tile::Beam(lr) => (24 + lr.offset(), 4),
        Tile::Strut(lr, tb) => (26 + lr.offset(), 4 + tb.offset()),
        Tile::Hook(tb) => (24 + tb.offset(), 5),
        Tile::Gummy(c) => (12, 12 - c.offset()),
        Tile::Cherry => (13, 9),
        Tile::Heart => (17, 9),
        Tile::Cone => (17, 10),
        Tile::CookieBlackWhite => (13, 10),
        Tile::CookieBeigeBrown => (14, 10),
        Tile::CookieBeigePink => (14, 9),
        _ => (0, 0),
    }
}

/// The cell of a tile among `Beam` to `CookieBeigePink`.
fn tile_index_group2(t: Tile) -> (ret: Index)
    ensures
        ret.0 == tile_cell_group2(t).0,
        ret.1 == tile_cell_group2(t).1,
{
    match t {
        Tile::Beam(lr) => {
            return (24 + u16::from(lr), 4);
        },
        Tile::Strut(lr, tb) => {
            return (26 + u16::from(lr), 4 + u16::from(tb));
        },
        Tile::Hook(tb) => {
            return (24 + u16::from(tb), 5);
        },
        Tile::Gummy(c) => {
            return (12, 12 - u16::from(c));
        },
        Tile::Cherry => {
            return (13, 9);
        },
        Tile::Heart => {
            return (17, 9);
        },
        Tile::Cone => {
            return (17, 10);
        },
        Tile::CookieBlackWhite => {
            return (13, 10);
        },
        Tile::CookieBeigeBrown => {
            return (14, 10);
        },
        Tile::CookieBeigePink => {
            return (14, 9);
        },
        _ => {
            return (0, 0);
        },
    }
}

/// The cells of the tiles `IcecreamBeige` to `GummyWormTailGreenYellow`; other tiles are sent to the first cell.
pub open spec fn tile_cell_group3(t: Tile) -> (int, int) {
    match t {
        Tile::IcecreamBeige => (15, 9),
        Tile::IcecreamWhite => (15, 10),
        Tile::IcecreamPink => (16, 9),
        Tile::IcecreamBrown => (16, 10),
        Tile::WaferWhite => (22, 10),
        Tile::WaferPink => (23, 9),
        Tile::WaferBrown => (23, 10),
        Tile::GummyWormHookGreenYellow => (18, 9),
        Tile::GummyWormLoopGreenYellow => (19, 9),
        Tile::GummyWormTailGreenYellow => (18, 10),
        _ => (0, 0),
    }
}

/// The cell of a tile among `IcecreamBeige` to `GummyWormTailGreenYellow`.
fn tile_index_group3(t: Tile) -> (ret: Index)
    ensures
        ret.0 == tile_cell_group3(t).0,
        ret.1 == tile_cell_group3(t).1,
{
    match t {
        Tile::IcecreamBeige => {
            return (15, 9);
        },
        Tile::IcecreamWhite => {
            return (15, 10);
        },
        Tile::IcecreamPink => {
            return (16, 9);
        },
        Tile::IcecreamBrown => {
            return (16, 10);
        },
        Tile::WaferWhite => {
            return (22, 10);
        },
        Tile::WaferPink => {
            return (23, 9);
        },
        Tile::WaferBrown => {
            return (23, 10);
        },
        Tile::GummyWormHookGreenYellow => {
            return (18, 9);
        },
        Tile::GummyWormLoopGreenYellow => {
            return (19, 9);
        },
        Tile::GummyWormTailGreenYellow => {
            return (18, 10);
        },
        _ => {
            return (0, 0);
        },
    }
}

/// The cells of the tiles `GummyWormHookRedWhite` to `CandyCaneTopRed`; other tiles are sent to the first cell.
pub open spec fn tile_cell_group4(t: Tile) -> (int, int) {
    match t {
        Tile::GummyWormHookRedWhite => (20, 9),
        Tile::GummyWormLoopRedWhite => (21, 9),
        Tile::GummyWormTailRedWhite => (20, 10),
        Tile::CandyPoleBrown(tb) => (20, 11 + tb.offset()),
        Tile::CandyPoleGreen(tb) => (21, 11 + tb.offset()),
        Tile::CandyPolePink(tb) => (22, 11 + tb.offset()),
        Tile::CandyPoleRed(tb) => (23, 11 + tb.offset()),
        Tile::LittleCandyCaneRed => (14, 12),
        Tile::CandyCaneBaseRed => (13, 12),
        Tile::CandyCaneTopRed(a) => (13 + a.offset(), 11),
        _ => (0, 0),
    }
}

/// The cell of a tile among `GummyWormHookRedWhite` to `CandyCaneTopRed`.
fn tile_index_group4(t: Tile) -> (ret: Index)
    ensures
        ret.0 == tile_cell_group4(t).0,
        ret.1 == tile_cell_group4(t).1,
{
    match t {
        Tile::GummyWormHookRedWhite => {
            return (20, 9);
        },
        Tile::GummyWormLoopRedWhite => {
            return (21, 9);
        },
        Tile::GummyWormTailRedWhite => {
            return (20, 10);
        },
        Tile::CandyPoleBrown(tb) => {
            return (20, 11 + u16::from(tb));
        },
        Tile::CandyPoleGreen(tb) => {
            return (21, 11 + u16::from(tb));
        },
        Tile::CandyPolePink(tb) => {
            return (22, 11 + u16::from(tb));
        },
        Tile::CandyPoleRed(tb) => {
            return (23, 11 + u16::from(tb));
        },
        Tile::LittleCandyCaneRed => {
            return (14, 12);
        },
        Tile::CandyCaneBaseRed => {
            return (13, 12);
        },
        Tile::CandyCaneTopRed(a) => {
            return (13 + u16::from(a), 11);
        },
        _ => {
            return (0, 0);
        },
    }
}

/// The cells of the tiles `LittleCandyCaneGreen` to `LollipopBaseBeige`; other tiles are sent to the first cell.
pub open spec fn tile_cell_group5(t: Tile) -> (int, int) {
    match t {
        Tile::LittleCandyCaneGreen => (16, 12),
        Tile::CandyCaneBaseGreen => (15, 12),
        Tile::CandyCaneTopGreen(a) => (15 + a.offset(), 11),
        Tile::LittleCandyCanePink => (18, 12),
        Tile::CandyCaneBasePink => (17, 12),
        Tile::CandyCaneTopPink(a) => (17 + a.offset(), 11),
        Tile::LollipopStickWhite => (12, 13),
        Tile::LollipopStickBeige => (13, 13),
        Tile::LollipopStickBrown => (14, 13),
        Tile::LollipopBaseBeige => (15, 13),
        _ => (0, 0),
    }
}

/// The cell of a tile among `LittleCandyCaneGreen` to `LollipopBaseBeige`.
fn tile_index_group5(t: Tile) -> (ret: Index)
    ensures
        ret.0 == tile_cell_group5(t).0,
        ret.1 == tile_cell_group5(t).1,
{
    match t {
        Tile::LittleCandyCaneGreen => {
            return (16, 12);
        },
        Tile::CandyCaneBaseGreen => {
            return (15, 12);
        },
        Tile::CandyCaneTopGreen(a) => {
            return (15 + u16::from(a), 11);
        },
        Tile::LittleCandyCanePink => {
            return (18, 12);
        },
        Tile::CandyCaneBasePink => {
            return (17, 12);
        },
        Tile::CandyCaneTopPink(a) => {
            return (17 + u16::from(a), 11);
        },
        Tile::LollipopStickWhite => {
            return (12, 13);
        },
        Tile::LollipopStickBeige => {
            return (13, 13);
        },
        Tile::LollipopStickBrown => {
            return (14, 13);
        },
        Tile::LollipopBaseBeige => {
            return (15, 13);
        },
        _ => {
            return (0, 0);
        },
    }
}

/// The cells of the tiles `LollipopBasePink` to `MetalBoxBlank`; other tiles are sent to the first cell.
pub open spec fn tile_cell_group6(t: Tile) -> (int, int) {
    match t {
        Tile::LollipopBasePink => (16, 13),
        Tile::LollipopGreen => (17, 13),
        Tile::LollipopRed => (18, 13),
        Tile::LollipopYellow => (19, 13),
        Tile::LollipopGreenSwirl(a) => (20 + a.offset(), 13),
        Tile::LollipopRedSwirl(a) => (22 + a.offset(), 13),
        Tile::MetalBoxWire(a) => (24 + a.offset(), 9),
        Tile::MetalBoxCross(a) => (24 + a.offset(), 10),
        Tile::MetalBoxSlash(a) => (24 + a.offset(), 11),
        Tile::MetalBoxBlank(a) => (24 + a.offset(), 12),
        _ => (0, 0),
    }
}

/// The cell of a tile among `LollipopBasePink` to `MetalBoxBlank`.
fn tile_index_group6(t: Tile) -> (ret: Index)
    ensures
        ret.0 == tile_cell_group6(t).0,
        ret.1 == tile_cell_group6(t).1,
{
    match t {
        Tile::LollipopBasePink => {
            return (16, 13);
        },
        Tile::LollipopGreen => {
            return (17, 13);
        },
        Tile::LollipopRed => {
            return (18, 13);
        },
        Tile::LollipopYellow => {
            return (19, 13);
        },
        Tile::LollipopGreenSwirl(a) => {
            return (20 + u16::from(a), 13);
        },
        Tile::LollipopRedSwirl(a) => {
            return (22 + u16::from(a), 13);
        },
        Tile::MetalBoxWire(a) => {
            return (24 + u16::from(a), 9);
        },
        Tile::MetalBoxCross(a) => {
            return (24 + u16::from(a), 10);
        },
        Tile::MetalBoxSlash(a) => {
            return (24 + u16::from(a), 11);
        },
        Tile::MetalBoxBlank(a) => {
            return (24 + u16::from(a), 12);
        },
        _ => {
            return (0, 0);
        },
    }
}

/// The cells of the tiles `SlimeSingle` to `TrunkBase`; other tiles are sent to the first cell.
pub open spec fn tile_cell_group7(t: Tile) -> (int, int) {
    match t {
        Tile::SlimeSingle(tb) => (12, 14 + tb.offset()),
        Tile::Slime(lmr, tb) => (13 + lmr.offset(), 14 + tb.offset()),
        Tile::SlimeBubble(tb) => (16, 14 + tb.offset()),
        Tile::PineTree(tt) => tt.cell(),
        Tile::TrunkStraight => (17, 14),
        Tile::TrunkFork(lr) => (18 + lr.offset(), 14),
        Tile::TrunkDeadFork => (20, 14),
        Tile::TrunkKnotBranch(lr) => (21 + 2 * lr.offset(), 14),
        Tile::TrunkBranch(lmr) => (21 + lmr.offset(), 15),
        Tile::TrunkBase => (17, 15),
        _ => (0, 0),
    }
}

/// The cell of a tile among `SlimeSingle` to `TrunkBase`.
fn tile_index_group7(t: Tile) -> (ret: Index)
    ensures
        ret.0 == tile_cell_group7(t).0,
        ret.1 == tile_cell_group7(t).1,
{
    match t {
        Tile::SlimeSingle(tb) => {
            return (12, 14 + u16::from(tb));
        },
        Tile::Slime(lmr, tb) => {
            return (13 + u16::from(lmr), 14 + u16::from(tb));
        },
        Tile::SlimeBubble(tb) => {
            return (16, 14 + u16::from(tb));
        },
        Tile::PineTree(tt) => {
            return Index::from(tt);
        },
        Tile::TrunkStraight => {
            return (17, 14);
        },
        Tile::TrunkFork(lr) => {
            return (18 + u16::from(lr), 14);
        },
        Tile::TrunkDeadFork => {
            return (20, 14);
        },
        Tile::TrunkKnotBranch(lr) => {
            return (21 + 2 * u16::from(lr), 14);
        },
        Tile::TrunkBranch(lmr) => {
            return (21 + u16::from(lmr), 15);
        },
        Tile::TrunkBase => {
            return (17, 15);
        },
        _ => {
            return (0, 0);
        },
    }
}

/// The cells of the tiles `TrunkBaseNarrow` to `IceWaterWave`; other tiles are sent to the first cell.
pub open spec fn tile_cell_group8(t: Tile) -> (int, int) {
    match t {
        Tile::TrunkBaseNarrow => (18, 15),
        Tile::TrunkBaseSnow => (19, 15),
        Tile::TrunkBaseSnowPile => (20, 15),
        Tile::LavaWave => (12, 16),
        Tile::LavaSingle => (13, 16),
        Tile::Lava => (14, 16),
        Tile::WaterWave => (12, 17),
        Tile::WaterSingle => (13, 17),
        Tile::Water => (14, 17),
        Tile::IceWaterWave => (12, 18),
        _ => (0, 0),
    }
}

/// The cell of a tile among `TrunkBaseNarrow` to `IceWaterWave`.
fn tile_index_group8(t: Tile) -> (ret: Index)
    ensures
        ret.0 == tile_cell_group8(t).0,
        ret.1 == tile_cell_group8(t).1,
{
    match t {
        Tile::TrunkBaseNarrow => {
            return (18, 15);
        },
        Tile::TrunkBaseSnow => {
            return (19, 15);
        },
        Tile::TrunkBaseSnowPile => {
            return (20, 15);
        },
        Tile::LavaWave => {
            return (12, 16);
        },
        Tile::LavaSingle => {
            return (13, 16);
        },
        Tile::Lava => {
            return (14, 16);
        },
        Tile::WaterWave => {
            return (12, 17);
        },
        Tile::WaterSingle => {
            return (13, 17);
        },
        Tile::Water => {
            return (14, 17);
        },
        Tile::IceWaterWave => {
            return (12, 18);
        },
        _ => {
            return (0, 0);
        },
    }
}

/// The cells of the tiles `IceWaterSingle` to `SparkleIceHalf`; other tiles are sent to the first cell.
pub open spec fn tile_cell_group9(t: Tile) -> (int, int) {
    match t {
        Tile::IceWaterSingle => (13, 18),
        Tile::IceWater => (14, 18),
        Tile::SparklingWaterWave => (12, 19),
        Tile::SparklingWaterSingle => (13, 19),
        Tile::SparklingWater => (14, 19),
        Tile::DeepWater(a) => (15, 18 + a.offset()),
        Tile::IceBlock => (15, 16),
        Tile::SparkleIceBlock => (15, 17),
        Tile::IceHalf => (16, 16),
        Tile::SparkleIceHalf => (16, 17),
        _ => (0, 0),
    }
}

/// The cell of a tile among `IceWaterSingle` to `SparkleIceHalf`.
fn tile_index_group9(t: Tile) -> (ret: Index)
    ensures
        ret.0 == tile_cell_group9(t).0,
        ret.1 == tile_cell_group9(t).1,
{
    match t {
        Tile::IceWaterSingle => {
            return (13, 18);
        },
        Tile::IceWater => {
            return (14, 18);
        },
        Tile::SparklingWaterWave => {
            return (12, 19);
        },
        Tile::SparklingWaterSingle => {
            return (13, 19);
        },
        Tile::SparklingWater => {
            return (14, 19);
        },
        Tile::DeepWater(a) => {
            return (15, 18 + u16::from(a));
        },
        Tile::IceBlock => {
            return (15, 16);
        },
        Tile::SparkleIceBlock => {
            return (15, 17);
        },
        Tile::IceHalf => {
            return (16, 16);
        },
        Tile::SparkleIceHalf => {
            return (16, 17);
        },
        _ => {
            return (0, 0);
        },
    }
}

/// The cells of the tiles `MushroomBlock` to `MushroomBrown`; other tiles are sent to the first cell.
pub open spec fn tile_cell_group10(t: Tile) -> (int, int) {
    match t {
        Tile::MushroomBlock(MushroomStyle::Caramel, a, lmr) => {
                (12 + lmr.offset(), 20 + a.offset())
            },
        Tile::MushroomStemBlock(MushroomStyle::Caramel, a) => (15, 20 + a.offset()),
        Tile::MushroomBlock(MushroomStyle::Brown, a, lmr) => {
                (12 + lmr.offset(), 22 + a.offset())
            },
        Tile::MushroomStemBlock(MushroomStyle::Brown, a) => (15, 22 + a.offset()),
        Tile::MushroomBlock(MushroomStyle::Red, a, lmr) => {
                (12 + lmr.offset(), 24 + a.offset())
            },
        Tile::MushroomStemBlock(MushroomStyle::Red, a) => (15, 24 + a.offset()),
        Tile::MushroomBlock(MushroomStyle::White, a, lmr) => {
                (12 + lmr.offset(), 26 + a.offset())
            },
        Tile::MushroomStemBlock(MushroomStyle::White, a) => (15, 26 + a.offset()),
        Tile::MushroomStemTop(a) => (16, 20 + a.offset()),
        Tile::MushroomStemLeaf => (16, 22),
        Tile::MushroomStemRing(a) => (16, 23 + a.offset()),
        Tile::MushroomStem => (16, 25),
        Tile::MushroomStemBase(a) => (16, 26 + a.offset()),
        Tile::MushroomWhite(a) => (17 + a.offset(), 25),
        Tile::MushroomRed(a) => (17 + a.offset(), 26),
        Tile::MushroomBrown(a) => (17 + a.offset(), 27),
        _ => (0, 0),
    }
}

/// The cell of a tile among `MushroomBlock` to `MushroomBrown`.
fn tile_index_group10(t: Tile) -> (ret: Index)
    ensures
        ret.0 == tile_cell_group10(t).0,
        ret.1 == tile_cell_group10(t).1,
{
    match t {
        Tile::MushroomBlock(MushroomStyle::Caramel, a, lmr) => {
            return {
                (12 + u16::from(lmr), 20 + u16::from(a))
            };
        },
        Tile::MushroomStemBlock(MushroomStyle::Caramel, a) => {
            return (15, 20 + u16::from(a));
        },
        Tile::MushroomBlock(MushroomStyle::Brown, a, lmr) => {
            return {
                (12 + u16::from(lmr), 22 + u16::from(a))
            };
        },
        Tile::MushroomStemBlock(MushroomStyle::Brown, a) => {
            return (15, 22 + u16::from(a));
        },
        Tile::MushroomBlock(MushroomStyle::Red, a, lmr) => {
            return {
                (12 + u16::from(lmr), 24 + u16::from(a))
            };
        },
        Tile::MushroomStemBlock(MushroomStyle::Red, a) => {
            return (15, 24 + u16::from(a));
        },
        Tile::MushroomBlock(MushroomStyle::White, a, lmr) => {
            return {
                (12 + u16::from(lmr), 26 + u16::from(a))
            };
        },
        Tile::MushroomStemBlock(MushroomStyle::White, a) => {
            return (15, 26 + u16::from(a));
        },
        Tile::MushroomStemTop(a) => {
            return (16, 20 + u16::from(a));
        },
        Tile::MushroomStemLeaf => {
            return (16, 22);
        },
        Tile::MushroomStemRing(a) => {
            return (16, 23 + u16::from(a));
        },
        Tile::MushroomStem => {
            return (16, 25);
        },
        Tile::MushroomStemBase(a) => {
            return (16, 26 + u16::from(a));
        },
        Tile::MushroomWhite(a) => {
            return (17 + u16::from(a), 25);
        },
        Tile::MushroomRed(a) => {
            return (17 + u16::from(a), 26);
        },
        Tile::MushroomBrown(a) => {
            return (17 + u16::from(a), 27);
        },
        _ => {
            return (0, 0);
        },
    }
}

/// The cells of the tiles `BrickBlock` to `TriangleBangBoxAlt`; other tiles are sent to the first cell.
pub open spec fn tile_cell_group11(t: Tile) -> (int, int) {
    match t {
        Tile::BrickBlock => (22, 22),
        Tile::StoneBlock => (23, 22),
        Tile::CrateBlank => (19, 22),
        Tile::CrateSlash => (20, 22),
        Tile::CrateCross => (21, 22),
        Tile::CrateSquareBang => (19, 19),
        Tile::CrateTriangleBang => (20, 19),
        Tile::BangBox { empty, alt } => (19 + empty.offset() + 2 * alt.offset(), 20),
        Tile::CoinBox { empty, alt } => (19 + empty.offset() + 2 * alt.offset(), 21),
        Tile::TriangleBangBoxAlt { empty } => (21 + empty.offset(), 19),
        _ => (0, 0),
    }
}

/// The cell of a tile among `BrickBlock` to `TriangleBangBoxAlt`.
fn tile_index_group11(t: Tile) -> (ret: Index)
    ensures
        ret.0 == tile_cell_group11(t).0,
        ret.1 == tile_cell_group11(t).1,
{
    match t {
        Tile::BrickBlock => {
            return (22, 22);
        },
        Tile::StoneBlock => {
            return (23, 22);
        },
        Tile::CrateBlank => {
            return (19, 22);
        },
        Tile::CrateSlash => {
            return (20, 22);
        },
        Tile::CrateCross => {
            return (21, 22);
        },
        Tile::CrateSquareBang => {
            return (19, 19);
        },
        Tile::CrateTriangleBang => {
            return (20, 19);
        },
        Tile::BangBox { empty, alt } => {
            return (19 + u16::from(empty) + 2 * u16::from(alt), 20);
        },
        Tile::CoinBox { empty, alt } => {
            return (19 + u16::from(empty) + 2 * u16::from(alt), 21);
        },
        Tile::TriangleBangBoxAlt { empty } => {
            return (21 + u16::from(empty), 19);
        },
        _ => {
            return (0, 0);
        },
    }
}

/// The cells of the tiles `CrenellationOverhang` to `SnowPileLow`; other tiles are sent to the first cell.
pub open spec fn tile_cell_group12(t: Tile) -> (int, int) {
    match t {
        Tile::CrenellationOverhang(lr, a) => (19 + lr.offset(), 24 + a.offset()),
        Tile::Crenellation(a) => (21, 24 + a.offset()),
        Tile::CrenellationBroken(a) => (22, 24 + a.offset()),
        Tile::CrenellationHalf => (23, 24),
        Tile::CrenellationHalfBroken => (24, 24),
        Tile::CrenellationHalfOpen => (25, 24),
        Tile::SnowSlope(lr) => (12 + lr.offset(), 28),
        Tile::SnowPileBig => (14, 28),
        Tile::SnowPileSmall => (15, 28),
        Tile::SnowPileLow(lmr) => (16 + lmr.offset(), 28),
        _ => (0, 0),
    }
}

/// The cell of a tile among `CrenellationOverhang` to `SnowPileLow`.
fn tile_index_group12(t: Tile) -> (ret: Index)
    ensures
        ret.0 == tile_cell_group12(t).0,
        ret.1 == tile_cell_group12(t).1,
{
    match t {
        Tile::CrenellationOverhang(lr, a) => {
            return (19 + u16::from(lr), 24 + u16::from(a));
        },
        Tile::Crenellation(a) => {
            return (21, 24 + u16::from(a));
        },
        Tile::CrenellationBroken(a) => {
            return (22, 24 + u16::from(a));
        },
        Tile::CrenellationHalf => {
            return (23, 24);
        },
        Tile::CrenellationHalfBroken => {
            return (24, 24);
        },
        Tile::CrenellationHalfOpen => {
            return (25, 24);
        },
        Tile::SnowSlope(lr) => {
            return (12 + u16::from(lr), 28);
        },
        Tile::SnowPileBig => {
            return (14, 28);
        },
        Tile::SnowPileSmall => {
            return (15, 28);
        },
        Tile::SnowPileLow(lmr) => {
            return (16 + u16::from(lmr), 28);
        },
        _ => {
            return (0, 0);
        },
    }
}

/// The cells of the tiles `SnowDrift` to `SaplingTall`; other tiles are sent to the first cell.
pub open spec fn tile_cell_group13(t: Tile) -> (int, int) {
    match t {
        Tile::SnowDrift => (19, 28),
        Tile::Icicle(tb, alt3) => (12 + alt3.offset(), 29 + tb.offset()),
        Tile::Gate(lmr, tb, a) => (20 + lmr.offset() + 3 * a.offset(), 27 + tb.offset()),
        Tile::GateDoor(lmr, tb, a) => {
                (20 + lmr.offset() + 3 * a.offset(), 29 + tb.offset())
            },
        Tile::GateSpikes(lmr, tb) => (20 + lmr.offset(), 31 + tb.offset()),
        Tile::GateBars(lmr, tb) => (23 + lmr.offset(), 31 + tb.offset()),
        Tile::GrassTuft => (14, 32),
        Tile::Cactus => (15, 32),
        Tile::Sapling => (16, 32),
        Tile::SaplingTall => (17, 32),
        _ => (0, 0),
    }
}

/// The cell of a tile among `SnowDrift` to `SaplingTall`.
fn tile_index_group13(t: Tile) -> (ret: Index)
    ensures
        ret.0 == tile_cell_group13(t).0,
        ret.1 == tile_cell_group13(t).1,
{
    match t {
        Tile::SnowDrift => {
            return (19, 28);
        },
        Tile::Icicle(tb, alt3) => {
            return (12 + u16::from(alt3), 29 + u16::from(tb));
        },
        Tile::Gate(lmr, tb, a) => {
            return (20 + u16::from(lmr) + 3 * u16::from(a), 27 + u16::from(tb));
        },
        Tile::GateDoor(lmr, tb, a) => {
            return {
                (20 + u16::from(lmr) + 3 * u16::from(a), 29 + u16::from(tb))
            };
        },
        Tile::GateSpikes(lmr, tb) => {
            return (20 + u16::from(lmr), 31 + u16::from(tb));
        },
        Tile::GateBars(lmr, tb) => {
            return (23 + u16::from(lmr), 31 + u16::from(tb));
        },
        Tile::GrassTuft => {
            return (14, 32);
        },
        Tile::Cactus => {
            return (15, 32);
        },
        Tile::Sapling => {
            return (16, 32);
        },
        Tile::SaplingTall => {
            return (17, 32);
        },
        _ => {
            return (0, 0);
        },
    }
}

/// The cells of the tiles `IceTuft` to `StoneSpike`; other tiles are sent to the first cell.
pub open spec fn tile_cell_group14(t: Tile) -> (int, int) {
    match t {
        Tile::IceTuft => (18, 32),
        Tile::IceCrystal => (19, 32),
        Tile::PurpleCrystal => (14, 33),
        Tile::Moss => (15, 33),
        Tile::IceMoss => (16, 33),
        Tile::Rock => (12, 33),
        Tile::IceRock(a) => (12 + a.offset(), 34),
        Tile::MossRock(a) => (12 + a.offset(), 35),
        Tile::FrozenShrub => (14, 35),
        Tile::StoneSpike => (15, 35),
        _ => (0, 0),
    }
}

/// The cell of a tile among `IceTuft` to `StoneSpike`.
fn tile_index_group14(t: Tile) -> (ret: Index)
    ensures
        ret.0 == tile_cell_group14(t).0,
        ret.1 == tile_cell_group14(t).1,
{
    match t {
        Tile::IceTuft => {
            return (18, 32);
        },
        Tile::IceCrystal => {
            return (19, 32);
        },
        Tile::PurpleCrystal => {
            return (14, 33);
        },
        Tile::Moss => {
            return (15, 33);
        },
        Tile::IceMoss => {
            return (16, 33);
        },
        Tile::Rock => {
            return (12, 33);
        },
        Tile::IceRock(a) => {
            return (12 + u16::from(a), 34);
        },
        Tile::MossRock(a) => {
            return (12 + u16::from(a), 35);
        },
        Tile::FrozenShrub => {
            return (14, 35);
        },
        Tile::StoneSpike => {
            return (15, 35);
        },
        _ => {
            return (0, 0);
        },
    }
}

/// The cells of the tiles `StoneSpike2` to `Star`; other tiles are sent to the first cell.
pub open spec fn tile_cell_group15(t: Tile) -> (int, int) {
    match t {
        Tile::StoneSpike2(tb) => (16, 34 + tb.offset()),
        Tile::IglooTop(lmr) => (17 + lmr.offset(), 34),
        Tile::IglooInterior(a) => (17 + a.offset(), 35),
        Tile::IglooDoor => (19, 35),
        Tile::Laser => (22, 33),
        Tile::Laser2 => (22, 34),
        Tile::Fireball => (22, 35),
        Tile::Brick(a) => (23, 33 + a.offset()),
        Tile::StoneBrick(a) => (24, 33 + a.offset()),
        Tile::Star => (23, 35),
        _ => (0, 0),
    }
}

/// The cell of a tile among `StoneSpike2` to `Star`.
fn tile_index_group15(t: Tile) -> (ret: Index)
    ensures
        ret.0 == tile_cell_group15(t).0,
        ret.1 == tile_cell_group15(t).1,
{
    match t {
        Tile::StoneSpike2(tb) => {
            return (16, 34 + u16::from(tb));
        },
        Tile::IglooTop(lmr) => {
            return (17 + u16::from(lmr), 34);
        },
        Tile::IglooInterior(a) => {
            return (17 + u16::from(a), 35);
        },
        Tile::IglooDoor => {
            return (19, 35);
        },
        Tile::Laser => {
            return (22, 33);
        },
        Tile::Laser2 => {
            return (22, 34);
        },
        Tile::Fireball => {
            return (22, 35);
        },
        Tile::Brick(a) => {
            return (23, 33 + u16::from(a));
        },
        Tile::StoneBrick(a) => {
            return (24, 33 + u16::from(a));
        },
        Tile::Star => {
            return (23, 35);
        },
        _ => {
            return (0, 0);
        },
    }
}

/// The cells of the tiles `TranslucentWindow` to `FlagFrame2`; other tiles are sent to the first cell.
pub open spec fn tile_cell_group16(t: Tile) -> (int, int) {
    match t {
        Tile::TranslucentWindow(c) => (0, 44 + c.offset()),
        Tile::TranslucentWindowBox(c) => (1, 44 + c.offset()),
        Tile::BarrelSide(c) => (2, 44 + c.offset()),
        Tile::Barrel(c) => (3, 44 + c.offset()),
        Tile::LightStick(c) => (4, 44 + c.offset()),
        Tile::Light(c) => (5, 44 + c.offset()),
        Tile::Key(c) => (6, 44 + c.offset()),
        Tile::Crystal(c) => (7, 44 + c.offset()),
        Tile::FlagFrame1(c) => (8, 44 + c.offset()),
        Tile::FlagFrame2(c) => (9, 44 + c.offset()),
        _ => (0, 0),
    }
}

/// The cell of a tile among `TranslucentWindow` to `FlagFrame2`.
fn tile_index_group16(t: Tile) -> (ret: Index)
    ensures
        ret.0 == tile_cell_group16(t).0,
        ret.1 == tile_cell_group16(t).1,
{
    match t {
        Tile::TranslucentWindow(c) => {
            return (0, 44 + u16::from(c));
        },
        Tile::TranslucentWindowBox(c) => {
            return (1, 44 + u16::from(c));
        },
        Tile::BarrelSide(c) => {
            return (2, 44 + u16::from(c));
        },
        Tile::Barrel(c) => {
            return (3, 44 + u16::from(c));
        },
        Tile::LightStick(c) => {
            return (4, 44 + u16::from(c));
        },
        Tile::Light(c) => {
            return (5, 44 + u16::from(c));
        },
        Tile::Key(c) => {
            return (6, 44 + u16::from(c));
        },
        Tile::Crystal(c) => {
            return (7, 44 + u16::from(c));
        },
        Tile::FlagFrame1(c) => {
            return (8, 44 + u16::from(c));
        },
        Tile::FlagFrame2(c) => {
            return (9, 44 + u16::from(c));
        },
        _ => {
            return (0, 0);
        },
    }
}

/// The cells of the tiles `FallenFlag` to `Lever`; other tiles are sent to the first cell.
pub open spec fn tile_cell_group17(t: Tile) -> (int, int) {
    match t {
        Tile::FallenFlag(c) => (10, 44 + c.offset()),
        Tile::Button { pressed, color } => (11 + pressed.offset(), 44 + color.offset()),
        Tile::Lock(c) => (13, 44 + c.offset()),
        Tile::LaserLever(lr, c) => (14 + lr.offset(), 44 + c.offset()),
        Tile::LaserSpark(c) => (16, 44 + c.offset()),
        Tile::LaserBeamH(c) => (17, 44 + c.offset()),
        Tile::LaserBeamV(c) => (18, 44 + c.offset()),
        Tile::TranslucentBarrel(c) => (19, 44 + c.offset()),
        Tile::Zapper(lrtb, a) => (
                20 + a.offset(),
                match lrtb {
                    LRTB::L => 46,
                    LRTB::R => 47,
                    LRTB::T => 44,
                    LRTB::B => 45,
                },
            ),
        Tile::Lever(lmr) => (22 + lmr.offset(), 45),
        _ => (0, 0),
    }
}

/// The cell of a tile among `FallenFlag` to `Lever`.
fn tile_index_group17(t: Tile) -> (ret: Index)
    ensures
        ret.0 == tile_cell_group17(t).0,
        ret.1 == tile_cell_group17(t).1,
{
    match t {
        Tile::FallenFlag(c) => {
            return (10, 44 + u16::from(c));
        },
        Tile::Button { pressed, color } => {
            return (11 + u16::from(pressed), 44 + u16::from(color));
        },
        Tile::Lock(c) => {
            return (13, 44 + u16::from(c));
        },
        Tile::LaserLever(lr, c) => {
            return (14 + u16::from(lr), 44 + u16::from(c));
        },
        Tile::LaserSpark(c) => {
            return (16, 44 + u16::from(c));
        },
        Tile::LaserBeamH(c) => {
            return (17, 44 + u16::from(c));
        },
        Tile::LaserBeamV(c) => {
            return (18, 44 + u16::from(c));
        },
        Tile::TranslucentBarrel(c) => {
            return (19, 44 + u16::from(c));
        },
        Tile::Zapper(lrtb, a) => {
            return (
                20 + u16::from(a),
                match lrtb {
                    LRTB::L => 46,
                    LRTB::R => 47,
                    LRTB::T => 44,
                    LRTB::B => 45,
                },
            );
        },
        Tile::Lever(lmr) => {
            return (22 + u16::from(lmr), 45);
        },
        _ => {
            return (0, 0);
        },
    }
}

/// The cells of the tiles `Chain` to `CoinGold`; other tiles are sent to the first cell.
pub open spec fn tile_cell_group18(t: Tile) -> (int, int) {
    match t {
        Tile::Chain => (23, 46),
        Tile::Weight => (22, 47),
        Tile::WeightChain => (23, 47),
        Tile::Spring => (22, 44),
        Tile::SpringUp => (23, 44),
        Tile::Grinder(a) => (23 + a.offset(), 42),
        Tile::HalfGrinder(a) => (23 + a.offset(), 43),
        Tile::CoinBronze => (22, 41),
        Tile::CoinSilver => (24, 41),
        Tile::CoinGold => (23, 41),
        _ => (0, 0),
    }
}

/// The cell of a tile among `Chain` to `CoinGold`.
fn tile_index_group18(t: Tile) -> (ret: Index)
    ensures
        ret.0 == tile_cell_group18(t).0,
        ret.1 == tile_cell_group18(t).1,
{
    match t {
        Tile::Chain => {
            return (23, 46);
        },
        Tile::Weight => {
            return (22, 47);
        },
        Tile::WeightChain => {
            return (23, 47);
        },
        Tile::Spring => {
            return (22, 44);
        },
        Tile::SpringUp => {
            return (23, 44);
        },
        Tile::Grinder(a) => {
            return (23 + u16::from(a), 42);
        },
        Tile::HalfGrinder(a) => {
            return (23 + u16::from(a), 43);
        },
        Tile::CoinBronze => {
            return (22, 41);
        },
        Tile::CoinSilver => {
            return (24, 41);
        },
        Tile::CoinGold => {
            return (23, 41);
        },
        _ => {
            return (0, 0);
        },
    }
}

/// The cells of the tiles `SwordBronze` to `SilverGunFiring`; other tiles are sent to the first cell.
pub open spec fn tile_cell_group19(t: Tile) -> (int, int) {
    match t {
        Tile::SwordBronze => (22, 40),
        Tile::SwordSilver => (24, 40),
        Tile::SwordGold => (23, 40),
        Tile::ShieldBronze => (22, 39),
        Tile::ShieldSilver => (24, 39),
        Tile::ShieldGold => (23, 39),
        Tile::PurpleGun => (22, 37),
        Tile::PurpleGunFiring => (23, 37),
        Tile::SilverGun => (22, 38),
        Tile::SilverGunFiring => (23, 38),
        _ => (0, 0),
    }
}

/// The cell of a tile among `SwordBronze` to `SilverGunFiring`.
fn tile_index_group19(t: Tile) -> (ret: Index)
    ensures
        ret.0 == tile_cell_group19(t).0,
        ret.1 == tile_cell_group19(t).1,
{
    match t {
        Tile::SwordBronze => {
            return (22, 40);
        },
        Tile::SwordSilver => {
            return (24, 40);
        },
        Tile::SwordGold => {
            return (23, 40);
        },
        Tile::ShieldBronze => {
            return (22, 39);
        },
        Tile::ShieldSilver => {
            return (24, 39);
        },
        Tile::ShieldGold => {
            return (23, 39);
        },
        Tile::PurpleGun => {
            return (22, 37);
        },
        Tile::PurpleGunFiring => {
            return (23, 37);
        },
        Tile::SilverGun => {
            return (22, 38);
        },
        Tile::SilverGunFiring => {
            return (23, 38);
        },
        _ => {
            return (0, 0);
        },
    }
}

/// The cells of the tiles `Bomb` to `Clock`; other tiles are sent to the first cell.
pub open spec fn tile_cell_group20(t: Tile) -> (int, int) {
    match t {
        Tile::Bomb => (24, 38),
        Tile::BombFlash => (24, 37),
        Tile::Chimney(a) => (12 + a.offset(), 37),
        Tile::SignBed { hanging } => (12, 38 + hanging.offset()),
        Tile::SignCoin { hanging } => (13, 38 + hanging.offset()),
        Tile::SignMug { hanging } => (14, 38 + hanging.offset()),
        Tile::TorchHolder => (15, 37),
        Tile::Torch(lr) => (15, 38 + lr.offset()),
        Tile::Umbrella { open } => (16 + open.offset(), 38),
        Tile::Clock => (16, 37),
        _ => (0, 0),
    }
}

/// The cell of a tile among `Bomb` to `Clock`.
fn tile_index_group20(t: Tile) -> (ret: Index)
    ensures
        ret.0 == tile_cell_group20(t).0,
        ret.1 == tile_cell_group20(t).1,
{
    match t {
        Tile::Bomb => {
            return (24, 38);
        },
        Tile::BombFlash => {
            return (24, 37);
        },
        Tile::Chimney(a) => {
            return (12 + u16::from(a), 37);
        },
        Tile::SignBed { hanging } => {
            return (12, 38 + u16::from(hanging));
        },
        Tile::SignCoin { hanging } => {
            return (13, 38 + u16::from(hanging));
        },
        Tile::SignMug { hanging } => {
            return (14, 38 + u16::from(hanging));
        },
        Tile::TorchHolder => {
            return (15, 37);
        },
        Tile::Torch(lr) => {
            return (15, 38 + u16::from(lr));
        },
        Tile::Umbrella { open } => {
            return (16 + u16::from(open), 38);
        },
        Tile::Clock => {
            return (16, 37);
        },
        _ => {
            return (0, 0);
        },
    }
}

/// The cells of the tiles `WeatherVane` to `FenceLowerHalf`; other tiles are sent to the first cell.
pub open spec fn tile_cell_group21(t: Tile) -> (int, int) {
    match t {
        Tile::WeatherVane => (17, 37),
        Tile::Shade(a) => (12 + a.offset(), 40),
        Tile::RopeVHook => (12, 41),
        Tile::RopeH => (13, 41),
        Tile::RopeV => (14, 41),
        Tile::Fence(a) => (12 + a.offset(), 42),
        Tile::FenceBroken => (14, 42),
        Tile::FenceLow => (15, 42),
        Tile::FenceOpen => (16, 42),
        Tile::FenceLowerHalf => (17, 42),
        _ => (0, 0),
    }
}

/// The cell of a tile among `WeatherVane` to `FenceLowerHalf`.
fn tile_index_group21(t: Tile) -> (ret: Index)
    ensures
        ret.0 == tile_cell_group21(t).0,
        ret.1 == tile_cell_group21(t).1,
{
    match t {
        Tile::WeatherVane => {
            return (17, 37);
        },
        Tile::Shade(a) => {
            return (12 + u16::from(a), 40);
        },
        Tile::RopeVHook => {
            return (12, 41);
        },
        Tile::RopeH => {
            return (13, 41);
        },
        Tile::RopeV => {
            return (14, 41);
        },
        Tile::Fence(a) => {
            return (12 + u16::from(a), 42);
        },
        Tile::FenceBroken => {
            return (14, 42);
        },
        Tile::FenceLow => {
            return (15, 42);
        },
        Tile::FenceOpen => {
            return (16, 42);
        },
        Tile::FenceLowerHalf => {
            return (17, 42);
        },
        _ => {
            return (0, 0);
        },
    }
}

/// The cells of the tiles `FenceLower` to `DoorLockedBeige`; other tiles are sent to the first cell.
pub open spec fn tile_cell_group22(t: Tile) -> (int, int) {
    match t {
        Tile::FenceLower => (18, 42),
        Tile::Bridge => (19, 42),
        Tile::BridgeLog => (20, 42),
        Tile::SignExit => (12, 43),
        Tile::SignArrow(lr) => (13 + lr.offset(), 43),
        Tile::SignBlank => (15, 43),
        Tile::DoorwayGrey(tb) => (17, 40 + tb.offset()),
        Tile::DoorwayBeige(tb) => (21, 40 + tb.offset()),
        Tile::DoorLockedGrey(tb) => (16, 40 + tb.offset()),
        Tile::DoorLockedBeige(tb) => (20, 40 + tb.offset()),
        _ => (0, 0),
    }
}

/// The cell of a tile among `FenceLower` to `DoorLockedBeige`.
fn tile_index_group22(t: Tile) -> (ret: Index)
    ensures
        ret.0 == tile_cell_group22(t).0,
        ret.1 == tile_cell_group22(t).1,
{
    match t {
        Tile::FenceLower => {
            return (18, 42);
        },
        Tile::Bridge => {
            return (19, 42);
        },
        Tile::BridgeLog => {
            return (20, 42);
        },
        Tile::SignExit => {
            return (12, 43);
        },
        Tile::SignArrow(lr) => {
            return (13 + u16::from(lr), 43);
        },
        Tile::SignBlank => {
            return (15, 43);
        },
        Tile::DoorwayGrey(tb) => {
            return (17, 40 + u16::from(tb));
        },
        Tile::DoorwayBeige(tb) => {
            return (21, 40 + u16::from(tb));
        },
        Tile::DoorLockedGrey(tb) => {
            return (16, 40 + u16::from(tb));
        },
        Tile::DoorLockedBeige(tb) => {
            return (20, 40 + u16::from(tb));
        },
        _ => {
            return (0, 0);
        },
    }
}

/// The cells of the tiles `DoorInsetBeige` to `CastleWindowOpenSmall`; other tiles are sent to the first cell.
pub open spec fn tile_cell_group23(t: Tile) -> (int, int) {
    match t {
        Tile::DoorInsetBeige(tb) => (19, 40 + tb.offset()),
        Tile::DoorTopWindow => (18, 40),
        Tile::DoorBeige => (18, 41),
        Tile::WindowOpenHalf => (16, 39),
        Tile::WindowStainedHalf => (17, 39),
        Tile::WindowOpen => (18, 39),
        Tile::Window(a) => (19 + a.offset(), 39),
        Tile::HighWindowOpen(tmb) => (18, 36 + tmb.offset()),
        Tile::HighWindow(tmb, a) => (19 + a.offset(), 36 + tmb.offset()),
        Tile::CastleWindowOpenSmall(a) => (0 + 2 * a.offset(), 48),
        _ => (0, 0),
    }
}

/// The cell of a tile among `DoorInsetBeige` to `CastleWindowOpenSmall`.
fn tile_index_group23(t: Tile) -> (ret: Index)
    ensures
        ret.0 == tile_cell_group23(t).0,
        ret.1 == tile_cell_group23(t).1,
{
    match t {
        Tile::DoorInsetBeige(tb) => {
            return (19, 40 + u16::from(tb));
        },
        Tile::DoorTopWindow => {
            return (18, 40);
        },
        Tile::DoorBeige => {
            return (18, 41);
        },
        Tile::WindowOpenHalf => {
            return (16, 39);
        },
        Tile::WindowStainedHalf => {
            return (17, 39);
        },
        Tile::WindowOpen => {
            return (18, 39);
        },
        Tile::Window(a) => {
            return (19 + u16::from(a), 39);
        },
        Tile::HighWindowOpen(tmb) => {
            return (18, 36 + u16::from(tmb));
        },
        Tile::HighWindow(tmb, a) => {
            return (19 + u16::from(a), 36 + u16::from(tmb));
        },
        Tile::CastleWindowOpenSmall(a) => {
            return (0 + 2 * u16::from(a), 48);
        },
        _ => {
            return (0, 0);
        },
    }
}

/// The cells of the tiles `CastleWindowShutSmall` to `CastleWindowOpenSlitAlt`; other tiles are sent to the first cell.
pub open spec fn tile_cell_group24(t: Tile) -> (int, int) {
    match t {
        Tile::CastleWindowShutSmall(a) => (1 + 2 * a.offset(), 48),
        Tile::CastleWindowOpen(a) => (0 + 2 * a.offset(), 49),
        Tile::CastleWindowShut(a) => (1 + 2 * a.offset(), 49),
        Tile::CastleWindowOpenHigh(a, tmb) => (0 + 2 * a.offset(), 51 + tmb.offset()),
        Tile::CastleWindowShutHigh(a, tmb) => (1 + 2 * a.offset(), 51 + tmb.offset()),
        Tile::CastleWindowOpenSlit(a, tmb) => (0 + 2 * a.offset(), 55 + tmb.offset()),
        Tile::CastleWindowShutSlit(a, tmb) => (1 + 2 * a.offset(), 55 + tmb.offset()),
        Tile::CastleWindowOpenHighAlt(a) => (0 + 2 * a.offset(), 50),
        Tile::CastleWindowShutHighAlt(a) => (1 + 2 * a.offset(), 50),
        Tile::CastleWindowOpenSlitAlt(a) => (0 + 2 * a.offset(), 54),
        _ => (0, 0),
    }
}

/// The cell of a tile among `CastleWindowShutSmall` to `CastleWindowOpenSlitAlt`.
fn tile_index_group24(t: Tile) -> (ret: Index)
    ensures
        ret.0 == tile_cell_group24(t).0,
        ret.1 == tile_cell_group24(t).1,
{
    match t {
        Tile::CastleWindowShutSmall(a) => {
            return (1 + 2 * u16::from(a), 48);
        },
        Tile::CastleWindowOpen(a) => {
            return (0 + 2 * u16::from(a), 49);
        },
        Tile::CastleWindowShut(a) => {
            return (1 + 2 * u16::from(a), 49);
        },
        Tile::CastleWindowOpenHigh(a, tmb) => {
            return (0 + 2 * u16::from(a), 51 + u16::from(tmb));
        },
        Tile::CastleWindowShutHigh(a, tmb) => {
            return (1 + 2 * u16::from(a), 51 + u16::from(tmb));
        },
        Tile::CastleWindowOpenSlit(a, tmb) => {
            return (0 + 2 * u16::from(a), 55 + u16::from(tmb));
        },
        Tile::CastleWindowShutSlit(a, tmb) => {
            return (1 + 2 * u16::from(a), 55 + u16::from(tmb));
        },
        Tile::CastleWindowOpenHighAlt(a) => {
            return (0 + 2 * u16::from(a), 50);
        },
        Tile::CastleWindowShutHighAlt(a) => {
            return (1 + 2 * u16::from(a), 50);
        },
        Tile::CastleWindowOpenSlitAlt(a) => {
            return (0 + 2 * u16::from(a), 54);
        },
        _ => {
            return (0, 0);
        },
    }
}

/// The cells of the tiles `CastleWindowShutSlitAlt` to `FlagWoodRedFrame1`; other tiles are sent to the first cell.
pub open spec fn tile_cell_group25(t: Tile) -> (int, int) {
    match t {
        Tile::CastleWindowShutSlitAlt(a) => (1 + 2 * a.offset(), 54),
        Tile::BannerSmallRed(tmb, a) => (4 + 2 * a.offset(), 48 + tmb.offset()),
        Tile::BannerSmallGreen(tmb, a) => (5 + 2 * a.offset(), 48 + tmb.offset()),
        Tile::TapestryMidRed(a) => (4, 51 + a.offset()),
        Tile::TapestryMidGreen(a) => (5, 51 + a.offset()),
        Tile::TapestryBottomRed(a) => (4, 56 + a.offset()),
        Tile::TapestryBottomGreen(a) => (5, 56 + a.offset()),
        Tile::BannerRed(a) => (6, 51 + a.offset()),
        Tile::BannerGreen(a) => (7, 51 + a.offset()),
        Tile::FlagWoodRedFrame1(lr) => (8 + 2 * lr.offset(), 48),
        _ => (0, 0),
    }
}

/// The cell of a tile among `CastleWindowShutSlitAlt` to `FlagWoodRedFrame1`.
fn tile_index_group25(t: Tile) -> (ret: Index)
    ensures
        ret.0 == tile_cell_group25(t).0,
        ret.1 == tile_cell_group25(t).1,
{
    match t {
        Tile::CastleWindowShutSlitAlt(a) => {
            return (1 + 2 * u16::from(a), 54);
        },
        Tile::BannerSmallRed(tmb, a) => {
            return (4 + 2 * u16::from(a), 48 + u16::from(tmb));
        },
        Tile::BannerSmallGreen(tmb, a) => {
            return (5 + 2 * u16::from(a), 48 + u16::from(tmb));
        },
        Tile::TapestryMidRed(a) => {
            return (4, 51 + u16::from(a));
        },
        Tile::TapestryMidGreen(a) => {
            return (5, 51 + u16::from(a));
        },
        Tile::TapestryBottomRed(a) => {
            return (4, 56 + u16::from(a));
        },
        Tile::TapestryBottomGreen(a) => {
            return (5, 56 + u16::from(a));
        },
        Tile::BannerRed(a) => {
            return (6, 51 + u16::from(a));
        },
        Tile::BannerGreen(a) => {
            return (7, 51 + u16::from(a));
        },
        Tile::FlagWoodRedFrame1(lr) => {
            return (8 + 2 * u16::from(lr), 48);
        },
        _ => {
            return (0, 0);
        },
    }
}

/// The cells of the tiles `FlagWoodRedFrame2` to `FlagWoodTipGreenFrame1`; other tiles are sent to the first cell.
pub open spec fn tile_cell_group26(t: Tile) -> (int, int) {
    match t {
        Tile::FlagWoodRedFrame2(lr) => (9 + 2 * lr.offset(), 48),
        Tile::FlagWoodGreenFrame1(lr) => (8 + 2 * lr.offset(), 51),
        Tile::FlagWoodGreenFrame2(lr) => (9 + 2 * lr.offset(), 51),
        Tile::FlagWoodLongRedFrame1(lr) => (8 + lr.offset(), 49 + lr.offset()),
        Tile::FlagWoodLongRedFrame2(lr) => (10 + lr.offset(), 49 + lr.offset()),
        Tile::FlagWoodLongGreenFrame1(lr) => (8 + lr.offset(), 52 + lr.offset()),
        Tile::FlagWoodLongGreenFrame2(lr) => (10 + lr.offset(), 49 + lr.offset()),
        Tile::FlagWoodTipRedFrame1(lr) => (9 - lr.offset(), 49 + lr.offset()),
        Tile::FlagWoodTipRedFrame2(lr) => (11 - lr.offset(), 49 + lr.offset()),
        Tile::FlagWoodTipGreenFrame1(lr) => (9 - lr.offset(), 52 + lr.offset()),
        _ => (0, 0),
    }
}

/// The cell of a tile among `FlagWoodRedFrame2` to `FlagWoodTipGreenFrame1`.
fn tile_index_group26(t: Tile) -> (ret: Index)
    ensures
        ret.0 == tile_cell_group26(t).0,
        ret.1 == tile_cell_group26(t).1,
{
    match t {
        Tile::FlagWoodRedFrame2(lr) => {
            return (9 + 2 * u16::from(lr), 48);
        },
        Tile::FlagWoodGreenFrame1(lr) => {
            return (8 + 2 * u16::from(lr), 51);
        },
        Tile::FlagWoodGreenFrame2(lr) => {
            return (9 + 2 * u16::from(lr), 51);
        },
        Tile::FlagWoodLongRedFrame1(lr) => {
            return (8 + u16::from(lr), 49 + u16::from(lr));
        },
        Tile::FlagWoodLongRedFrame2(lr) => {
            return (10 + u16::from(lr), 49 + u16::from(lr));
        },
        Tile::FlagWoodLongGreenFrame1(lr) => {
            return (8 + u16::from(lr), 52 + u16::from(lr));
        },
        Tile::FlagWoodLongGreenFrame2(lr) => {
            return (10 + u16::from(lr), 49 + u16::from(lr));
        },
        Tile::FlagWoodTipRedFrame1(lr) => {
            return (9 - u16::from(lr), 49 + u16::from(lr));
        },
        Tile::FlagWoodTipRedFrame2(lr) => {
            return (11 - u16::from(lr), 49 + u16::from(lr));
        },
        Tile::FlagWoodTipGreenFrame1(lr) => {
            return (9 - u16::from(lr), 52 + u16::from(lr));
        },
        _ => {
            return (0, 0);
        },
    }
}

/// The cells of the tiles `FlagWoodTipGreenFrame2` to `ConsoleButtons`; other tiles are sent to the first cell.
pub open spec fn tile_cell_group27(t: Tile) -> (int, int) {
    match t {
        Tile::FlagWoodTipGreenFrame2(lr) => (11 - lr.offset(), 52 + lr.offset()),
        Tile::FlagpoleTop(lmr) => match lmr {
                LMR::L => (8, 54),
                LMR::M => (10, 54),
                LMR::R => (9, 54),
            },
        Tile::Flagpole(lmr) => match lmr {
                LMR::L => (8, 55),
                LMR::M => (10, 55),
                LMR::R => (9, 55),
            },
        Tile::FlagpoleAlt(a) => (10 + a.offset(), 56),
        Tile::FallenFlagRed(lr) => (8 + lr.offset(), 56),
        Tile::FallenFlagGreen(lr) => (8 + lr.offset(), 57),
        Tile::FlagBase(a) => (10 + a.offset(), 57),
        Tile::TorchWood(lr) => (10 + lr.offset(), 58),
        Tile::Console { lmr, on, knobs } => (
                match lmr {
                    Some(lmr) => 12 + lmr.offset(),
                    None if knobs => 16,
                    None => 15,
                },
                48 + on.offset(),
            ),
        Tile::ConsoleButtons(lmr) => (12 + lmr.offset(), 50),
        _ => (0, 0),
    }
}

/// The cell of a tile among `FlagWoodTipGreenFrame2` to `ConsoleButtons`.
fn tile_index_group27(t: Tile) -> (ret: Index)
    ensures
        ret.0 == tile_cell_group27(t).0,
        ret.1 == tile_cell_group27(t).1,
{
    match t {
        Tile::FlagWoodTipGreenFrame2(lr) => {
            return (11 - u16::from(lr), 52 + u16::from(lr));
        },
        Tile::FlagpoleTop(lmr) => {
            return match lmr {
                LMR::L => (8, 54),
                LMR::M => (10, 54),
                LMR::R => (9, 54),
            };
        },
        Tile::Flagpole(lmr) => {
            return match lmr {
                LMR::L => (8, 55),
                LMR::M => (10, 55),
                LMR::R => (9, 55),
            };
        },
        Tile::FlagpoleAlt(a) => {
            return (10 + u16::from(a), 56);
        },
        Tile::FallenFlagRed(lr) => {
            return (8 + u16::from(lr), 56);
        },
        Tile::FallenFlagGreen(lr) => {
            return (8 + u16::from(lr), 57);
        },
        Tile::FlagBase(a) => {
            return (10 + u16::from(a), 57);
        },
        Tile::TorchWood(lr) => {
            return (10 + u16::from(lr), 58);
        },
        Tile::Console { lmr, on, knobs } => {
            return (
                match lmr {
                    Some(lmr) => 12 + u16::from(lmr),
                    None if knobs => 16,
                    None => 15,
                },
                48 + u16::from(on),
            );
        },
        Tile::ConsoleButtons(lmr) => {
            return (12 + u16::from(lmr), 50);
        },
        _ => {
            return (0, 0);
        },
    }
}

/// The cells of the tiles `ConsoleButtonsSmall` to `CrenellationsBrickTop`; other tiles are sent to the first cell.
pub open spec fn tile_cell_group28(t: Tile) -> (int, int) {
    match t {
        Tile::ConsoleButtonsSmall(lmr) => (12 + lmr.offset(), 51),
        Tile::Shelves(tb) => (18, 48 + tb.offset()),
        Tile::ShelvesNarrow(tb) => (19, 48 + tb.offset()),
        Tile::Pillar(tmb) => (20, 48 + tmb.offset()),
        Tile::BangSticker => (17, 50),
        Tile::DiamondSticker => (18, 50),
        Tile::CoinSticker => (19, 50),
        Tile::TapeYellow(a) => (16 + a.offset(), 51),
        Tile::TapeRed(a) => (16 + a.offset(), 52),
        Tile::CrenellationsBrickTop(lmr) => (12 + lmr.offset(), 52),
        _ => (0, 0),
    }
}

/// The cell of a tile among `ConsoleButtonsSmall` to `CrenellationsBrickTop`.
fn tile_index_group28(t: Tile) -> (ret: Index)
    ensures
        ret.0 == tile_cell_group28(t).0,
        ret.1 == tile_cell_group28(t).1,
{
    match t {
        Tile::ConsoleButtonsSmall(lmr) => {
            return (12 + u16::from(lmr), 51);
        },
        Tile::Shelves(tb) => {
            return (18, 48 + u16::from(tb));
        },
        Tile::ShelvesNarrow(tb) => {
            return (19, 48 + u16::from(tb));
        },
        Tile::Pillar(tmb) => {
            return (20, 48 + u16::from(tmb));
        },
        Tile::BangSticker => {
            return (17, 50);
        },
        Tile::DiamondSticker => {
            return (18, 50);
        },
        Tile::CoinSticker => {
            return (19, 50);
        },
        Tile::TapeYellow(a) => {
            return (16 + u16::from(a), 51);
        },
        Tile::TapeRed(a) => {
            return (16 + u16::from(a), 52);
        },
        Tile::CrenellationsBrickTop(lmr) => {
            return (12 + u16::from(lmr), 52);
        },
        _ => {
            return (0, 0);
        },
    }
}

/// The cells of the tiles `CrenellationsBrick` to `CastleSlash`; other tiles are sent to the first cell.
pub open spec fn tile_cell_group29(t: Tile) -> (int, int) {
    match t {
        Tile::CrenellationsBrick(lmr) => (12 + lmr.offset(), 53),
        Tile::TapestryHolder(lr) => (12 + 2 * lr.offset(), 56),
        Tile::TapestryTopRed => (13, 56),
        Tile::TapestryTopGreen => (15, 56),
        Tile::CastleStoneWall(a) => (18 + a.offset(), 54),
        Tile::Castle(a, lmr, tb) => {
                (21 + 3 * a.offset() + lmr.offset(), 53 + tb.offset())
            },
        Tile::CastleBeamSlash(a, lmr) => (21 + 3 * a.offset() + lmr.offset(), 52),
        Tile::CastleBeamCross(a, lmr) => (21 + 3 * a.offset() + lmr.offset(), 51),
        Tile::CastleBeamSlats(a, tmb) => (23 + 3 * a.offset(), 48 + tmb.offset()),
        Tile::CastleSlash(a, tmb) => (22 + 3 * a.offset(), 48 + tmb.offset()),
        _ => (0, 0),
    }
}

/// The cell of a tile among `CrenellationsBrick` to `CastleSlash`.
fn tile_index_group29(t: Tile) -> (ret: Index)
    ensures
        ret.0 == tile_cell_group29(t).0,
        ret.1 == tile_cell_group29(t).1,
{
    match t {
        Tile::CrenellationsBrick(lmr) => {
            return (12 + u16::from(lmr), 53);
        },
        Tile::TapestryHolder(lr) => {
            return (12 + 2 * u16::from(lr), 56);
        },
        Tile::TapestryTopRed => {
            return (13, 56);
        },
        Tile::TapestryTopGreen => {
            return (15, 56);
        },
        Tile::CastleStoneWall(a) => {
            return (18 + u16::from(a), 54);
        },
        Tile::Castle(a, lmr, tb) => {
            return {
                (21 + 3 * u16::from(a) + u16::from(lmr), 53 + u16::from(tb))
            };
        },
        Tile::CastleBeamSlash(a, lmr) => {
            return (21 + 3 * u16::from(a) + u16::from(lmr), 52);
        },
        Tile::CastleBeamCross(a, lmr) => {
            return (21 + 3 * u16::from(a) + u16::from(lmr), 51);
        },
        Tile::CastleBeamSlats(a, tmb) => {
            return (23 + 3 * u16::from(a), 48 + u16::from(tmb));
        },
        Tile::CastleSlash(a, tmb) => {
            return (22 + 3 * u16::from(a), 48 + u16::from(tmb));
        },
        _ => {
            return (0, 0);
        },
    }
}

/// The cells of the tiles `CastleBeamSlashV` to `CastleRoofLowCont`; other tiles are sent to the first cell.
pub open spec fn tile_cell_group30(t: Tile) -> (int, int) {
    match t {
        Tile::CastleBeamSlashV(a, tb) => (21 + 3 * a.offset(), 48 + 2 * tb.offset()),
        Tile::CastleSlat(a) => (21 + 3 * a.offset(), 49),
        Tile::CastleRoof(a2, a) => (12 + a.offset(), 57 + a2.offset()),
        Tile::CastleRoofPeak(a, lr) => (14 + lr.offset(), 57 + a.offset()),
        Tile::CastleRoofSlope(a, lr) => (16 + lr.offset(), 57 + a.offset()),
        Tile::CastleRoofBend(a, lr) => (18 + lr.offset(), 57 + a.offset()),
        Tile::CastleRoofPeakBase(a, lr) => (20 + lr.offset(), 57 + a.offset()),
        Tile::CastleRoofLow(a, lr) => (22 + lr.offset(), 57 + a.offset()),
        Tile::CastleRoofLowCont(a, lr) => (24 + lr.offset(), 57 + a.offset()),
        _ => (0, 0),
    }
}

/// The cell of a tile among `CastleBeamSlashV` to `CastleRoofLowCont`.
fn tile_index_group30(t: Tile) -> (ret: Index)
    ensures
        ret.0 == tile_cell_group30(t).0,
        ret.1 == tile_cell_group30(t).1,
{
    match t {
        Tile::CastleBeamSlashV(a, tb) => {
            return (21 + 3 * u16::from(a), 48 + 2 * u16::from(tb));
        },
        Tile::CastleSlat(a) => {
            return (21 + 3 * u16::from(a), 49);
        },
        Tile::CastleRoof(a2, a) => {
            return (12 + u16::from(a), 57 + u16::from(a2));
        },
        Tile::CastleRoofPeak(a, lr) => {
            return (14 + u16::from(lr), 57 + u16::from(a));
        },
        Tile::CastleRoofSlope(a, lr) => {
            return (16 + u16::from(lr), 57 + u16::from(a));
        },
        Tile::CastleRoofBend(a, lr) => {
            return (18 + u16::from(lr), 57 + u16::from(a));
        },
        Tile::CastleRoofPeakBase(a, lr) => {
            return (20 + u16::from(lr), 57 + u16::from(a));
        },
        Tile::CastleRoofLow(a, lr) => {
            return (22 + u16::from(lr), 57 + u16::from(a));
        },
        Tile::CastleRoofLowCont(a, lr) => {
            return (24 + u16::from(lr), 57 + u16::from(a));
        },
        _ => {
            return (0, 0);
        },
    }
}

/// The sprite-sheet cell (column, row) of a `Tile`.
pub open spec fn tile_cell(t: Tile) -> (int, int) {
    match t {
        Tile::Air | Tile::Terrain(..) | Tile::MetalTri | Tile::MetalYellowSquare | Tile::Building(..) | Tile::BuildingInt(..) | Tile::Roof(..) | Tile::Cave(..) | Tile::BigSnowball | Tile::SmallSnowball => tile_cell_group0(t),
        Tile::GroundSnowball | Tile::SnowPile | Tile::GreenArrow(..) | Tile::MetalFence(..) | Tile::MetalUpper | Tile::MetalUpperWire { .. } | Tile::GirderSmall { .. } | Tile::Girder { .. } | Tile::GirderHoles { .. } | Tile::Railing(..) => tile_cell_group1(t),
        Tile::Beam(..) | Tile::Strut(..) | Tile::Hook(..) | Tile::Gummy(..) | Tile::Cherry | Tile::Heart | Tile::Cone | Tile::CookieBlackWhite | Tile::CookieBeigeBrown | Tile::CookieBeigePink => tile_cell_group2(t),
        Tile::IcecreamBeige | Tile::IcecreamWhite | Tile::IcecreamPink | Tile::IcecreamBrown | Tile::WaferWhite | Tile::WaferPink | Tile::WaferBrown | Tile::GummyWormHookGreenYellow | Tile::GummyWormLoopGreenYellow | Tile::GummyWormTailGreenYellow => tile_cell_group3(t),
        Tile::GummyWormHookRedWhite | Tile::GummyWormLoopRedWhite | Tile::GummyWormTailRedWhite | Tile::CandyPoleBrown(..) | Tile::CandyPoleGreen(..) | Tile::CandyPolePink(..) | Tile::CandyPoleRed(..) | Tile::LittleCandyCaneRed | Tile::CandyCaneBaseRed | Tile::CandyCaneTopRed(..) => tile_cell_group4(t),
        Tile::LittleCandyCaneGreen | Tile::CandyCaneBaseGreen | Tile::CandyCaneTopGreen(..) | Tile::LittleCandyCanePink | Tile::CandyCaneBasePink | Tile::CandyCaneTopPink(..) | Tile::LollipopStickWhite | Tile::LollipopStickBeige | Tile::LollipopStickBrown | Tile::LollipopBaseBeige => tile_cell_group5(t),
        Tile::LollipopBasePink | Tile::LollipopGreen | Tile::LollipopRed | Tile::LollipopYellow | Tile::LollipopGreenSwirl(..) | Tile::LollipopRedSwirl(..) | Tile::MetalBoxWire(..) | Tile::MetalBoxCross(..) | Tile::MetalBoxSlash(..) | Tile::MetalBoxBlank(..) => tile_cell_group6(t),
        Tile::SlimeSingle(..) | Tile::Slime(..) | Tile::SlimeBubble(..) | Tile::PineTree(..) | Tile::TrunkStraight | Tile::TrunkFork(..) | Tile::TrunkDeadFork | Tile::TrunkKnotBranch(..) | Tile::TrunkBranch(..) | Tile::TrunkBase => tile_cell_group7(t),
        Tile::TrunkBaseNarrow | Tile::TrunkBaseSnow | Tile::TrunkBaseSnowPile | Tile::LavaWave | Tile::LavaSingle | Tile::Lava | Tile::WaterWave | Tile::WaterSingle | Tile::Water | Tile::IceWaterWave => tile_cell_group8(t),
        Tile::IceWaterSingle | Tile::IceWater | Tile::SparklingWaterWave | Tile::SparklingWaterSingle | Tile::SparklingWater | Tile::DeepWater(..) | Tile::IceBlock | Tile::SparkleIceBlock | Tile::IceHalf | Tile::SparkleIceHalf => tile_cell_group9(t),
        Tile::MushroomBlock(..) | Tile::MushroomStemBlock(..) | Tile::MushroomStemTop(..) | Tile::MushroomStemLeaf | Tile::MushroomStemRing(..) | Tile::MushroomStem | Tile::MushroomStemBase(..) | Tile::MushroomWhite(..) | Tile::MushroomRed(..) | Tile::MushroomBrown(..) => tile_cell_group10(t),
        Tile::BrickBlock | Tile::StoneBlock | Tile::CrateBlank | Tile::CrateSlash | Tile::CrateCross | Tile::CrateSquareBang | Tile::CrateTriangleBang | Tile::BangBox { .. } | Tile::CoinBox { .. } | Tile::TriangleBangBoxAlt { .. } => tile_cell_group11(t),
        Tile::CrenellationOverhang(..) | Tile::Crenellation(..) | Tile::CrenellationBroken(..) | Tile::CrenellationHalf | Tile::CrenellationHalfBroken | Tile::CrenellationHalfOpen | Tile::SnowSlope(..) | Tile::SnowPileBig | Tile::SnowPileSmall | Tile::SnowPileLow(..) => tile_cell_group12(t),
        Tile::SnowDrift | Tile::Icicle(..) | Tile::Gate(..) | Tile::GateDoor(..) | Tile::GateSpikes(..) | Tile::GateBars(..) | Tile::GrassTuft | Tile::Cactus | Tile::Sapling | Tile::SaplingTall => tile_cell_group13(t),
        Tile::IceTuft | Tile::IceCrystal | Tile::PurpleCrystal | Tile::Moss | Tile::IceMoss | Tile::Rock | Tile::IceRock(..) | Tile::MossRock(..) | Tile::FrozenShrub | Tile::StoneSpike => tile_cell_group14(t),
        Tile::StoneSpike2(..) | Tile::IglooTop(..) | Tile::IglooInterior(..) | Tile::IglooDoor | Tile::Laser | Tile::Laser2 | Tile::Fireball | Tile::Brick(..) | Tile::StoneBrick(..) | Tile::Star => tile_cell_group15(t),
        Tile::TranslucentWindow(..) | Tile::TranslucentWindowBox(..) | Tile::BarrelSide(..) | Tile::Barrel(..) | Tile::LightStick(..) | Tile::Light(..) | Tile::Key(..) | Tile::Crystal(..) | Tile::FlagFrame1(..) | Tile::FlagFrame2(..) => tile_cell_group16(t),
        Tile::FallenFlag(..) | Tile::Button { .. } | Tile::Lock(..) | Tile::LaserLever(..) | Tile::LaserSpark(..) | Tile::LaserBeamH(..) | Tile::LaserBeamV(..) | Tile::TranslucentBarrel(..) | Tile::Zapper(..) | Tile::Lever(..) => tile_cell_group17(t),
        Tile::Chain | Tile::Weight | Tile::WeightChain | Tile::Spring | Tile::SpringUp | Tile::Grinder(..) | Tile::HalfGrinder(..) | Tile::CoinBronze | Tile::CoinSilver | Tile::CoinGold => tile_cell_group18(t),
        Tile::SwordBronze | Tile::SwordSilver | Tile::SwordGold | Tile::ShieldBronze | Tile::ShieldSilver | Tile::ShieldGold | Tile::PurpleGun | Tile::PurpleGunFiring | Tile::SilverGun | Tile::SilverGunFiring => tile_cell_group19(t),
        Tile::Bomb | Tile::BombFlash | Tile::Chimney(..) | Tile::SignBed { .. } | Tile::SignCoin { .. } | Tile::SignMug { .. } | Tile::TorchHolder | Tile::Torch(..) | Tile::Umbrella { .. } | Tile::Clock => tile_cell_group20(t),
        Tile::WeatherVane | Tile::Shade(..) | Tile::RopeVHook | Tile::RopeH | Tile::RopeV | Tile::Fence(..) | Tile::FenceBroken | Tile::FenceLow | Tile::FenceOpen | Tile::FenceLowerHalf => tile_cell_group21(t),
        Tile::FenceLower | Tile::Bridge | Tile::BridgeLog | Tile::SignExit | Tile::SignArrow(..) | Tile::SignBlank | Tile::DoorwayGrey(..) | Tile::DoorwayBeige(..) | Tile::DoorLockedGrey(..) | Tile::DoorLockedBeige(..) => tile_cell_group22(t),
        Tile::DoorInsetBeige(..) | Tile::DoorTopWindow | Tile::DoorBeige | Tile::WindowOpenHalf | Tile::WindowStainedHalf | Tile::WindowOpen | Tile::Window(..) | Tile::HighWindowOpen(..) | Tile::HighWindow(..) | Tile::CastleWindowOpenSmall(..) => tile_cell_group23(t),
        Tile::CastleWindowShutSmall(..) | Tile::CastleWindowOpen(..) | Tile::CastleWindowShut(..) | Tile::CastleWindowOpenHigh(..) | Tile::CastleWindowShutHigh(..) | Tile::CastleWindowOpenSlit(..) | Tile::CastleWindowShutSlit(..) | Tile::CastleWindowOpenHighAlt(..) | Tile::CastleWindowShutHighAlt(..) | Tile::CastleWindowOpenSlitAlt(..) => tile_cell_group24(t),
        Tile::CastleWindowShutSlitAlt(..) | Tile::BannerSmallRed(..) | Tile::BannerSmallGreen(..) | Tile::TapestryMidRed(..) | Tile::TapestryMidGreen(..) | Tile::TapestryBottomRed(..) | Tile::TapestryBottomGreen(..) | Tile::BannerRed(..) | Tile::BannerGreen(..) | Tile::FlagWoodRedFrame1(..) => tile_cell_group25(t),
        Tile::FlagWoodRedFrame2(..) | Tile::FlagWoodGreenFrame1(..) | Tile::FlagWoodGreenFrame2(..) | Tile::FlagWoodLongRedFrame1(..) | Tile::FlagWoodLongRedFrame2(..) | Tile::FlagWoodLongGreenFrame1(..) | Tile::FlagWoodLongGreenFrame2(..) | Tile::FlagWoodTipRedFrame1(..) | Tile::FlagWoodTipRedFrame2(..) | Tile::FlagWoodTipGreenFrame1(..) => tile_cell_group26(t),
        Tile::FlagWoodTipGreenFrame2(..) | Tile::FlagpoleTop(..) | Tile::Flagpole(..) | Tile::FlagpoleAlt(..) | Tile::FallenFlagRed(..) | Tile::FallenFlagGreen(..) | Tile::FlagBase(..) | Tile::TorchWood(..) | Tile::Console { .. } | Tile::ConsoleButtons(..) => tile_cell_group27(t),
        Tile::ConsoleButtonsSmall(..) | Tile::Shelves(..) | Tile::ShelvesNarrow(..) | Tile::Pillar(..) | Tile::BangSticker | Tile::DiamondSticker | Tile::CoinSticker | Tile::TapeYellow(..) | Tile::TapeRed(..) | Tile::CrenellationsBrickTop(..) => tile_cell_group28(t),
        Tile::CrenellationsBrick(..) | Tile::TapestryHolder(..) | Tile::TapestryTopRed | Tile::TapestryTopGreen | Tile::CastleStoneWall(..) | Tile::Castle(..) | Tile::CastleBeamSlash(..) | Tile::CastleBeamCross(..) | Tile::CastleBeamSlats(..) | Tile::CastleSlash(..) => tile_cell_group29(t),
        Tile::CastleBeamSlashV(..) | Tile::CastleSlat(..) | Tile::CastleRoof(..) | Tile::CastleRoofPeak(..) | Tile::CastleRoofSlope(..) | Tile::CastleRoofBend(..) | Tile::CastleRoofPeakBase(..) | Tile::CastleRoofLow(..) | Tile::CastleRoofLowCont(..) => tile_cell_group30(t),
    }
}

impl From<Tile> for Index {
    fn from(t: Tile) -> (ret: Index) {
        match t {
            Tile::Air
            | Tile::Terrain(..)
            | Tile::MetalTri
            | Tile::MetalYellowSquare
            | Tile::Building(..)
            | Tile::BuildingInt(..)
            | Tile::Roof(..)
            | Tile::Cave(..)
            | Tile::BigSnowball
            | Tile::SmallSnowball => {
                return tile_index_group0(t);
            },
            Tile::GroundSnowball
            | Tile::SnowPile
            | Tile::GreenArrow(..)
            | Tile::MetalFence(..)
            | Tile::MetalUpper
            | Tile::MetalUpperWire { .. }
            | Tile::GirderSmall { .. }
            | Tile::Girder { .. }
            | Tile::GirderHoles { .. }
            | Tile::Railing(..) => {
                return tile_index_group1(t);
            },
            Tile::Beam(..)
            | Tile::Strut(..)
            | Tile::Hook(..)
            | Tile::Gummy(..)
            | Tile::Cherry
            | Tile::Heart
            | Tile::Cone
            | Tile::CookieBlackWhite
            | Tile::CookieBeigeBrown
            | Tile::CookieBeigePink => {
                return tile_index_group2(t);
            },
            Tile::IcecreamBeige
            | Tile::IcecreamWhite
            | Tile::IcecreamPink
            | Tile::IcecreamBrown
            | Tile::WaferWhite
            | Tile::WaferPink
            | Tile::WaferBrown
            | Tile::GummyWormHookGreenYellow
            | Tile::GummyWormLoopGreenYellow
            | Tile::GummyWormTailGreenYellow => {
                return tile_index_group3(t);
            },
            Tile::GummyWormHookRedWhite
            | Tile::GummyWormLoopRedWhite
            | Tile::GummyWormTailRedWhite
            | Tile::CandyPoleBrown(..)
            | Tile::CandyPoleGreen(..)
            | Tile::CandyPolePink(..)
            | Tile::CandyPoleRed(..)
            | Tile::LittleCandyCaneRed
            | Tile::CandyCaneBaseRed
            | Tile::CandyCaneTopRed(..) => {
                return tile_index_group4(t);
            },
            Tile::LittleCandyCaneGreen
            | Tile::CandyCaneBaseGreen
            | Tile::CandyCaneTopGreen(..)
            | Tile::LittleCandyCanePink
            | Tile::CandyCaneBasePink
            | Tile::CandyCaneTopPink(..)
            | Tile::LollipopStickWhite
            | Tile::LollipopStickBeige
            | Tile::LollipopStickBrown
            | Tile::LollipopBaseBeige => {
                return tile_index_group5(t);
            },
            Tile::LollipopBasePink
            | Tile::LollipopGreen
            | Tile::LollipopRed
            | Tile::LollipopYellow
            | Tile::LollipopGreenSwirl(..)
            | Tile::LollipopRedSwirl(..)
            | Tile::MetalBoxWire(..)
            | Tile::MetalBoxCross(..)
            | Tile::MetalBoxSlash(..)
            | Tile::MetalBoxBlank(..) => {
                return tile_index_group6(t);
            },
            Tile::SlimeSingle(..)
            | Tile::Slime(..)
            | Tile::SlimeBubble(..)
            | Tile::PineTree(..)
            | Tile::TrunkStraight
            | Tile::TrunkFork(..)
            | Tile::TrunkDeadFork
            | Tile::TrunkKnotBranch(..)
            | Tile::TrunkBranch(..)
            | Tile::TrunkBase => {
                return tile_index_group7(t);
            },
            Tile::TrunkBaseNarrow
            | Tile::TrunkBaseSnow
            | Tile::TrunkBaseSnowPile
            | Tile::LavaWave
            | Tile::LavaSingle
            | Tile::Lava
            | Tile::WaterWave
            | Tile::WaterSingle
            | Tile::Water
            | Tile::IceWaterWave => {
                return tile_index_group8(t);
            },
            Tile::IceWaterSingle
            | Tile::IceWater
            | Tile::SparklingWaterWave
            | Tile::SparklingWaterSingle
            | Tile::SparklingWater
            | Tile::DeepWater(..)
            | Tile::IceBlock
            | Tile::SparkleIceBlock
            | Tile::IceHalf
            | Tile::SparkleIceHalf => {
                return tile_index_group9(t);
            },
            Tile::MushroomBlock(..)
            | Tile::MushroomStemBlock(..)
            | Tile::MushroomStemTop(..)
            | Tile::MushroomStemLeaf
            | Tile::MushroomStemRing(..)
            | Tile::MushroomStem
            | Tile::MushroomStemBase(..)
            | Tile::MushroomWhite(..)
            | Tile::MushroomRed(..)
            | Tile::MushroomBrown(..) => {
                return tile_index_group10(t);
            },
            Tile::BrickBlock
            | Tile::StoneBlock
            | Tile::CrateBlank
            | Tile::CrateSlash
            | Tile::CrateCross
            | Tile::CrateSquareBang
            | Tile::CrateTriangleBang
            | Tile::BangBox { .. }
            | Tile::CoinBox { .. }
            | Tile::TriangleBangBoxAlt { .. } => {
                return tile_index_group11(t);
            },
            Tile::CrenellationOverhang(..)
            | Tile::Crenellation(..)
            | Tile::CrenellationBroken(..)
            | Tile::CrenellationHalf
            | Tile::CrenellationHalfBroken
            | Tile::CrenellationHalfOpen
            | Tile::SnowSlope(..)
            | Tile::SnowPileBig
            | Tile::SnowPileSmall
            | Tile::SnowPileLow(..) => {
                return tile_index_group12(t);
            },
            Tile::SnowDrift
            | Tile::Icicle(..)
            | Tile::Gate(..)
            | Tile::GateDoor(..)
            | Tile::GateSpikes(..)
            | Tile::GateBars(..)
            | Tile::GrassTuft
            | Tile::Cactus
            | Tile::Sapling
            | Tile::SaplingTall => {
                return tile_index_group13(t);
            },
            Tile::IceTuft
            | Tile::IceCrystal
            | Tile::PurpleCrystal
            | Tile::Moss
            | Tile::IceMoss
            | Tile::Rock
            | Tile::IceRock(..)
            | Tile::MossRock(..)
            | Tile::FrozenShrub
            | Tile::StoneSpike => {
                return tile_index_group14(t);
            },
            Tile::StoneSpike2(..)
            | Tile::IglooTop(..)
            | Tile::IglooInterior(..)
            | Tile::IglooDoor
            | Tile::Laser
            | Tile::Laser2
            | Tile::Fireball
            | Tile::Brick(..)
            | Tile::StoneBrick(..)
            | Tile::Star => {
                return tile_index_group15(t);
            },
            Tile::TranslucentWindow(..)
            | Tile::TranslucentWindowBox(..)
            | Tile::BarrelSide(..)
            | Tile::Barrel(..)
            | Tile::LightStick(..)
            | Tile::Light(..)
            | Tile::Key(..)
            | Tile::Crystal(..)
            | Tile::FlagFrame1(..)
            | Tile::FlagFrame2(..) => {
                return tile_index_group16(t);
            },
            Tile::FallenFlag(..)
            | Tile::Button { .. }
            | Tile::Lock(..)
            | Tile::LaserLever(..)
            | Tile::LaserSpark(..)
            | Tile::LaserBeamH(..)
            | Tile::LaserBeamV(..)
            | Tile::TranslucentBarrel(..)
            | Tile::Zapper(..)
            | Tile::Lever(..) => {
                return tile_index_group17(t);
            },
            Tile::Chain
            | Tile::Weight
            | Tile::WeightChain
            | Tile::Spring
            | Tile::SpringUp
            | Tile::Grinder(..)
            | Tile::HalfGrinder(..)
            | Tile::CoinBronze
            | Tile::CoinSilver
            | Tile::CoinGold => {
                return tile_index_group18(t);
            },
            Tile::SwordBronze
            | Tile::SwordSilver
            | Tile::SwordGold
            | Tile::ShieldBronze
            | Tile::ShieldSilver
            | Tile::ShieldGold
            | Tile::PurpleGun
            | Tile::PurpleGunFiring
            | Tile::SilverGun
            | Tile::SilverGunFiring => {
                return tile_index_group19(t);
            },
            Tile::Bomb
            | Tile::BombFlash
            | Tile::Chimney(..)
            | Tile::SignBed { .. }
            | Tile::SignCoin { .. }
            | Tile::SignMug { .. }
            | Tile::TorchHolder
            | Tile::Torch(..)
            | Tile::Umbrella { .. }
            | Tile::Clock => {
                return tile_index_group20(t);
            },
            Tile::WeatherVane
            | Tile::Shade(..)
            | Tile::RopeVHook
            | Tile::RopeH
            | Tile::RopeV
            | Tile::Fence(..)
            | Tile::FenceBroken
            | Tile::FenceLow
            | Tile::FenceOpen
            | Tile::FenceLowerHalf => {
                return tile_index_group21(t);
            },
            Tile::FenceLower
            | Tile::Bridge
            | Tile::BridgeLog
            | Tile::SignExit
            | Tile::SignArrow(..)
            | Tile::SignBlank
            | Tile::DoorwayGrey(..)
            | Tile::DoorwayBeige(..)
            | Tile::DoorLockedGrey(..)
            | Tile::DoorLockedBeige(..) => {
                return tile_index_group22(t);
            },
            Tile::DoorInsetBeige(..)
            | Tile::DoorTopWindow
            | Tile::DoorBeige
            | Tile::WindowOpenHalf
            | Tile::WindowStainedHalf
            | Tile::WindowOpen
            | Tile::Window(..)
            | Tile::HighWindowOpen(..)
            | Tile::HighWindow(..)
            | Tile::CastleWindowOpenSmall(..) => {
                return tile_index_group23(t);
            },
            Tile::CastleWindowShutSmall(..)
            | Tile::CastleWindowOpen(..)
            | Tile::CastleWindowShut(..)
            | Tile::CastleWindowOpenHigh(..)
            | Tile::CastleWindowShutHigh(..)
            | Tile::CastleWindowOpenSlit(..)
            | Tile::CastleWindowShutSlit(..)
            | Tile::CastleWindowOpenHighAlt(..)
            | Tile::CastleWindowShutHighAlt(..)
            | Tile::CastleWindowOpenSlitAlt(..) => {
                return tile_index_group24(t);
            },
            Tile::CastleWindowShutSlitAlt(..)
            | Tile::BannerSmallRed(..)
            | Tile::BannerSmallGreen(..)
            | Tile::TapestryMidRed(..)
            | Tile::TapestryMidGreen(..)
            | Tile::TapestryBottomRed(..)
            | Tile::TapestryBottomGreen(..)
            | Tile::BannerRed(..)
            | Tile::BannerGreen(..)
            | Tile::FlagWoodRedFrame1(..) => {
                return tile_index_group25(t);
            },
            Tile::FlagWoodRedFrame2(..)
            | Tile::FlagWoodGreenFrame1(..)
            | Tile::FlagWoodGreenFrame2(..)
            | Tile::FlagWoodLongRedFrame1(..)
            | Tile::FlagWoodLongRedFrame2(..)
            | Tile::FlagWoodLongGreenFrame1(..)
            | Tile::FlagWoodLongGreenFrame2(..)
            | Tile::FlagWoodTipRedFrame1(..)
            | Tile::FlagWoodTipRedFrame2(..)
            | Tile::FlagWoodTipGreenFrame1(..) => {
                return tile_index_group26(t);
            },
            Tile::FlagWoodTipGreenFrame2(..)
            | Tile::FlagpoleTop(..)
            | Tile::Flagpole(..)
            | Tile::FlagpoleAlt(..)
            | Tile::FallenFlagRed(..)
            | Tile::FallenFlagGreen(..)
            | Tile::FlagBase(..)
            | Tile::TorchWood(..)
            | Tile::Console { .. }
            | Tile::ConsoleButtons(..) => {
                return tile_index_group27(t);
            },
            Tile::ConsoleButtonsSmall(..)
            | Tile::Shelves(..)
            | Tile::ShelvesNarrow(..)
            | Tile::Pillar(..)
            | Tile::BangSticker
            | Tile::DiamondSticker
            | Tile::CoinSticker
            | Tile::TapeYellow(..)
            | Tile::TapeRed(..)
            | Tile::CrenellationsBrickTop(..) => {
                return tile_index_group28(t);
            },
            Tile::CrenellationsBrick(..)
            | Tile::TapestryHolder(..)
            | Tile::TapestryTopRed
            | Tile::TapestryTopGreen
            | Tile::CastleStoneWall(..)
            | Tile::Castle(..)
            | Tile::CastleBeamSlash(..)
            | Tile::CastleBeamCross(..)
            | Tile::CastleBeamSlats(..)
            | Tile::CastleSlash(..) => {
                return tile_index_group29(t);
            },
            Tile::CastleBeamSlashV(..)
            | Tile::CastleSlat(..)
            | Tile::CastleRoof(..)
            | Tile::CastleRoofPeak(..)
            | Tile::CastleRoofSlope(..)
            | Tile::CastleRoofBend(..)
            | Tile::CastleRoofPeakBase(..)
            | Tile::CastleRoofLow(..)
            | Tile::CastleRoofLowCont(..) => {
                return tile_index_group30(t);
            },
        }
    }
}

impl FromSpecImpl<Tile> for Index {
    open spec fn obeys_from_spec() -> bool {
        true
    }

    open spec fn from_spec(v: Tile) -> Index {
        (tile_cell(v).0 as u16, tile_cell(v).1 as u16)
    }
}



impl SheetOffset for Alt3 {
    open spec fn offset(self) -> int {
        alt3_offset(self)
    }
}

impl SheetOffset for Alt5 {
    open spec fn offset(self) -> int {
        alt5_offset(self)
    }
}

impl SheetOffset for LR {
    open spec fn offset(self) -> int {
        lr_offset(self)
    }
}

impl SheetOffset for LMR {
    open spec fn offset(self) -> int {
        lmr_offset(self)
    }
}

impl SheetOffset for TB {
    open spec fn offset(self) -> int {
        tb_offset(self)
    }
}

impl SheetOffset for TMB {
    open spec fn offset(self) -> int {
        tmb_offset(self)
    }
}

impl SheetOffset for Color4 {
    open spec fn offset(self) -> int {
        color4_offset(self)
    }
}

impl SheetCell for Terrain {
    open spec fn cell(self) -> (int, int) {
        terrain_cell(self)
    }
}

impl SheetCell for TerrainTile {
    open spec fn cell(self) -> (int, int) {
        terrain_tile_cell(self)
    }
}

impl SheetCell for RockType {
    open spec fn cell(self) -> (int, int) {
        rock_type_cell(self)
    }
}

impl SheetCell for Roof {
    open spec fn cell(self) -> (int, int) {
        roof_cell(self)
    }
}

impl SheetCell for CaveTile {
    open spec fn cell(self) -> (int, int) {
        cave_tile_cell(self)
    }
}

impl SheetCell for TreeTile {
    open spec fn cell(self) -> (int, int) {
        tree_tile_cell(self)
    }
}

impl SheetCell for Tile {
    open spec fn cell(self) -> (int, int) {
        tile_cell(self)
    }
}


proof fn lemma_tile_cell_group0_in_sheet(t: Tile)
    ensures
        0 <= tile_cell_group0(t).0 < SHEET_W,
        0 <= tile_cell_group0(t).1 < SHEET_H,
{
}

proof fn lemma_tile_cell_group1_in_sheet(t: Tile)
    ensures
        0 <= tile_cell_group1(t).0 < SHEET_W,
        0 <= tile_cell_group1(t).1 < SHEET_H,
{
}

proof fn lemma_tile_cell_group2_in_sheet(t: Tile)
    ensures
        0 <= tile_cell_group2(t).0 < SHEET_W,
        0 <= tile_cell_group2(t).1 < SHEET_H,
{
}

proof fn lemma_tile_cell_group3_in_sheet(t: Tile)
    ensures
        0 <= tile_cell_group3(t).0 < SHEET_W,
        0 <= tile_cell_group3(t).1 < SHEET_H,
{
}

proof fn lemma_tile_cell_group4_in_sheet(t: Tile)
    ensures
        0 <= tile_cell_group4(t).0 < SHEET_W,
        0 <= tile_cell_group4(t).1 < SHEET_H,
{
}

proof fn lemma_tile_cell_group5_in_sheet(t: Tile)
    ensures
        0 <= tile_cell_group5(t).0 < SHEET_W,
        0 <= tile_cell_group5(t).1 < SHEET_H,
{
}

proof fn lemma_tile_cell_group6_in_sheet(t: Tile)
    ensures
        0 <= tile_cell_group6(t).0 < SHEET_W,
        0 <= tile_cell_group6(t).1 < SHEET_H,
{
}

proof fn lemma_tile_cell_group7_in_sheet(t: Tile)
    ensures
        0 <= tile_cell_group7(t).0 < SHEET_W,
        0 <= tile_cell_group7(t).1 < SHEET_H,
{
}

proof fn lemma_tile_cell_group8_in_sheet(t: Tile)
    ensures
        0 <= tile_cell_group8(t).0 < SHEET_W,
        0 <= tile_cell_group8(t).1 < SHEET_H,
{
}

proof fn lemma_tile_cell_group9_in_sheet(t: Tile)
    ensures
        0 <= tile_cell_group9(t).0 < SHEET_W,
        0 <= tile_cell_group9(t).1 < SHEET_H,
{
}

proof fn lemma_tile_cell_group10_in_sheet(t: Tile)
    ensures
        0 <= tile_cell_group10(t).0 < SHEET_W,
        0 <= tile_cell_group10(t).1 < SHEET_H,
{
}

proof fn lemma_tile_cell_group11_in_sheet(t: Tile)
    ensures
        0 <= tile_cell_group11(t).0 < SHEET_W,
        0 <= tile_cell_group11(t).1 < SHEET_H,
{
}

proof fn lemma_tile_cell_group12_in_sheet(t: Tile)
    ensures
        0 <= tile_cell_group12(t).0 < SHEET_W,
        0 <= tile_cell_group12(t).1 < SHEET_H,
{
}

proof fn lemma_tile_cell_group13_in_sheet(t: Tile)
    ensures
        0 <= tile_cell_group13(t).0 < SHEET_W,
        0 <= tile_cell_group13(t).1 < SHEET_H,
{
}

proof fn lemma_tile_cell_group14_in_sheet(t: Tile)
    ensures
        0 <= tile_cell_group14(t).0 < SHEET_W,
        0 <= tile_cell_group14(t).1 < SHEET_H,
{
}

proof fn lemma_tile_cell_group15_in_sheet(t: Tile)
    ensures
        0 <= tile_cell_group15(t).0 < SHEET_W,
        0 <= tile_cell_group15(t).1 < SHEET_H,
{
}

proof fn lemma_tile_cell_group16_in_sheet(t: Tile)
    ensures
        0 <= tile_cell_group16(t).0 < SHEET_W,
        0 <= tile_cell_group16(t).1 < SHEET_H,
{
}

proof fn lemma_tile_cell_group17_in_sheet(t: Tile)
    ensures
        0 <= tile_cell_group17(t).0 < SHEET_W,
        0 <= tile_cell_group17(t).1 < SHEET_H,
{
}

proof fn lemma_tile_cell_group18_in_sheet(t: Tile)
    ensures
        0 <= tile_cell_group18(t).0 < SHEET_W,
        0 <= tile_cell_group18(t).1 < SHEET_H,
{
}

proof fn lemma_tile_cell_group19_in_sheet(t: Tile)
    ensures
        0 <= tile_cell_group19(t).0 < SHEET_W,
        0 <= tile_cell_group19(t).1 < SHEET_H,
{
}

proof fn lemma_tile_cell_group20_in_sheet(t: Tile)
    ensures
        0 <= tile_cell_group20(t).0 < SHEET_W,
        0 <= tile_cell_group20(t).1 < SHEET_H,
{
}

proof fn lemma_tile_cell_group21_in_sheet(t: Tile)
    ensures
        0 <= tile_cell_group21(t).0 < SHEET_W,
        0 <= tile_cell_group21(t).1 < SHEET_H,
{
}

proof fn lemma_tile_cell_group22_in_sheet(t: Tile)
    ensures
        0 <= tile_cell_group22(t).0 < SHEET_W,
        0 <= tile_cell_group22(t).1 < SHEET_H,
{
}

proof fn lemma_tile_cell_group23_in_sheet(t: Tile)
    ensures
        0 <= tile_cell_group23(t).0 < SHEET_W,
        0 <= tile_cell_group23(t).1 < SHEET_H,
{
}

proof fn lemma_tile_cell_group24_in_sheet(t: Tile)
    ensures
        0 <= tile_cell_group24(t).0 < SHEET_W,
        0 <= tile_cell_group24(t).1 < SHEET_H,
{
}

proof fn lemma_tile_cell_group25_in_sheet(t: Tile)
    ensures
        0 <= tile_cell_group25(t).0 < SHEET_W,
        0 <= tile_cell_group25(t).1 < SHEET_H,
{
}

proof fn lemma_tile_cell_group26_in_sheet(t: Tile)
    ensures
        0 <= tile_cell_group26(t).0 < SHEET_W,
        0 <= tile_cell_group26(t).1 < SHEET_H,
{
}

proof fn lemma_tile_cell_group27_in_sheet(t: Tile)
    ensures
        0 <= tile_cell_group27(t).0 < SHEET_W,
        0 <= tile_cell_group27(t).1 < SHEET_H,
{
}

proof fn lemma_tile_cell_group28_in_sheet(t: Tile)
    ensures
        0 <= tile_cell_group28(t).0 < SHEET_W,
        0 <= tile_cell_group28(t).1 < SHEET_H,
{
}

proof fn lemma_tile_cell_group29_in_sheet(t: Tile)
    ensures
        0 <= tile_cell_group29(t).0 < SHEET_W,
        0 <= tile_cell_group29(t).1 < SHEET_H,
{
}

proof fn lemma_tile_cell_group30_in_sheet(t: Tile)
    ensures
        0 <= tile_cell_group30(t).0 < SHEET_W,
        0 <= tile_cell_group30(t).1 < SHEET_H,
{
}

/// Every tile lies on the sprite sheet: its column is below `SHEET_W` and its
/// row below `SHEET_H`.
pub proof fn lemma_tile_cell_in_sheet(t: Tile)
    ensures
        0 <= tile_cell(t).0 < SHEET_W,
        0 <= tile_cell(t).1 < SHEET_H,
{
    lemma_tile_cell_group0_in_sheet(t);
    lemma_tile_cell_group1_in_sheet(t);
    lemma_tile_cell_group2_in_sheet(t);
    lemma_tile_cell_group3_in_sheet(t);
    lemma_tile_cell_group4_in_sheet(t);
    lemma_tile_cell_group5_in_sheet(t);
    lemma_tile_cell_group6_in_sheet(t);
    lemma_tile_cell_group7_in_sheet(t);
    lemma_tile_cell_group8_in_sheet(t);
    lemma_tile_cell_group9_in_sheet(t);
    lemma_tile_cell_group10_in_sheet(t);
    lemma_tile_cell_group11_in_sheet(t);
    lemma_tile_cell_group12_in_sheet(t);
    lemma_tile_cell_group13_in_sheet(t);
    lemma_tile_cell_group14_in_sheet(t);
    lemma_tile_cell_group15_in_sheet(t);
    lemma_tile_cell_group16_in_sheet(t);
    lemma_tile_cell_group17_in_sheet(t);
    lemma_tile_cell_group18_in_sheet(t);
    lemma_tile_cell_group19_in_sheet(t);
    lemma_tile_cell_group20_in_sheet(t);
    lemma_tile_cell_group21_in_sheet(t);
    lemma_tile_cell_group22_in_sheet(t);
    lemma_tile_cell_group23_in_sheet(t);
    lemma_tile_cell_group24_in_sheet(t);
    lemma_tile_cell_group25_in_sheet(t);
    lemma_tile_cell_group26_in_sheet(t);
    lemma_tile_cell_group27_in_sheet(t);
    lemma_tile_cell_group28_in_sheet(t);
    lemma_tile_cell_group29_in_sheet(t);
    lemma_tile_cell_group30_in_sheet(t);
}


} // verus!
