//! The zones of the world, the features that brushes lay down in it, and the
//! schema that holds them in a spatial index.

use vstd::prelude::*;
use vstd::multiset::Multiset;
use crate::helpers::{fits_i32, max_int, min_int, Box1, Box2};
use crate::map::Place;
use crate::map::brushes::{Terrain, Tile, LR, TMB, LMR};
use crate::map::brushes::tiling::GroundCover;
use crate::spatial::{
    coord_limit, entry_holds, entry_in_range, entry_meets, entry_of, index_entries, Entry,
    FeatureIndex,
};

verus! {

#[derive(Clone, Copy, PartialEq, Eq, PartialOrd, Ord, Debug, Structural)]
pub enum Zone1 {
    Plains,
    Hills,
    Lake,
    Sky,
}

/// The `Zone1` numbered `n`, in declaration order.
pub open spec fn spec_zone1_from_u64(n: u64) -> Option<Zone1> {
    if n == 0 {
        Some(Zone1::Plains)
    } else if n == 1 {
        Some(Zone1::Hills)
    } else if n == 2 {
        Some(Zone1::Lake)
    } else if n == 3 {
        Some(Zone1::Sky)
    } else {
        None
    }
}

impl Zone1 {
    /// The number of variants.
    pub const CARDINALITY: u64 = 4;

    /// The variant numbered `n`, in declaration order.
    pub fn from_u64(n: u64) -> (r: Option<Zone1>)
        ensures
            r == spec_zone1_from_u64(n),
    {
        if n == 0 {
            Some(Zone1::Plains)
        } else if n == 1 {
            Some(Zone1::Hills)
        } else if n == 2 {
            Some(Zone1::Lake)
        } else if n == 3 {
            Some(Zone1::Sky)
        } else {
            None
        }
    }
}

#[derive(Clone, Copy, PartialEq, Eq, PartialOrd, Ord, Debug, Structural)]
pub enum Zone {
    Grass(Zone1),
    Desert(Zone1),
    Candy(Zone1),
    Mushroom,
    Caverns,
    Forest,
    SnowForest,
    StoneMountain,
    StoneCliff,
    LavaPlains,
    LavaHills,
    Castle,
}

/// What a zone's terrain looks like: the chances (in tenths) that a column is
/// a gap and that a step is a hill, and the zone's terrains.
#[derive(Clone, Copy, PartialEq, Eq, Debug, Structural)]
pub struct ZoneInfo {
    pub gap_chance_tenths: u32,
    pub hill_chance_tenths: u32,
    pub terrain: Terrain,
    pub alt_terrain: Option<Terrain>,
}

/// The gap and hill chances of a zone, in tenths.
pub open spec fn zone_chances(z: Zone) -> (u32, u32) {
    match z {
        Zone::Grass(z1) | Zone::Desert(z1) | Zone::Candy(z1) => match z1 {
            Zone1::Plains => (1, 1),
            Zone1::Hills => (2, 9),
            Zone1::Lake => (4, 3),
            Zone1::Sky => (6, 0),
        },
        Zone::Mushroom => (8, 0),
        Zone::Caverns => (2, 6),
        Zone::Forest | Zone::SnowForest => (1, 3),
        Zone::StoneMountain => (3, 3),
        Zone::StoneCliff => (3, 1),
        Zone::LavaPlains => (2, 1),
        Zone::LavaHills => (3, 9),
        Zone::Castle => (3, 2),
    }
}

/// The terrain and the alternative terrain of a zone.
pub open spec fn zone_terrains(z: Zone) -> (Terrain, Option<Terrain>) {
    match z {
        Zone::Grass(_) | Zone::Forest => (Terrain::Grass, None),
        Zone::Desert(_) => (Terrain::Sand, None),
        Zone::Candy(_) => (Terrain::Cake, Some(Terrain::Choco)),
        Zone::Mushroom => (Terrain::Dirt, Some(Terrain::Grass)),
        Zone::Caverns => (Terrain::Stone, None),
        Zone::SnowForest => (Terrain::Snow, None),
        Zone::StoneMountain | Zone::StoneCliff => (Terrain::Stone, Some(Terrain::Dirt)),
        Zone::LavaPlains | Zone::LavaHills => (Terrain::Stone, None),
        Zone::Castle => (Terrain::Castle, None),
    }
}

/// The zone numbered `n`: the nine plain zones first, then four grass, four
/// desert and four candy zones, each sub-zone picked by `n - 8` modulo the
/// number of sub-zones.
pub open spec fn spec_zone_from_u64(n: u64) -> Option<Zone> {
    if n == 0 {
        Some(Zone::Mushroom)
    } else if n == 1 {
        Some(Zone::Caverns)
    } else if n == 2 {
        Some(Zone::Forest)
    } else if n == 3 {
        Some(Zone::SnowForest)
    } else if n == 4 {
        Some(Zone::StoneMountain)
    } else if n == 5 {
        Some(Zone::StoneCliff)
    } else if n == 6 {
        Some(Zone::LavaPlains)
    } else if n == 7 {
        Some(Zone::LavaHills)
    } else if n == 8 {
        Some(Zone::Castle)
    } else if n < 9 + 4 {
        match spec_zone1_from_u64(((n - 8) % 4) as u64) {
            Some(z1) => Some(Zone::Grass(z1)),
            None => None,
        }
    } else if n < 9 + 2 * 4 {
        match spec_zone1_from_u64(((n - 8) % 4) as u64) {
            Some(z1) => Some(Zone::Desert(z1)),
            None => None,
        }
    } else if n < 9 + 3 * 4 {
        match spec_zone1_from_u64(((n - 8) % 4) as u64) {
            Some(z1) => Some(Zone::Candy(z1)),
            None => None,
        }
    } else {
        None
    }
}

impl Zone {
    /// The number of zones.
    pub const CARDINALITY: u64 = 21;

    /// The chances and terrains of the zone.
    pub fn info(self) -> (r: ZoneInfo)
        ensures
            (r.gap_chance_tenths, r.hill_chance_tenths) == zone_chances(self),
            (r.terrain, r.alt_terrain) == zone_terrains(self),
    {
        let (gap_chance_tenths, hill_chance_tenths) = match self {
            Zone::Grass(z1) | Zone::Desert(z1) | Zone::Candy(z1) => match z1 {
                Zone1::Plains => (1, 1),
                Zone1::Hills => (2, 9),
                Zone1::Lake => (4, 3),
                Zone1::Sky => (6, 0),
            },
            Zone::Mushroom => (8, 0),
            Zone::Caverns => (2, 6),
            Zone::Forest | Zone::SnowForest => (1, 3),
            Zone::StoneMountain => (3, 3),
            Zone::StoneCliff => (3, 1),
            Zone::LavaPlains => (2, 1),
            Zone::LavaHills => (3, 9),
            Zone::Castle => (3, 2),
        };
        let (terrain, alt_terrain) = match self {
            Zone::Grass(_) | Zone::Forest => (Terrain::Grass, None),
            Zone::Desert(_) => (Terrain::Sand, None),
            Zone::Candy(_) => (Terrain::Cake, Some(Terrain::Choco)),
            Zone::Mushroom => (Terrain::Dirt, Some(Terrain::Grass)),
            Zone::Caverns => (Terrain::Stone, None),
            Zone::SnowForest => (Terrain::Snow, None),
            Zone::StoneMountain | Zone::StoneCliff => (Terrain::Stone, Some(Terrain::Dirt)),
            Zone::LavaPlains | Zone::LavaHills => (Terrain::Stone, None),
            Zone::Castle => (Terrain::Castle, None),
        };
        ZoneInfo { gap_chance_tenths, hill_chance_tenths, terrain, alt_terrain }
    }

    /// The zone numbered `n`, or `None` when `n` is negative.
    pub fn from_i64(n: i64) -> (r: Option<Zone>)
        ensures
            n < 0 ==> r == None::<Zone>,
            n >= 0 ==> r == spec_zone_from_u64(n as u64),
    {
        if n < 0 {
            return None;
        }
        Self::from_u64(n as u64)
    }

    /// The zone numbered `n`.
    pub fn from_u64(n: u64) -> (r: Option<Zone>)
        ensures
            r == spec_zone_from_u64(n),
    {
        if n == 0 {
            Some(Zone::Mushroom)
        } else if n == 1 {
            Some(Zone::Caverns)
        } else if n == 2 {
            Some(Zone::Forest)
        } else if n == 3 {
            Some(Zone::SnowForest)
        } else if n == 4 {
            Some(Zone::StoneMountain)
        } else if n == 5 {
            Some(Zone::StoneCliff)
        } else if n == 6 {
            Some(Zone::LavaPlains)
        } else if n == 7 {
            Some(Zone::LavaHills)
        } else if n == 8 {
            Some(Zone::Castle)
        } else if n < 9 + 1 * Zone1::CARDINALITY {
            match Zone1::from_u64((n - 8) % Zone1::CARDINALITY) {
                Some(z1) => Some(Zone::Grass(z1)),
                None => None,
            }
        } else if n < 9 + 2 * Zone1::CARDINALITY {
            match Zone1::from_u64((n - 8) % Zone1::CARDINALITY) {
                Some(z1) => Some(Zone::Desert(z1)),
                None => None,
            }
        } else if n < 9 + 3 * Zone1::CARDINALITY {
            match Zone1::from_u64((n - 8) % Zone1::CARDINALITY) {
                Some(z1) => Some(Zone::Candy(z1)),
                None => None,
            }
        } else {
            None
        }
    }
}

/// Something that a brush lays down in a level.
#[derive(Clone, Copy, PartialEq, Eq, Debug, Structural)]
pub enum Feature {
    GroundBlock(GroundCover, Terrain, Box2),
    HillBlock {
        terrain: Terrain,
        start_x: i32,
        height: Box1,
        bridge_thickness: Option<u32>,
        lr: LR,
    },
    Igloo { box2: Box2, door: u32 },
    Tile(Place, Tile),
    CrateCrossRect(Box2),
    CrateRandomRect(Box2),
    SurfaceWater(Box2),
    SurfaceLava(Box2),
    BigMushroomTop(Place, u32),
    BigMushroomStem(Place, u32),
    SlopedGround { start: Place, height: i32 },
    FlatGround(Place, u32),
    Zone(Zone, Box2),
    Offscreen(Box2),
}

/// The absolute value.
pub open spec fn abs_int(v: int) -> int {
    if v < 0 {
        -v
    } else {
        v
    }
}

/// The bridge thickness of a hill, `0` when it has none.
pub open spec fn thickness_or_zero(t: Option<u32>) -> int {
    match t {
        Some(t) => t as int,
        None => 0,
    }
}

/// The envelope of a feature can be computed: its arithmetic stays within
/// `i32` and its bounds come out in order.
pub open spec fn envelope_defined(f: Feature) -> bool {
    match f {
        Feature::HillBlock { start_x, height, bridge_thickness, .. } => {
            &&& thickness_or_zero(bridge_thickness) <= i32::MAX
            &&& height.size_fits()
            &&& fits_i32(height.lo_incl - thickness_or_zero(bridge_thickness))
            &&& fits_i32(start_x + height.spec_size())
            &&& height.lo_incl - thickness_or_zero(bridge_thickness) <= height.hi_excl
            &&& 0 <= height.spec_size()
        },
        Feature::Tile(p, _) => p.x < i32::MAX && p.y < i32::MAX,
        Feature::BigMushroomTop(p, width) => {
            &&& width <= i32::MAX
            &&& fits_i32(p.x - width)
            &&& fits_i32(p.x + width + 1)
            &&& p.y < i32::MAX
        },
        Feature::BigMushroomStem(p, height) => {
            &&& height <= i32::MAX
            &&& p.x < i32::MAX
            &&& fits_i32(p.y + height)
        },
        Feature::SlopedGround { start, height } => {
            &&& height > i32::MIN
            &&& fits_i32(start.x + abs_int(height as int))
            &&& fits_i32(start.y + abs_int(height as int))
        },
        Feature::FlatGround(p, length) => {
            &&& length <= i32::MAX
            &&& fits_i32(p.x + length)
            &&& p.y < i32::MAX
        },
        Feature::GroundBlock(_, _, b) | Feature::Igloo { box2: b, .. } | Feature::CrateCrossRect(b)
        | Feature::CrateRandomRect(b) | Feature::SurfaceWater(b) | Feature::SurfaceLava(b)
        | Feature::Zone(_, b) | Feature::Offscreen(b) => true,
    }
}

/// The rectangle `[x0, x1) x [y0, y1)`.
pub open spec fn rect(x0: int, x1: int, y0: int, y1: int) -> Box2 {
    Box2 {
        x: Box1 { lo_incl: x0 as i32, hi_excl: x1 as i32 },
        y: Box1 { lo_incl: y0 as i32, hi_excl: y1 as i32 },
    }
}

/// The rectangle that a feature covers.
pub open spec fn spec_envelope(f: Feature) -> Box2 {
    match f {
        Feature::GroundBlock(_, _, b) => b,
        Feature::HillBlock { start_x, height, bridge_thickness, .. } => rect(
            start_x as int,
            start_x + height.spec_size(),
            height.lo_incl - thickness_or_zero(bridge_thickness),
            height.hi_excl as int,
        ),
        Feature::Igloo { box2, .. } => box2,
        Feature::Tile(p, _) => rect(p.x as int, p.x + 1, p.y as int, p.y + 1),
        Feature::CrateCrossRect(b) => b,
        Feature::CrateRandomRect(b) => b,
        Feature::SurfaceWater(b) => b,
        Feature::SurfaceLava(b) => b,
        Feature::BigMushroomTop(p, width) => rect(p.x - width, p.x + width + 1, p.y as int, p.y + 1),
        Feature::BigMushroomStem(p, height) => rect(p.x as int, p.x + 1, p.y as int, p.y + height),
        Feature::SlopedGround { start, height } => rect(
            start.x as int,
            start.x + abs_int(height as int),
            start.y as int,
            start.y + abs_int(height as int),
        ),
        Feature::FlatGround(p, length) => rect(p.x as int, p.x + length, p.y as int, p.y + 1),
        Feature::Zone(_, b) => b,
        Feature::Offscreen(b) => b,
    }
}

/// The name under which a feature is shown.
pub open spec fn description(f: Feature) -> &'static str {
    match f {
        Feature::GroundBlock(_, _, _) => "Ground",
        Feature::HillBlock { bridge_thickness: None, .. } => "Hill",
        Feature::HillBlock { bridge_thickness: Some(_), .. } => "Hill bridge",
        Feature::Igloo { .. } => "Igloo",
        Feature::Tile(_, _) => "Tile",
        Feature::CrateCrossRect(_) => "Cross crates",
        Feature::CrateRandomRect(_) => "Random crates",
        Feature::SurfaceWater(_) => "Surface water",
        Feature::SurfaceLava(_) => "Surface lava",
        Feature::BigMushroomTop(_, _) => "Mushroom top",
        Feature::BigMushroomStem(_, _) => "Mushroom stem",
        Feature::SlopedGround { .. } => "Sloped ground",
        Feature::FlatGround(_, _) => "Flat ground",
        Feature::Zone(_, _) => "Zone",
        Feature::Offscreen(_) => "Offscreen",
    }
}

impl Feature {
    /// The name under which the feature is shown.
    pub fn describe(self) -> (r: &'static str)
        ensures
            r == description(self),
    {
        match self {
            Feature::GroundBlock(_, _, _) => "Ground",
            Feature::HillBlock { bridge_thickness: None, .. } => "Hill",
            Feature::HillBlock { bridge_thickness: Some(_), .. } => "Hill bridge",
            Feature::Igloo { .. } => "Igloo",
            Feature::Tile(_, _) => "Tile",
            Feature::CrateCrossRect(_) => "Cross crates",
            Feature::CrateRandomRect(_) => "Random crates",
            Feature::SurfaceWater(_) => "Surface water",
            Feature::SurfaceLava(_) => "Surface lava",
            Feature::BigMushroomTop(_, _) => "Mushroom top",
            Feature::BigMushroomStem(_, _) => "Mushroom stem",
            Feature::SlopedGround { .. } => "Sloped ground",
            Feature::FlatGround(_, _) => "Flat ground",
            Feature::Zone(_, _) => "Zone",
            Feature::Offscreen(_) => "Offscreen",
        }
    }

    /// The rectangle that the feature covers, by which the schema indexes it.
    pub fn bounds(self) -> (r: Box2)
        requires
            envelope_defined(self),
        ensures
            r == spec_envelope(self),
    {
        match self {
            Feature::GroundBlock(_, _, b) => b,
            Feature::HillBlock { start_x, height, bridge_thickness, .. } => {
                let t: u32 = match bridge_thickness {
                    Some(t) => t,
                    None => 0,
                };
                Box2::new(
                    (start_x, height.lo_incl - t as i32),
                    (start_x + height.size(), height.hi_excl),
                )
            },
            Feature::Igloo { box2, .. } => box2,
            Feature::Tile(p, _) => Box2::from_point((p.x, p.y)),
            Feature::CrateCrossRect(b) => b,
            Feature::CrateRandomRect(b) => b,
            Feature::SurfaceWater(b) => b,
            Feature::SurfaceLava(b) => b,
            Feature::BigMushroomTop(p, width) => Box2::from_box1s(
                Box1::new(p.x - width as i32, p.x + width as i32 + 1),
                Box1::from_point(p.y),
            ),
            Feature::BigMushroomStem(p, height) => Box2::from_box1s(
                Box1::from_point(p.x),
                Box1::new(p.y, p.y + height as i32),
            ),
            Feature::SlopedGround { start, height } => {
                let h = if height < 0 { -height } else { height };
                Box2::new((start.x, start.y), (start.x + h, start.y + h))
            },
            Feature::FlatGround(p, length) => Box2::from_box1s(
                Box1::new(p.x, p.x + length as i32),
                Box1::from_point(p.y),
            ),
            Feature::Zone(_, b) => b,
            Feature::Offscreen(b) => b,
        }
    }
}

#[derive(Clone, Copy, PartialEq, Eq, Debug, Structural)]
pub struct VerticalFeature {
    base_height: i32,
    width: Box1,
}

/// The corners by which a rectangle is indexed: its lower corner and the
/// last point before its upper bounds.
pub open spec fn box_corners(b: Box2) -> ((i32, i32), (i32, i32)) {
    ((b.x.lo_incl, b.y.lo_incl), ((b.x.hi_excl - 1) as i32, (b.y.hi_excl - 1) as i32))
}

/// Both coordinates lie within the index's limit.
pub open spec fn corner_in_range(p: (i32, i32)) -> bool {
    -coord_limit() <= p.0 <= coord_limit() && -coord_limit() <= p.1 <= coord_limit()
}

/// A feature can be indexed: its envelope is defined and its corners lie
/// within the index's limit.
pub open spec fn indexable(f: Feature) -> bool {
    &&& envelope_defined(f)
    &&& spec_envelope(f).x.hi_excl > i32::MIN
    &&& spec_envelope(f).y.hi_excl > i32::MIN
    &&& corner_in_range(box_corners(spec_envelope(f)).0)
    &&& corner_in_range(box_corners(spec_envelope(f)).1)
}

/// The index entry of feature number `id`.
pub open spec fn feature_entry(f: Feature, id: int) -> Entry {
    entry_of(box_corners(spec_envelope(f)).0, box_corners(spec_envelope(f)).1, id as usize)
}

/// The entries of the first features of `fs`, each under its number.
pub open spec fn entries_of(fs: Seq<Feature>) -> Multiset<Entry>
    decreases fs.len(),
{
    if fs.len() == 0 {
        Multiset::empty()
    } else {
        entries_of(fs.drop_last()).insert(feature_entry(fs.last(), fs.len() - 1))
    }
}

/// The feature that `Schema::add` lays down along with `f`, if any: the
/// flat top of a ground block, the slope of a hill, the flat top of a big
/// mushroom.
pub open spec fn companion(f: Feature) -> Option<Feature> {
    match f {
        Feature::GroundBlock(_, _, b) => Some(
            Feature::FlatGround(
                Place { x: b.x.lo_incl, y: (b.y.hi_excl - 1) as i32 },
                b.x.spec_size() as u32,
            ),
        ),
        Feature::HillBlock { start_x, height, lr, .. } => Some(
            Feature::SlopedGround {
                start: Place {
                    x: start_x,
                    y: match lr {
                        LR::L => height.lo_incl,
                        LR::R => (height.hi_excl - 1) as i32,
                    },
                },
                height: match lr {
                    LR::L => height.spec_size() as i32,
                    LR::R => (-height.spec_size()) as i32,
                },
            },
        ),
        Feature::BigMushroomTop(p, width) => Some(
            Feature::FlatGround(Place { x: (p.x + width) as i32, y: p.y }, width),
        ),
        _ => None,
    }
}

/// The companion of `f` can be computed without overflow.
pub open spec fn companion_defined(f: Feature) -> bool {
    match f {
        Feature::GroundBlock(_, _, b) => b.y.hi_excl > i32::MIN && b.x.size_fits(),
        Feature::HillBlock { height, .. } => height.hi_excl > i32::MIN && height.size_fits()
            && fits_i32(-height.spec_size()),
        Feature::BigMushroomTop(p, width) => width <= i32::MAX && fits_i32(p.x + width),
        _ => true,
    }
}

/// The features that adding `f` lays down, in order: `f`, then its companion.
pub open spec fn added(f: Feature) -> Seq<Feature> {
    match companion(f) {
        Some(c) => seq![f, c],
        None => seq![f],
    }
}

/// `r` lists the features of `fs` that satisfy `pred`, each once, in some
/// order: each item is the feature at a different position of `fs`, and every
/// position whose feature satisfies `pred` is listed.
pub open spec fn lists_matching(r: Seq<Feature>, fs: Seq<Feature>, pred: spec_fn(Feature) -> bool) -> bool {
    exists|ids: Seq<int>|
        #![trigger ids.no_duplicates()]
        {
            &&& ids.len() == r.len()
            &&& ids.no_duplicates()
            &&& forall|k: int|
                0 <= k < ids.len() ==> 0 <= #[trigger] ids[k] < fs.len() && r[k] == fs[ids[k]]
                    && pred(fs[ids[k]])
            &&& forall|i: int| 0 <= i < fs.len() && #[trigger] pred(fs[i]) ==> ids.contains(i)
        }
}

/// Every item of a listing of the features of `fs` that satisfy `pred` is a
/// feature of `fs` that satisfies `pred`.
pub proof fn lemma_listed_items(r: Seq<Feature>, fs: Seq<Feature>, pred: spec_fn(Feature) -> bool)
    requires
        lists_matching(r, fs, pred),
    ensures
        forall|k: int| 0 <= k < r.len() ==> pred(#[trigger] r[k]) && fs.contains(r[k]),
{
    let ids = choose|ids: Seq<int>|
        #![trigger ids.no_duplicates()]
        {
            &&& ids.len() == r.len()
            &&& ids.no_duplicates()
            &&& forall|k: int|
                0 <= k < ids.len() ==> 0 <= #[trigger] ids[k] < fs.len() && r[k] == fs[ids[k]]
                    && pred(fs[ids[k]])
            &&& forall|i: int| 0 <= i < fs.len() && #[trigger] pred(fs[i]) ==> ids.contains(i)
        };
    assert forall|k: int| 0 <= k < r.len() implies pred(#[trigger] r[k]) && fs.contains(r[k]) by {
        assert(fs[ids[k]] == r[k]);
    }
}

/// Every feature of `fs` that satisfies `pred` is in a listing of them.
pub proof fn lemma_listed_complete(r: Seq<Feature>, fs: Seq<Feature>, pred: spec_fn(Feature) -> bool)
    requires
        lists_matching(r, fs, pred),
    ensures
        forall|i: int| 0 <= i < fs.len() && pred(#[trigger] fs[i]) ==> r.contains(fs[i]),
{
    let ids = choose|ids: Seq<int>|
        #![trigger ids.no_duplicates()]
        {
            &&& ids.len() == r.len()
            &&& ids.no_duplicates()
            &&& forall|k: int|
                0 <= k < ids.len() ==> 0 <= #[trigger] ids[k] < fs.len() && r[k] == fs[ids[k]]
                    && pred(fs[ids[k]])
            &&& forall|i: int| 0 <= i < fs.len() && #[trigger] pred(fs[i]) ==> ids.contains(i)
        };
    assert forall|i: int| 0 <= i < fs.len() && pred(#[trigger] fs[i]) implies r.contains(fs[i]) by {
        let k = choose|k: int| 0 <= k < ids.len() && ids[k] == i;
        assert(r[k] == fs[i]);
    }
}

/// A feature laid down is found at every point that its indexed rectangle
/// holds: a listing of the features holding `p`, taken after `f` was added,
/// holds `f`, and holds only features that hold `p`.
pub proof fn lemma_found_after_add(before: Seq<Feature>, f: Feature, p: Place, r: Seq<Feature>)
    requires
        lists_matching(r, before + added(f), |f: Feature| feature_holds(f, (p.x, p.y))),
        feature_holds(f, (p.x, p.y)),
    ensures
        r.contains(f),
        forall|k: int| 0 <= k < r.len() ==> feature_holds(#[trigger] r[k], (p.x, p.y)),
{
    let all = before + added(f);
    let pred = |f: Feature| feature_holds(f, (p.x, p.y));
    lemma_listed_items(r, all, pred);
    let ids = choose|ids: Seq<int>|
        #![trigger ids.no_duplicates()]
        {
            &&& ids.len() == r.len()
            &&& ids.no_duplicates()
            &&& forall|k: int|
                0 <= k < ids.len() ==> 0 <= #[trigger] ids[k] < all.len() && r[k] == all[ids[k]]
                    && pred(all[ids[k]])
            &&& forall|i: int| 0 <= i < all.len() && #[trigger] pred(all[i]) ==> ids.contains(i)
        };
    assert(all[before.len() as int] == f);
    assert(pred(all[before.len() as int]));
    let k = choose|k: int| 0 <= k < ids.len() && ids[k] == before.len();
    assert(r[k] == f);
}

/// The indexed rectangle of `f` meets the rectangle from `lo` to `hi`.
pub open spec fn feature_meets(f: Feature, lo: (i32, i32), hi: (i32, i32)) -> bool {
    entry_meets(feature_entry(f, 0), lo, hi)
}

/// The indexed rectangle of `f` holds `p`.
pub open spec fn feature_holds(f: Feature, p: (i32, i32)) -> bool {
    entry_holds(feature_entry(f, 0), p)
}

/// The corners with which a query rectangle is looked up, lower first.
pub open spec fn query_corners(b: Box2) -> ((i32, i32), (i32, i32)) {
    let (c1, c2) = box_corners(b);
    (
        (min_int(c1.0 as int, c2.0 as int) as i32, min_int(c1.1 as int, c2.1 as int) as i32),
        (max_int(c1.0 as int, c2.0 as int) as i32, max_int(c1.1 as int, c2.1 as int) as i32),
    )
}

/// The features of a level, indexed by the rectangles they cover.
pub struct Schema {
    features: Vec<Feature>,
    index: FeatureIndex,
}

impl Schema {
    /// The features, in the order they were laid down.
    pub closed spec fn view(&self) -> Seq<Feature> {
        self.features@
    }

    /// The index holds exactly one entry for each feature, under its number,
    /// and every feature can be indexed.
    pub closed spec fn wf(&self) -> bool {
        &&& index_entries(self.index) == entries_of(self.features@)
        &&& forall|i: int| 0 <= i < self.features@.len() ==> #[trigger] indexable(self.features@[i])
    }

    /// Every feature of a well-formed schema can be indexed.
    pub proof fn lemma_wf_indexable(&self)
        requires
            self.wf(),
        ensures
            forall|i: int| 0 <= i < self@.len() ==> #[trigger] indexable(self@[i]),
    {
    }

    /// An empty schema.
    pub fn new() -> (r: Self)
        ensures
            r.wf(),
            r@ == Seq::<Feature>::empty(),
    {
        let r = Schema { features: Vec::new(), index: crate::spatial::index_new() };
        assert(r.features@ =~= Seq::<Feature>::empty());
        r
    }

    proof fn lemma_entries_in_range(fs: Seq<Feature>)
        requires
            forall|i: int| 0 <= i < fs.len() ==> #[trigger] indexable(fs[i]),
        ensures
            forall|e: Entry| entries_of(fs).count(e) > 0 ==> entry_in_range(e),
        decreases fs.len(),
    {
        broadcast use vstd::multiset::group_multiset_axioms;

        if fs.len() > 0 {
            let fs0 = fs.drop_last();
            assert forall|i: int| 0 <= i < fs0.len() implies #[trigger] indexable(fs0[i]) by {
                assert(fs0[i] == fs[i]);
            }
            Self::lemma_entries_in_range(fs0);
            assert(indexable(fs[fs.len() - 1]));
        }
    }

    /// The number of times an entry lies in the index: once for the entry of
    /// each feature under its own number, and never otherwise.
    proof fn lemma_entries_count(fs: Seq<Feature>, e: Entry)
        requires
            fs.len() <= usize::MAX,
        ensures
            entries_of(fs).count(e) == (if e.4 < fs.len() && e == feature_entry(
                fs[e.4 as int],
                e.4 as int,
            ) {
                1nat
            } else {
                0nat
            }),
        decreases fs.len(),
    {
        broadcast use vstd::multiset::group_multiset_axioms;

        if fs.len() > 0 {
            let fs0 = fs.drop_last();
            let new = feature_entry(fs.last(), fs.len() - 1);
            Self::lemma_entries_count(fs0, e);
            assert(entries_of(fs) == entries_of(fs0).insert(new));
            assert(entries_of(fs).count(e) == entries_of(fs0).count(e) + if e == new {
                1nat
            } else {
                0nat
            });
            if e.4 < fs0.len() {
                assert(fs0[e.4 as int] == fs[e.4 as int]);
            }
        }
    }

    fn insert_feature(&mut self, f: Feature)
        requires
            old(self).wf(),
            indexable(f),
            old(self)@.len() < usize::MAX,
        ensures
            final(self).wf(),
            final(self)@ == old(self)@.push(f),
    {
        let id = self.features.len();
        let b = f.bounds();
        proof {
            Self::lemma_entries_in_range(self.features@);
        }
        crate::spatial::index_insert(
            &mut self.index,
            (b.x.lo_incl, b.y.lo_incl),
            (b.x.hi_excl - 1, b.y.hi_excl - 1),
            id,
        );
        self.features.push(f);
        proof {
            assert(self.features@.drop_last() =~= old(self).features@);
            assert forall|i: int| 0 <= i < self.features@.len() implies #[trigger] indexable(
                self.features@[i],
            ) by {
                if i < old(self).features@.len() {
                    assert(self.features@[i] == old(self).features@[i]);
                }
            }
        }
    }

    /// Lays down `f`, and with it its companion: the flat top of a ground
    /// block, the slope of a hill, or the flat top of a big mushroom.
    pub fn add(&mut self, f: Feature)
        requires
            old(self).wf(),
            indexable(f),
            companion_defined(f),
            companion(f) matches Some(c) ==> indexable(c),
            old(self)@.len() + 2 <= usize::MAX,
        ensures
            final(self).wf(),
            final(self)@ == old(self)@ + added(f),
    {
        self.insert_feature(f);
        match f {
            Feature::GroundBlock(_, _, b) => {
                self.insert_feature(
                    Feature::FlatGround(Place::new(b.x.lo_incl, b.y.hi_excl - 1), b.x.size() as u32),
                );
            },
            Feature::HillBlock { start_x, height, lr, .. } => {
                let y = match lr {
                    LR::L => height.lo_incl,
                    LR::R => height.hi_excl - 1,
                };
                let h = match lr {
                    LR::L => height.size(),
                    LR::R => -height.size(),
                };
                self.insert_feature(Feature::SlopedGround { start: Place::new(start_x, y), height: h });
            },
            Feature::BigMushroomTop(p, width) => {
                self.insert_feature(Feature::FlatGround(Place::new(p.x + width as i32, p.y), width));
            },
            _ => {},
        }
        proof {
            assert(self@ =~= old(self)@ + added(f));
        }
    }

    /// The entries found by a query are entries of distinct features, each
    /// stored under its own number and satisfying the query, and every
    /// feature whose entry satisfies the query is found.
    proof fn lemma_found_entries(fs: Seq<Feature>, es: Seq<Entry>, ep: spec_fn(Entry) -> bool)
        requires
            fs.len() <= usize::MAX,
            forall|e: Entry| #[trigger] es.to_multiset().count(e) == if ep(e) {
                entries_of(fs).count(e)
            } else {
                0
            },
        ensures
            es.no_duplicates(),
            forall|k: int|
                0 <= k < es.len() ==> {
                    &&& (#[trigger] es[k]).4 < fs.len()
                    &&& es[k] == feature_entry(fs[es[k].4 as int], es[k].4 as int)
                    &&& ep(es[k])
                },
            forall|i: int|
                0 <= i < fs.len() && ep(#[trigger] feature_entry(fs[i], i)) ==> es.contains(
                    feature_entry(fs[i], i),
                ),
    {
        es.to_multiset_ensures();
        assert forall|e: Entry| es.to_multiset().contains(e) implies es.to_multiset().count(e)
            == 1 by {
            Self::lemma_entries_count(fs, e);
        }
        es.lemma_multiset_has_no_duplicates_conv();
        assert forall|k: int| 0 <= k < es.len() implies {
            &&& (#[trigger] es[k]).4 < fs.len()
            &&& es[k] == feature_entry(fs[es[k].4 as int], es[k].4 as int)
            &&& ep(es[k])
        } by {
            assert(es.contains(es[k]));
            assert(es.to_multiset().count(es[k]) > 0);
            assert(ep(es[k]));
            assert(entries_of(fs).count(es[k]) > 0);
            Self::lemma_entries_count(fs, es[k]);
        }
        assert forall|i: int|
            0 <= i < fs.len() && ep(#[trigger] feature_entry(fs[i], i)) implies es.contains(
            feature_entry(fs[i], i),
        ) by {
            let e = feature_entry(fs[i], i);
            assert(e.4 == i);
            Self::lemma_entries_count(fs, e);
            assert(es.to_multiset().count(e) > 0);
        }
    }

    /// The features of the found entries, in the order of the entries.
    fn features_of(&self, es: &Vec<Entry>) -> (r: Vec<Feature>)
        requires
            forall|k: int| 0 <= k < es@.len() ==> (#[trigger] es@[k]).4 < self@.len(),
        ensures
            r@.len() == es@.len(),
            forall|k: int| 0 <= k < es@.len() ==> #[trigger] r@[k] == self@[es@[k].4 as int],
    {
        let mut r: Vec<Feature> = Vec::new();
        let mut k: usize = 0;
        while k < es.len()
            invariant
                k <= es@.len(),
                r@.len() == k,
                forall|j: int| 0 <= j < es@.len() ==> (#[trigger] es@[j]).4 < self@.len(),
                forall|j: int| 0 <= j < k ==> #[trigger] r@[j] == self@[es@[j].4 as int],
            decreases es@.len() - k,
        {
            let id = es[k].4;
            r.push(self.features[id]);
            k = k + 1;
        }
        r
    }

    /// A listing of the found entries' features is a listing of the features
    /// that match the query.
    proof fn lemma_listing(
        fs: Seq<Feature>,
        es: Seq<Entry>,
        r: Seq<Feature>,
        ep: spec_fn(Entry) -> bool,
        fp: spec_fn(Feature) -> bool,
    )
        requires
            fs.len() <= usize::MAX,
            es.no_duplicates(),
            forall|k: int|
                0 <= k < es.len() ==> {
                    &&& (#[trigger] es[k]).4 < fs.len()
                    &&& es[k] == feature_entry(fs[es[k].4 as int], es[k].4 as int)
                    &&& ep(es[k])
                },
            forall|i: int|
                0 <= i < fs.len() && ep(#[trigger] feature_entry(fs[i], i)) ==> es.contains(
                    feature_entry(fs[i], i),
                ),
            r.len() == es.len(),
            forall|k: int| 0 <= k < es.len() ==> #[trigger] r[k] == fs[es[k].4 as int],
            forall|f: Feature, id: int| #[trigger] ep(feature_entry(f, id)) == fp(f),
        ensures
            lists_matching(r, fs, fp),
    {
        let ids = Seq::new(es.len(), |k: int| es[k].4 as int);
        assert forall|a: int, b: int| 0 <= a < ids.len() && 0 <= b < ids.len() && a != b implies ids[a]
            != ids[b] by {
            assert(es[a] != es[b]);
        }
        assert forall|k: int| 0 <= k < ids.len() implies 0 <= #[trigger] ids[k] < fs.len() && r[k]
            == fs[ids[k]] && fp(fs[ids[k]]) by {
            assert(ep(feature_entry(fs[ids[k]], ids[k])));
        }
        assert forall|i: int| 0 <= i < fs.len() && #[trigger] fp(fs[i]) implies ids.contains(i) by {
            assert(ep(feature_entry(fs[i], i)) == fp(fs[i]));
            let k = choose|k: int| 0 <= k < es.len() && es[k] == feature_entry(fs[i], i);
            assert(ids[k] == i);
        }
        assert(ids.no_duplicates());
    }

    /// The features whose indexed rectangle meets `b`, each once, in the
    /// index's order. `b` is looked up by its lower corner and the last point
    /// before its upper bounds, put in order.
    pub fn intersecting(&self, b: Box2) -> (r: Vec<Feature>)
        requires
            self.wf(),
            b.x.hi_excl > i32::MIN,
            b.y.hi_excl > i32::MIN,
        ensures
            lists_matching(
                r@,
                self@,
                |f: Feature| feature_meets(f, query_corners(b).0, query_corners(b).1),
            ),
    {
        let c1 = (b.x.lo_incl, b.y.lo_incl);
        let c2 = (b.x.hi_excl - 1, b.y.hi_excl - 1);
        let lo = (if c1.0 < c2.0 { c1.0 } else { c2.0 }, if c1.1 < c2.1 { c1.1 } else { c2.1 });
        let hi = (if c1.0 < c2.0 { c2.0 } else { c1.0 }, if c1.1 < c2.1 { c2.1 } else { c1.1 });
        assert(lo == query_corners(b).0 && hi == query_corners(b).1);
        let n = self.features.len();
        let es = crate::spatial::index_intersecting(&self.index, lo, hi);
        let ghost ep = |e: Entry| entry_meets(e, lo, hi);
        proof {
            broadcast use vstd::multiset::group_multiset_axioms;

            assert forall|e: Entry| #[trigger] es@.to_multiset().count(e) == if ep(e) {
                entries_of(self@).count(e)
            } else {
                0
            } by {}
            Self::lemma_found_entries(self@, es@, ep);
        }
        let r = self.features_of(&es);
        proof {
            Self::lemma_listing(self@, es@, r@, ep, |f: Feature| feature_meets(f, lo, hi));
        }
        r
    }

    proof fn lemma_entries_len(fs: Seq<Feature>)
        ensures
            entries_of(fs).len() == fs.len(),
        decreases fs.len(),
    {
        broadcast use vstd::multiset::group_multiset_axioms;

        if fs.len() > 0 {
            Self::lemma_entries_len(fs.drop_last());
        }
    }

    /// An entry in the index that satisfies `ep`, when the entries satisfying
    /// it are not none: the entry of some feature under its own number.
    proof fn lemma_some_entry(fs: Seq<Feature>, ep: spec_fn(Entry) -> bool) -> (i: int)
        requires
            fs.len() <= usize::MAX,
            entries_of(fs).filter(ep).len() > 0,
        ensures
            0 <= i < fs.len(),
            ep(feature_entry(fs[i], i)),
    {
        broadcast use vstd::multiset::group_multiset_axioms;

        let e = entries_of(fs).filter(ep).choose();
        assert(entries_of(fs).filter(ep).count(e) > 0);
        Self::lemma_entries_count(fs, e);
        e.4 as int
    }

    /// The smallest rectangle that holds the indexed rectangle of every
    /// feature; the schema must not be empty.
    pub fn bounds(&self) -> (r: Box2)
        requires
            self.wf(),
            self@.len() > 0,
        ensures
            r.wf(),
            forall|i: int|
                0 <= i < self@.len() ==> {
                    let e = #[trigger] feature_entry(self@[i], i);
                    &&& r.x.lo_incl <= e.0
                    &&& r.y.lo_incl <= e.1
                    &&& r.x.hi_excl - 1 >= e.2
                    &&& r.y.hi_excl - 1 >= e.3
                },
            exists|i: int| 0 <= i < self@.len() && r.x.lo_incl == #[trigger] feature_entry(self@[i], i).0,
            exists|i: int| 0 <= i < self@.len() && r.y.lo_incl == #[trigger] feature_entry(self@[i], i).1,
            exists|i: int| 0 <= i < self@.len() && r.x.hi_excl - 1 == #[trigger] feature_entry(self@[i], i).2,
            exists|i: int| 0 <= i < self@.len() && r.y.hi_excl - 1 == #[trigger] feature_entry(self@[i], i).3,
    {
        let n = self.features.len();
        let c = crate::spatial::index_bounds(&self.index);
        let (x0, y0, x1, y1) = c;
        proof {
            let fs = self@;
            Self::lemma_entries_len(fs);
            Self::lemma_entries_in_range(fs);
            assert forall|i: int| 0 <= i < fs.len() implies {
                let e = #[trigger] feature_entry(fs[i], i);
                &&& x0 <= e.0
                &&& y0 <= e.1
                &&& x1 >= e.2
                &&& y1 >= e.3
            } by {
                let e = feature_entry(fs[i], i);
                assert(e.4 == i);
                Self::lemma_entries_count(fs, e);
            }
            let i0 = Self::lemma_some_entry(fs, |e: Entry| e.0 == c.0);
            let i1 = Self::lemma_some_entry(fs, |e: Entry| e.1 == c.1);
            let i2 = Self::lemma_some_entry(fs, |e: Entry| e.2 == c.2);
            let i3 = Self::lemma_some_entry(fs, |e: Entry| e.3 == c.3);
            let e2 = feature_entry(fs[i2], i2);
            let e3 = feature_entry(fs[i3], i3);
            assert(e2.4 == i2);
            assert(e3.4 == i3);
            Self::lemma_entries_count(fs, e2);
            Self::lemma_entries_count(fs, e3);
            assert(entry_in_range(e2) && entry_in_range(e3));
            let e0 = feature_entry(fs[0], 0);
            assert(x0 <= e0.0 <= e0.2 <= x1);
            assert(y0 <= e0.1 <= e0.3 <= y1);
        }
        Box2::new((x0, y0), (x1 + 1, y1 + 1))
    }

    /// The features whose indexed rectangle holds `p`, each once, in the
    /// index's order.
    pub fn at_point(&self, p: Place) -> (r: Vec<Feature>)
        requires
            self.wf(),
        ensures
            lists_matching(r@, self@, |f: Feature| feature_holds(f, (p.x, p.y))),
    {
        let q = (p.x, p.y);
        let n = self.features.len();
        let es = crate::spatial::index_at_point(&self.index, q);
        let ghost ep = |e: Entry| entry_holds(e, q);
        proof {
            broadcast use vstd::multiset::group_multiset_axioms;

            assert forall|e: Entry| #[trigger] es@.to_multiset().count(e) == if ep(e) {
                entries_of(self@).count(e)
            } else {
                0
            } by {}
            Self::lemma_found_entries(self@, es@, ep);
        }
        let r = self.features_of(&es);
        proof {
            Self::lemma_listing(self@, es@, r@, ep, |f: Feature| feature_holds(f, q));
        }
        r
    }
}

/// The index finds a feature exactly at the points of its bounds: when the
/// rectangle that `Feature::bounds` gives is not empty, a point lies in the
/// rectangle under which the feature is indexed if and only if it lies in
/// those bounds.
pub proof fn lemma_holds_iff_in_bounds(f: Feature, q: (i32, i32))
    requires
        spec_envelope(f).x.spec_size() > 0,
        spec_envelope(f).y.spec_size() > 0,
    ensures
        feature_holds(f, q) <==> spec_envelope(f).has(q.0 as int, q.1 as int),
{
}

} // verus!
