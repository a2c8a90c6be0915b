use sofia::helpers::{Box1, Box2};
use sofia::map::brushes::features::{Feature, Schema, Zone, Zone1};
use sofia::map::brushes::tiling::GroundCover;
use sofia::map::brushes::{Terrain, Tile, LR};
use sofia::map::Place;

fn ground(x0: i32, x1: i32, y0: i32, y1: i32) -> Feature {
    Feature::GroundBlock(
        GroundCover::TopCovered,
        Terrain::Grass,
        Box2::new((x0, y0), (x1, y1)),
    )
}

#[test]
fn add_lays_down_the_flat_top_of_ground() {
    let mut s = Schema::new();
    s.add(ground(0, 4, -3, 1));
    let found = s.intersecting(Box2::new((-10, -10), (10, 10)));
    assert_eq!(found.len(), 2);
    assert!(found.contains(&ground(0, 4, -3, 1)));
    assert!(found.contains(&Feature::FlatGround(Place::new(0, 0), 4)));
}

#[test]
fn add_lays_down_the_slope_of_a_hill() {
    let mut s = Schema::new();
    let hill = Feature::HillBlock {
        terrain: Terrain::Dirt,
        start_x: 5,
        height: Box1::new(0, 3),
        bridge_thickness: None,
        lr: LR::R,
    };
    s.add(hill);
    let found = s.intersecting(Box2::new((-10, -10), (20, 20)));
    assert_eq!(found.len(), 2);
    assert!(found.contains(&hill));
    assert!(found.contains(&Feature::SlopedGround { start: Place::new(5, 2), height: 3 }));
}

#[test]
fn add_lays_down_the_flat_top_of_a_mushroom() {
    let mut s = Schema::new();
    s.add(Feature::BigMushroomTop(Place::new(10, 4), 2));
    let found = s.at_point(Place::new(12, 4));
    assert!(found.contains(&Feature::FlatGround(Place::new(12, 4), 2)));
    assert!(found.contains(&Feature::BigMushroomTop(Place::new(10, 4), 2)));
}

#[test]
fn other_features_come_alone() {
    let mut s = Schema::new();
    s.add(Feature::Tile(Place::new(1, 1), Tile::CrateCross));
    assert_eq!(s.intersecting(Box2::new((0, 0), (3, 3))).len(), 1);
}

#[test]
fn at_point_finds_exactly_the_features_holding_the_point() {
    let mut s = Schema::new();
    s.add(Feature::SurfaceWater(Box2::new((0, 0), (5, 3))));
    s.add(Feature::Tile(Place::new(2, 1), Tile::CrateBlank));
    s.add(Feature::Tile(Place::new(7, 1), Tile::CrateSlash));
    let here = s.at_point(Place::new(2, 1));
    assert_eq!(here.len(), 2);
    assert!(here.contains(&Feature::Tile(Place::new(2, 1), Tile::CrateBlank)));
    assert!(here.contains(&Feature::SurfaceWater(Box2::new((0, 0), (5, 3)))));
    assert!(s.at_point(Place::new(20, 20)).is_empty());
}

#[test]
fn intersecting_uses_the_last_point_before_the_upper_bounds() {
    let mut s = Schema::new();
    s.add(Feature::Tile(Place::new(3, 0), Tile::CrateBlank));
    // [0, 3) x [0, 1) ends before column 3.
    assert!(s.intersecting(Box2::new((0, 0), (3, 1))).is_empty());
    assert_eq!(s.intersecting(Box2::new((0, 0), (4, 1))).len(), 1);
}

#[test]
fn bounds_cover_every_feature() {
    let mut s = Schema::new();
    s.add(Feature::Tile(Place::new(-4, 2), Tile::CrateBlank));
    s.add(Feature::SurfaceLava(Box2::new((1, -6), (8, -2))));
    assert_eq!(s.bounds(), Box2::new((-4, -6), (8, 3)));
}

#[test]
fn envelope_of_features() {
    assert_eq!(
        Feature::BigMushroomStem(Place::new(3, -2), 5).envelope(),
        Box2::new((3, -2), (4, 3))
    );
    assert_eq!(
        Feature::SlopedGround { start: Place::new(0, 0), height: -4 }.envelope(),
        Box2::new((0, 0), (4, 4))
    );
    assert_eq!(
        Feature::HillBlock {
            terrain: Terrain::Sand,
            start_x: 2,
            height: Box1::new(1, 4),
            bridge_thickness: Some(2),
            lr: LR::L,
        }
        .envelope(),
        Box2::new((2, -1), (5, 4))
    );
}

#[test]
fn zone_numbers() {
    assert_eq!(Zone::from_u64(0), Some(Zone::Mushroom));
    assert_eq!(Zone::from_u64(8), Some(Zone::Castle));
    // Sub-zones are picked by the number modulo the zone count.
    assert_eq!(Zone::from_u64(9), None);
    assert_eq!(Zone::from_u64(21), Some(Zone::Grass(Zone1::Plains)));
    assert_eq!(Zone::from_u64(22), Some(Zone::Grass(Zone1::Hills)));
    assert_eq!(Zone::from_u64(43), Some(Zone::Desert(Zone1::Hills)));
    assert_eq!(Zone::from_u64(71), None);
    assert_eq!(Zone::from_i64(-1), None);
    assert_eq!(Zone1::from_u64(3), Some(Zone1::Sky));
}

#[test]
fn zone_info() {
    let i = Zone::Mushroom.info();
    assert_eq!(i.gap_chance_tenths, 9);
    assert_eq!(i.hill_chance_tenths, 0);
    assert_eq!(i.terrain, Terrain::Dirt);
    assert_eq!(i.alt_terrain, Some(Terrain::Grass));
    let j = Zone::Candy(Zone1::Lake).info();
    assert_eq!((j.gap_chance_tenths, j.hill_chance_tenths), (6, 3));
    assert_eq!((j.terrain, j.alt_terrain), (Terrain::Cake, Some(Terrain::Choco)));
}
