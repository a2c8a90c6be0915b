use sofia::helpers::{Box1, Box2};
use sofia::map::brushes::tiles::PointNoise;
use sofia::map::brushes::tiling::{GroundCover, TilingTile};
use sofia::map::brushes::{MushroomStyle, Terrain, TerrainTile, Tile, LR, TB};
use sofia::map::Place;
use sofia::world::feature::{Feature, Schema};
use sofia::world::render::render_level;
use sofia::world::tiles::{get_tile, layer_features};

fn calm() -> PointNoise {
    PointNoise { alt: false, crate_pick: 0, stem_pick: 2 }
}

fn brown(_c: Place) -> MushroomStyle {
    MushroomStyle::Brown
}

#[test]
fn world_bridge_bottom_is_the_flipped_rock_slope() {
    let hill = Feature::HillBlock {
        terrain: Terrain::Stone,
        start_x: 0,
        height: Box1::new(0, 4),
        bridge_thickness: Some(2),
        lr: LR::L,
    };
    let t = layer_features(&vec![hill], &vec![MushroomStyle::Red], Place::new(2, 0), calm());
    assert_eq!(
        t.midground,
        TilingTile::Exactly(Tile::Terrain(Terrain::Stone, TerrainTile::RockSlope(LR::R, TB::B)))
    );
}

#[test]
fn world_mushroom_stem_is_in_the_background() {
    let mut s = Schema::new();
    s.add(Feature::BigMushroomStem(Place::new(4, 0), 3));
    let mid = get_tile(&s, Place::new(4, 1), calm(), &brown);
    assert_eq!(mid.background, TilingTile::Exactly(Tile::MushroomStemRing(false)));
    assert_eq!(mid.foreground, TilingTile::Exactly(Tile::Air));
    // The row above the stem, where its top piece would go, lies outside its
    // rectangle: no feature holds it.
    let above = get_tile(&s, Place::new(4, 3), calm(), &brown);
    assert_eq!(above.background, TilingTile::Exactly(Tile::Air));
}

#[test]
fn world_stem_top_piece_on_its_top_row() {
    let stem = Feature::BigMushroomStem(Place::new(4, 0), 0);
    let t = layer_features(&vec![stem], &vec![MushroomStyle::Red], Place::new(4, 0), calm());
    assert_eq!(t.background, TilingTile::Exactly(Tile::MushroomStemTop(false)));
}

#[test]
fn world_render_of_a_tile() {
    let mut s = Schema::new();
    s.add(Feature::Tile(Place::new(0, 1), Tile::CrateCross));
    let out = render_level(&s, Box2::new((0, 0), (2, 2)), &|_p: Place| calm(), &brown);
    assert_eq!(out.shape(), (2, 2, 5));
    assert_eq!(out.tile(0, 1, 2), Tile::CrateCross);
    assert_eq!(out.tile(1, 1, 2), Tile::Air);
}

#[test]
fn world_one_ground_block_draws_its_ground_and_air_elsewhere() {
    let mut s = Schema::new();
    s.add(Feature::GroundBlock(GroundCover::TopCovered, Terrain::Grass, Box2::new((0, 0), (3, 2))));
    let air = TilingTile::Exactly(Tile::Air);
    for x in -2..5 {
        for y in -2..4 {
            let t = get_tile(&s, Place::new(x, y), calm(), &brown);
            let inside = (0..3).contains(&x) && (0..2).contains(&y);
            let mid = if inside { TilingTile::Ground(GroundCover::TopCovered, Terrain::Grass) } else { air };
            assert_eq!(t.midground, mid, "at {:?}", (x, y));
            assert_eq!(t.background, air);
            assert_eq!(t.foreground, air);
        }
    }
}

#[test]
fn world_empty_schema_renders_air() {
    let s = Schema::new();
    let out = render_level(&s, Box2::new((-3, -2), (4, 3)), &|_p: Place| calm(), &brown);
    assert_eq!(out.shape(), (7, 5, 5));
    for i in 0..7 {
        for j in 0..5 {
            for k in 0..5 {
                assert_eq!(out.tile(i, j, k), Tile::Air);
            }
        }
    }
}
