use sofia::helpers::{Box1, Box2};
use sofia::map::brushes::features::{Feature, Schema};
use sofia::map::brushes::render::render_level;
use sofia::map::brushes::tiles::{get_tile, layer_features, lmr_of, tmb_of, PointNoise};
use sofia::map::brushes::tiling::{GroundCover, TilingTile};
use sofia::map::brushes::{MushroomStyle, Terrain, TerrainTile, Tile, LMR, LR, TB, TMB};
use sofia::map::Place;

fn noise(alt: bool, crate_pick: usize, stem_pick: usize) -> PointNoise {
    PointNoise { alt, crate_pick, stem_pick }
}

fn red(_c: Place) -> MushroomStyle {
    MushroomStyle::Red
}

#[test]
fn ends_and_middles() {
    let b = Box1::new(2, 6);
    assert_eq!(lmr_of(b, 2), LMR::L);
    assert_eq!(lmr_of(b, 5), LMR::R);
    assert_eq!(lmr_of(b, 3), LMR::M);
    assert_eq!(tmb_of(b, 2), TMB::B);
    assert_eq!(tmb_of(b, 5), TMB::T);
    assert_eq!(tmb_of(b, 4), TMB::M);
}

#[test]
fn nothing_here_is_air() {
    let s = Schema::new();
    let t = get_tile(&s, Place::new(0, 0), noise(false, 0, 0), &red);
    assert_eq!(t.background, TilingTile::Exactly(Tile::Air));
    assert_eq!(t.midground, TilingTile::Exactly(Tile::Air));
    assert_eq!(t.foreground, TilingTile::Exactly(Tile::Air));
}

#[test]
fn layers_of_water_crates_and_tiles() {
    let mut s = Schema::new();
    s.add(Feature::SurfaceWater(Box2::new((0, 0), (4, 3))));
    s.add(Feature::CrateRandomRect(Box2::new((1, 1), (3, 3))));
    s.add(Feature::Tile(Place::new(2, 2), Tile::Star));
    let t = get_tile(&s, Place::new(2, 2), noise(false, 1, 0), &red);
    assert_eq!(t.background, TilingTile::Exactly(Tile::WaterWave));
    assert_eq!(t.midground, TilingTile::Exactly(Tile::CrateSlash));
    assert_eq!(t.foreground, TilingTile::Exactly(Tile::Star));
    let below = get_tile(&s, Place::new(0, 0), noise(false, 1, 0), &red);
    assert_eq!(below.background, TilingTile::Exactly(Tile::Water));
    assert_eq!(below.midground, TilingTile::Exactly(Tile::Air));
}

#[test]
fn hill_layers() {
    let hill = Feature::HillBlock {
        terrain: Terrain::Grass,
        start_x: 0,
        height: Box1::new(0, 4),
        bridge_thickness: Some(2),
        lr: LR::L,
    };
    let top = layer_features(&vec![hill], &vec![MushroomStyle::Red], Place::new(1, 1), noise(false, 0, 0));
    assert_eq!(top.midground, TilingTile::Exactly(Tile::Terrain(Terrain::Grass, TerrainTile::Slope(LR::L))));
    let bottom = layer_features(&vec![hill], &vec![MushroomStyle::Red], Place::new(1, 0), noise(false, 0, 0));
    assert_eq!(
        bottom.midground,
        TilingTile::Exactly(Tile::Terrain(Terrain::Grass, TerrainTile::RockSlope(LR::L, TB::B)))
    );
}

#[test]
fn later_features_draw_over_earlier_ones() {
    let g = Feature::GroundBlock(GroundCover::Bare, Terrain::Sand, Box2::new((0, 0), (2, 2)));
    let c = Feature::CrateCrossRect(Box2::new((0, 0), (2, 2)));
    let n = noise(false, 0, 0);
    let styles = vec![MushroomStyle::Red, MushroomStyle::Red];
    let a = layer_features(&vec![g, c], &styles, Place::new(0, 0), n);
    let b = layer_features(&vec![c, g], &styles, Place::new(0, 0), n);
    assert_eq!(a.midground, TilingTile::Exactly(Tile::CrateCross));
    assert_eq!(b.midground, TilingTile::Ground(GroundCover::Bare, Terrain::Sand));
}

#[test]
fn mushroom_top_uses_its_style() {
    let mut s = Schema::new();
    s.add(Feature::BigMushroomTop(Place::new(5, 3), 2));
    let t = get_tile(&s, Place::new(3, 3), noise(true, 0, 0), &red);
    assert_eq!(t.midground, TilingTile::Exactly(Tile::MushroomBlock(MushroomStyle::Red, true, LMR::L)));
    let c = get_tile(&s, Place::new(5, 3), noise(true, 0, 0), &red);
    assert_eq!(c.midground, TilingTile::Exactly(Tile::MushroomStemBlock(MushroomStyle::Red, true)));
}

#[test]
fn render_lays_out_five_layers() {
    let mut s = Schema::new();
    s.add(Feature::Tile(Place::new(1, 1), Tile::Star));
    s.add(Feature::SurfaceLava(Box2::new((0, 0), (3, 1))));
    let out = render_level(&s, Box2::new((0, 0), (3, 2)), &|_p: Place| noise(false, 0, 0), &red);
    assert_eq!(out.shape(), (3, 2, 5));
    assert_eq!(out.tile(1, 1, 2), Tile::Star);
    assert_eq!(out.tile(0, 0, 0), Tile::LavaWave);
    assert_eq!(out.tile(2, 1, 0), Tile::Air);
    for i in 0..3 {
        for j in 0..2 {
            assert_eq!(out.tile(i, j, 1), Tile::Air);
            assert_eq!(out.tile(i, j, 3), Tile::Air);
            assert_eq!(out.tile(i, j, 4), Tile::Air);
        }
    }
}

#[test]
fn render_tiles_ground_and_caps() {
    let mut s = Schema::new();
    s.add(Feature::GroundBlock(GroundCover::TopCovered, Terrain::Dirt, Box2::new((0, 0), (3, 2))));
    let out = render_level(&s, Box2::new((0, 0), (3, 2)), &|_p: Place| noise(false, 0, 0), &red);
    for i in 0..3 {
        for j in 0..2 {
            assert!(matches!(out.tile(i, j, 1), Tile::Terrain(Terrain::Dirt, _)));
        }
    }
}
