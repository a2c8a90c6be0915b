use sofia::map::brushes::tiling::{
    compute_tiling, merge_corners, GroundCover, TileTilingInfo, TilingCorner, TilingGrid, TilingTile,
};
use sofia::map::brushes::{MushroomStyle, Terrain, TerrainTile, Tile, LMR, LR, TB, TMB};

fn index(t: Tile) -> (u16, u16) {
    t.into()
}

#[test]
fn tile_sheet_cells() {
    assert_eq!(index(Tile::Air), (12, 32));
    assert_eq!(index(Tile::CrateCross), (21, 22));
    assert_eq!(index(Tile::IglooDoor), (19, 35));
    assert_eq!(index(Tile::WaterWave), (12, 17));
    // Grass is the seventh terrain: its block starts four rows down per terrain.
    assert_eq!(index(Tile::Terrain(Terrain::Grass, TerrainTile::Slope(LR::R))), (4, 25));
    assert_eq!(index(Tile::Terrain(Terrain::Cake, TerrainTile::Cap(LR::L))), (6, 3));
    assert_eq!(
        index(Tile::Terrain(Terrain::Choco, TerrainTile::BlockFace(LMR::M, TMB::B))),
        (1, 7)
    );
    assert_eq!(index(Tile::Terrain(Terrain::Cake, TerrainTile::RockSlope(LR::R, TB::B))), (10, 3));
}

#[test]
fn small_enums_number_as_declared() {
    assert_eq!(u16::from(LR::L), 0);
    assert_eq!(u16::from(LR::R), 1);
    assert_eq!(i32::from(LR::L), -1);
    assert_eq!(i32::from(LR::R), 1);
    assert_eq!(u16::from(LMR::R), 2);
    assert_eq!(u16::from(TMB::T), 0);
    assert_eq!(LR::L.flip(), LR::R);
    assert_eq!(LR::R.flip(), LR::L);
    assert_eq!(MushroomStyle::from_u64(2), Some(MushroomStyle::Red));
    assert_eq!(MushroomStyle::from_u64(4), None);
}

#[test]
fn merge_corners_table() {
    assert_eq!(merge_corners(TilingCorner::Empty, TilingCorner::Slope), TilingCorner::Empty);
    assert_eq!(merge_corners(TilingCorner::Inner, TilingCorner::Slope), TilingCorner::Slope);
    assert_eq!(merge_corners(TilingCorner::Slope, TilingCorner::Inner), TilingCorner::Slope);
    assert_eq!(merge_corners(TilingCorner::Inner, TilingCorner::Inner), TilingCorner::Inner);
}

#[test]
fn merge_corners_is_commutative_and_associative() {
    let all = [TilingCorner::Empty, TilingCorner::Inner, TilingCorner::Slope];
    for a in all {
        for b in all {
            assert_eq!(merge_corners(a, b), merge_corners(b, a));
            for c in all {
                assert_eq!(
                    merge_corners(merge_corners(a, b), c),
                    merge_corners(a, merge_corners(b, c))
                );
            }
        }
    }
}

#[test]
fn tiling_info_of_cells() {
    assert!(TilingTile::Exactly(Tile::CrateCross).info().is_none());
    let g = TilingTile::Ground(GroundCover::TopCovered, Terrain::Sand).info().unwrap();
    assert!(g.top_int && g.left_int && g.right_int && g.bottom_int);
    assert_eq!(g.terrain, Terrain::Sand);
    let s = TilingTile::Exactly(Tile::Terrain(Terrain::Dirt, TerrainTile::Slope(LR::L)))
        .info()
        .unwrap();
    assert!(s.bottom_int && s.right_int && !s.left_int && !s.top_int);
    assert_eq!(s.bl, TilingCorner::Slope);
    let blank = TileTilingInfo::new(Terrain::Snow);
    assert!(!blank.top_int && blank.tl == TilingCorner::Empty);
}

#[test]
fn tiling_keeps_fixed_tiles() {
    let mut g = TilingGrid::filled(3, 3, TilingTile::Exactly(Tile::Air));
    g.put(1, 1, TilingTile::Exactly(Tile::CrateCross));
    let out = compute_tiling(g);
    assert_eq!(out.shape(), (1, 1));
    let (t, cap) = out.cell(0, 0);
    assert_eq!(t, Tile::CrateCross);
    assert_eq!(cap.left_cap, None);
    assert_eq!(cap.right_cap, None);
}

#[test]
fn tiling_turns_ground_into_terrain_tiles() {
    let mut g = TilingGrid::filled(5, 4, TilingTile::Exactly(Tile::Air));
    for i in 1..4 {
        g.put(i, 1, TilingTile::Ground(GroundCover::TopCovered, Terrain::Grass));
    }
    let out = compute_tiling(g);
    assert_eq!(out.shape(), (3, 2));
    for i in 0..3 {
        match out.cell(i, 0).0 {
            Tile::Terrain(Terrain::Grass, _) => (),
            other => panic!("expected a grass tile, got {:?}", other),
        }
        assert_eq!(out.cell(i, 1).0, Tile::Air);
    }
}
