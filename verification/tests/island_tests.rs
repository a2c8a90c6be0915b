use rand::SeedableRng;
use sofia::brushes::{GroundSet, GroundTileType, IglooPiece, Slope, Tile, LMR, LR};
use sofia::gen::{
    generate_island, island_caps_tiles, island_ground_tiles, island_height_runs, place_igloo,
    ISLAND_WIDTH,
};

fn step_map() -> Vec<u32> {
    let mut hm = vec![2u32; ISLAND_WIDTH];
    for h in hm.iter_mut().skip(64) {
        *h = 5;
    }
    hm
}

#[test]
fn flat_island_has_one_tile_per_column() {
    let hm = vec![0u32; ISLAND_WIDTH];
    let g = island_ground_tiles(&hm);
    assert_eq!(g.len(), ISLAND_WIDTH);
    assert_eq!(g[7], (7, 0, Tile::Ground(GroundTileType::Ground(LMR::Mid), GroundSet::Tundra)));
    assert!(island_caps_tiles(&hm).is_empty());
    assert!(island_height_runs(&hm).is_empty());
}

#[test]
fn ground_fills_each_column_up_to_its_height() {
    let hm = step_map();
    let g = island_ground_tiles(&hm);
    assert_eq!(g.len(), 64 * 3 + 64 * 6);
    assert_eq!(g[0], (0, 0, Tile::Ground(GroundTileType::Interior, GroundSet::Tundra)));
    assert_eq!(g[2], (0, 2, Tile::Ground(GroundTileType::Ground(LMR::Mid), GroundSet::Tundra)));
    assert_eq!(g[3], (1, 0, Tile::Ground(GroundTileType::Interior, GroundSet::Tundra)));
}

#[test]
fn steps_get_ledge_caps() {
    let hm = step_map();
    let caps = island_caps_tiles(&hm);
    assert_eq!(
        caps,
        vec![
            (63, 5, Tile::Ground(GroundTileType::LedgeCap(LR::Left), GroundSet::Tundra)),
            (64, 2, Tile::Ground(GroundTileType::LedgeCap(LR::Right), GroundSet::Tundra)),
        ]
    );
}

#[test]
fn the_last_run_is_left_out() {
    assert_eq!(island_height_runs(&step_map()), vec![(0, 64, 2)]);
}

#[test]
fn slopes_between_steps_of_one() {
    let mut hm = vec![0u32; ISLAND_WIDTH];
    for h in hm.iter_mut().skip(10) {
        *h = 1;
    }
    let g = island_ground_tiles(&hm);
    // Column 10 sits between heights 0 and 1 and is as high as its right side.
    let col10: Vec<_> = g.iter().filter(|p| p.0 == 10).collect();
    assert_eq!(col10.len(), 2);
    assert_eq!(col10[0].2, Tile::Ground(GroundTileType::SlopeInt(Slope::UpRight), GroundSet::Tundra));
    assert_eq!(col10[1].2, Tile::Ground(GroundTileType::Slope(Slope::UpRight), GroundSet::Tundra));
}

#[test]
fn igloo_layout() {
    let mut rng = rand_pcg::Pcg64::seed_from_u64(7);
    let r = place_igloo(&mut rng, (3, 5), (1, 3));
    assert_eq!(r.len(), 5);
    assert_eq!(r[1], (3, 2, Tile::Igloo(IglooPiece::Top(LMR::Left))));
    assert_eq!(r[3], (4, 2, Tile::Igloo(IglooPiece::Top(LMR::Right))));
    for k in [0, 2] {
        assert!(matches!(r[k].2, Tile::Igloo(IglooPiece::Interior) | Tile::Igloo(IglooPiece::InteriorAlt)));
    }
    assert_eq!(r[4].1, 1);
    assert!(r[4].0 == 3 || r[4].0 == 4);
    assert_eq!(r[4].2, Tile::Igloo(IglooPiece::Door));
}

#[test]
fn one_row_igloo_has_no_door() {
    let mut rng = rand_pcg::Pcg64::seed_from_u64(1);
    let r = place_igloo(&mut rng, (0, 3), (4, 5));
    assert_eq!(r.len(), 3);
    assert_eq!(r[1], (1, 4, Tile::Igloo(IglooPiece::Top(LMR::Mid))));
}

#[test]
fn island_ground_then_igloos() {
    for seed in 0..20u64 {
        let mut rng = rand_pcg::Pcg64::seed_from_u64(seed);
        let hm = step_map();
        let (b, fg) = generate_island(&mut rng, &hm);
        let ground = island_ground_tiles(&hm);
        assert_eq!(&b[..ground.len()], &ground[..]);
        assert_eq!(fg, island_caps_tiles(&hm));
        let igloo = &b[ground.len()..];
        assert!(igloo.is_empty() || (igloo.len() >= 5 && igloo.len() <= 17));
        for p in igloo {
            assert!(matches!(p.2, Tile::Igloo(_)));
            assert!(p.0 <= 66 && p.1 >= 3);
        }
    }
}
