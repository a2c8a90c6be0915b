use sofia::helpers::{Box1, Box2};
use sofia::map::brushes::tiling::GroundCover;
use sofia::map::brushes::{Terrain, LR};
use sofia::map::Place;
use sofia::open_ranges::Edge;
use sofia::world::brushes::{
    big_mushroom_brush, generate_level, height_map_floor_brush, liquid_brush, liquid_ceiling,
    liquid_of, mushroom_open_ranges, zone_box, zone_step, ColumnNoise, Liquid, MushroomNoise,
};
use sofia::world::feature::{Feature, Schema, Zone, Zone1};

fn flat_columns(heights: &[i32]) -> Vec<ColumnNoise> {
    heights
        .iter()
        .map(|&h| ColumnNoise { height: h, gap: false, hill: false, slope_floor: 0, bridge: 0 })
        .collect()
}

fn everything(s: &Schema) -> Vec<Feature> {
    s.intersecting(Box2::new((-1400, -1400), (1400, 1400)))
}

fn ground(x0: i32, x1: i32, y0: i32, y1: i32) -> Feature {
    Feature::GroundBlock(GroundCover::TopCovered, Terrain::Grass, Box2::new((x0, y0), (x1, y1)))
}

#[test]
fn world_zone_numbers() {
    assert_eq!(Zone::from_u64(9), Some(Zone::Grass(Zone1::Hills)));
    assert_eq!(Zone::from_u64(12), Some(Zone::Grass(Zone1::Plains)));
    assert_eq!(Zone::from_u64(13), Some(Zone::Desert(Zone1::Hills)));
    assert_eq!(Zone::from_u64(20), Some(Zone::Candy(Zone1::Plains)));
    assert_eq!(Zone::from_u64(21), None);
    assert_eq!(Zone::Grass(Zone1::Sky).info().gap_chance_tenths, 6);
    assert_eq!(Zone::Mushroom.info().gap_chance_tenths, 8);
}

#[test]
fn world_feature_names_and_bounds() {
    assert_eq!(ground(0, 1, 0, 1).describe(), "Ground");
    let bridge = Feature::HillBlock {
        terrain: Terrain::Stone,
        start_x: 0,
        height: Box1::new(2, 5),
        bridge_thickness: Some(3),
        lr: LR::L,
    };
    assert_eq!(bridge.describe(), "Hill bridge");
    assert_eq!(bridge.bounds(), Box2::new((0, -1), (3, 5)));
    assert_eq!(Feature::Offscreen(Box2::new((0, 0), (1, 1))).describe(), "Offscreen");
}

#[test]
fn world_hill_slope_rises_to_the_right_for_lr_l() {
    let mut s = Schema::new();
    s.add(Feature::HillBlock {
        terrain: Terrain::Stone,
        start_x: 0,
        height: Box1::new(2, 5),
        bridge_thickness: None,
        lr: LR::L,
    });
    assert!(everything(&s).contains(&Feature::SlopedGround { start: Place::new(0, 2), height: 3 }));
}

#[test]
fn floor_of_two_runs_lays_ground_under_the_first_only() {
    let mut s = Schema::new();
    let region = Box2::new((0, -2), (4, 3));
    height_map_floor_brush(&mut s, Zone::Grass(Zone1::Plains), region, &flat_columns(&[0, 0, 1, 1]));
    let all = everything(&s);
    assert_eq!(all.len(), 2);
    assert!(all.contains(&ground(0, 2, -2, 0)));
    assert!(all.contains(&Feature::FlatGround(Place::new(0, -1), 2)));
}

#[test]
fn floor_of_three_runs_lays_ground_under_all() {
    let mut s = Schema::new();
    let region = Box2::new((0, -2), (6, 3));
    height_map_floor_brush(
        &mut s,
        Zone::Grass(Zone1::Plains),
        region,
        &flat_columns(&[0, 0, 1, 1, 2, 2]),
    );
    let all = everything(&s);
    assert_eq!(all.len(), 6);
    assert!(all.contains(&ground(0, 2, -2, 0)));
    assert!(all.contains(&ground(2, 4, -2, 1)));
    assert!(all.contains(&ground(4, 6, -2, 2)));
}

#[test]
fn floor_of_one_run_lays_nothing() {
    let mut s = Schema::new();
    height_map_floor_brush(
        &mut s,
        Zone::Forest,
        Box2::new((0, -2), (5, 3)),
        &flat_columns(&[1, 1, 1, 1, 1]),
    );
    assert!(everything(&s).is_empty());
}

#[test]
fn floor_hill_between_two_runs() {
    let mut s = Schema::new();
    let region = Box2::new((0, -2), (6, 5));
    let mut cols = flat_columns(&[0, 0, 0, 0, 3, 3]);
    cols[0].hill = true;
    height_map_floor_brush(&mut s, Zone::Grass(Zone1::Hills), region, &cols);
    let all = everything(&s);
    assert_eq!(all.len(), 6);
    assert!(all.contains(&Feature::HillBlock {
        terrain: Terrain::Grass,
        start_x: 0,
        height: Box1::new(0, 3),
        bridge_thickness: None,
        lr: LR::L,
    }));
    assert!(all.contains(&Feature::SlopedGround { start: Place::new(0, 0), height: 3 }));
    assert!(all.contains(&ground(3, 4, -2, 3)));
    assert!(all.contains(&ground(0, 3, -2, 0)));
}

#[test]
fn floor_hill_bridge_when_thick_enough() {
    let mut s = Schema::new();
    let region = Box2::new((0, -5), (6, 5));
    let mut cols = flat_columns(&[0, 0, 0, 0, 3, 3]);
    cols[0].hill = true;
    cols[0].bridge = 9;
    height_map_floor_brush(&mut s, Zone::Grass(Zone1::Hills), region, &cols);
    // The bridge is capped at the height above the bottom (5), plus two.
    assert!(everything(&s).contains(&Feature::HillBlock {
        terrain: Terrain::Grass,
        start_x: 0,
        height: Box1::new(0, 3),
        bridge_thickness: Some(7),
        lr: LR::L,
    }));
}

#[test]
fn gaps_sit_at_the_bottom_of_the_region() {
    let mut s = Schema::new();
    let region = Box2::new((0, -2), (4, 3));
    let mut cols = flat_columns(&[1, 1, 1, 1]);
    cols[2].gap = true;
    cols[3].gap = true;
    height_map_floor_brush(&mut s, Zone::Forest, region, &cols);
    let all = everything(&s);
    assert_eq!(all.len(), 2);
    assert!(all.contains(&ground(0, 2, -2, 1)));
}

#[test]
fn liquid_rises_to_the_lowest_ground() {
    let mut s = Schema::new();
    let region = Box2::new((0, -2), (4, 3));
    height_map_floor_brush(&mut s, Zone::Grass(Zone1::Lake), region, &flat_columns(&[0, 0, 1, 1]));
    assert_eq!(liquid_ceiling(&s, region), -1);
    liquid_brush(&mut s, region, Liquid::Water, 1);
    assert!(everything(&s).contains(&Feature::SurfaceWater(Box2::new((0, -2), (4, 0)))));
}

#[test]
fn liquid_ceiling_of_an_empty_zone_is_its_top() {
    let s = Schema::new();
    assert_eq!(liquid_ceiling(&s, Box2::new((0, -2), (4, 3))), 3);
}

#[test]
fn zone_liquids() {
    assert_eq!(liquid_of(Zone::Desert(Zone1::Lake)), Some(Liquid::Water));
    assert_eq!(liquid_of(Zone::LavaHills), Some(Liquid::Lava));
    assert_eq!(liquid_of(Zone::Mushroom), None);
    assert_eq!(zone_box(5, 20), Box2::new((5, -10), (25, 11)));
}

#[test]
fn open_ranges_skip_flat_ground() {
    let mut s = Schema::new();
    s.add(ground(5, 10, -2, 0));
    let es = mushroom_open_ranges(&s, Box2::new((0, -2), (30, 3)));
    assert_eq!(
        es,
        vec![
            (Edge::Included(0), Edge::Excluded(5)),
            (Edge::Included(10), Edge::Excluded(30)),
        ]
    );
}

#[test]
fn mushrooms_grow_until_the_ranges_are_small() {
    let mut s = Schema::new();
    let b = Box2::new((0, -2), (30, 3));
    big_mushroom_brush(&mut s, b, &|_r: Box1| MushroomNoise {
        size_offset: 0,
        cap_floor: 0,
        height_offset: 1,
    });
    let all = everything(&s);
    // Caps of three columns on ranges of 30, 27, ..., 12 columns.
    assert_eq!(all.len(), 21);
    assert!(all.contains(&Feature::BigMushroomTop(Place::new(1, -1), 1)));
    assert!(all.contains(&Feature::BigMushroomStem(Place::new(1, -2), 1)));
    assert!(all.contains(&Feature::BigMushroomTop(Place::new(19, -1), 1)));
    assert!(!all.contains(&Feature::BigMushroomTop(Place::new(22, -1), 1)));
}

#[test]
fn zone_step_lays_zone_floor_and_liquid() {
    let mut s = Schema::new();
    let b = zone_box(0, 4);
    zone_step(
        &mut s,
        Zone::LavaPlains,
        b,
        &flat_columns(&[-10, -10, -9, -9]),
        &|_b: Box2, _c: i32| 0,
        &|_r: Box1| MushroomNoise { size_offset: 0, cap_floor: 0, height_offset: 0 },
    );
    let all = everything(&s);
    assert!(all.contains(&Feature::Zone(Zone::LavaPlains, b)));
    assert!(all.contains(&Feature::SurfaceLava(Box2::new((0, -10), (4, -9)))));
}

#[test]
fn generated_world_spans_its_zones() {
    let s = generate_level(
        &|_x: i32| (Zone::Grass(Zone1::Plains), 50),
        &|b: Box2| flat_columns(&vec![0; b.x.size() as usize]),
        &|_b: Box2, _c: i32| 0,
        &|_r: Box1| MushroomNoise { size_offset: 0, cap_floor: 0, height_offset: 0 },
    );
    let all = everything(&s);
    assert_eq!(all.len(), 40);
    assert_eq!(s.bounds(), Box2::new((-1000, -10), (1000, 11)));
}

#[test]
fn mushroom_caps_stand_apart_on_open_columns() {
    let mut s = Schema::new();
    let b = Box2::new((0, -2), (80, 3));
    // ground over columns 20..30 leaves two open ranges
    s.add(Feature::FlatGround(Place::new(20, 0), 10));
    big_mushroom_brush(&mut s, b, &|r: Box1| MushroomNoise {
        size_offset: (r.size() / 2 - 2) % 3,
        cap_floor: r.lo_incl.abs() % 7,
        height_offset: 2,
    });
    let caps: Vec<(i32, i32)> = everything(&s)
        .into_iter()
        .filter_map(|f| match f {
            Feature::BigMushroomTop(p, size) => Some((p.x - size as i32, p.x + size as i32 + 1)),
            _ => None,
        })
        .collect();
    assert!(caps.len() >= 2);
    for (i, a) in caps.iter().enumerate() {
        assert!(a.0 >= 0 && a.1 <= 80);
        assert!(a.1 <= 20 || a.0 >= 30, "cap {:?} on the ground", a);
        for c in caps.iter().skip(i + 1) {
            assert!(a.1 <= c.0 || c.1 <= a.0, "caps {:?} and {:?} overlap", a, c);
        }
    }
}

#[test]
fn floor_is_made_of_the_zone_terrain_from_the_bottom_row() {
    let mut s = Schema::new();
    let region = Box2::new((0, -5), (12, 6));
    let heights = [0, 0, 3, 3, 3, -1, -1, 2, 2, 4, 4, 4];
    let cols: Vec<ColumnNoise> = heights
        .iter()
        .enumerate()
        .map(|(i, &h)| ColumnNoise { height: h, gap: false, hill: i % 2 == 0, slope_floor: i as i32, bridge: 3 })
        .collect();
    let zone = Zone::Desert(Zone1::Hills);
    height_map_floor_brush(&mut s, zone, region, &cols);
    let terrain = zone.info().terrain;
    let mut solid = 0;
    for f in everything(&s) {
        match f {
            Feature::GroundBlock(_, t, b) => {
                assert_eq!(t, terrain);
                assert_eq!(b.y.lo_incl, -5);
                solid += 1;
            }
            Feature::HillBlock { terrain: t, .. } => {
                assert_eq!(t, terrain);
                solid += 1;
            }
            _ => {}
        }
    }
    assert!(solid > 0);
}

#[test]
fn features_are_found_exactly_within_their_bounds() {
    let hill = Feature::HillBlock {
        terrain: Terrain::Stone,
        start_x: 2,
        height: Box1::new(3, 6),
        bridge_thickness: Some(2),
        lr: LR::R,
    };
    let top = Feature::BigMushroomTop(Place::new(10, 4), 2);
    let mut s = Schema::new();
    s.add(hill);
    s.add(top);
    for f in [hill, top] {
        let b = f.bounds();
        for x in -1..15 {
            for y in -1..9 {
                let found = s.at_point(Place::new(x, y)).contains(&f);
                assert_eq!(found, b.contains((x, y)), "{:?} at {:?}", f, (x, y));
            }
        }
    }
}
