//! The tiles of one point of the world: what each feature that holds the
//! point draws there, on the background, the midground and the foreground.

use vstd::prelude::*;
use crate::helpers::Box1;
use crate::map::Place;
use crate::map::brushes::{spec_flip, MushroomStyle, Terrain, TerrainTile, Tile, LMR, LR, TB, TMB};
use crate::world::feature::{
    added, feature_holds, indexable, lemma_holds_iff_in_bounds, lemma_listed_complete, lemma_listed_items,
    lists_matching, spec_envelope, Feature, Schema,
};
use crate::map::brushes::tiling::{GroundCover, TilingTile};
use crate::map::brushes::tiles::{
    air_layers, crate_tile, lmr_of, spec_lmr_of, spec_tmb_of, stem_tile, tmb_of, LayeredTile, PointNoise,
};

verus! {

/// The midground that a hill draws at `p` over `mid`: its slope on the top
/// row, ground below it (down to just above the bottom row of a bridge), the
/// rock slope of the other side on a bridge's bottom row, and nothing
/// elsewhere.
pub open spec fn hill_midground(
    mid: TilingTile,
    terrain: Terrain,
    start_x: i32,
    height: Box1,
    bridge_thickness: Option<u32>,
    lr: LR,
    p: Place,
) -> TilingTile {
    let top = match lr {
        LR::L => height.lo_incl + (p.x - start_x),
        LR::R => height.hi_excl - 1 - (p.x - start_x),
    };
    match bridge_thickness {
        None => if p.y == top {
            TilingTile::Exactly(Tile::Terrain(terrain, TerrainTile::Slope(lr)))
        } else if p.y < top {
            TilingTile::Ground(GroundCover::TopCovered, terrain)
        } else {
            mid
        },
        Some(t) => {
            let bottom = top - t;
            if p.y == top {
                TilingTile::Exactly(Tile::Terrain(terrain, TerrainTile::Slope(lr)))
            } else if bottom < p.y && p.y < top {
                TilingTile::Ground(GroundCover::TopCovered, terrain)
            } else if p.y == bottom {
                TilingTile::Exactly(Tile::Terrain(terrain, TerrainTile::RockSlope(spec_flip(lr), TB::B)))
            } else {
                mid
            }
        },
    }
}

/// The layers at `p` after the feature `f` has drawn over `t`; `style` is the
/// style of `f` when it is the top of a big mushroom.
pub open spec fn layer_step(
    t: LayeredTile,
    f: Feature,
    style: MushroomStyle,
    p: Place,
    n: PointNoise,
) -> LayeredTile {
    match f {
        Feature::GroundBlock(gc, terrain, _) => LayeredTile {
            midground: TilingTile::Ground(gc, terrain),
            ..t
        },
        Feature::HillBlock { terrain, start_x, height, bridge_thickness, lr } => LayeredTile {
            midground: hill_midground(t.midground, terrain, start_x, height, bridge_thickness, lr, p),
            ..t
        },
        Feature::Igloo { box2, door } => LayeredTile {
            background: if spec_tmb_of(box2.y, p.y as int) == TMB::B && box2.x.lo_incl + (door as i32)
                == p.x {
                TilingTile::Exactly(Tile::IglooDoor)
            } else if spec_tmb_of(box2.y, p.y as int) == TMB::T {
                TilingTile::Exactly(Tile::IglooTop(spec_lmr_of(box2.x, p.x as int)))
            } else {
                TilingTile::Exactly(Tile::IglooInterior(n.alt))
            },
            ..t
        },
        Feature::Tile(_, tile) => LayeredTile { foreground: TilingTile::Exactly(tile), ..t },
        Feature::CrateCrossRect(_) => LayeredTile {
            midground: TilingTile::Exactly(Tile::CrateCross),
            ..t
        },
        Feature::CrateRandomRect(_) => LayeredTile {
            midground: TilingTile::Exactly(crate_tile(n.crate_pick)),
            ..t
        },
        Feature::SurfaceWater(b) => LayeredTile {
            background: if p.y == b.y.hi_excl - 1 {
                TilingTile::Exactly(Tile::WaterWave)
            } else {
                TilingTile::Exactly(Tile::Water)
            },
            ..t
        },
        Feature::SurfaceLava(b) => LayeredTile {
            background: if p.y == b.y.hi_excl - 1 {
                TilingTile::Exactly(Tile::LavaWave)
            } else {
                TilingTile::Exactly(Tile::Lava)
            },
            ..t
        },
        Feature::BigMushroomTop(center, width) => LayeredTile {
            midground: if p.x == center.x {
                TilingTile::Exactly(Tile::MushroomStemBlock(style, n.alt))
            } else if p.x == center.x - width {
                TilingTile::Exactly(Tile::MushroomBlock(style, n.alt, LMR::L))
            } else if p.x == center.x + width {
                TilingTile::Exactly(Tile::MushroomBlock(style, n.alt, LMR::R))
            } else {
                TilingTile::Exactly(Tile::MushroomBlock(style, n.alt, LMR::M))
            },
            ..t
        },
        Feature::BigMushroomStem(base, height) => LayeredTile {
            background: if p.y == base.y + height {
                TilingTile::Exactly(Tile::MushroomStemTop(n.alt))
            } else {
                TilingTile::Exactly(stem_tile(n.stem_pick))
            },
            ..t
        },
        Feature::SlopedGround { .. } | Feature::FlatGround(_, _) | Feature::Zone(_, _)
        | Feature::Offscreen(_) => t,
    }
}

/// The layers at `p` once the features `fs` have drawn, in order, over air;
/// `styles[k]` is the style of `fs[k]` when it is the top of a big mushroom.
pub open spec fn layered_tile(
    fs: Seq<Feature>,
    styles: Seq<MushroomStyle>,
    p: Place,
    n: PointNoise,
) -> LayeredTile
    decreases fs.len(),
{
    if fs.len() == 0 {
        air_layers()
    } else {
        layer_step(
            layered_tile(fs.drop_last(), styles.drop_last(), p, n),
            fs.last(),
            styles.last(),
            p,
            n,
        )
    }
}

/// A feature that can draw at `p`: it can be indexed and its indexed
/// rectangle holds `p`.
pub open spec fn draws_at(f: Feature, p: Place) -> bool {
    &&& indexable(f)
    &&& feature_holds(f, (p.x, p.y))
}

/// The midground that a hill draws at `p`.
fn hill_step(
    mid: TilingTile,
    terrain: Terrain,
    start_x: i32,
    height: Box1,
    bridge_thickness: Option<u32>,
    lr: LR,
    p: Place,
) -> (r: TilingTile)
    requires
        draws_at(
            Feature::HillBlock { terrain, start_x, height, bridge_thickness, lr },
            p,
        ),
    ensures
        r == hill_midground(mid, terrain, start_x, height, bridge_thickness, lr, p),
{
    let top = match lr {
        LR::L => height.lo_incl + (p.x - start_x),
        LR::R => height.hi_excl - 1 - (p.x - start_x),
    };
    match bridge_thickness {
        None => {
            if p.y == top {
                TilingTile::Exactly(Tile::Terrain(terrain, TerrainTile::Slope(lr)))
            } else if p.y < top {
                TilingTile::Ground(GroundCover::TopCovered, terrain)
            } else {
                mid
            }
        },
        Some(t) => {
            let bottom = top - t as i32;
            if p.y == top {
                TilingTile::Exactly(Tile::Terrain(terrain, TerrainTile::Slope(lr)))
            } else if bottom < p.y && p.y < top {
                TilingTile::Ground(GroundCover::TopCovered, terrain)
            } else if p.y == bottom {
                TilingTile::Exactly(Tile::Terrain(terrain, TerrainTile::RockSlope(lr.flip(), TB::B)))
            } else {
                mid
            }
        },
    }
}

/// The layers at `p` after `f` has drawn over `t`.
fn draw_feature(t: LayeredTile, f: Feature, style: MushroomStyle, p: Place, n: PointNoise) -> (r:
    LayeredTile)
    requires
        draws_at(f, p),
        n.crate_pick < 3,
        n.stem_pick < 4,
    ensures
        r == layer_step(t, f, style, p, n),
{
    let mut t = t;
    match f {
        Feature::GroundBlock(gc, terrain, _) => {
            t.midground = TilingTile::Ground(gc, terrain);
        },
        Feature::HillBlock { terrain, start_x, height, bridge_thickness, lr } => {
            t.midground = hill_step(t.midground, terrain, start_x, height, bridge_thickness, lr, p);
        },
        Feature::Igloo { box2, door } => {
            let lmr = lmr_of(box2.x, p.x);
            let tmb = tmb_of(box2.y, p.y);
            if tmb == TMB::B && box2.x.lo_incl as i64 + (door as i32) as i64 == p.x as i64 {
                t.background = TilingTile::Exactly(Tile::IglooDoor);
            } else if tmb == TMB::T {
                t.background = TilingTile::Exactly(Tile::IglooTop(lmr));
            } else {
                t.background = TilingTile::Exactly(Tile::IglooInterior(n.alt));
            }
        },
        Feature::Tile(_, tile) => {
            t.foreground = TilingTile::Exactly(tile);
        },
        Feature::CrateCrossRect(_) => {
            t.midground = TilingTile::Exactly(Tile::CrateCross);
        },
        Feature::CrateRandomRect(_) => {
            let crates = [Tile::CrateBlank, Tile::CrateSlash, Tile::CrateCross];
            t.midground = TilingTile::Exactly(crates[n.crate_pick]);
        },
        Feature::SurfaceWater(b) => {
            if p.y == b.y.hi_excl - 1 {
                t.background = TilingTile::Exactly(Tile::WaterWave);
            } else {
                t.background = TilingTile::Exactly(Tile::Water);
            }
        },
        Feature::SurfaceLava(b) => {
            if p.y == b.y.hi_excl - 1 {
                t.background = TilingTile::Exactly(Tile::LavaWave);
            } else {
                t.background = TilingTile::Exactly(Tile::Lava);
            }
        },
        Feature::BigMushroomTop(center, width) => {
            let alt = n.alt;
            if p.x == center.x {
                t.midground = TilingTile::Exactly(Tile::MushroomStemBlock(style, alt));
            } else if p.x == center.x - width as i32 {
                t.midground = TilingTile::Exactly(Tile::MushroomBlock(style, alt, LMR::L));
            } else if p.x == center.x + width as i32 {
                t.midground = TilingTile::Exactly(Tile::MushroomBlock(style, alt, LMR::R));
            } else {
                t.midground = TilingTile::Exactly(Tile::MushroomBlock(style, alt, LMR::M));
            }
        },
        Feature::BigMushroomStem(base, height) => {
            if p.y as i64 == base.y as i64 + height as i64 {
                t.background = TilingTile::Exactly(Tile::MushroomStemTop(n.alt));
            } else {
                let stems = [
                    Tile::MushroomStem,
                    Tile::MushroomStemLeaf,
                    Tile::MushroomStemRing(false),
                    Tile::MushroomStemRing(true),
                ];
                t.background = TilingTile::Exactly(stems[n.stem_pick]);
            }
        },
        Feature::SlopedGround { .. } | Feature::FlatGround(_, _) | Feature::Zone(_, _)
        | Feature::Offscreen(_) => {},
    }
    t
}

/// The layers at `p` once the features `fs` have drawn over air, in order,
/// each later feature drawing over what the earlier ones drew on its layer;
/// `styles[k]` is the style of `fs[k]` when it is the top of a big mushroom.
pub fn layer_features(fs: &Vec<Feature>, styles: &Vec<MushroomStyle>, p: Place, n: PointNoise) -> (r:
    LayeredTile)
    requires
        fs@.len() == styles@.len(),
        forall|k: int| 0 <= k < fs@.len() ==> draws_at(#[trigger] fs@[k], p),
        n.crate_pick < 3,
        n.stem_pick < 4,
    ensures
        r == layered_tile(fs@, styles@, p, n),
{
    let mut t = LayeredTile {
        background: TilingTile::Exactly(Tile::Air),
        midground: TilingTile::Exactly(Tile::Air),
        foreground: TilingTile::Exactly(Tile::Air),
    };
    let mut k: usize = 0;
    proof {
        assert(fs@.take(0) =~= Seq::<Feature>::empty());
        assert(styles@.take(0) =~= Seq::<MushroomStyle>::empty());
    }
    while k < fs.len()
        invariant
            k <= fs@.len(),
            fs@.len() == styles@.len(),
            forall|j: int| 0 <= j < fs@.len() ==> draws_at(#[trigger] fs@[j], p),
            n.crate_pick < 3,
            n.stem_pick < 4,
            t == layered_tile(fs@.take(k as int), styles@.take(k as int), p, n),
        decreases fs@.len() - k,
    {
        proof {
            assert(fs@.take(k + 1).drop_last() =~= fs@.take(k as int));
            assert(styles@.take(k + 1).drop_last() =~= styles@.take(k as int));
        }
        t = draw_feature(t, fs[k], styles[k], p, n);
        k = k + 1;
    }
    proof {
        assert(fs@.take(k as int) =~= fs@);
        assert(styles@.take(k as int) =~= styles@);
    }
    t
}

/// `t` is a layering of the point `p` by the features of `all`: those that
/// hold `p`, each once, in some order, drawn over air with the noise `n`; the
/// style of a big mushroom's top is one that `style_of` gives for its
/// center.
pub open spec fn possible_tile<F: Fn(Place) -> MushroomStyle>(
    all: Seq<Feature>,
    p: Place,
    n: PointNoise,
    style_of: &F,
    t: LayeredTile,
) -> bool {
    exists|fs: Seq<Feature>, styles: Seq<MushroomStyle>|
        #![trigger layered_tile(fs, styles, p, n)]
        {
            &&& lists_matching(fs, all, |f: Feature| feature_holds(f, (p.x, p.y)))
            &&& styles.len() == fs.len()
            &&& forall|k: int|
                0 <= k < fs.len() ==> (#[trigger] fs[k] matches Feature::BigMushroomTop(c, _)
                    ==> style_of.ensures((c,), styles[k]))
            &&& t == layered_tile(fs, styles, p, n)
        }
}

/// The layers of tiles at `p`: the features of the schema that hold `p`, in
/// the order the index hands them out, drawn over air. The style of a big
/// mushroom's top is what `style_of` gives for its center.
pub fn get_tile<F: Fn(Place) -> MushroomStyle>(schema: &Schema, p: Place, n: PointNoise, style_of: &F) -> (r:
    LayeredTile)
    requires
        schema.wf(),
        n.crate_pick < 3,
        n.stem_pick < 4,
        forall|c: Place| style_of.requires((c,)),
    ensures
        possible_tile(schema@, p, n, style_of, r),
{
    let fs = schema.at_point(p);
    let mut styles: Vec<MushroomStyle> = Vec::new();
    let mut k: usize = 0;
    while k < fs.len()
        invariant
            k <= fs@.len(),
            styles@.len() == k,
            forall|c: Place| style_of.requires((c,)),
            forall|j: int|
                0 <= j < k ==> (#[trigger] fs@[j] matches Feature::BigMushroomTop(c, _)
                    ==> style_of.ensures((c,), styles@[j])),
        decreases fs@.len() - k,
    {
        let style = match fs[k] {
            Feature::BigMushroomTop(c, _) => style_of(c),
            _ => MushroomStyle::Caramel,
        };
        styles.push(style);
        k = k + 1;
    }
    proof {
        schema.lemma_wf_indexable();
        lemma_listed_items(
            fs@,
            schema@,
            |f: Feature| feature_holds(f, (p.x, p.y)),
        );
        assert forall|j: int| 0 <= j < fs@.len() implies draws_at(#[trigger] fs@[j], p) by {
            let i = choose|i: int| 0 <= i < schema@.len() && schema@[i] == fs@[j];
            assert(indexable(schema@[i]));
        }
    }
    let r = layer_features(&fs, &styles, p, n);
    r
}

/// Drawing a ground block `g` and flat ground, in any order, over air: air
/// on the background and the foreground, and the block's ground on the
/// midground where the block is among them.
proof fn lemma_block_and_flat_layers(
    fs: Seq<Feature>,
    styles: Seq<MushroomStyle>,
    p: Place,
    n: PointNoise,
    gc: GroundCover,
    terrain: Terrain,
    b: crate::helpers::Box2,
)
    requires
        styles.len() == fs.len(),
        forall|k: int|
            0 <= k < fs.len() ==> #[trigger] fs[k] == Feature::GroundBlock(gc, terrain, b) || fs[k] is FlatGround,
    ensures
        layered_tile(fs, styles, p, n) == (if fs.contains(Feature::GroundBlock(gc, terrain, b)) {
            LayeredTile { midground: TilingTile::Ground(gc, terrain), ..air_layers() }
        } else {
            air_layers()
        }),
    decreases fs.len(),
{
    if fs.len() > 0 {
        let f0 = fs.drop_last();
        assert forall|k: int| 0 <= k < f0.len() implies #[trigger] f0[k] == Feature::GroundBlock(gc, terrain, b)
            || f0[k] is FlatGround by {
            assert(f0[k] == fs[k]);
        }
        lemma_block_and_flat_layers(f0, styles.drop_last(), p, n, gc, terrain, b);
        let g = Feature::GroundBlock(gc, terrain, b);
        assert(fs[fs.len() - 1] == fs.last());
        if f0.contains(g) {
            let k = choose|k: int| 0 <= k < f0.len() && f0[k] == g;
            assert(fs[k] == g);
        }
        if fs.contains(g) && fs.last() != g {
            let k = choose|k: int| 0 <= k < fs.len() && fs[k] == g;
            assert(f0[k] == g);
        }
    }
}

/// A schema that holds one ground block, with the flat ground on its top
/// row that laying it down adds, draws at every point air on the background
/// and the foreground, and on the midground the block's ground where the
/// block holds the point and air elsewhere. A block that is not empty holds
/// exactly the points of its rectangle.
pub proof fn lemma_one_ground_block<F: Fn(Place) -> MushroomStyle>(
    gc: GroundCover,
    terrain: Terrain,
    b: crate::helpers::Box2,
    p: Place,
    n: PointNoise,
    style_of: &F,
    t: LayeredTile,
)
    requires
        possible_tile(added(Feature::GroundBlock(gc, terrain, b)), p, n, style_of, t),
    ensures
        t.background == TilingTile::Exactly(Tile::Air),
        t.foreground == TilingTile::Exactly(Tile::Air),
        t.midground == (if feature_holds(Feature::GroundBlock(gc, terrain, b), (p.x, p.y)) {
            TilingTile::Ground(gc, terrain)
        } else {
            TilingTile::Exactly(Tile::Air)
        }),
        b.x.spec_size() > 0 && b.y.spec_size() > 0 ==> (feature_holds(
            Feature::GroundBlock(gc, terrain, b),
            (p.x, p.y),
        ) <==> b.x.has(p.x as int) && b.y.has(p.y as int)),
{
    let g = Feature::GroundBlock(gc, terrain, b);
    let all = added(g);
    let pred = |f: Feature| feature_holds(f, (p.x, p.y));
    let (fs, styles) = choose|fs: Seq<Feature>, styles: Seq<MushroomStyle>|
        #![trigger layered_tile(fs, styles, p, n)]
        {
            &&& lists_matching(fs, all, pred)
            &&& styles.len() == fs.len()
            &&& forall|k: int|
                0 <= k < fs.len() ==> (#[trigger] fs[k] matches Feature::BigMushroomTop(c, _)
                    ==> style_of.ensures((c,), styles[k]))
            &&& t == layered_tile(fs, styles, p, n)
        };
    lemma_listed_items(fs, all, pred);
    lemma_listed_complete(fs, all, pred);
    assert forall|k: int| 0 <= k < fs.len() implies #[trigger] fs[k] == g || fs[k] is FlatGround by {
        assert(all.contains(fs[k]));
        let i = choose|i: int| 0 <= i < all.len() && all[i] == fs[k];
    }
    lemma_block_and_flat_layers(fs, styles, p, n, gc, terrain, b);
    if feature_holds(g, (p.x, p.y)) {
        assert(pred(all[0]));
        assert(fs.contains(all[0]));
    } else if fs.contains(g) {
        let k = choose|k: int| 0 <= k < fs.len() && fs[k] == g;
        assert(pred(fs[k]));
    }
}

/// Drawing one feature `g` any number of times over air gives air, or what
/// `g` draws once over air.
proof fn lemma_repeated_layers(fs: Seq<Feature>, styles: Seq<MushroomStyle>, p: Place, n: PointNoise, g: Feature)
    requires
        styles.len() == fs.len(),
        forall|k: int| 0 <= k < fs.len() ==> #[trigger] fs[k] == g,
        g is Igloo,
    ensures
        layered_tile(fs, styles, p, n) == (if fs.len() == 0 {
            air_layers()
        } else {
            layer_step(air_layers(), g, MushroomStyle::Caramel, p, n)
        }),
    decreases fs.len(),
{
    if fs.len() > 0 {
        let f0 = fs.drop_last();
        assert forall|k: int| 0 <= k < f0.len() implies #[trigger] f0[k] == g by {
            assert(f0[k] == fs[k]);
        }
        lemma_repeated_layers(f0, styles.drop_last(), p, n, g);
        assert(fs.last() == fs[fs.len() - 1]);
    }
}

/// A level that holds one igloo over `box2` with its door in column `door`
/// draws: the door on the igloo's bottom row, in column `box2.x.lo_incl +
/// door`; top pieces (left end, middle, right end) on its top row when it
/// has two rows or more; interior pieces on its other points (the door
/// column counted as `door` taken as an `i32`); air on the
/// background outside it, and air on the midground and the foreground.
pub proof fn lemma_one_igloo<F: Fn(Place) -> MushroomStyle>(
    box2: crate::helpers::Box2,
    door: u32,
    p: Place,
    n: PointNoise,
    style_of: &F,
    t: LayeredTile,
)
    requires
        box2.x.spec_size() > 0,
        box2.y.spec_size() > 0,
        possible_tile(added(Feature::Igloo { box2, door }), p, n, style_of, t),
    ensures
        t.midground == TilingTile::Exactly(Tile::Air),
        t.foreground == TilingTile::Exactly(Tile::Air),
        !box2.has(p.x as int, p.y as int) ==> t.background == TilingTile::Exactly(Tile::Air),
        box2.has(p.x as int, p.y as int) && p.y == box2.y.lo_incl && p.x == box2.x.lo_incl + (door as i32)
            ==> t.background == TilingTile::Exactly(Tile::IglooDoor),
        box2.has(p.x as int, p.y as int) && p.y == box2.y.hi_excl - 1 && p.y != box2.y.lo_incl
            ==> t.background == TilingTile::Exactly(
            Tile::IglooTop(
                if p.x == box2.x.lo_incl {
                    LMR::L
                } else if p.x == box2.x.hi_excl - 1 {
                    LMR::R
                } else {
                    LMR::M
                },
            ),
        ),
        box2.has(p.x as int, p.y as int) && p.y != box2.y.hi_excl - 1 && !(p.y == box2.y.lo_incl && p.x
            == box2.x.lo_incl + (door as i32)) ==> t.background == TilingTile::Exactly(Tile::IglooInterior(n.alt)),
        box2.has(p.x as int, p.y as int) && p.y == box2.y.hi_excl - 1 && p.y == box2.y.lo_incl && p.x
            != box2.x.lo_incl + (door as i32) ==> t.background == TilingTile::Exactly(Tile::IglooInterior(n.alt)),
{
    let g = Feature::Igloo { box2, door };
    let all = added(g);
    assert(all =~= seq![g]);
    let pred = |f: Feature| feature_holds(f, (p.x, p.y));
    let (fs, styles) = choose|fs: Seq<Feature>, styles: Seq<MushroomStyle>|
        #![trigger layered_tile(fs, styles, p, n)]
        {
            &&& lists_matching(fs, all, pred)
            &&& styles.len() == fs.len()
            &&& forall|k: int|
                0 <= k < fs.len() ==> (#[trigger] fs[k] matches Feature::BigMushroomTop(c, _)
                    ==> style_of.ensures((c,), styles[k]))
            &&& t == layered_tile(fs, styles, p, n)
        };
    lemma_listed_items(fs, all, pred);
    lemma_listed_complete(fs, all, pred);
    assert forall|k: int| 0 <= k < fs.len() implies #[trigger] fs[k] == g by {
        assert(all.contains(fs[k]));
    }
    lemma_repeated_layers(fs, styles, p, n, g);
    lemma_holds_iff_in_bounds(g, (p.x, p.y));
    assert(spec_envelope(g) == box2);
    if box2.has(p.x as int, p.y as int) {
        assert(pred(all[0]));
        assert(fs.contains(all[0]));
    } else if fs.len() > 0 {
        assert(pred(fs[0]));
    }
}

} // verus!
