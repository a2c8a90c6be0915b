//! The tiles of one point of a level: what each feature that holds the point
//! draws there, on the background, the midground and the foreground.

use vstd::prelude::*;
use crate::helpers::Box1;
use crate::map::Place;
use crate::map::brushes::{MushroomStyle, Terrain, TerrainTile, Tile, LMR, LR, TB, TMB};
use crate::map::brushes::features::{
    added, feature_holds, indexable, lemma_holds_iff_in_envelope, lemma_listed_complete, lemma_listed_items,
    lists_matching, spec_envelope, Feature, Schema,
};
use crate::map::brushes::tiling::{GroundCover, TilingTile};

verus! {

/// The three layers of tiles at one point.
#[derive(Clone, Copy, PartialEq, Eq, Debug, Structural)]
pub struct LayeredTile {
    pub background: TilingTile,
    pub midground: TilingTile,
    pub foreground: TilingTile,
}

/// The choices that the level's noise makes at a point: whether the
/// alternative look is taken, which of the three crates a random crate is,
/// and which of the four stem pieces a mushroom stem shows.
#[derive(Clone, Copy, PartialEq, Eq, Debug, Structural)]
pub struct PointNoise {
    pub alt: bool,
    pub crate_pick: usize,
    pub stem_pick: usize,
}

/// The position of `p` in the interval `b`: left end, right end, or middle.
pub open spec fn spec_lmr_of(b: Box1, p: int) -> LMR {
    if p == b.lo_incl {
        LMR::L
    } else if p == b.hi_excl - 1 {
        LMR::R
    } else {
        LMR::M
    }
}

/// The position of `p` in the interval `b` seen as a column: bottom end, top
/// end, or middle.
pub open spec fn spec_tmb_of(b: Box1, p: int) -> TMB {
    if p == b.lo_incl {
        TMB::B
    } else if p == b.hi_excl - 1 {
        TMB::T
    } else {
        TMB::M
    }
}

/// Whether `p` is the left end, the right end or in the middle of `b`.
pub fn lmr_of(b: Box1, p: i32) -> (r: LMR)
    requires
        b.hi_excl > i32::MIN,
    ensures
        r == spec_lmr_of(b, p as int),
{
    if p == b.lo_incl {
        LMR::L
    } else if p == b.hi_excl - 1 {
        LMR::R
    } else {
        LMR::M
    }
}

/// Whether `p` is the bottom end, the top end or in the middle of `b`.
pub fn tmb_of(b: Box1, p: i32) -> (r: TMB)
    requires
        b.hi_excl > i32::MIN,
    ensures
        r == spec_tmb_of(b, p as int),
{
    if p == b.lo_incl {
        TMB::B
    } else if p == b.hi_excl - 1 {
        TMB::T
    } else {
        TMB::M
    }
}

/// Air on every layer.
pub open spec fn air_layers() -> LayeredTile {
    LayeredTile {
        background: TilingTile::Exactly(Tile::Air),
        midground: TilingTile::Exactly(Tile::Air),
        foreground: TilingTile::Exactly(Tile::Air),
    }
}

/// The midground that a hill draws at `p` over `mid`: its slope on the top
/// row, ground below it (down to just above the bottom row of a bridge), the
/// rock slope on a bridge's bottom row, and nothing elsewhere.
pub open spec fn hill_midground(
    mid: TilingTile,
    terrain: Terrain,
    start_x: i32,
    height: Box1,
    bridge_thickness: Option<u32>,
    lr: LR,
    p: Place,
) -> TilingTile {
    let top = match lr {
        LR::L => height.lo_incl + (p.x - start_x),
        LR::R => height.hi_excl - 1 - (p.x - start_x),
    };
    match bridge_thickness {
        None => if p.y == top {
            TilingTile::Exactly(Tile::Terrain(terrain, TerrainTile::Slope(lr)))
        } else if p.y < top {
            TilingTile::Ground(GroundCover::TopCovered, terrain)
        } else {
            mid
        },
        Some(t) => {
            let bottom = top - t + 1;
            if p.y == top {
                TilingTile::Exactly(Tile::Terrain(terrain, TerrainTile::Slope(lr)))
            } else if bottom < p.y && p.y < top {
                TilingTile::Ground(GroundCover::TopCovered, terrain)
            } else if p.y == bottom {
                TilingTile::Exactly(Tile::Terrain(terrain, TerrainTile::RockSlope(lr, TB::B)))
            } else {
                mid
            }
        },
    }
}

/// The crate that a random crate rectangle shows for the pick `k`.
pub open spec fn crate_tile(k: usize) -> Tile {
    if k == 0 {
        Tile::CrateBlank
    } else if k == 1 {
        Tile::CrateSlash
    } else {
        Tile::CrateCross
    }
}

/// The stem piece that a mushroom stem shows for the pick `k`.
pub open spec fn stem_tile(k: usize) -> Tile {
    if k == 0 {
        Tile::MushroomStem
    } else if k == 1 {
        Tile::MushroomStemLeaf
    } else if k == 2 {
        Tile::MushroomStemRing(false)
    } else {
        Tile::MushroomStemRing(true)
    }
}

/// The layers at `p` after the feature `f` has drawn over `t`; `style` is the
/// style of `f` when it is the top of a big mushroom.
pub open spec fn layer_step(
    t: LayeredTile,
    f: Feature,
    style: MushroomStyle,
    p: Place,
    n: PointNoise,
) -> LayeredTile {
    match f {
        Feature::GroundBlock(gc, terrain, _) => LayeredTile {
            midground: TilingTile::Ground(gc, terrain),
            ..t
        },
        Feature::HillBlock { terrain, start_x, height, bridge_thickness, lr } => LayeredTile {
            midground: hill_midground(t.midground, terrain, start_x, height, bridge_thickness, lr, p),
            ..t
        },
        Feature::Igloo { box2, door } => LayeredTile {
            background: if spec_tmb_of(box2.y, p.y as int) == TMB::B && box2.x.lo_incl + (door as i32)
                == p.x {
                TilingTile::Exactly(Tile::IglooDoor)
            } else if spec_tmb_of(box2.y, p.y as int) == TMB::T {
                TilingTile::Exactly(Tile::IglooTop(spec_lmr_of(box2.x, p.x as int)))
            } else {
                TilingTile::Exactly(Tile::IglooInterior(n.alt))
            },
            ..t
        },
        Feature::Tile(_, tile) => LayeredTile { foreground: TilingTile::Exactly(tile), ..t },
        Feature::CrateCrossRect(_) => LayeredTile {
            midground: TilingTile::Exactly(Tile::CrateCross),
            ..t
        },
        Feature::CrateRandomRect(_) => LayeredTile {
            midground: TilingTile::Exactly(crate_tile(n.crate_pick)),
            ..t
        },
        Feature::SurfaceWater(b) => LayeredTile {
            background: if p.y == b.y.hi_excl - 1 {
                TilingTile::Exactly(Tile::WaterWave)
            } else {
                TilingTile::Exactly(Tile::Water)
            },
            ..t
        },
        Feature::SurfaceLava(b) => LayeredTile {
            background: if p.y == b.y.hi_excl - 1 {
                TilingTile::Exactly(Tile::LavaWave)
            } else {
                TilingTile::Exactly(Tile::Lava)
            },
            ..t
        },
        Feature::BigMushroomTop(center, width) => LayeredTile {
            midground: if p.x == center.x {
                TilingTile::Exactly(Tile::MushroomStemBlock(style, n.alt))
            } else if p.x == center.x - width {
                TilingTile::Exactly(Tile::MushroomBlock(style, n.alt, LMR::L))
            } else if p.x == center.x + width {
                TilingTile::Exactly(Tile::MushroomBlock(style, n.alt, LMR::R))
            } else {
                TilingTile::Exactly(Tile::MushroomBlock(style, n.alt, LMR::M))
            },
            ..t
        },
        Feature::BigMushroomStem(_, _) => LayeredTile {
            foreground: TilingTile::Exactly(stem_tile(n.stem_pick)),
            ..t
        },
        Feature::SlopedGround { .. } | Feature::FlatGround(_, _) | Feature::Zone(_, _)
        | Feature::Offscreen(_) => t,
    }
}

/// The layers at `p` once the features `fs` have drawn, in order, over air;
/// `styles[k]` is the style of `fs[k]` when it is the top of a big mushroom.
pub open spec fn layered_tile(
    fs: Seq<Feature>,
    styles: Seq<MushroomStyle>,
    p: Place,
    n: PointNoise,
) -> LayeredTile
    decreases fs.len(),
{
    if fs.len() == 0 {
        air_layers()
    } else {
        layer_step(
            layered_tile(fs.drop_last(), styles.drop_last(), p, n),
            fs.last(),
            styles.last(),
            p,
            n,
        )
    }
}

/// A feature that can draw at `p`: it can be indexed and its indexed
/// rectangle holds `p`.
pub open spec fn draws_at(f: Feature, p: Place) -> bool {
    &&& indexable(f)
    &&& feature_holds(f, (p.x, p.y))
}

/// The midground that a hill draws at `p`.
fn hill_step(
    mid: TilingTile,
    terrain: Terrain,
    start_x: i32,
    height: Box1,
    bridge_thickness: Option<u32>,
    lr: LR,
    p: Place,
) -> (r: TilingTile)
    requires
        draws_at(
            Feature::HillBlock { terrain, start_x, height, bridge_thickness, lr },
            p,
        ),
    ensures
        r == hill_midground(mid, terrain, start_x, height, bridge_thickness, lr, p),
{
    let top = match lr {
        LR::L => height.lo_incl + (p.x - start_x),
        LR::R => height.hi_excl - 1 - (p.x - start_x),
    };
    match bridge_thickness {
        None => {
            if p.y == top {
                TilingTile::Exactly(Tile::Terrain(terrain, TerrainTile::Slope(lr)))
            } else if p.y < top {
                TilingTile::Ground(GroundCover::TopCovered, terrain)
            } else {
                mid
            }
        },
        Some(t) => {
            let bottom = top - t as i32 + 1;
            if p.y == top {
                TilingTile::Exactly(Tile::Terrain(terrain, TerrainTile::Slope(lr)))
            } else if bottom < p.y && p.y < top {
                TilingTile::Ground(GroundCover::TopCovered, terrain)
            } else if p.y == bottom {
                TilingTile::Exactly(Tile::Terrain(terrain, TerrainTile::RockSlope(lr, TB::B)))
            } else {
                mid
            }
        },
    }
}

/// The layers at `p` after `f` has drawn over `t`.
fn draw_feature(t: LayeredTile, f: Feature, style: MushroomStyle, p: Place, n: PointNoise) -> (r:
    LayeredTile)
    requires
        draws_at(f, p),
        n.crate_pick < 3,
        n.stem_pick < 4,
    ensures
        r == layer_step(t, f, style, p, n),
{
    let mut t = t;
    match f {
        Feature::GroundBlock(gc, terrain, _) => {
            t.midground = TilingTile::Ground(gc, terrain);
        },
        Feature::HillBlock { terrain, start_x, height, bridge_thickness, lr } => {
            t.midground = hill_step(t.midground, terrain, start_x, height, bridge_thickness, lr, p);
        },
        Feature::Igloo { box2, door } => {
            let lmr = lmr_of(box2.x, p.x);
            let tmb = tmb_of(box2.y, p.y);
            if tmb == TMB::B && box2.x.lo_incl as i64 + (door as i32) as i64 == p.x as i64 {
                t.background = TilingTile::Exactly(Tile::IglooDoor);
            } else if tmb == TMB::T {
                t.background = TilingTile::Exactly(Tile::IglooTop(lmr));
            } else {
                t.background = TilingTile::Exactly(Tile::IglooInterior(n.alt));
            }
        },
        Feature::Tile(_, tile) => {
            t.foreground = TilingTile::Exactly(tile);
        },
        Feature::CrateCrossRect(_) => {
            t.midground = TilingTile::Exactly(Tile::CrateCross);
        },
        Feature::CrateRandomRect(_) => {
            let crates = [Tile::CrateBlank, Tile::CrateSlash, Tile::CrateCross];
            t.midground = TilingTile::Exactly(crates[n.crate_pick]);
        },
        Feature::SurfaceWater(b) => {
            if p.y == b.y.hi_excl - 1 {
                t.background = TilingTile::Exactly(Tile::WaterWave);
            } else {
                t.background = TilingTile::Exactly(Tile::Water);
            }
        },
        Feature::SurfaceLava(b) => {
            if p.y == b.y.hi_excl - 1 {
                t.background = TilingTile::Exactly(Tile::LavaWave);
            } else {
                t.background = TilingTile::Exactly(Tile::Lava);
            }
        },
        Feature::BigMushroomTop(center, width) => {
            let alt = n.alt;
            if p.x == center.x {
                t.midground = TilingTile::Exactly(Tile::MushroomStemBlock(style, alt));
            } else if p.x == center.x - width as i32 {
                t.midground = TilingTile::Exactly(Tile::MushroomBlock(style, alt, LMR::L));
            } else if p.x == center.x + width as i32 {
                t.midground = TilingTile::Exactly(Tile::MushroomBlock(style, alt, LMR::R));
            } else {
                t.midground = TilingTile::Exactly(Tile::MushroomBlock(style, alt, LMR::M));
            }
        },
        Feature::BigMushroomStem(_, _) => {
            let stems = [
                Tile::MushroomStem,
                Tile::MushroomStemLeaf,
                Tile::MushroomStemRing(false),
                Tile::MushroomStemRing(true),
            ];
            t.foreground = TilingTile::Exactly(stems[n.stem_pick]);
        },
        Feature::SlopedGround { .. } | Feature::FlatGround(_, _) | Feature::Zone(_, _)
        | Feature::Offscreen(_) => {},
    }
    t
}

/// The layers at `p` once the features `fs` have drawn over air, in order,
/// each later feature drawing over what the earlier ones drew on its layer;
/// `styles[k]` is the style of `fs[k]` when it is the top of a big mushroom.
pub fn layer_features(fs: &Vec<Feature>, styles: &Vec<MushroomStyle>, p: Place, n: PointNoise) -> (r:
    LayeredTile)
    requires
        fs@.len() == styles@.len(),
        forall|k: int| 0 <= k < fs@.len() ==> draws_at(#[trigger] fs@[k], p),
        n.crate_pick < 3,
        n.stem_pick < 4,
    ensures
        r == layered_tile(fs@, styles@, p, n),
{
    let mut t = LayeredTile {
        background: TilingTile::Exactly(Tile::Air),
        midground: TilingTile::Exactly(Tile::Air),
        foreground: TilingTile::Exactly(Tile::Air),
    };
    let mut k: usize = 0;
    proof {
        assert(fs@.take(0) =~= Seq::<Feature>::empty());
        assert(styles@.take(0) =~= Seq::<MushroomStyle>::empty());
    }
    while k < fs.len()
        invariant
            k <= fs@.len(),
            fs@.len() == styles@.len(),
            forall|j: int| 0 <= j < fs@.len() ==> draws_at(#[trigger] fs@[j], p),
            n.crate_pick < 3,
            n.stem_pick < 4,
            t == layered_tile(fs@.take(k as int), styles@.take(k as int), p, n),
        decreases fs@.len() - k,
    {
        proof {
            assert(fs@.take(k + 1).drop_last() =~= fs@.take(k as int));
            assert(styles@.take(k + 1).drop_last() =~= styles@.take(k as int));
        }
        t = draw_feature(t, fs[k], styles[k], p, n);
        k = k + 1;
    }
    proof {
        assert(fs@.take(k as int) =~= fs@);
        assert(styles@.take(k as int) =~= styles@);
    }
    t
}

/// `t` is a layering of the point `p` by the features of `all`: those that
/// hold `p`, each once, in some order, drawn over air with the noise `n`; the
/// style of a big mushroom's top is one that `style_of` gives for its
/// center.
pub open spec fn possible_tile<F: Fn(Place) -> MushroomStyle>(
    all: Seq<Feature>,
    p: Place,
    n: PointNoise,
    style_of: &F,
    t: LayeredTile,
) -> bool {
    exists|fs: Seq<Feature>, styles: Seq<MushroomStyle>|
        #![trigger layered_tile(fs, styles, p, n)]
        {
            &&& lists_matching(fs, all, |f: Feature| feature_holds(f, (p.x, p.y)))
            &&& styles.len() == fs.len()
            &&& forall|k: int|
                0 <= k < fs.len() ==> (#[trigger] fs[k] matches Feature::BigMushroomTop(c, _)
                    ==> style_of.ensures((c,), styles[k]))
            &&& t == layered_tile(fs, styles, p, n)
        }
}

/// The layers of tiles at `p`: the features of the schema that hold `p`, in
/// the order the index hands them out, drawn over air. The style of a big
/// mushroom's top is what `style_of` gives for its center.
pub fn get_tile<F: Fn(Place) -> MushroomStyle>(schema: &Schema, p: Place, n: PointNoise, style_of: &F) -> (r:
    LayeredTile)
    requires
        schema.wf(),
        n.crate_pick < 3,
        n.stem_pick < 4,
        forall|c: Place| style_of.requires((c,)),
    ensures
        possible_tile(schema@, p, n, style_of, r),
{
    let fs = schema.at_point(p);
    let mut styles: Vec<MushroomStyle> = Vec::new();
    let mut k: usize = 0;
    while k < fs.len()
        invariant
            k <= fs@.len(),
            styles@.len() == k,
            forall|c: Place| style_of.requires((c,)),
            forall|j: int|
                0 <= j < k ==> (#[trigger] fs@[j] matches Feature::BigMushroomTop(c, _)
                    ==> style_of.ensures((c,), styles@[j])),
        decreases fs@.len() - k,
    {
        let style = match fs[k] {
            Feature::BigMushroomTop(c, _) => style_of(c),
            _ => MushroomStyle::Caramel,
        };
        styles.push(style);
        k = k + 1;
    }
    proof {
        schema.lemma_wf_indexable();
        crate::map::brushes::features::lemma_listed_items(
            fs@,
            schema@,
            |f: Feature| feature_holds(f, (p.x, p.y)),
        );
        assert forall|j: int| 0 <= j < fs@.len() implies draws_at(#[trigger] fs@[j], p) by {
            let i = choose|i: int| 0 <= i < schema@.len() && schema@[i] == fs@[j];
            assert(indexable(schema@[i]));
        }
    }
    let r = layer_features(&fs, &styles, p, n);
    r
}

/// Drawing one feature `g` any number of times over air gives air, or what
/// `g` draws once over air.
proof fn lemma_repeated_layers(fs: Seq<Feature>, styles: Seq<MushroomStyle>, p: Place, n: PointNoise, g: Feature)
    requires
        styles.len() == fs.len(),
        forall|k: int| 0 <= k < fs.len() ==> #[trigger] fs[k] == g,
        g is Igloo,
    ensures
        layered_tile(fs, styles, p, n) == (if fs.len() == 0 {
            air_layers()
        } else {
            layer_step(air_layers(), g, MushroomStyle::Caramel, p, n)
        }),
    decreases fs.len(),
{
    if fs.len() > 0 {
        let f0 = fs.drop_last();
        assert forall|k: int| 0 <= k < f0.len() implies #[trigger] f0[k] == g by {
            assert(f0[k] == fs[k]);
        }
        lemma_repeated_layers(f0, styles.drop_last(), p, n, g);
        assert(fs.last() == fs[fs.len() - 1]);
    }
}

/// A level that holds one igloo over `box2` with its door in column `door`
/// draws: the door on the igloo's bottom row, in column `box2.x.lo_incl +
/// door`; top pieces (left end, middle, right end) on its top row when it
/// has two rows or more; interior pieces on its other points (the door
/// column counted as `door` taken as an `i32`); air on the
/// background outside it, and air on the midground and the foreground.
pub proof fn lemma_one_igloo<F: Fn(Place) -> MushroomStyle>(
    box2: crate::helpers::Box2,
    door: u32,
    p: Place,
    n: PointNoise,
    style_of: &F,
    t: LayeredTile,
)
    requires
        box2.x.spec_size() > 0,
        box2.y.spec_size() > 0,
        possible_tile(added(Feature::Igloo { box2, door }), p, n, style_of, t),
    ensures
        t.midground == TilingTile::Exactly(Tile::Air),
        t.foreground == TilingTile::Exactly(Tile::Air),
        !box2.has(p.x as int, p.y as int) ==> t.background == TilingTile::Exactly(Tile::Air),
        box2.has(p.x as int, p.y as int) && p.y == box2.y.lo_incl && p.x == box2.x.lo_incl + (door as i32)
            ==> t.background == TilingTile::Exactly(Tile::IglooDoor),
        box2.has(p.x as int, p.y as int) && p.y == box2.y.hi_excl - 1 && p.y != box2.y.lo_incl
            ==> t.background == TilingTile::Exactly(
            Tile::IglooTop(
                if p.x == box2.x.lo_incl {
                    LMR::L
                } else if p.x == box2.x.hi_excl - 1 {
                    LMR::R
                } else {
                    LMR::M
                },
            ),
        ),
        box2.has(p.x as int, p.y as int) && p.y != box2.y.hi_excl - 1 && !(p.y == box2.y.lo_incl && p.x
            == box2.x.lo_incl + (door as i32)) ==> t.background == TilingTile::Exactly(Tile::IglooInterior(n.alt)),
        box2.has(p.x as int, p.y as int) && p.y == box2.y.hi_excl - 1 && p.y == box2.y.lo_incl && p.x
            != box2.x.lo_incl + (door as i32) ==> t.background == TilingTile::Exactly(Tile::IglooInterior(n.alt)),
{
    let g = Feature::Igloo { box2, door };
    let all = added(g);
    assert(all =~= seq![g]);
    let pred = |f: Feature| feature_holds(f, (p.x, p.y));
    let (fs, styles) = choose|fs: Seq<Feature>, styles: Seq<MushroomStyle>|
        #![trigger layered_tile(fs, styles, p, n)]
        {
            &&& lists_matching(fs, all, pred)
            &&& styles.len() == fs.len()
            &&& forall|k: int|
                0 <= k < fs.len() ==> (#[trigger] fs[k] matches Feature::BigMushroomTop(c, _)
                    ==> style_of.ensures((c,), styles[k]))
            &&& t == layered_tile(fs, styles, p, n)
        };
    lemma_listed_items(fs, all, pred);
    lemma_listed_complete(fs, all, pred);
    assert forall|k: int| 0 <= k < fs.len() implies #[trigger] fs[k] == g by {
        assert(all.contains(fs[k]));
    }
    lemma_repeated_layers(fs, styles, p, n, g);
    lemma_holds_iff_in_envelope(g, (p.x, p.y));
    assert(spec_envelope(g) == box2);
    if box2.has(p.x as int, p.y as int) {
        assert(pred(all[0]));
        assert(fs.contains(all[0]));
    } else if fs.len() > 0 {
        assert(pred(fs[0]));
    }
}

} // verus!
