//! The brushes that lay down the features of the world, and the tiles that
//! the features draw.
//!
//! A brush reads the world's noise only through plain samples taken per
//! column (or per range) by its caller; what it lays down is a function of
//! those samples.

use vstd::prelude::*;
use crate::open_ranges::{
    edge_hi, edge_lo, edges_points, edges_separated, half_open, open_points, open_ranges_edges,
    open_ranges_insert, open_ranges_new, open_ranges_remove, Edge,
};
use crate::helpers::{box1_offset, fits_i32, spec_fit_box1, fit_box1, Box1, Box2};
use crate::map::Place;
use crate::map::brushes::{Terrain, LR};
use crate::map::brushes::tiling::GroundCover;
use crate::world::feature::{
    Zone1, added, lemma_listed_complete, companion, companion_defined, feature_meets, indexable, lemma_listed_items,
    lists_matching, query_corners, zone_terrains, Feature, Schema, Zone,
};

verus! {

/// The largest magnitude of a coordinate of a region that a brush paints:
/// what it lays down then stays within the index's limit.
pub open spec fn region_limit() -> int {
    1500
}

/// The region's bounds are in order and within the brushes' limit.
pub open spec fn region_in_range(region: Box2) -> bool {
    &&& region.wf()
    &&& -region_limit() <= region.x.lo_incl
    &&& region.x.hi_excl <= region_limit()
    &&& -region_limit() <= region.y.lo_incl
    &&& region.y.hi_excl <= region_limit()
}

/// The noise samples of one column of a region, taken by the caller.
#[derive(Clone, Copy, PartialEq, Eq, Debug, Structural)]
pub struct ColumnNoise {
    /// The ground height that the terrain noise picks within the region.
    pub height: i32,
    /// The column is a gap.
    pub gap: bool,
    /// A run of equal heights that starts at this column rises to the next
    /// run as a hill.
    pub hill: bool,
    /// The rounded-down terrain sample that places a hill's slope.
    pub slope_floor: i32,
    /// The rounded-down sample of a hill bridge's thickness.
    pub bridge: u32,
}

/// The ground height of a column: the bottom of the region for a gap.
pub open spec fn column_height(c: ColumnNoise, region: Box2) -> i32 {
    if c.gap {
        region.y.lo_incl
    } else {
        c.height
    }
}

/// A run of columns of equal height: its length, first column and height.
pub type Run = (i32, i32, i32);

/// The runs of equal heights of the columns `cols`, the first of which is
/// the region's first column, in order.
pub open spec fn runs_of(cols: Seq<ColumnNoise>, region: Box2) -> Seq<Run>
    decreases cols.len(),
{
    if cols.len() == 0 {
        Seq::empty()
    } else {
        let prev = runs_of(cols.drop_last(), region);
        let h = column_height(cols.last(), region);
        if prev.len() > 0 && prev.last().2 == h {
            prev.update(prev.len() - 1, ((prev.last().0 + 1) as i32, prev.last().1, h))
        } else {
            prev.push((1i32, (region.x.lo_incl + cols.len() - 1) as i32, h))
        }
    }
}

/// Every column's samples are usable: its height lies in the region, and its
/// slope sample is not negative.
pub open spec fn columns_valid(cols: Seq<ColumnNoise>, region: Box2) -> bool {
    forall|i: int|
        0 <= i < cols.len() ==> region.y.has((#[trigger] cols[i]).height as int)
            && cols[i].slope_floor >= 0
}

/// The runs cover the columns, in order, without gaps; neighbouring runs
/// differ in height; every height lies in the region.
pub proof fn lemma_runs_shape(cols: Seq<ColumnNoise>, region: Box2)
    requires
        region_in_range(region),
        cols.len() <= region.x.spec_size(),
        columns_valid(cols, region),
    ensures
        (runs_of(cols, region).len() == 0) == (cols.len() == 0),
        runs_of(cols, region).len() <= cols.len(),
        forall|k: int|
            0 <= k < runs_of(cols, region).len() ==> {
                let r = #[trigger] runs_of(cols, region)[k];
                &&& 1 <= r.0
                &&& region.x.lo_incl <= r.1
                &&& r.1 + r.0 <= region.x.lo_incl + cols.len()
                &&& region.y.has(r.2 as int)
            },
        runs_of(cols, region).len() > 0 ==> runs_of(cols, region)[0].1 == region.x.lo_incl,
        runs_of(cols, region).len() > 0 ==> runs_of(cols, region).last().1 + runs_of(
            cols,
            region,
        ).last().0 == region.x.lo_incl + cols.len(),
        forall|i: int, j: int|
            0 <= i && j == i + 1 && j < runs_of(cols, region).len() ==> {
                &&& (#[trigger] runs_of(cols, region)[j]).1 == (#[trigger] runs_of(
                    cols,
                    region,
                )[i]).1 + runs_of(cols, region)[i].0
                &&& runs_of(cols, region)[j].2 != runs_of(cols, region)[i].2
            },
    decreases cols.len(),
{
    if cols.len() > 0 {
        let c0 = cols.drop_last();
        assert forall|i: int| 0 <= i < c0.len() implies region.y.has((#[trigger] c0[i]).height as int)
            && c0[i].slope_floor >= 0 by {
            assert(c0[i] == cols[i]);
        }
        lemma_runs_shape(c0, region);
        assert(region.y.has(cols[cols.len() - 1].height as int));
    }
}

/// The ground blocks and hills laid down between the run `r1` and the next
/// run `r2`, with the samples `c` of `r1`'s first column; `last` is set for
/// the last of two or more pairs of runs, which also lays down the ground of
/// `r2`.
pub open spec fn window_features(
    r1: Run,
    r2: Run,
    last: bool,
    c: ColumnNoise,
    terrain: Terrain,
    region: Box2,
) -> Seq<Feature> {
    let (l1, x1, h1) = r1;
    let (l2, x2, h2) = r2;
    let lo = region.y.lo_incl;
    let run_length = if h2 >= h1 {
        h2 - h1
    } else {
        h1 - h2
    };
    let x_run = spec_fit_box1(c.slope_floor as int, run_length, Box1 { lo_incl: x1, hi_excl: x2 });
    let low = if h1 <= h2 {
        h1
    } else {
        h2
    };
    let body = if c.hill && h1 > lo && x_run is Some {
        let xr = x_run->Some_0;
        let max_thickness = low - lo;
        let t = if (c.bridge as int) < max_thickness {
            c.bridge as int
        } else {
            max_thickness
        };
        let bridge_thickness = if t < 2 {
            None
        } else {
            Some((t + 2) as u32)
        };
        let (lr, height) = if h1 < h2 {
            (LR::L, Box1 { lo_incl: h1, hi_excl: h2 })
        } else {
            (LR::R, Box1 { lo_incl: h2, hi_excl: h1 })
        };
        seq![Feature::HillBlock { terrain, start_x: xr.lo_incl, height, bridge_thickness, lr }]
            + (if x1 < xr.lo_incl {
            seq![ground_block(terrain, Box1 { lo_incl: x1, hi_excl: xr.lo_incl }, lo, h1)]
        } else {
            Seq::empty()
        }) + (if xr.hi_excl < x2 && h2 > lo {
            seq![ground_block(terrain, Box1 { lo_incl: xr.hi_excl, hi_excl: x2 }, lo, h2)]
        } else {
            Seq::empty()
        }) + (if bridge_thickness is None && h2 > lo {
            seq![ground_block(terrain, xr, lo, low)]
        } else {
            Seq::empty()
        })
    } else if h1 > lo {
        seq![ground_block(terrain, Box1 { lo_incl: x1, hi_excl: (x1 + l1) as i32 }, lo, h1)]
    } else {
        Seq::empty()
    };
    body + if last && h2 > lo {
        seq![ground_block(terrain, Box1 { lo_incl: x2, hi_excl: (x2 + l2) as i32 }, lo, h2)]
    } else {
        Seq::empty()
    }
}

/// Top-covered ground of `terrain` over the columns `x`, from `lo` up to
/// (not including) `hi`.
pub open spec fn ground_block(terrain: Terrain, x: Box1, lo: i32, hi: i32) -> Feature {
    Feature::GroundBlock(GroundCover::TopCovered, terrain, Box2 { x, y: Box1 { lo_incl: lo, hi_excl: hi } })
}

/// The samples of the first column of run number `w`.
pub open spec fn run_noise(runs: Seq<Run>, w: int, cols: Seq<ColumnNoise>, region: Box2) -> ColumnNoise {
    cols[runs[w].1 - region.x.lo_incl]
}

/// The features laid down between the first `n + 1` runs, pair by pair.
pub open spec fn windows_features(
    runs: Seq<Run>,
    cols: Seq<ColumnNoise>,
    terrain: Terrain,
    region: Box2,
    n: int,
) -> Seq<Feature>
    decreases n,
{
    if n <= 0 {
        Seq::empty()
    } else {
        windows_features(runs, cols, terrain, region, n - 1) + window_features(
            runs[n - 1],
            runs[n],
            runs.len() >= 3 && n == runs.len() - 1,
            run_noise(runs, n - 1, cols, region),
            terrain,
            region,
        )
    }
}

/// The features that the floor brush lays down in `region` for the columns'
/// samples `cols`, before their companions.
pub open spec fn floor_features(cols: Seq<ColumnNoise>, terrain: Terrain, region: Box2) -> Seq<Feature> {
    let runs = runs_of(cols, region);
    windows_features(runs, cols, terrain, region, runs.len() - 1)
}

/// The feature is floor of `terrain` standing on row `lo`: top-covered
/// ground whose rows start at `lo`, or a hill.
pub open spec fn floor_of(f: Feature, terrain: Terrain, lo: i32) -> bool {
    ||| f matches Feature::GroundBlock(gc, t, b) && gc == GroundCover::TopCovered && t == terrain
        && b.y.lo_incl == lo
    ||| f matches Feature::HillBlock { terrain: t, .. } && t == terrain
}

proof fn lemma_window_floor(r1: Run, r2: Run, last: bool, c: ColumnNoise, terrain: Terrain, region: Box2)
    ensures
        forall|k: int|
            0 <= k < window_features(r1, r2, last, c, terrain, region).len() ==> floor_of(
                #[trigger] window_features(r1, r2, last, c, terrain, region)[k],
                terrain,
                region.y.lo_incl,
            ),
{
}

proof fn lemma_windows_floor(runs: Seq<Run>, cols: Seq<ColumnNoise>, terrain: Terrain, region: Box2, n: int)
    ensures
        forall|k: int|
            0 <= k < windows_features(runs, cols, terrain, region, n).len() ==> floor_of(
                #[trigger] windows_features(runs, cols, terrain, region, n)[k],
                terrain,
                region.y.lo_incl,
            ),
    decreases n,
{
    if n > 0 {
        lemma_windows_floor(runs, cols, terrain, region, n - 1);
        let r1 = runs[n - 1];
        let r2 = runs[n];
        let last = runs.len() >= 3 && n == runs.len() - 1;
        let c = run_noise(runs, n - 1, cols, region);
        lemma_window_floor(r1, r2, last, c, terrain, region);
        let a = windows_features(runs, cols, terrain, region, n - 1);
        let w = window_features(r1, r2, last, c, terrain, region);
        assert forall|k: int| 0 <= k < (a + w).len() implies floor_of(#[trigger] (a + w)[k], terrain, region.y.lo_incl) by {
            if k >= a.len() {
                assert((a + w)[k] == w[k - a.len()]);
            }
        }
    }
}

/// Everything that the floor brush lays down (before the flat tops and
/// slopes that laying it down adds) is floor of the zone's terrain standing
/// on the region's bottom row: top-covered ground of that terrain from that
/// row up, or a hill of that terrain.
pub proof fn lemma_floor_of_terrain(cols: Seq<ColumnNoise>, terrain: Terrain, region: Box2)
    ensures
        forall|k: int|
            0 <= k < floor_features(cols, terrain, region).len() ==> floor_of(
                #[trigger] floor_features(cols, terrain, region)[k],
                terrain,
                region.y.lo_incl,
            ),
{
    let runs = runs_of(cols, region);
    lemma_windows_floor(runs, cols, terrain, region, runs.len() - 1);
}

/// What laying down `fs` in order adds to a schema: each feature followed by
/// its companion.
pub open spec fn added_all(fs: Seq<Feature>) -> Seq<Feature>
    decreases fs.len(),
{
    if fs.len() == 0 {
        Seq::empty()
    } else {
        added_all(fs.drop_last()) + added(fs.last())
    }
}

/// A feature that `Schema::add` takes.
pub open spec fn addable(f: Feature) -> bool {
    &&& indexable(f)
    &&& companion_defined(f)
    &&& (companion(f) matches Some(c) ==> indexable(c))
}

/// Laying down features adds at most two for each.
proof fn lemma_added_all_len(fs: Seq<Feature>)
    ensures
        added_all(fs).len() <= 2 * fs.len(),
    decreases fs.len(),
{
    if fs.len() > 0 {
        lemma_added_all_len(fs.drop_last());
    }
}

/// Lays down the features `fs`, in order.
pub fn add_all(schema: &mut Schema, fs: &Vec<Feature>)
    requires
        old(schema).wf(),
        forall|k: int| 0 <= k < fs@.len() ==> addable(#[trigger] fs@[k]),
        old(schema)@.len() + 2 * fs@.len() <= usize::MAX,
    ensures
        final(schema).wf(),
        final(schema)@ == old(schema)@ + added_all(fs@),
{
    let mut k: usize = 0;
    proof {
        assert(fs@.take(0) =~= Seq::<Feature>::empty());
        assert(schema@ =~= old(schema)@ + added_all(fs@.take(0)));
    }
    while k < fs.len()
        invariant
            k <= fs@.len(),
            schema.wf(),
            forall|j: int| 0 <= j < fs@.len() ==> addable(#[trigger] fs@[j]),
            schema@ == old(schema)@ + added_all(fs@.take(k as int)),
            schema@.len() <= old(schema)@.len() + 2 * k,
            old(schema)@.len() + 2 * fs@.len() <= usize::MAX,
        decreases fs@.len() - k,
    {
        let f = fs[k];
        assert(addable(fs@[k as int]));
        schema.add(f);
        proof {
            assert(fs@.take(k + 1).drop_last() =~= fs@.take(k as int));
            assert(schema@ =~= old(schema)@ + added_all(fs@.take(k + 1)));
        }
        k = k + 1;
    }
    proof {
        assert(fs@.take(k as int) =~= fs@);
    }
}

/// The runs of equal heights of the columns.
fn column_runs(cols: &Vec<ColumnNoise>, region: Box2) -> (runs: Vec<Run>)
    requires
        region_in_range(region),
        cols@.len() <= region.x.spec_size(),
        columns_valid(cols@, region),
    ensures
        runs@ == runs_of(cols@, region),
{
    let mut runs: Vec<Run> = Vec::new();
    let mut k: usize = 0;
    proof {
        assert(cols@.take(0) =~= Seq::<ColumnNoise>::empty());
    }
    while k < cols.len()
        invariant
            k <= cols@.len(),
            region_in_range(region),
            cols@.len() <= region.x.spec_size(),
            columns_valid(cols@, region),
            runs@ == runs_of(cols@.take(k as int), region),
        decreases cols@.len() - k,
    {
        let ghost before = cols@.take(k as int);
        proof {
            assert forall|i: int| 0 <= i < before.len() implies region.y.has(
                (#[trigger] before[i]).height as int,
            ) && before[i].slope_floor >= 0 by {
                assert(before[i] == cols@[i]);
            }
            lemma_runs_shape(before, region);
            assert(cols@.take(k + 1).drop_last() =~= before);
        }
        let c = cols[k];
        let h = if c.gap {
            region.y.lo_incl
        } else {
            c.height
        };
        let n = runs.len();
        if n > 0 && runs[n - 1].2 == h {
            let last = runs[n - 1];
            runs.set(n - 1, (last.0 + 1, last.1, h));
        } else {
            runs.push((1, region.x.lo_incl + k as i32, h));
        }
        k = k + 1;
    }
    proof {
        assert(cols@.take(k as int) =~= cols@);
    }
    runs
}

/// Top-covered ground over a nonempty rectangle within the brushes' limit
/// can be laid down.
proof fn lemma_ground_addable(terrain: Terrain, x: Box1, lo: i32, hi: i32)
    requires
        -region_limit() <= x.lo_incl < x.hi_excl <= region_limit(),
        -region_limit() <= lo < hi <= region_limit(),
    ensures
        addable(ground_block(terrain, x, lo, hi)),
{
}

/// A hill whose slope spans columns and rows within the brushes' limit can
/// be laid down.
proof fn lemma_hill_addable(terrain: Terrain, start_x: i32, height: Box1, t: Option<u32>, lr: LR, lo: i32)
    requires
        -region_limit() <= start_x,
        start_x + height.spec_size() <= region_limit(),
        -region_limit() <= lo <= height.lo_incl < height.hi_excl <= region_limit(),
        t matches Some(t) ==> t <= height.lo_incl - lo + 2,
    ensures
        addable(Feature::HillBlock { terrain, start_x, height, bridge_thickness: t, lr }),
{
}

/// Pushes top-covered ground of `terrain` over `x`, from `lo` to `hi`.
fn push_ground(w: &mut Vec<Feature>, terrain: Terrain, x: Box1, lo: i32, hi: i32)
    requires
        -region_limit() <= x.lo_incl < x.hi_excl <= region_limit(),
        -region_limit() <= lo < hi <= region_limit(),
    ensures
        final(w)@ == old(w)@.push(ground_block(terrain, x, lo, hi)),
        addable(ground_block(terrain, x, lo, hi)),
{
    proof {
        lemma_ground_addable(terrain, x, lo, hi);
    }
    w.push(
        Feature::GroundBlock(GroundCover::TopCovered, terrain, Box2 { x, y: Box1::new(lo, hi) }),
    );
}

/// The features between the runs `r1` and `r2`, with the samples `c` of
/// `r1`'s first column.
#[verifier::rlimit(30)]
fn window_features_exec(
    r1: Run,
    r2: Run,
    last: bool,
    c: ColumnNoise,
    terrain: Terrain,
    region: Box2,
) -> (w: Vec<Feature>)
    requires
        region_in_range(region),
        1 <= r1.0,
        1 <= r2.0,
        r2.1 == r1.1 + r1.0,
        region.x.lo_incl <= r1.1,
        r2.1 + r2.0 <= region.x.hi_excl,
        region.y.has(r1.2 as int),
        region.y.has(r2.2 as int),
        r1.2 != r2.2,
        c.slope_floor >= 0,
    ensures
        w@ == window_features(r1, r2, last, c, terrain, region),
        w@.len() <= 5,
        forall|k: int| 0 <= k < w@.len() ==> addable(#[trigger] w@[k]),
{
    let (l1, x1, h1) = r1;
    let (l2, x2, h2) = r2;
    let lo = region.y.lo_incl;
    let run_length = if h2 >= h1 {
        h2 - h1
    } else {
        h1 - h2
    };
    let x_run = fit_box1(c.slope_floor, run_length, Box1::new(x1, x2));
    let low = if h1 <= h2 {
        h1
    } else {
        h2
    };
    let mut w: Vec<Feature> = Vec::new();
    if c.hill && h1 > lo && x_run.is_some() {
        let xr = x_run.unwrap();
        let max_thickness = (low - lo) as u32;
        let t = if c.bridge < max_thickness {
            c.bridge
        } else {
            max_thickness
        };
        let bridge_thickness = if t < 2 {
            None
        } else {
            Some(t + 2)
        };
        let (lr, height) = if h1 < h2 {
            (LR::L, Box1::new(h1, h2))
        } else {
            (LR::R, Box1::new(h2, h1))
        };
        proof {
            lemma_hill_addable(terrain, xr.lo_incl, height, bridge_thickness, lr, lo);
        }
        w.push(Feature::HillBlock { terrain, start_x: xr.lo_incl, height, bridge_thickness, lr });
        if x1 < xr.lo_incl {
            push_ground(&mut w, terrain, Box1::new(x1, xr.lo_incl), lo, h1);
        }
        if xr.hi_excl < x2 && h2 > lo {
            push_ground(&mut w, terrain, Box1::new(xr.hi_excl, x2), lo, h2);
        }
        if bridge_thickness.is_none() && h2 > lo {
            push_ground(&mut w, terrain, xr, lo, low);
        }
    } else if h1 > lo {
        push_ground(&mut w, terrain, Box1::new(x1, x1 + l1), lo, h1);
    }
    if last && h2 > lo {
        push_ground(&mut w, terrain, Box1::new(x2, x2 + l2), lo, h2);
    }
    proof {
        assert(w@ =~= window_features(r1, r2, last, c, terrain, region));
    }
    w
}

/// Lays down the floor of `region`: the columns' heights (the bottom of the
/// region for a gap) are grouped into runs of equal height, and between each
/// run and the next the brush lays down either a hill (with the ground beside
/// and below it) or plain ground under the first run; after the last of two
/// or more pairs of runs it also lays down the ground under the last run.
/// `cols[i]` holds the samples of the region's column `i`.
pub fn height_map_floor_brush(schema: &mut Schema, zone: Zone, region: Box2, cols: &Vec<ColumnNoise>)
    requires
        old(schema).wf(),
        region_in_range(region),
        cols@.len() == region.x.spec_size(),
        columns_valid(cols@, region),
        old(schema)@.len() + 10 * cols@.len() <= usize::MAX,
    ensures
        final(schema).wf(),
        final(schema)@ == old(schema)@ + added_all(
            floor_features(cols@, zone_terrains(zone).0, region),
        ),
        final(schema)@.len() <= old(schema)@.len() + 10 * cols@.len(),
{
    let terrain = zone.info().terrain;
    let runs = column_runs(cols, region);
    proof {
        lemma_runs_shape(cols@, region);
    }
    let mut floor: Vec<Feature> = Vec::new();
    let mut w: usize = 0;
    while w + 1 < runs.len()
        invariant
            region_in_range(region),
            cols@.len() == region.x.spec_size(),
            columns_valid(cols@, region),
            runs@ == runs_of(cols@, region),
            runs@.len() <= cols@.len(),
            w == 0 || w < runs@.len(),
            forall|k: int|
                0 <= k < runs@.len() ==> {
                    let r = #[trigger] runs@[k];
                    &&& 1 <= r.0
                    &&& region.x.lo_incl <= r.1
                    &&& r.1 + r.0 <= region.x.lo_incl + cols@.len()
                    &&& region.y.has(r.2 as int)
                },
            forall|i: int, j: int|
                0 <= i && j == i + 1 && j < runs@.len() ==> {
                    &&& (#[trigger] runs@[j]).1 == (#[trigger] runs@[i]).1 + runs@[i].0
                    &&& runs@[j].2 != runs@[i].2
                },
            floor@ == windows_features(runs@, cols@, terrain, region, w as int),
            floor@.len() <= 5 * w,
            forall|k: int| 0 <= k < floor@.len() ==> addable(#[trigger] floor@[k]),
        decreases runs@.len() - w,
    {
        let r1 = runs[w];
        let r2 = runs[w + 1];
        assert(runs@[w + 1 as int].1 == runs@[w as int].1 + runs@[w as int].0);
        let last = runs.len() >= 3 && w + 2 == runs.len();
        let c = cols[(r1.1 - region.x.lo_incl) as usize];
        let mut ws = window_features_exec(r1, r2, last, c, terrain, region);
        let ghost before = floor@;
        let ghost added_w = ws@;
        floor.append(&mut ws);
        proof {
            assert(floor@ =~= windows_features(runs@, cols@, terrain, region, w + 1));
            assert forall|k: int| 0 <= k < floor@.len() implies addable(#[trigger] floor@[k]) by {
                if k < before.len() {
                    assert(floor@[k] == before[k]);
                } else {
                    assert(floor@[k] == added_w[k - before.len()]);
                }
            }
        }
        w = w + 1;
    }
    proof {
        if runs@.len() == 0 {
            assert(floor@ =~= floor_features(cols@, terrain, region));
        }
        lemma_added_all_len(floor@);
    }
    add_all(schema, &floor);
}

/// A liquid that fills the bottom of a zone.
#[derive(Clone, Copy, PartialEq, Eq, Debug, Structural)]
pub enum Liquid {
    Water,
    Lava,
}

/// The indexed rectangle of `f` meets the rectangle `b`, as the schema
/// looks `b` up.
pub open spec fn meets_box(f: Feature, b: Box2) -> bool {
    feature_meets(f, query_corners(b).0, query_corners(b).1)
}

/// The height above the bottom row `lo` that a feature caps a liquid at: the
/// row of flat ground, or the top of a slope, when above `lo`.
pub open spec fn liquid_cap(f: Feature, lo: i32) -> Option<int> {
    match f {
        Feature::FlatGround(p, _) => if p.y > lo {
            Some(p.y as int)
        } else {
            None
        },
        Feature::SlopedGround { start, height } => {
            let m = start.y + if height > 0 {
                height as int
            } else {
                0
            };
            if m > lo {
                Some(m)
            } else {
                None
            }
        },
        _ => None,
    }
}

/// The lowest cap over `b` among the features `fs` that meet `b`, or the top
/// of `b` when none is lower.
pub open spec fn ceiling_of(fs: Seq<Feature>, b: Box2) -> int
    decreases fs.len(),
{
    if fs.len() == 0 {
        b.y.hi_excl as int
    } else {
        let h = ceiling_of(fs.drop_last(), b);
        if meets_box(fs.last(), b) {
            match liquid_cap(fs.last(), b.y.lo_incl) {
                Some(m) => if m < h {
                    m
                } else {
                    h
                },
                None => h,
            }
        } else {
            h
        }
    }
}

/// The ceiling is the least of the top of `b` and the caps of the features
/// that meet `b`.
proof fn lemma_ceiling_char(fs: Seq<Feature>, b: Box2)
    ensures
        ceiling_of(fs, b) <= b.y.hi_excl,
        forall|i: int|
            0 <= i < fs.len() && meets_box(#[trigger] fs[i], b) && liquid_cap(fs[i], b.y.lo_incl) is Some
                ==> ceiling_of(fs, b) <= liquid_cap(fs[i], b.y.lo_incl)->Some_0,
        ceiling_of(fs, b) == b.y.hi_excl || exists|i: int|
            0 <= i < fs.len() && meets_box(#[trigger] fs[i], b) && liquid_cap(fs[i], b.y.lo_incl)
                == Some(ceiling_of(fs, b)),
    decreases fs.len(),
{
    if fs.len() > 0 {
        let s0 = fs.drop_last();
        lemma_ceiling_char(s0, b);
        assert forall|i: int|
            0 <= i < fs.len() && meets_box(#[trigger] fs[i], b) && liquid_cap(fs[i], b.y.lo_incl) is Some
                implies ceiling_of(fs, b) <= liquid_cap(fs[i], b.y.lo_incl)->Some_0 by {
            if i < s0.len() {
                assert(s0[i] == fs[i]);
            }
        }
        if ceiling_of(fs, b) != b.y.hi_excl {
            if ceiling_of(fs, b) == ceiling_of(s0, b) {
                let i = choose|i: int|
                    0 <= i < s0.len() && meets_box(#[trigger] s0[i], b) && liquid_cap(
                        s0[i],
                        b.y.lo_incl,
                    ) == Some(ceiling_of(s0, b));
                assert(fs[i] == s0[i]);
            } else {
                assert(fs[fs.len() - 1] == fs.last());
            }
        }
    }
}

/// Two sequences whose features that meet `b` are the same have the same
/// ceiling over `b`.
proof fn lemma_ceiling_same(r: Seq<Feature>, fs: Seq<Feature>, b: Box2)
    requires
        forall|k: int| 0 <= k < r.len() ==> fs.contains(#[trigger] r[k]),
        forall|i: int| 0 <= i < fs.len() && meets_box(#[trigger] fs[i], b) ==> r.contains(fs[i]),
    ensures
        ceiling_of(r, b) == ceiling_of(fs, b),
{
    lemma_ceiling_char(r, b);
    lemma_ceiling_char(fs, b);
    if ceiling_of(r, b) != b.y.hi_excl {
        let k = choose|k: int|
            0 <= k < r.len() && meets_box(#[trigger] r[k], b) && liquid_cap(r[k], b.y.lo_incl) == Some(
                ceiling_of(r, b),
            );
        assert(fs.contains(r[k]));
        let i = choose|i: int| 0 <= i < fs.len() && fs[i] == r[k];
        assert(meets_box(fs[i], b));
    }
    if ceiling_of(fs, b) != b.y.hi_excl {
        let i = choose|i: int|
            0 <= i < fs.len() && meets_box(#[trigger] fs[i], b) && liquid_cap(fs[i], b.y.lo_incl)
                == Some(ceiling_of(fs, b));
        assert(r.contains(fs[i]));
        let k = choose|k: int| 0 <= k < r.len() && r[k] == fs[i];
        assert(meets_box(r[k], b));
    }
}

/// The row that a liquid poured into `box2` can rise to: the lowest flat
/// ground or slope top above the bottom of `box2` among the features that
/// meet it, or the top of `box2`.
pub fn liquid_ceiling(schema: &Schema, box2: Box2) -> (h: i32)
    requires
        schema.wf(),
        region_in_range(box2),
    ensures
        h == ceiling_of(schema@, box2),
{
    let fs = schema.intersecting(box2);
    let lo = box2.y.lo_incl;
    proof {
        schema.lemma_wf_indexable();
        lemma_listed_items(
            fs@,
            schema@,
            |f: Feature| feature_meets(f, query_corners(box2).0, query_corners(box2).1),
        );
        lemma_listed_complete(
            fs@,
            schema@,
            |f: Feature| feature_meets(f, query_corners(box2).0, query_corners(box2).1),
        );
        assert forall|k: int| 0 <= k < fs@.len() implies indexable(#[trigger] fs@[k]) by {
            let i = choose|i: int| 0 <= i < schema@.len() && schema@[i] == fs@[k];
            assert(indexable(schema@[i]));
        }
    }
    let mut h = box2.y.hi_excl;
    let mut k: usize = 0;
    proof {
        assert(fs@.take(0) =~= Seq::<Feature>::empty());
    }
    while k < fs.len()
        invariant
            k <= fs@.len(),
            lo == box2.y.lo_incl,
            forall|j: int| 0 <= j < fs@.len() ==> indexable(#[trigger] fs@[j]) && meets_box(fs@[j], box2),
            h == ceiling_of(fs@.take(k as int), box2),
        decreases fs@.len() - k,
    {
        proof {
            assert(fs@.take(k + 1).drop_last() =~= fs@.take(k as int));
            assert(indexable(fs@[k as int]) && meets_box(fs@[k as int], box2));
        }
        match fs[k] {
            Feature::FlatGround(p, _) => {
                if p.y > lo && p.y < h {
                    h = p.y;
                }
            },
            Feature::SlopedGround { start, height } => {
                let m = start.y + if height > 0 {
                    height
                } else {
                    0
                };
                if m > lo && m < h {
                    h = m;
                }
            },
            _ => {},
        }
        k = k + 1;
    }
    proof {
        assert(fs@.take(k as int) =~= fs@);
        lemma_ceiling_same(fs@, schema@, box2);
    }
    h
}

/// The surface of `liquid` over the rectangle `b`.
pub open spec fn liquid_feature(liquid: Liquid, b: Box2) -> Feature {
    match liquid {
        Liquid::Water => Feature::SurfaceWater(b),
        Liquid::Lava => Feature::SurfaceLava(b),
    }
}

/// Fills `box2` with `liquid` from its bottom row up to the row `offset`
/// above it (the noise's pick among the rows from just above the bottom to
/// just above the liquid's ceiling).
pub fn liquid_brush(schema: &mut Schema, box2: Box2, liquid: Liquid, offset: i32)
    requires
        old(schema).wf(),
        region_in_range(box2),
        0 <= offset < ceiling_of(old(schema)@, box2) - box2.y.lo_incl + 1,
        old(schema)@.len() + 2 <= usize::MAX,
    ensures
        final(schema).wf(),
        final(schema)@ == old(schema)@.push(
            liquid_feature(
                liquid,
                Box2 {
                    x: box2.x,
                    y: Box1 { lo_incl: box2.y.lo_incl, hi_excl: (box2.y.lo_incl + 1 + offset) as i32 },
                },
            ),
        ),
{
    let h = liquid_ceiling(schema, box2);
    proof {
        lemma_ceiling_char(schema@, box2);
    }
    let top = box1_offset(offset, Box1::new(box2.y.lo_incl + 1, h + 2));
    let b = Box2::from_box1s(box2.x, Box1::new(box2.y.lo_incl, top));
    match liquid {
        Liquid::Water => schema.add(Feature::SurfaceWater(b)),
        Liquid::Lava => schema.add(Feature::SurfaceLava(b)),
    }
    proof {
        assert(schema@ =~= old(schema)@.push(liquid_feature(liquid, b)));
    }
}

/// The columns that a feature's walkable top covers, which a big mushroom
/// does not grow on: those of flat ground, and those a slope spans.
pub open spec fn covered_columns(f: Feature) -> Option<(int, int)> {
    match f {
        Feature::FlatGround(p, width) => Some((p.x as int, p.x + width)),
        Feature::SlopedGround { start, height } => Some(
            (start.x as int, start.x + if height < 0 {
                -height
            } else {
                height as int
            }),
        ),
        _ => None,
    }
}

/// The columns of `b` that no feature of `fs` meeting `b` covers.
pub open spec fn open_columns(fs: Seq<Feature>, b: Box2) -> Set<int>
    decreases fs.len(),
{
    if fs.len() == 0 {
        half_open(b.x.lo_incl as int, b.x.hi_excl as int)
    } else {
        let s = open_columns(fs.drop_last(), b);
        if meets_box(fs.last(), b) {
            match covered_columns(fs.last()) {
                Some((lo, hi)) => s.difference(half_open(lo, hi)),
                None => s,
            }
        } else {
            s
        }
    }
}

/// A column is open when it lies in `b` and no feature meeting `b` covers it.
pub(crate) proof fn lemma_open_columns_char(fs: Seq<Feature>, b: Box2, x: int)
    ensures
        open_columns(fs, b).contains(x) <==> (b.x.has(x) && forall|i: int|
            0 <= i < fs.len() && meets_box(#[trigger] fs[i], b) && covered_columns(fs[i]) is Some
                ==> !(covered_columns(fs[i])->Some_0.0 <= x < covered_columns(fs[i])->Some_0.1)),
    decreases fs.len(),
{
    if fs.len() > 0 {
        let s0 = fs.drop_last();
        lemma_open_columns_char(s0, b, x);
        assert forall|i: int| 0 <= i < s0.len() implies #[trigger] s0[i] == fs[i] by {}
        if open_columns(fs, b).contains(x) {
            assert forall|i: int|
                0 <= i < fs.len() && meets_box(#[trigger] fs[i], b) && covered_columns(fs[i]) is Some
                    implies !(covered_columns(fs[i])->Some_0.0 <= x < covered_columns(
                fs[i],
            )->Some_0.1) by {
                if i < s0.len() {
                    assert(s0[i] == fs[i]);
                }
            }
        } else if b.x.has(x) {
            if open_columns(s0, b).contains(x) {
                assert(fs[fs.len() - 1] == fs.last());
            }
        }
    }
}

/// Two sequences whose features that meet `b` are the same leave the same
/// columns of `b` open.
proof fn lemma_open_columns_same(r: Seq<Feature>, fs: Seq<Feature>, b: Box2)
    requires
        forall|k: int| 0 <= k < r.len() ==> fs.contains(#[trigger] r[k]),
        forall|i: int| 0 <= i < fs.len() && meets_box(#[trigger] fs[i], b) ==> r.contains(fs[i]),
    ensures
        open_columns(r, b) == open_columns(fs, b),
{
    assert forall|x: int| #[trigger] open_columns(r, b).contains(x) == open_columns(fs, b).contains(x) by {
        lemma_open_columns_char(r, b, x);
        lemma_open_columns_char(fs, b, x);
        if open_columns(r, b).contains(x) && !open_columns(fs, b).contains(x) {
            let i = choose|i: int|
                0 <= i < fs.len() && meets_box(#[trigger] fs[i], b) && covered_columns(fs[i]) is Some
                    && (covered_columns(fs[i])->Some_0.0 <= x < covered_columns(fs[i])->Some_0.1);
            assert(r.contains(fs[i]));
            let k = choose|k: int| 0 <= k < r.len() && r[k] == fs[i];
            assert(meets_box(r[k], b));
        }
        if !open_columns(r, b).contains(x) && open_columns(fs, b).contains(x) {
            let k = choose|k: int|
                0 <= k < r.len() && meets_box(#[trigger] r[k], b) && covered_columns(r[k]) is Some
                    && (covered_columns(r[k])->Some_0.0 <= x < covered_columns(r[k])->Some_0.1);
            assert(fs.contains(r[k]));
            let i = choose|i: int| 0 <= i < fs.len() && fs[i] == r[k];
            assert(meets_box(fs[i], b));
        }
    }
    assert(open_columns(r, b) =~= open_columns(fs, b));
}

/// The ranges of columns of `box2` on which a big mushroom may grow: those
/// that no flat ground or slope meeting `box2` covers, in increasing order.
pub fn mushroom_open_ranges(schema: &Schema, box2: Box2) -> (es: Vec<(Edge, Edge)>)
    requires
        schema.wf(),
        region_in_range(box2),
    ensures
        edges_separated(es@),
        edges_points(es@) == open_columns(schema@, box2),
{
    let mut open = open_ranges_new();
    open_ranges_insert(&mut open, box2.x.lo_incl, box2.x.hi_excl);
    let fs = schema.intersecting(box2);
    proof {
        schema.lemma_wf_indexable();
        lemma_listed_items(
            fs@,
            schema@,
            |f: Feature| feature_meets(f, query_corners(box2).0, query_corners(box2).1),
        );
        lemma_listed_complete(
            fs@,
            schema@,
            |f: Feature| feature_meets(f, query_corners(box2).0, query_corners(box2).1),
        );
        assert forall|k: int| 0 <= k < fs@.len() implies indexable(#[trigger] fs@[k]) by {
            let i = choose|i: int| 0 <= i < schema@.len() && schema@[i] == fs@[k];
            assert(indexable(schema@[i]));
        }
        assert(fs@.take(0) =~= Seq::<Feature>::empty());
        assert(open_points(open) =~= Set::<int>::empty().union(
            half_open(box2.x.lo_incl as int, box2.x.hi_excl as int),
        ));
        assert(open_points(open) =~= open_columns(fs@.take(0), box2));
    }
    let mut k: usize = 0;
    while k < fs.len()
        invariant
            k <= fs@.len(),
            forall|j: int| 0 <= j < fs@.len() ==> indexable(#[trigger] fs@[j]) && meets_box(fs@[j], box2),
            open_points(open) == open_columns(fs@.take(k as int), box2),
        decreases fs@.len() - k,
    {
        proof {
            assert(fs@.take(k + 1).drop_last() =~= fs@.take(k as int));
            assert(indexable(fs@[k as int]) && meets_box(fs@[k as int], box2));
        }
        match fs[k] {
            Feature::FlatGround(p, width) => {
                open_ranges_remove(&mut open, p.x, p.x + width as i32);
            },
            Feature::SlopedGround { start, height } => {
                let h = if height < 0 {
                    -height
                } else {
                    height
                };
                open_ranges_remove(&mut open, start.x, start.x + h);
            },
            _ => {},
        }
        k = k + 1;
    }
    proof {
        assert(fs@.take(k as int) =~= fs@);
        lemma_open_columns_same(fs@, schema@, box2);
    }
    open_ranges_edges(&open)
}

/// The range of columns `[edge_lo(e.0), edge_hi(e.1))` of a pair of edges.
pub open spec fn box_of_edges(e: (Edge, Edge)) -> Box1 {
    Box1 { lo_incl: edge_lo(e.0) as i32, hi_excl: edge_hi(e.1) as i32 }
}

/// The ranges of columns of a sequence of edge pairs.
pub open spec fn boxes_of(es: Seq<(Edge, Edge)>) -> Seq<Box1> {
    es.map_values(|e: (Edge, Edge)| box_of_edges(e))
}

/// Inserts `x` into `r` before the first range that is smaller than `x`.
pub open spec fn insert_by_size(r: Seq<Box1>, x: Box1) -> Seq<Box1>
    decreases r.len(),
{
    if r.len() == 0 {
        seq![x]
    } else if r[0].spec_size() < x.spec_size() {
        seq![x] + r
    } else {
        seq![r[0]] + insert_by_size(r.drop_first(), x)
    }
}

/// The ranges `xs` sorted from largest to smallest, ranges of equal size in
/// their order in `xs` (a stable sort by decreasing size).
pub open spec fn by_size_desc(xs: Seq<Box1>) -> Seq<Box1>
    decreases xs.len(),
{
    if xs.len() == 0 {
        Seq::empty()
    } else {
        insert_by_size(by_size_desc(xs.drop_last()), xs.last())
    }
}

/// The total number of columns of the ranges.
pub open spec fn total_size(xs: Seq<Box1>) -> int
    decreases xs.len(),
{
    if xs.len() == 0 {
        0
    } else {
        total_size(xs.drop_last()) + xs.last().spec_size()
    }
}

/// The noise samples for growing a big mushroom on a range, taken by the
/// caller at the range's first column.
#[derive(Clone, Copy, PartialEq, Eq, Debug, Structural)]
pub struct MushroomNoise {
    /// The pick of the cap's half-width, less one, below half the range.
    pub size_offset: i32,
    /// The rounded-down sample that places the cap within the range.
    pub cap_floor: i32,
    /// The pick of the cap's row above the bottom of the zone.
    pub height_offset: i32,
}

/// The samples for the range `b` of the zone `box2` are usable picks.
pub open spec fn mushroom_noise_fits(n: MushroomNoise, b: Box1, box2: Box2) -> bool {
    &&& 0 <= n.size_offset < b.spec_size() / 2 - 1
    &&& n.cap_floor >= 0
    &&& 0 <= n.height_offset < box2.y.spec_size()
}

/// The columns of the cap of a big mushroom grown on `b`.
pub open spec fn mushroom_cap(b: Box1, n: MushroomNoise) -> Option<Box1> {
    spec_fit_box1(n.cap_floor as int, 2 * (1 + n.size_offset) + 1, b)
}

/// The ranges left beside the cap, on which more mushrooms may grow: first
/// the one to its left, then the one to its right.
pub open spec fn mushroom_rest(b: Box1, n: MushroomNoise) -> Seq<Box1> {
    match mushroom_cap(b, n) {
        Some(cap) => (if cap.lo_incl > b.lo_incl {
            seq![
                Box1 {
                    lo_incl: b.lo_incl,
                    hi_excl: if b.hi_excl < cap.lo_incl {
                        b.hi_excl
                    } else {
                        cap.lo_incl
                    },
                },
            ]
        } else {
            Seq::empty()
        }) + (if cap.hi_excl < b.hi_excl {
            seq![
                Box1 {
                    lo_incl: if b.lo_incl > cap.hi_excl {
                        b.lo_incl
                    } else {
                        cap.hi_excl
                    },
                    hi_excl: b.hi_excl,
                },
            ]
        } else {
            Seq::empty()
        }),
        None => Seq::empty(),
    }
}

/// The top and the stem of the big mushroom grown on `b` in the zone `box2`.
pub open spec fn mushroom_features(b: Box1, n: MushroomNoise, box2: Box2) -> Seq<Feature> {
    match mushroom_cap(b, n) {
        Some(cap) => {
            let size = 1 + n.size_offset;
            let height = box2.y.lo_incl + n.height_offset;
            seq![
                Feature::BigMushroomTop(
                    Place { x: (cap.lo_incl + size) as i32, y: height as i32 },
                    size as u32,
                ),
                Feature::BigMushroomStem(
                    Place { x: (cap.lo_incl + size) as i32, y: box2.y.lo_incl },
                    (height - box2.y.lo_incl) as u32,
                ),
            ]
        },
        None => Seq::empty(),
    }
}

/// Growing mushrooms from the stack of ranges `stack` with the samples `ns`,
/// one per mushroom: each grows on the range on top of the stack, which is
/// replaced by the ranges left beside its cap. The result is the stack
/// after, the ranges grown on, and the features laid down, in order.
pub open spec fn grow(stack: Seq<Box1>, ns: Seq<MushroomNoise>, box2: Box2) -> (
    Seq<Box1>,
    Seq<Box1>,
    Seq<Feature>,
)
    decreases ns.len(),
{
    if ns.len() == 0 {
        (stack, Seq::empty(), Seq::empty())
    } else {
        let (st, grown, fs) = grow(stack, ns.drop_last(), box2);
        let b = st.last();
        let n = ns.last();
        (st.drop_last() + mushroom_rest(b, n), grown.push(b), fs + mushroom_features(b, n, box2))
    }
}

/// No mushroom grows any more: the stack is empty, or its top range has
/// fewer than eleven columns.
pub open spec fn grown_out(stack: Seq<Box1>) -> bool {
    stack.len() == 0 || stack.last().spec_size() < 11
}

/// The range `b` lies within `bound`, in order.
pub open spec fn within(b: Box1, bound: Box1) -> bool {
    bound.lo_incl <= b.lo_incl <= b.hi_excl <= bound.hi_excl
}

proof fn lemma_total_single(a: Box1)
    ensures
        total_size(seq![a]) == a.spec_size(),
{
    assert(seq![a].drop_last() =~= Seq::<Box1>::empty());
    assert(total_size(Seq::<Box1>::empty()) == 0);
}

proof fn lemma_total_concat(a: Seq<Box1>, b: Seq<Box1>)
    ensures
        total_size(a + b) == total_size(a) + total_size(b),
    decreases b.len(),
{
    if b.len() == 0 {
        assert(a + b =~= a);
    } else {
        lemma_total_concat(a, b.drop_last());
        assert((a + b).drop_last() =~= a + b.drop_last());
    }
}

proof fn lemma_total_nonneg(xs: Seq<Box1>)
    requires
        forall|i: int| 0 <= i < xs.len() ==> (#[trigger] xs[i]).wf(),
    ensures
        total_size(xs) >= 0,
    decreases xs.len(),
{
    if xs.len() > 0 {
        assert forall|i: int| 0 <= i < xs.drop_last().len() implies (#[trigger] xs.drop_last()[i]).wf() by {
            assert(xs.drop_last()[i] == xs[i]);
        }
        lemma_total_nonneg(xs.drop_last());
        assert(xs[xs.len() - 1].wf());
    }
}

/// Inserting keeps the ranges within `bound` and adds `x`'s columns.
proof fn lemma_insert_by_size(r: Seq<Box1>, x: Box1, bound: Box1)
    requires
        forall|i: int| 0 <= i < r.len() ==> within(#[trigger] r[i], bound),
        within(x, bound),
    ensures
        insert_by_size(r, x).len() == r.len() + 1,
        forall|i: int| 0 <= i < insert_by_size(r, x).len() ==> within(#[trigger] insert_by_size(r, x)[i], bound),
        total_size(insert_by_size(r, x)) == total_size(r) + x.spec_size(),
    decreases r.len(),
{
    lemma_total_single(x);
    if r.len() == 0 {
        assert(total_size(r) == 0);
    } else {
        let rest = r.drop_first();
        assert(r =~= seq![r[0]] + rest);
        lemma_total_concat(seq![r[0]], rest);
        lemma_total_single(r[0]);
        if r[0].spec_size() < x.spec_size() {
            lemma_total_concat(seq![x], r);
        } else {
            assert forall|i: int| 0 <= i < rest.len() implies within(#[trigger] rest[i], bound) by {
                assert(rest[i] == r[i + 1]);
            }
            lemma_insert_by_size(rest, x, bound);
            lemma_total_concat(seq![r[0]], insert_by_size(rest, x));
            let ins = insert_by_size(r, x);
            assert forall|i: int| 0 <= i < ins.len() implies within(#[trigger] ins[i], bound) by {
                if i > 0 {
                    assert(ins[i] == insert_by_size(rest, x)[i - 1]);
                }
            }
        }
    }
}

/// Sorting keeps the ranges within `bound` and their total size.
proof fn lemma_by_size_desc(xs: Seq<Box1>, bound: Box1)
    requires
        forall|i: int| 0 <= i < xs.len() ==> within(#[trigger] xs[i], bound),
    ensures
        by_size_desc(xs).len() == xs.len(),
        forall|i: int| 0 <= i < by_size_desc(xs).len() ==> within(#[trigger] by_size_desc(xs)[i], bound),
        total_size(by_size_desc(xs)) == total_size(xs),
    decreases xs.len(),
{
    if xs.len() > 0 {
        let x0 = xs.drop_last();
        assert forall|i: int| 0 <= i < x0.len() implies within(#[trigger] x0[i], bound) by {
            assert(x0[i] == xs[i]);
        }
        lemma_by_size_desc(x0, bound);
        assert(within(xs[xs.len() - 1], bound));
        lemma_insert_by_size(by_size_desc(x0), xs.last(), bound);
    }
}

/// Inserting `x` before the first smaller range is inserting it at `p` when
/// the ranges before `p` are not smaller and the one at `p` is.
proof fn lemma_insert_at(r: Seq<Box1>, x: Box1, p: int)
    requires
        0 <= p <= r.len(),
        forall|i: int| 0 <= i < p ==> (#[trigger] r[i]).spec_size() >= x.spec_size(),
        p < r.len() ==> r[p].spec_size() < x.spec_size(),
    ensures
        insert_by_size(r, x) == r.insert(p, x),
    decreases p,
{
    if p == 0 {
        if r.len() == 0 {
            assert(r.insert(p, x) =~= seq![x]);
        } else {
            assert(r.insert(p, x) =~= seq![x] + r);
        }
    } else {
        let rest = r.drop_first();
        assert forall|i: int| 0 <= i < p - 1 implies (#[trigger] rest[i]).spec_size() >= x.spec_size() by {
            assert(rest[i] == r[i + 1]);
        }
        assert(r[0].spec_size() >= x.spec_size());
        lemma_insert_at(rest, x, p - 1);
        assert(r.insert(p, x) =~= seq![r[0]] + rest.insert(p - 1, x));
    }
}

/// The ranges sorted from largest to smallest, stably.
fn sort_by_size_desc(xs: &Vec<Box1>, bound: Box1) -> (r: Vec<Box1>)
    requires
        region_limit() >= bound.hi_excl,
        bound.lo_incl >= -region_limit(),
        forall|i: int| 0 <= i < xs@.len() ==> within(#[trigger] xs@[i], bound),
    ensures
        r@ == by_size_desc(xs@),
{
    let mut r: Vec<Box1> = Vec::new();
    let mut k: usize = 0;
    proof {
        assert(xs@.take(0) =~= Seq::<Box1>::empty());
    }
    while k < xs.len()
        invariant
            k <= xs@.len(),
            region_limit() >= bound.hi_excl,
            bound.lo_incl >= -region_limit(),
            forall|i: int| 0 <= i < xs@.len() ==> within(#[trigger] xs@[i], bound),
            r@ == by_size_desc(xs@.take(k as int)),
            forall|i: int| 0 <= i < r@.len() ==> within(#[trigger] r@[i], bound),
        decreases xs@.len() - k,
    {
        let x = xs[k];
        assert(within(xs@[k as int], bound));
        let mut p: usize = 0;
        while p < r.len() && r[p].size() >= x.size()
            invariant
                p <= r@.len(),
                region_limit() >= bound.hi_excl,
                bound.lo_incl >= -region_limit(),
                within(x, bound),
                forall|i: int| 0 <= i < r@.len() ==> within(#[trigger] r@[i], bound),
                forall|i: int| 0 <= i < p ==> (#[trigger] r@[i]).spec_size() >= x.spec_size(),
            decreases r@.len() - p,
        {
            p = p + 1;
        }
        proof {
            lemma_insert_at(r@, x, p as int);
            assert(xs@.take(k + 1).drop_last() =~= xs@.take(k as int));
            lemma_insert_by_size(r@, x, bound);
        }
        r.insert(p, x);
        k = k + 1;
    }
    proof {
        assert(xs@.take(k as int) =~= xs@);
    }
    r
}

/// Every range of a sequence of edge pairs holds only points of the sequence.
pub(crate) proof fn lemma_edges_sub(es: Seq<(Edge, Edge)>, k: int, x: int)
    requires
        0 <= k < es.len(),
        edge_lo(es[k].0) <= x < edge_hi(es[k].1),
    ensures
        edges_points(es).contains(x),
    decreases es.len(),
{
    if k < es.len() - 1 {
        assert(es.drop_last()[k] == es[k]);
        lemma_edges_sub(es.drop_last(), k, x);
    }
}

/// Separated ranges hold together no more columns than they span.
proof fn lemma_edges_total(es: Seq<(Edge, Edge)>)
    requires
        es.len() > 0,
        edges_separated(es),
        forall|k: int| 0 <= k < es.len() ==> -region_limit() <= edge_lo((#[trigger] es[k]).0)
            && edge_hi(es[k].1) <= region_limit(),
    ensures
        total_size(boxes_of(es)) <= edge_hi(es.last().1) - edge_lo(es[0].0),
    decreases es.len(),
{
    let bs = boxes_of(es);
    assert(bs.last() == box_of_edges(es.last()));
    assert(-region_limit() <= edge_lo(es[es.len() - 1].0) && edge_hi(es[es.len() - 1].1) <= region_limit());
    if es.len() == 1 {
        assert(bs.drop_last() =~= Seq::<Box1>::empty());
        assert(total_size(bs.drop_last()) == 0);
    } else {
        let e0 = es.drop_last();
        assert forall|k: int| 0 <= k < e0.len() implies edge_lo((#[trigger] e0[k]).0) < edge_hi(e0[k].1) by {
            assert(e0[k] == es[k]);
        }
        assert forall|i: int, j: int|
            0 <= i && j == i + 1 && j < e0.len() implies edge_hi((#[trigger] e0[i]).1) < edge_lo(
            (#[trigger] e0[j]).0,
        ) by {
            assert(e0[i] == es[i] && e0[j] == es[j]);
        }
        assert forall|k: int| 0 <= k < e0.len() implies -region_limit() <= edge_lo((#[trigger] e0[k]).0)
            && edge_hi(e0[k].1) <= region_limit() by {
            assert(e0[k] == es[k]);
        }
        lemma_edges_total(e0);
        assert(boxes_of(e0) =~= bs.drop_last());
        assert(e0.last() == es[es.len() - 2]);
        assert(edge_hi(es[es.len() - 2].1) < edge_lo(es[es.len() - 1].0));
        assert(e0[0] == es[0]);
    }
}

/// The ranges of columns of the edge pairs.
fn edges_to_boxes(es: &Vec<(Edge, Edge)>, bound: Box1) -> (r: Vec<Box1>)
    requires
        forall|k: int| 0 <= k < es@.len() ==> edge_lo((#[trigger] es@[k]).0) < edge_hi(es@[k].1),
        forall|k: int| 0 <= k < es@.len() ==> bound.lo_incl <= edge_lo((#[trigger] es@[k]).0)
            && edge_hi(es@[k].1) <= bound.hi_excl,
    ensures
        r@ == boxes_of(es@),
{
    let mut r: Vec<Box1> = Vec::new();
    let mut k: usize = 0;
    while k < es.len()
        invariant
            k <= es@.len(),
            forall|j: int| 0 <= j < es@.len() ==> edge_lo((#[trigger] es@[j]).0) < edge_hi(es@[j].1),
            forall|j: int| 0 <= j < es@.len() ==> bound.lo_incl <= edge_lo((#[trigger] es@[j]).0)
                && edge_hi(es@[j].1) <= bound.hi_excl,
            r@.len() == k,
            forall|j: int| 0 <= j < k ==> #[trigger] r@[j] == box_of_edges(es@[j]),
        decreases es@.len() - k,
    {
        let (s, e) = es[k];
        assert(bound.lo_incl <= edge_lo(es@[k as int].0) && edge_hi(es@[k as int].1) <= bound.hi_excl);
        let lo: i32 = match s {
            Edge::Included(x) => x,
            Edge::Excluded(x) => x + 1,
            Edge::Unbounded => i32::MIN,
        };
        let hi: i32 = match e {
            Edge::Included(x) => x + 1,
            Edge::Excluded(x) => x,
            Edge::Unbounded => i32::MAX,
        };
        r.push(Box1::new(lo, hi));
        k = k + 1;
    }
    proof {
        assert(r@ =~= boxes_of(es@));
    }
    r
}

/// Growing with one more sample grows one more mushroom on the top of the
/// stack that the earlier samples left.
proof fn lemma_grow_push(stack: Seq<Box1>, ns: Seq<MushroomNoise>, n: MushroomNoise, box2: Box2)
    ensures
        grow(stack, ns.push(n), box2) == ({
            let (st, grown, fs) = grow(stack, ns, box2);
            (
                st.drop_last() + mushroom_rest(st.last(), n),
                grown.push(st.last()),
                fs + mushroom_features(st.last(), n, box2),
            )
        }),
{
    assert(ns.push(n).drop_last() =~= ns);
}

/// What laying down the top and the stem of the mushroom grown on `b` adds
/// to a schema.
pub open spec fn mushroom_added(b: Box1, n: MushroomNoise, box2: Box2) -> Seq<Feature> {
    let fs = mushroom_features(b, n, box2);
    if fs.len() == 2 {
        added(fs[0]) + added(fs[1])
    } else {
        Seq::empty()
    }
}

proof fn lemma_added_all_mushroom(fs: Seq<Feature>, b: Box1, n: MushroomNoise, box2: Box2)
    ensures
        added_all(fs + mushroom_features(b, n, box2)) == added_all(fs) + mushroom_added(b, n, box2),
{
    let m = mushroom_features(b, n, box2);
    if m.len() == 2 {
        let s2 = fs + m;
        assert(s2.drop_last() =~= fs.push(m[0]));
        assert(s2.last() == m[1]);
        assert(fs.push(m[0]).drop_last() =~= fs);
        assert(fs.push(m[0]).last() == m[0]);
        assert(added_all(fs.push(m[0])) == added_all(fs) + added(m[0]));
        assert(added_all(s2) == added_all(fs.push(m[0])) + added(m[1]));
        assert(added_all(s2) =~= added_all(fs) + mushroom_added(b, n, box2));
    } else {
        assert(fs + m =~= fs);
        assert(added_all(fs) + mushroom_added(b, n, box2) =~= added_all(fs));
    }
}

/// Grows one big mushroom on the range `b`: pushes the ranges left beside
/// its cap and lays down its top and stem.
fn grow_mushroom(schema: &mut Schema, stack: &mut Vec<Box1>, b: Box1, n: MushroomNoise, box2: Box2)
    requires
        old(schema).wf(),
        region_in_range(box2),
        within(b, box2.x),
        b.spec_size() >= 11,
        mushroom_noise_fits(n, b, box2),
        old(schema)@.len() + 4 <= usize::MAX,
    ensures
        final(schema).wf(),
        final(schema)@ == old(schema)@ + mushroom_added(b, n, box2),
        final(stack)@ == old(stack)@ + mushroom_rest(b, n),
        forall|i: int| 0 <= i < mushroom_rest(b, n).len() ==> within(#[trigger] mushroom_rest(b, n)[i], box2.x),
        total_size(mushroom_rest(b, n)) + 3 <= b.spec_size(),
        final(schema)@.len() <= old(schema)@.len() + 3,
{
    let size = box1_offset(n.size_offset, Box1::new(1, b.size() / 2));
    let cap = fit_box1(n.cap_floor, 2 * size + 1, b);
    match cap {
        Some(cap) => {
            if cap.lo_incl > b.lo_incl {
                let hi = if b.hi_excl < cap.lo_incl {
                    b.hi_excl
                } else {
                    cap.lo_incl
                };
                stack.push(Box1::new(b.lo_incl, hi));
            }
            if cap.hi_excl < b.hi_excl {
                let lo = if b.lo_incl > cap.hi_excl {
                    b.lo_incl
                } else {
                    cap.hi_excl
                };
                stack.push(Box1::new(lo, b.hi_excl));
            }
            let height = box1_offset(n.height_offset, box2.y);
            let top = Feature::BigMushroomTop(Place::new(cap.lo_incl + size, height), size as u32);
            let stem = Feature::BigMushroomStem(
                Place::new(cap.lo_incl + size, box2.y.lo_incl),
                (height - box2.y.lo_incl) as u32,
            );
            schema.add(top);
            schema.add(stem);
            proof {
                assert(mushroom_features(b, n, box2) =~= seq![top, stem]);
                assert(schema@ =~= old(schema)@ + mushroom_added(b, n, box2));
            }
        },
        None => {},
    }
    proof {
        let rest = mushroom_rest(b, n);
        assert(stack@ =~= old(stack)@ + rest);
        if rest.len() == 2 {
            assert(rest =~= seq![rest[0]] + seq![rest[1]]);
            lemma_total_concat(seq![rest[0]], seq![rest[1]]);
            lemma_total_single(rest[0]);
            lemma_total_single(rest[1]);
        } else if rest.len() == 1 {
            lemma_total_single(rest[0]);
        } else {
            assert(total_size(rest) == 0);
        }
    }
}

/// `after` is `before` with big mushrooms grown on the open columns of
/// `box2`: the open ranges `es` (sorted from largest to smallest) are the
/// stack, and the samples `ns` taken from `sample` grow one mushroom each
/// until the stack is grown out.
pub open spec fn mushrooms_grown<F: Fn(Box1) -> MushroomNoise>(
    before: Seq<Feature>,
    after: Seq<Feature>,
    box2: Box2,
    sample: &F,
) -> bool {
    exists|es: Seq<(Edge, Edge)>, ns: Seq<MushroomNoise>|
        #![trigger grow(by_size_desc(boxes_of(es)), ns, box2)]
        {
            &&& edges_separated(es)
            &&& edges_points(es) == open_columns(before, box2)
            &&& forall|k: int|
                0 <= k < ns.len() ==> {
                    let st = (#[trigger] grow(by_size_desc(boxes_of(es)), ns.take(k), box2)).0;
                    &&& !grown_out(st)
                    &&& sample.ensures((st.last(),), ns[k])
                }
            &&& grown_out(grow(by_size_desc(boxes_of(es)), ns, box2).0)
            &&& after == before + added_all(grow(by_size_desc(boxes_of(es)), ns, box2).2)
        }
}

/// Grows big mushrooms on the open columns of `box2` (those that no flat
/// ground or slope meeting it covers). The open ranges are sorted from
/// largest to smallest; then, while the range on top of the stack (the
/// smallest) has eleven columns or more, a mushroom grows on it with the
/// samples that `sample` gives for it, and the ranges left beside its cap go
/// back on the stack.
pub fn big_mushroom_brush<F: Fn(Box1) -> MushroomNoise>(schema: &mut Schema, box2: Box2, sample: &F)
    requires
        old(schema).wf(),
        region_in_range(box2),
        box2.y.spec_size() > 0,
        forall|b: Box1| sample.requires((b,)),
        forall|b: Box1, n: MushroomNoise|
            b.spec_size() >= 11 && #[trigger] sample.ensures((b,), n) ==> mushroom_noise_fits(n, b, box2),
        old(schema)@.len() + 3 * box2.x.spec_size() + 3 <= usize::MAX,
    ensures
        final(schema).wf(),
        mushrooms_grown(old(schema)@, final(schema)@, box2, sample),
        final(schema)@.len() <= old(schema)@.len() + 3 * box2.x.spec_size(),
{
    let es = mushroom_open_ranges(schema, box2);
    proof {
        assert forall|k: int| 0 <= k < es@.len() implies box2.x.lo_incl <= edge_lo((#[trigger] es@[k]).0)
            && edge_hi(es@[k].1) <= box2.x.hi_excl by {
            let lo = edge_lo(es@[k].0);
            let hi = edge_hi(es@[k].1);
            lemma_edges_sub(es@, k, lo);
            lemma_edges_sub(es@, k, hi - 1);
            lemma_open_columns_char(schema@, box2, lo);
            lemma_open_columns_char(schema@, box2, hi - 1);
        }
    }
    let boxes = edges_to_boxes(&es, box2.x);
    proof {
        assert forall|i: int| 0 <= i < boxes@.len() implies within(#[trigger] boxes@[i], box2.x) by {
            assert(boxes@[i] == box_of_edges(es@[i]));
        }
        if es@.len() > 0 {
            lemma_edges_total(es@);
            assert(es@.last() == es@[es@.len() - 1]);
        } else {
            assert(total_size(boxes_of(es@)) == 0);
        }
        lemma_by_size_desc(boxes@, box2.x);
    }
    let mut stack = sort_by_size_desc(&boxes, box2.x);
    let ghost stack0 = stack@;
    let ghost mut ns: Seq<MushroomNoise> = Seq::empty();
    proof {
        assert(added_all(Seq::<Feature>::empty()) =~= Seq::<Feature>::empty());
        assert(schema@ =~= old(schema)@ + added_all(grow(stack0, ns, box2).2));
        lemma_total_nonneg(stack@);
    }
    loop
        invariant
            schema.wf(),
            region_in_range(box2),
            box2.y.spec_size() > 0,
            forall|b: Box1| sample.requires((b,)),
            forall|b: Box1, n: MushroomNoise|
                b.spec_size() >= 11 && #[trigger] sample.ensures((b,), n) ==> mushroom_noise_fits(n, b, box2),
            stack0 == by_size_desc(boxes_of(es@)),
            stack@ == grow(stack0, ns, box2).0,
            forall|k: int|
                0 <= k < ns.len() ==> {
                    let st = (#[trigger] grow(stack0, ns.take(k), box2)).0;
                    &&& !grown_out(st)
                    &&& sample.ensures((st.last(),), ns[k])
                },
            schema@ == old(schema)@ + added_all(grow(stack0, ns, box2).2),
            forall|i: int| 0 <= i < stack@.len() ==> within(#[trigger] stack@[i], box2.x),
            schema@.len() + 3 * total_size(stack@) <= old(schema)@.len() + 3 * box2.x.spec_size(),
            old(schema)@.len() + 3 * box2.x.spec_size() + 3 <= usize::MAX,
            total_size(stack@) >= 0,
        ensures
            schema.wf(),
            stack@ == grow(stack0, ns, box2).0,
            grown_out(stack@),
            forall|k: int|
                0 <= k < ns.len() ==> {
                    let st = (#[trigger] grow(stack0, ns.take(k), box2)).0;
                    &&& !grown_out(st)
                    &&& sample.ensures((st.last(),), ns[k])
                },
            schema@ == old(schema)@ + added_all(grow(stack0, ns, box2).2),
        decreases total_size(stack@),
    {
        let len = stack.len();
        if len == 0 {
            break;
        }
        if stack[len - 1].size() < 11 {
            break;
        }
        let ghost st = stack@;
        let b = stack.pop().unwrap();
        proof {
            assert(b == st.last());
            assert(within(st[st.len() - 1], box2.x));
            assert(st =~= st.drop_last() + seq![b]);
            lemma_total_concat(st.drop_last(), seq![b]);
            lemma_total_single(b);
            assert forall|i: int| 0 <= i < st.drop_last().len() implies (#[trigger] st.drop_last()[i]).wf() by {
                assert(st.drop_last()[i] == st[i]);
                assert(within(st[i], box2.x));
            }
            lemma_total_nonneg(st.drop_last());
        }
        let n = sample(b);
        proof {
            assert(mushroom_noise_fits(n, b, box2));
        }
        let ghost popped = stack@;
        grow_mushroom(schema, &mut stack, b, n, box2);
        proof {
            lemma_grow_push(stack0, ns, n, box2);
            lemma_added_all_mushroom(grow(stack0, ns, box2).2, b, n, box2);
            assert(popped =~= st.drop_last());
            lemma_total_concat(st.drop_last(), mushroom_rest(b, n));
            let ns2 = ns.push(n);
            assert forall|k: int| 0 <= k < ns2.len() implies {
                let st2 = (#[trigger] grow(stack0, ns2.take(k), box2)).0;
                &&& !grown_out(st2)
                &&& sample.ensures((st2.last(),), ns2[k])
            } by {
                if k < ns.len() {
                    assert(ns2.take(k) =~= ns.take(k));
                } else {
                    assert(ns2.take(k) =~= ns);
                }
            }
            assert forall|i: int| 0 <= i < stack@.len() implies within(#[trigger] stack@[i], box2.x) by {
                if i < st.len() - 1 {
                    assert(stack@[i] == st[i]);
                }
            }
            assert forall|i: int| 0 <= i < stack@.len() implies (#[trigger] stack@[i]).wf() by {
                assert(within(stack@[i], box2.x));
            }
            lemma_total_nonneg(stack@);
            ns = ns2;
        }
    }
    proof {
        assert(edges_points(es@) == open_columns(old(schema)@, box2));
        assert(grow(by_size_desc(boxes_of(es@)), ns, box2).0 == stack@);
        assert(mushrooms_grown(old(schema)@, schema@, box2, sample));
    }
}

/// The rows of the world's zones span from `-ZONE_HEIGHT` up to
/// `ZONE_HEIGHT`, both included.
pub const ZONE_HEIGHT: i32 = 10;

/// The rectangle of the zone that starts at column `x` and is `w` columns
/// wide.
pub fn zone_box(x: i32, w: i32) -> (b: Box2)
    requires
        0 <= w,
        x + w <= i32::MAX,
    ensures
        b == (Box2 {
            x: Box1 { lo_incl: x, hi_excl: (x + w) as i32 },
            y: Box1 { lo_incl: (-ZONE_HEIGHT) as i32, hi_excl: (ZONE_HEIGHT + 1) as i32 },
        }),
{
    Box2::from_box1s(Box1::new(x, x + w), Box1::new(-ZONE_HEIGHT, ZONE_HEIGHT + 1))
}

/// The liquid that fills a zone: water in the lake zones, lava in the lava
/// zones.
pub open spec fn zone_liquid(z: Zone) -> Option<Liquid> {
    match z {
        Zone::Grass(Zone1::Lake) | Zone::Desert(Zone1::Lake) | Zone::Candy(Zone1::Lake) => Some(
            Liquid::Water,
        ),
        Zone::LavaHills | Zone::LavaPlains => Some(Liquid::Lava),
        _ => None,
    }
}

/// The liquid that fills a zone, if any.
pub fn liquid_of(z: Zone) -> (r: Option<Liquid>)
    ensures
        r == zone_liquid(z),
{
    match z {
        Zone::Grass(Zone1::Lake) | Zone::Desert(Zone1::Lake) | Zone::Candy(Zone1::Lake) => Some(
            Liquid::Water,
        ),
        Zone::LavaHills | Zone::LavaPlains => Some(Liquid::Lava),
        _ => None,
    }
}

/// The features of a zone before its liquid or mushrooms: the zone itself,
/// then its floor with their companions.
pub open spec fn zone_floor(before: Seq<Feature>, z: Zone, b: Box2, cols: Seq<ColumnNoise>) -> Seq<Feature> {
    before.push(Feature::Zone(z, b)) + added_all(floor_features(cols, zone_terrains(z).0, b))
}

/// `after` is `before` with the zone `z` over `b` laid down from the
/// columns' samples `cols`: its floor, then its liquid up to the row that
/// `liquid_pick` picks for the liquid's ceiling, or, in the mushroom zone,
/// its big mushrooms grown with the samples of `mushroom_sample`.
pub open spec fn zone_stepped<L: Fn(Box2, i32) -> i32, M: Fn(Box1) -> MushroomNoise>(
    before: Seq<Feature>,
    after: Seq<Feature>,
    z: Zone,
    b: Box2,
    cols: Seq<ColumnNoise>,
    liquid_pick: &L,
    mushroom_sample: &M,
) -> bool {
    match zone_liquid(z) {
        Some(liquid) => exists|o: i32|
            {
                &&& #[trigger] liquid_pick.ensures((b, ceiling_of(zone_floor(before, z, b, cols), b) as i32), o)
                &&& after == zone_floor(before, z, b, cols).push(
                    liquid_feature(
                        liquid,
                        Box2 {
                            x: b.x,
                            y: Box1 { lo_incl: b.y.lo_incl, hi_excl: (b.y.lo_incl + 1 + o) as i32 },
                        },
                    ),
                )
            },
        None => if z == Zone::Mushroom {
            mushrooms_grown(zone_floor(before, z, b, cols), after, b, mushroom_sample)
        } else {
            after == zone_floor(before, z, b, cols)
        },
    }
}

/// Every lake zone, grass, desert or candy, is filled with water, and every
/// lava zone with lava: once such a zone is laid down, the last feature of
/// the schema is surface water (or lava) over all the zone's columns from
/// its bottom row up, laid on the zone and its floor. Every other zone but
/// the mushroom zone gets no liquid: the zone and its floor are all it lays.
pub proof fn lemma_zone_liquids<L: Fn(Box2, i32) -> i32, M: Fn(Box1) -> MushroomNoise>(
    before: Seq<Feature>,
    after: Seq<Feature>,
    z: Zone,
    b: Box2,
    cols: Seq<ColumnNoise>,
    liquid_pick: &L,
    mushroom_sample: &M,
)
    requires
        zone_stepped(before, after, z, b, cols, liquid_pick, mushroom_sample),
    ensures
        (z == Zone::Grass(Zone1::Lake) || z == Zone::Desert(Zone1::Lake) || z == Zone::Candy(Zone1::Lake))
            ==> after.len() > 0 && after.drop_last() == zone_floor(before, z, b, cols) && (after.last() matches Feature::SurfaceWater(w) && w.x == b.x
            && w.y.lo_incl == b.y.lo_incl),
        (z == Zone::LavaHills || z == Zone::LavaPlains) ==> after.len() > 0 && after.drop_last() == zone_floor(before, z, b, cols) && (after.last() matches Feature::SurfaceLava(w)
            && w.x == b.x && w.y.lo_incl == b.y.lo_incl),
        !(z == Zone::Grass(Zone1::Lake) || z == Zone::Desert(Zone1::Lake) || z == Zone::Candy(Zone1::Lake)
            || z == Zone::LavaHills || z == Zone::LavaPlains || z == Zone::Mushroom) ==> after == zone_floor(
            before,
            z,
            b,
            cols,
        ),
{
    match zone_liquid(z) {
        Some(liquid) => {
            let o = choose|o: i32|
                {
                    &&& #[trigger] liquid_pick.ensures((b, ceiling_of(zone_floor(before, z, b, cols), b) as i32), o)
                    &&& after == zone_floor(before, z, b, cols).push(
                        liquid_feature(
                            liquid,
                            Box2 {
                                x: b.x,
                                y: Box1 { lo_incl: b.y.lo_incl, hi_excl: (b.y.lo_incl + 1 + o) as i32 },
                            },
                        ),
                    )
                };
            assert(after.drop_last() =~= zone_floor(before, z, b, cols));
        },
        None => {},
    }
}

/// Lays down the zone `z` over `b`: the zone itself, its floor from the
/// columns' samples `cols`, then the zone's liquid (up to the row that
/// `liquid_pick` picks above the bottom of `b` for the liquid's ceiling) or, in the
/// mushroom zone, its big mushrooms (with the samples of `mushroom_sample`).
pub fn zone_step<L: Fn(Box2, i32) -> i32, M: Fn(Box1) -> MushroomNoise>(
    schema: &mut Schema,
    z: Zone,
    b: Box2,
    cols: &Vec<ColumnNoise>,
    liquid_pick: &L,
    mushroom_sample: &M,
)
    requires
        old(schema).wf(),
        region_in_range(b),
        b.y.spec_size() > 0,
        cols@.len() == b.x.spec_size(),
        columns_valid(cols@, b),
        old(schema)@.len() + 20 * b.x.spec_size() + 10 <= usize::MAX,
        forall|bx: Box2, c: i32| liquid_pick.requires((bx, c)),
        forall|c: i32, o: i32|
            c >= b.y.lo_incl && #[trigger] liquid_pick.ensures((b, c), o) ==> 0 <= o < c - b.y.lo_incl + 1,
        forall|r: Box1| mushroom_sample.requires((r,)),
        forall|r: Box1, n: MushroomNoise|
            r.spec_size() >= 11 && #[trigger] mushroom_sample.ensures((r,), n) ==> mushroom_noise_fits(n, r, b),
    ensures
        final(schema).wf(),
        zone_stepped(old(schema)@, final(schema)@, z, b, cols@, liquid_pick, mushroom_sample),
        final(schema)@.len() <= old(schema)@.len() + 20 * b.x.spec_size() + 10,
{
    schema.add(Feature::Zone(z, b));
    proof {
        assert(schema@ == old(schema)@.push(Feature::Zone(z, b)));
    }
    height_map_floor_brush(schema, z, b, cols);
    proof {
        assert(schema@ == zone_floor(old(schema)@, z, b, cols@));
        lemma_added_all_len(floor_features(cols@, zone_terrains(z).0, b));
    }
    match liquid_of(z) {
        Some(liquid) => {
            let c = liquid_ceiling(schema, b);
            proof {
                lemma_ceiling_char(schema@, b);
            }
            let o = liquid_pick(b, c);
            proof {
                assert(c == ceiling_of(zone_floor(old(schema)@, z, b, cols@), b) as i32);
                assert(liquid_pick.ensures((b, ceiling_of(zone_floor(old(schema)@, z, b, cols@), b) as i32), o));
            }
            liquid_brush(schema, b, liquid, o);
            proof {
                assert(schema@ == zone_floor(old(schema)@, z, b, cols@).push(
                    liquid_feature(
                        liquid,
                        Box2 {
                            x: b.x,
                            y: Box1 { lo_incl: b.y.lo_incl, hi_excl: (b.y.lo_incl + 1 + o) as i32 },
                        },
                    ),
                ));
            }
        },
        None => {
            if z == Zone::Mushroom {
                big_mushroom_brush(schema, b, mushroom_sample);
            }
        },
    }
    proof {
        assert(zone_stepped(old(schema)@, schema@, z, b, cols@, liquid_pick, mushroom_sample));
    }
}

/// The world spans the columns from `-LEVEL_HALF_WIDTH` on, its last zone
/// starting before `LEVEL_HALF_WIDTH`.
pub const LEVEL_HALF_WIDTH: i32 = 1000;

/// The samplers of the world's noise give usable values: a zone and a width
/// from 1 to 500 at every column, the samples of every
/// column of a zone, a liquid's row within reach of its ceiling, and
/// usable mushroom samples.
pub open spec fn level_samplers_usable<
    Z: Fn(i32) -> (Zone, i32),
    C: Fn(Box2) -> Vec<ColumnNoise>,
    L: Fn(Box2, i32) -> i32,
    M: Fn(Box1) -> MushroomNoise,
>(zone_at: &Z, columns: &C, liquid_pick: &L, mushroom_sample: &M) -> bool {
    &&& forall|x: i32| zone_at.requires((x,))
    &&& forall|x: i32, r: (Zone, i32)| #[trigger] zone_at.ensures((x,), r) ==> 1 <= r.1 <= 500
    &&& forall|b: Box2| columns.requires((b,))
    &&& forall|b: Box2, v: Vec<ColumnNoise>|
        #[trigger] columns.ensures((b,), v) ==> v@.len() == b.x.spec_size() && columns_valid(v@, b)
    &&& forall|bx: Box2, c: i32| liquid_pick.requires((bx, c))
    &&& forall|bx: Box2, c: i32, o: i32|
        c >= bx.y.lo_incl && #[trigger] liquid_pick.ensures((bx, c), o) ==> 0 <= o < c - bx.y.lo_incl + 1
    &&& forall|r: Box1| mushroom_sample.requires((r,))
    &&& forall|r: Box1, n: MushroomNoise|
        r.spec_size() >= 11 && #[trigger] mushroom_sample.ensures((r,), n) ==> {
            &&& 0 <= n.size_offset < r.spec_size() / 2 - 1
            &&& n.cap_floor >= 0
            &&& 0 <= n.height_offset < 2 * ZONE_HEIGHT + 1
        }
}

/// One zone of a generated world: its first column, zone, width and
/// columns' samples, and the features before and after it was laid down.
pub type ZoneRecord = (i32, Zone, i32, Vec<ColumnNoise>, Seq<Feature>, Seq<Feature>);

/// The rectangle of a zone record.
pub open spec fn record_box(r: ZoneRecord) -> Box2 {
    Box2 {
        x: Box1 { lo_incl: r.0, hi_excl: (r.0 + r.2) as i32 },
        y: Box1 { lo_incl: (-ZONE_HEIGHT) as i32, hi_excl: (ZONE_HEIGHT + 1) as i32 },
    }
}

/// The zones `rs` were laid down one after the other from an empty world,
/// from the column `-LEVEL_HALF_WIDTH` on, each starting where the last
/// ended and before `LEVEL_HALF_WIDTH`, until one reaches it.
pub open spec fn level_built<
    Z: Fn(i32) -> (Zone, i32),
    C: Fn(Box2) -> Vec<ColumnNoise>,
    L: Fn(Box2, i32) -> i32,
    M: Fn(Box1) -> MushroomNoise,
>(rs: Seq<ZoneRecord>, zone_at: &Z, columns: &C, liquid_pick: &L, mushroom_sample: &M) -> bool {
    &&& rs.len() > 0
    &&& rs[0].0 == -LEVEL_HALF_WIDTH
    &&& rs[0].4 == Seq::<Feature>::empty()
    &&& forall|k: int|
        0 <= k < rs.len() ==> {
            let r = #[trigger] rs[k];
            &&& r.0 < LEVEL_HALF_WIDTH
            &&& zone_at.ensures((r.0,), (r.1, r.2))
            &&& columns.ensures((record_box(r),), r.3)
            &&& zone_stepped(r.4, r.5, r.1, record_box(r), r.3@, liquid_pick, mushroom_sample)
        }
    &&& forall|i: int, j: int|
        0 <= i && j == i + 1 && j < rs.len() ==> (#[trigger] rs[j]).0 == (#[trigger] rs[i]).0 + rs[i].2
            && rs[j].4 == rs[i].5
    &&& rs.last().0 + rs.last().2 >= LEVEL_HALF_WIDTH
}

/// Generates the world: zone after zone from the column `-LEVEL_HALF_WIDTH`
/// until a zone reaches `LEVEL_HALF_WIDTH`, each zone and width as `zone_at`
/// samples them at its first column, its columns as `columns` samples them,
/// laid down by `zone_step`.
pub fn generate_level<
    Z: Fn(i32) -> (Zone, i32),
    C: Fn(Box2) -> Vec<ColumnNoise>,
    L: Fn(Box2, i32) -> i32,
    M: Fn(Box1) -> MushroomNoise,
>(zone_at: &Z, columns: &C, liquid_pick: &L, mushroom_sample: &M) -> (schema: Schema)
    requires
        level_samplers_usable(zone_at, columns, liquid_pick, mushroom_sample),
    ensures
        schema.wf(),
        exists|rs: Seq<ZoneRecord>|
            #[trigger] level_built(rs, zone_at, columns, liquid_pick, mushroom_sample) && rs.last().5
                == schema@,
{
    let mut schema = Schema::new();
    let mut x: i32 = -LEVEL_HALF_WIDTH;
    let ghost mut rs: Seq<ZoneRecord> = Seq::empty();
    while x < LEVEL_HALF_WIDTH
        invariant
            level_samplers_usable(zone_at, columns, liquid_pick, mushroom_sample),
            schema.wf(),
            -LEVEL_HALF_WIDTH <= x <= LEVEL_HALF_WIDTH + 500,
            schema@.len() <= 50 * (x + LEVEL_HALF_WIDTH),
            rs.len() == 0 ==> x == -LEVEL_HALF_WIDTH && schema@ == Seq::<Feature>::empty(),
            rs.len() > 0 ==> {
                &&& rs[0].0 == -LEVEL_HALF_WIDTH
                &&& rs[0].4 == Seq::<Feature>::empty()
                &&& rs.last().0 + rs.last().2 == x
                &&& rs.last().5 == schema@
            },
            forall|k: int|
                0 <= k < rs.len() ==> {
                    let r = #[trigger] rs[k];
                    &&& r.0 < LEVEL_HALF_WIDTH
                    &&& zone_at.ensures((r.0,), (r.1, r.2))
                    &&& columns.ensures((record_box(r),), r.3)
                    &&& zone_stepped(r.4, r.5, r.1, record_box(r), r.3@, liquid_pick, mushroom_sample)
                },
            forall|i: int, j: int|
                0 <= i && j == i + 1 && j < rs.len() ==> (#[trigger] rs[j]).0 == (#[trigger] rs[i]).0
                    + rs[i].2 && rs[j].4 == rs[i].5,
        decreases LEVEL_HALF_WIDTH + 500 - x,
    {
        let (z, w) = zone_at(x);
        let b = zone_box(x, w);
        let cols = columns(b);
        let ghost before = schema@;
        proof {
            assert(region_in_range(b));
        }
        zone_step(&mut schema, z, b, &cols, liquid_pick, mushroom_sample);
        proof {
            let r: ZoneRecord = (x, z, w, cols, before, schema@);
            assert(record_box(r) == b);
            let rs2 = rs.push(r);
            assert forall|i: int, j: int|
                0 <= i && j == i + 1 && j < rs2.len() implies (#[trigger] rs2[j]).0 == (#[trigger] rs2[i]).0
                + rs2[i].2 && rs2[j].4 == rs2[i].5 by {
                if j < rs.len() {
                    assert(rs2[i] == rs[i] && rs2[j] == rs[j]);
                } else {
                    assert(rs2[i] == rs.last());
                }
            }
            assert forall|k: int| 0 <= k < rs2.len() implies {
                let r = #[trigger] rs2[k];
                &&& r.0 < LEVEL_HALF_WIDTH
                &&& zone_at.ensures((r.0,), (r.1, r.2))
                &&& columns.ensures((record_box(r),), r.3)
                &&& zone_stepped(r.4, r.5, r.1, record_box(r), r.3@, liquid_pick, mushroom_sample)
            } by {
                if k < rs.len() {
                    assert(rs2[k] == rs[k]);
                }
            }
            rs = rs2;
        }
        x = x + w;
    }
    proof {
        assert(level_built(rs, zone_at, columns, liquid_pick, mushroom_sample));
    }
    schema
}

} // verus!
