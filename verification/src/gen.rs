//! The island generator of the first tile set: ground shaped by a height map,
//! ledge caps where flat ground steps, and igloos on long flat runs.
//!
//! The height map is sampled by the caller; the generator returns the tiles
//! it places on the ground layer and on the foreground layer, in order.

use vstd::prelude::*;
use crate::brushes::{GroundSet, GroundTileType, IglooPiece, Slope, Tile, LMR, LR};
use crate::random::{gen_range_u32, gen_range_usize, gen_ratio};
use rand::seq::SliceRandom;
use rand_pcg::Lcg128Xsl64;

verus! {

/// The number of columns of an island.
pub const ISLAND_WIDTH: usize = 128;

/// The largest column height that the generator takes.
pub const MAX_HEIGHT: u32 = 65535;

/// A tile placed at column `.0`, row `.1`.
pub type Placement = (u32, u32, Tile);

/// Whether a column's top is flat or a slope.
#[derive(Clone, Copy, PartialEq, Eq, Debug, Structural)]
pub enum ColumnType {
    Flat,
    Slope(Slope),
}

/// The height of the column left of `i` (of `i` itself at the left edge).
pub open spec fn left_height(hm: Seq<u32>, i: int) -> u32 {
    hm[if i == 0 {
        0
    } else {
        i - 1
    }]
}

/// The height of the column right of `i` (of `i` itself at the right edge).
pub open spec fn right_height(hm: Seq<u32>, i: int) -> u32 {
    hm[if i + 1 < hm.len() {
        i + 1
    } else {
        hm.len() - 1
    }]
}

/// A column is a slope up to the right when its right neighbour is one
/// higher than its left one and it is as high as the right one; a slope down
/// to the left in the mirrored case; flat otherwise.
pub open spec fn column_type(hm: Seq<u32>, i: int) -> ColumnType {
    let left = left_height(hm, i);
    let right = right_height(hm, i);
    let current = hm[i];
    if right == left + 1 && current == right {
        ColumnType::Slope(Slope::UpRight)
    } else if left == right + 1 && current == left {
        ColumnType::Slope(Slope::DownLeft)
    } else {
        ColumnType::Flat
    }
}

/// The ground tile at row `j` of column `i`: a slope on top of a slope
/// column and its inner corner just below, a flat top on a flat column, and
/// interior elsewhere.
pub open spec fn ground_tile_at(hm: Seq<u32>, i: int, j: int) -> GroundTileType {
    let current = hm[i] as int;
    match column_type(hm, i) {
        ColumnType::Slope(s) => if j == current {
            GroundTileType::Slope(s)
        } else if current != 0 && j == current - 1 {
            GroundTileType::SlopeInt(s)
        } else {
            GroundTileType::Interior
        },
        ColumnType::Flat => if j == current {
            GroundTileType::Ground(LMR::Mid)
        } else {
            GroundTileType::Interior
        },
    }
}

/// The ground of column `i`, from row 0 up to its height.
pub open spec fn column_ground(hm: Seq<u32>, i: int) -> Seq<Placement> {
    Seq::new(
        (hm[i] + 1) as nat,
        |j: int| (i as u32, j as u32, Tile::Ground(ground_tile_at(hm, i, j), GroundSet::Tundra)),
    )
}

/// The ground of the first `n` columns, column by column.
pub open spec fn island_ground(hm: Seq<u32>, n: int) -> Seq<Placement>
    decreases n,
{
    if n <= 0 {
        Seq::empty()
    } else {
        island_ground(hm, n - 1) + column_ground(hm, n - 1)
    }
}

/// The ledge caps of column `i`: where a flat column steps from a flat
/// neighbour, a cap at the neighbour's height.
pub open spec fn column_caps(hm: Seq<u32>, i: int) -> Seq<Placement> {
    let left = left_height(hm, i);
    let right = right_height(hm, i);
    let current = hm[i];
    let lty = column_type(hm, if i == 0 {
        0
    } else {
        i - 1
    });
    let rty = column_type(hm, if i + 1 < hm.len() {
        i + 1
    } else {
        hm.len() - 1
    });
    let cty = column_type(hm, i);
    (if current != left && lty == ColumnType::Flat && cty == ColumnType::Flat {
        seq![(i as u32, left, Tile::Ground(GroundTileType::LedgeCap(LR::Right), GroundSet::Tundra))]
    } else {
        Seq::empty()
    }) + (if current != right && rty == ColumnType::Flat && cty == ColumnType::Flat {
        seq![(i as u32, right, Tile::Ground(GroundTileType::LedgeCap(LR::Left), GroundSet::Tundra))]
    } else {
        Seq::empty()
    })
}

/// The ledge caps of the first `n` columns, column by column.
pub open spec fn island_caps(hm: Seq<u32>, n: int) -> Seq<Placement>
    decreases n,
{
    if n <= 0 {
        Seq::empty()
    } else {
        island_caps(hm, n - 1) + column_caps(hm, n - 1)
    }
}

/// After the first `n` columns: the runs of equal height that have ended
/// (first column, column after the last, height), and the start and height
/// of the run still going on. The run still going on at the last column is
/// never ended.
pub open spec fn island_runs(hm: Seq<u32>, n: int) -> (Seq<(usize, usize, u32)>, usize, u32)
    decreases n,
{
    if n <= 0 {
        (Seq::empty(), 0, hm[0])
    } else {
        let (runs, start, height) = island_runs(hm, n - 1);
        if hm[n - 1] != height {
            (runs.push((start, (n - 1) as usize, height)), (n - 1) as usize, hm[n - 1])
        } else {
            (runs, start, height)
        }
    }
}

/// The heights of an island: one per column, each at most `MAX_HEIGHT`.
pub open spec fn heights_valid(hm: Seq<u32>) -> bool {
    &&& hm.len() == ISLAND_WIDTH
    &&& forall|i: int| 0 <= i < hm.len() ==> #[trigger] hm[i] <= MAX_HEIGHT
}

/// The columns (`i`) of an island's column `i` of the ground, computed.
fn column_type_of(hm: &Vec<u32>, i: usize) -> (r: ColumnType)
    requires
        heights_valid(hm@),
        i < hm@.len(),
    ensures
        r == column_type(hm@, i as int),
{
    let n = hm.len();
    let left = hm[if i == 0 {
        0
    } else {
        i - 1
    }];
    let right = hm[if i + 1 < n {
        i + 1
    } else {
        n - 1
    }];
    let current = hm[i];
    proof {
        assert(hm@[if i == 0 {
            0
        } else {
            i - 1
        }] <= MAX_HEIGHT);
        assert(hm@[if i + 1 < n {
            i + 1
        } else {
            n - 1
        }] <= MAX_HEIGHT);
    }
    if right == left + 1 && current == right {
        ColumnType::Slope(Slope::UpRight)
    } else if left == right + 1 && current == left {
        ColumnType::Slope(Slope::DownLeft)
    } else {
        ColumnType::Flat
    }
}

/// The ground tiles of the island, column by column, each from row 0 up to
/// the column's height.
pub fn island_ground_tiles(hm: &Vec<u32>) -> (r: Vec<Placement>)
    requires
        heights_valid(hm@),
    ensures
        r@ == island_ground(hm@, hm@.len() as int),
        r@.len() <= hm@.len() * (MAX_HEIGHT + 1),
{
    let mut r: Vec<Placement> = Vec::new();
    let mut i: usize = 0;
    while i < hm.len()
        invariant
            i <= hm@.len(),
            heights_valid(hm@),
            r@ == island_ground(hm@, i as int),
            r@.len() <= i * (MAX_HEIGHT + 1),
        decreases hm@.len() - i,
    {
        let current = hm[i];
        let ty = column_type_of(hm, i);
        let ghost before = r@;
        assert(hm@[i as int] <= MAX_HEIGHT);
        let mut j: u32 = 0;
        while j <= current
            invariant
                i < hm@.len(),
                heights_valid(hm@),
                current == hm@[i as int],
                current <= MAX_HEIGHT,
                ty == column_type(hm@, i as int),
                j <= current + 1,
                r@ == before + column_ground(hm@, i as int).take(j as int),
                before.len() <= i * (MAX_HEIGHT + 1),
            decreases current + 1 - j,
        {
            let tile = match ty {
                ColumnType::Slope(s) => {
                    if j == current {
                        GroundTileType::Slope(s)
                    } else if current != 0 && j == current - 1 {
                        GroundTileType::SlopeInt(s)
                    } else {
                        GroundTileType::Interior
                    }
                },
                ColumnType::Flat => {
                    if j == current {
                        GroundTileType::Ground(LMR::Mid)
                    } else {
                        GroundTileType::Interior
                    }
                },
            };
            r.push((i as u32, j, Tile::Ground(tile, GroundSet::Tundra)));
            proof {
                assert(column_ground(hm@, i as int).take(j + 1) =~= column_ground(hm@, i as int).take(
                    j as int,
                ).push(column_ground(hm@, i as int)[j as int]));
            }
            j = j + 1;
        }
        proof {
            assert(column_ground(hm@, i as int).take(j as int) =~= column_ground(hm@, i as int));
            assert(r@ =~= island_ground(hm@, i + 1));
            assert((i + 1) * (MAX_HEIGHT + 1) == i * (MAX_HEIGHT + 1) + MAX_HEIGHT + 1) by (nonlinear_arith);
        }
        i = i + 1;
    }
    r
}

/// The ledge caps of the island, column by column: where a flat column is
/// higher or lower than a flat neighbour, a cap at the neighbour's height,
/// facing away from it.
pub fn island_caps_tiles(hm: &Vec<u32>) -> (r: Vec<Placement>)
    requires
        heights_valid(hm@),
    ensures
        r@ == island_caps(hm@, hm@.len() as int),
{
    let mut r: Vec<Placement> = Vec::new();
    let mut i: usize = 0;
    let n = hm.len();
    while i < n
        invariant
            i <= n,
            n == hm@.len(),
            heights_valid(hm@),
            r@ == island_caps(hm@, i as int),
            r@.len() <= 2 * i,
        decreases n - i,
    {
        let li = if i == 0 {
            0
        } else {
            i - 1
        };
        let ri = if i + 1 < n {
            i + 1
        } else {
            n - 1
        };
        let left = hm[li];
        let right = hm[ri];
        let current = hm[i];
        let lty = column_type_of(hm, li);
        let rty = column_type_of(hm, ri);
        let cty = column_type_of(hm, i);
        let ghost before = r@;
        if current != left && lty == ColumnType::Flat && cty == ColumnType::Flat {
            r.push(
                (i as u32, left, Tile::Ground(GroundTileType::LedgeCap(LR::Right), GroundSet::Tundra)),
            );
        }
        if current != right && rty == ColumnType::Flat && cty == ColumnType::Flat {
            r.push(
                (i as u32, right, Tile::Ground(GroundTileType::LedgeCap(LR::Left), GroundSet::Tundra)),
            );
        }
        proof {
            assert(r@ =~= before + column_caps(hm@, i as int));
        }
        i = i + 1;
    }
    r
}

/// The runs of equal height that end before the last column: first column,
/// column after the last, height. The run that reaches the last column is
/// left out.
pub fn island_height_runs(hm: &Vec<u32>) -> (r: Vec<(usize, usize, u32)>)
    requires
        heights_valid(hm@),
    ensures
        r@ == island_runs(hm@, hm@.len() as int).0,
        forall|k: int|
            0 <= k < r@.len() ==> (#[trigger] r@[k]).0 < r@[k].1 < hm@.len() && r@[k].2 <= MAX_HEIGHT,
{
    let mut runs: Vec<(usize, usize, u32)> = Vec::new();
    let mut run_start: usize = 0;
    let mut run_height = hm[0];
    let mut i: usize = 0;
    while i < hm.len()
        invariant
            i <= hm@.len(),
            heights_valid(hm@),
            (runs@, run_start, run_height) == island_runs(hm@, i as int),
            run_start <= i,
            i > 0 ==> run_start < i,
            run_height <= MAX_HEIGHT,
            forall|k: int|
                0 <= k < runs@.len() ==> (#[trigger] runs@[k]).0 < runs@[k].1 <= run_start
                    && runs@[k].2 <= MAX_HEIGHT,
        decreases hm@.len() - i,
    {
        let this = hm[i];
        if this != run_height {
            runs.push((run_start, i, run_height));
            run_start = i;
            run_height = this;
        }
        i = i + 1;
    }
    runs
}

/// `SliceRandom::choose` on two pieces: one of them.
#[verifier::external_body]
fn choose_piece(rng: &mut Lcg128Xsl64, pieces: [IglooPiece; 2]) -> (r: IglooPiece)
    ensures
        r == pieces[0] || r == pieces[1],
{
    *pieces.choose(rng).unwrap()
}

/// The position of column `i` along the columns `lo..hi`: left end, right
/// end, or middle.
pub open spec fn igloo_lmr(lo: u32, hi: u32, i: int) -> LMR {
    if i == lo {
        LMR::Left
    } else if i == hi - 1 {
        LMR::Right
    } else {
        LMR::Mid
    }
}

/// An igloo over the columns `w.0..w.1` and rows `h.0..h.1` as placed: each
/// column from the bottom up, the top row made of top pieces and the other
/// rows of interior pieces (plain or alternative), then, for an igloo of two
/// rows or more, a door on its bottom row.
pub open spec fn igloo_placed(r: Seq<Placement>, w: (u32, u32), h: (u32, u32)) -> bool {
    let hl = h.1 - h.0;
    let cells = (w.1 - w.0) * hl;
    &&& r.len() == cells + if hl >= 2 {
        1int
    } else {
        0
    }
    &&& forall|a: int, b: int|
        0 <= a < w.1 - w.0 && 0 <= b < hl ==> {
            let p = #[trigger] r[a * hl + b];
            &&& p.0 == w.0 + a
            &&& p.1 == h.0 + b
            &&& if h.0 + b == h.1 - 1 {
                p.2 == Tile::Igloo(IglooPiece::Top(igloo_lmr(w.0, w.1, w.0 + a)))
            } else {
                p.2 == Tile::Igloo(IglooPiece::Interior) || p.2 == Tile::Igloo(IglooPiece::InteriorAlt)
            }
        }
    &&& hl >= 2 ==> w.0 <= r[cells].0 < w.1 && r[cells].1 == h.0 && r[cells].2 == Tile::Igloo(
        IglooPiece::Door,
    )
}

/// Places an igloo over the columns `w.0..w.1` and rows `h.0..h.1`, its
/// interior pieces and its door column picked by `rng`.
pub fn place_igloo(rng: &mut Lcg128Xsl64, w: (u32, u32), h: (u32, u32)) -> (r: Vec<Placement>)
    requires
        w.0 < w.1,
        h.0 <= h.1,
        (w.1 - w.0) * (h.1 - h.0) + 1 <= usize::MAX,
    ensures
        igloo_placed(r@, w, h),
{
    let mut r: Vec<Placement> = Vec::new();
    let hl = h.1 - h.0;
    let mut i = w.0;
    while i < w.1
        invariant
            w.0 <= i <= w.1,
            h.0 <= h.1,
            hl == h.1 - h.0,
            (w.1 - w.0) * (h.1 - h.0) + 1 <= usize::MAX,
            r@.len() == (i - w.0) * hl,
            forall|a: int, b: int|
                0 <= a < i - w.0 && 0 <= b < hl ==> {
                    let p = #[trigger] r@[a * hl + b];
                    &&& p.0 == w.0 + a
                    &&& p.1 == h.0 + b
                    &&& if h.0 + b == h.1 - 1 {
                        p.2 == Tile::Igloo(IglooPiece::Top(igloo_lmr(w.0, w.1, w.0 + a)))
                    } else {
                        p.2 == Tile::Igloo(IglooPiece::Interior) || p.2 == Tile::Igloo(
                            IglooPiece::InteriorAlt,
                        )
                    }
                },
        decreases w.1 - i,
    {
        let ghost before = r@;
        let mut j = h.0;
        while j < h.1
            invariant
                w.0 <= i < w.1,
                h.0 <= j <= h.1,
                hl == h.1 - h.0,
                (w.1 - w.0) * (h.1 - h.0) + 1 <= usize::MAX,
                before.len() == (i - w.0) * hl,
                r@.len() == before.len() + (j - h.0),
                forall|k: int| 0 <= k < before.len() ==> #[trigger] r@[k] == before[k],
                forall|b: int|
                    0 <= b < j - h.0 ==> {
                        let p = #[trigger] r@[before.len() + b];
                        &&& p.0 == i
                        &&& p.1 == h.0 + b
                        &&& if h.0 + b == h.1 - 1 {
                            p.2 == Tile::Igloo(IglooPiece::Top(igloo_lmr(w.0, w.1, i as int)))
                        } else {
                            p.2 == Tile::Igloo(IglooPiece::Interior) || p.2 == Tile::Igloo(
                                IglooPiece::InteriorAlt,
                            )
                        }
                    },
            decreases h.1 - j,
        {
            proof {
                assert((i - w.0) * hl + (j - h.0) < (w.1 - w.0) * hl) by (nonlinear_arith)
                    requires
                        i - w.0 < w.1 - w.0,
                        j - h.0 < hl,
                        0 <= j - h.0,
                        0 <= i - w.0,
                ;
            }
            let left = i == w.0;
            let right = i == w.1 - 1;
            let top = j == h.1 - 1;
            let piece = if top {
                IglooPiece::Top(
                    if left {
                        LMR::Left
                    } else if right {
                        LMR::Right
                    } else {
                        LMR::Mid
                    },
                )
            } else {
                choose_piece(rng, [IglooPiece::Interior, IglooPiece::InteriorAlt])
            };
            r.push((i, j, Tile::Igloo(piece)));
            j = j + 1;
        }
        proof {
            assert forall|a: int, b: int| 0 <= a < i + 1 - w.0 && 0 <= b < hl implies {
                let p = #[trigger] r@[a * hl + b];
                &&& p.0 == w.0 + a
                &&& p.1 == h.0 + b
                &&& if h.0 + b == h.1 - 1 {
                    p.2 == Tile::Igloo(IglooPiece::Top(igloo_lmr(w.0, w.1, w.0 + a)))
                } else {
                    p.2 == Tile::Igloo(IglooPiece::Interior) || p.2 == Tile::Igloo(IglooPiece::InteriorAlt)
                }
            } by {
                if a < i - w.0 {
                    assert(a * hl + b < (i - w.0) * hl) by (nonlinear_arith)
                        requires
                            a < i - w.0,
                            0 <= b < hl,
                    ;
                    assert(r@[a * hl + b] == before[a * hl + b]);
                } else {
                    assert(a * hl + b == before.len() + b);
                }
            }
            assert((i + 1 - w.0) * hl == (i - w.0) * hl + hl) by (nonlinear_arith);
        }
        i = i + 1;
    }
    let ghost pre = r@;
    if hl >= 2 {
        let door = gen_range_u32(rng, w.0, w.1 - 1);
        r.push((door, h.0, Tile::Igloo(IglooPiece::Door)));
    }
    proof {
        assert forall|a: int, b: int| 0 <= a < w.1 - w.0 && 0 <= b < hl implies #[trigger] r@[a * hl + b]
            == pre[a * hl + b] by {
            assert(a * hl + b < (w.1 - w.0) * hl) by (nonlinear_arith)
                requires
                    0 <= a < w.1 - w.0,
                    0 <= b < hl,
            ;
        }
    }
    r
}

/// `r` is what a run of equal height (first column, column after the last,
/// height) gets: nothing, or, for a run of ten columns or more, an igloo
/// starting at most two columns before the run's end, two to four columns
/// wide, standing on the run, two rows high or more and at most as high as
/// it is wide (and four rows).
pub open spec fn run_igloo(run: (usize, usize, u32), r: Seq<Placement>) -> bool {
    let (start, end, height) = run;
    r.len() == 0 || (end - start >= 10 && exists|istart: u32, iend: u32, itop: u32|
        {
            &&& start <= istart <= end - 2
            &&& istart + 2 <= iend <= istart + 4
            &&& height + 3 <= itop <= height + 1 + if iend - istart < 4 {
                iend - istart
            } else {
                4
            }
            &&& #[trigger] igloo_placed(r, (istart, iend), ((height + 1) as u32, itop))
        })
}

/// The sequences `ss` one after the other.
pub open spec fn concat_all(ss: Seq<Seq<Placement>>) -> Seq<Placement>
    decreases ss.len(),
{
    if ss.len() == 0 {
        Seq::empty()
    } else {
        concat_all(ss.drop_last()) + ss.last()
    }
}

/// The igloo of a run of equal height once the chance of one is drawn:
/// when the run has ten columns or more and the draw `drawn` came out true,
/// an igloo (never nothing) placed as `run_igloo` describes, else nothing.
pub fn igloo_for_run(rng: &mut Lcg128Xsl64, run: (usize, usize, u32), drawn: bool) -> (r: Vec<Placement>)
    requires
        run.0 < run.1 <= ISLAND_WIDTH,
        run.2 <= MAX_HEIGHT,
    ensures
        run_igloo(run, r@),
        r@.len() <= 17,
        (r@.len() > 0) == (drawn && run.1 - run.0 >= 10),
{
    let (start, end, height) = run;
    let length = end - start;
    if drawn && length >= 10 {
        let istart = gen_range_usize(rng, start, end - 2) as u32;
        let iend = gen_range_u32(rng, istart + 2, istart + 4);
        let wide = if iend - istart < 4 {
            iend - istart
        } else {
            4
        };
        let itop = gen_range_u32(rng, height + 1 + 2, height + 1 + wide);
        proof {
            assert((iend - istart) * (itop - (height + 1)) + 1 <= 17) by (nonlinear_arith)
                requires
                    iend - istart <= 4,
                    itop - (height + 1) <= 4,
                    0 <= iend - istart,
                    0 <= itop - (height + 1),
            ;
            assert((iend - istart) * (itop - (height + 1)) >= 2) by (nonlinear_arith)
                requires
                    iend - istart >= 2,
                    itop - (height + 1) >= 2,
            ;
        }
        let r = place_igloo(rng, (istart, iend), (height + 1, itop));
        assert(igloo_placed(r@, (istart, iend), ((height + 1) as u32, itop)));
        return r;
    }
    Vec::new()
}

/// Maybe places an igloo on a run of equal height: a run of ten columns or
/// more gets one with a chance that grows with its length, from 22 in 60 up
/// to 42 in 60 for runs of 30 columns or more.
fn run_igloo_tiles(rng: &mut Lcg128Xsl64, run: (usize, usize, u32)) -> (r: Vec<Placement>)
    requires
        run.0 < run.1 <= ISLAND_WIDTH,
        run.2 <= MAX_HEIGHT,
    ensures
        run_igloo(run, r@),
        r@.len() <= 17,
{
    let (start, end, _height) = run;
    let length = end - start;
    let drawn = if length >= 10 {
        let more = if length < 30 {
            length as u32
        } else {
            30
        };
        gen_ratio(rng, 12 + more, 60)
    } else {
        false
    };
    igloo_for_run(rng, run, drawn)
}

/// Generates an island from its height map: the ground layer holds the
/// ground of every column, then the igloos of the runs of equal height (the
/// run reaching the last column gets none); the foreground layer holds the
/// ledge caps.
pub fn generate_island(rng: &mut Lcg128Xsl64, hm: &Vec<u32>) -> (r: (Vec<Placement>, Vec<Placement>))
    requires
        heights_valid(hm@),
    ensures
        r.1@ == island_caps(hm@, ISLAND_WIDTH as int),
        exists|igloos: Seq<Seq<Placement>>|
            {
                &&& igloos.len() == island_runs(hm@, ISLAND_WIDTH as int).0.len()
                &&& forall|k: int|
                    0 <= k < igloos.len() ==> run_igloo(
                        island_runs(hm@, ISLAND_WIDTH as int).0[k],
                        #[trigger] igloos[k],
                    )
                &&& r.0@ == island_ground(hm@, ISLAND_WIDTH as int) + concat_all(igloos)
            },
{
    let mut b = island_ground_tiles(hm);
    let fg = island_caps_tiles(hm);
    let runs = island_height_runs(hm);
    let ghost ground = b@;
    let ghost mut igloos: Seq<Seq<Placement>> = Seq::empty();
    let mut k: usize = 0;
    proof {
        assert(b@ =~= ground + concat_all(igloos));
    }
    while k < runs.len()
        invariant
            k <= runs@.len(),
            heights_valid(hm@),
            forall|m: int|
                0 <= m < runs@.len() ==> (#[trigger] runs@[m]).0 < runs@[m].1 < hm@.len() && runs@[m].2
                    <= MAX_HEIGHT,
            igloos.len() == k,
            forall|m: int| 0 <= m < k ==> run_igloo(runs@[m], #[trigger] igloos[m]),
            b@ == ground + concat_all(igloos),
            b@.len() <= ground.len() + 17 * k,
            ground.len() <= ISLAND_WIDTH * (MAX_HEIGHT + 1),
        decreases runs@.len() - k,
    {
        assert(runs@[k as int].0 < runs@[k as int].1 < hm@.len());
        let mut t = run_igloo_tiles(rng, runs[k]);
        let ghost placed = t@;
        proof {
            assert(placed.len() <= 17);
        }
        b.append(&mut t);
        proof {
            let ig2 = igloos.push(placed);
            assert(ig2.drop_last() =~= igloos);
            assert(b@ =~= ground + concat_all(ig2));
            igloos = ig2;
        }
        k = k + 1;
    }
    (b, fg)
}

} // verus!
