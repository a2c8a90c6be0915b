//! Auto-tiling: choosing, for each ground cell, the terrain tile whose edges
//! and corners fit its neighbours.

use vstd::prelude::*;
use crate::map::brushes::{Tile, Terrain, TerrainTile, LR, LMR, TB, TMB};

verus! {

/// How much of a ground block's border is drawn with a grass (or other) cover.
#[derive(Clone, Copy, PartialEq, Eq, Debug, Structural)]
pub enum GroundCover {
    FullyCovered,
    TopCovered,
    Bare,
}

/// A cell before tiling: either a fixed tile, or ground of some terrain whose
/// tile depends on its neighbours.
#[derive(Clone, Copy, PartialEq, Eq, Debug, Structural)]
pub enum TilingTile {
    Exactly(Tile),
    Ground(GroundCover, Terrain),
}

/// What a tile shows at one corner of one of its edges.
#[derive(Clone, Copy, PartialEq, Eq, Debug, Structural)]
pub enum TilingCorner {
    Empty,
    Inner,
    Slope,
}

/// The corner that two meeting tiles show together: `Empty` if either shows
/// nothing, else `Slope` if either shows a slope, else `Inner`.
pub open spec fn spec_merge_corners(a: TilingCorner, b: TilingCorner) -> TilingCorner {
    if a == TilingCorner::Empty || b == TilingCorner::Empty {
        TilingCorner::Empty
    } else if a == TilingCorner::Slope || b == TilingCorner::Slope {
        TilingCorner::Slope
    } else {
        TilingCorner::Inner
    }
}

/// The corner that two meeting tiles show together.
pub fn merge_corners(a: TilingCorner, b: TilingCorner) -> (r: TilingCorner)
    ensures
        r == spec_merge_corners(a, b),
{
    if a == TilingCorner::Empty || b == TilingCorner::Empty {
        TilingCorner::Empty
    } else if a == TilingCorner::Slope || b == TilingCorner::Slope {
        TilingCorner::Slope
    } else {
        TilingCorner::Inner
    }
}

/// Merging corners does not depend on the order of the tiles nor on how they
/// are grouped, and `Empty` absorbs every corner.
pub proof fn lemma_merge_corners_laws(a: TilingCorner, b: TilingCorner, c: TilingCorner)
    ensures
        spec_merge_corners(a, b) == spec_merge_corners(b, a),
        spec_merge_corners(spec_merge_corners(a, b), c) == spec_merge_corners(
            a,
            spec_merge_corners(b, c),
        ),
        spec_merge_corners(a, a) == a,
        spec_merge_corners(a, TilingCorner::Empty) == TilingCorner::Empty,
{
}

/// What a tile shows along its border: for each edge whether it continues
/// into the interior (`*_int`), and what it shows at each end of each edge
/// (`tl` is the left end of the top edge, `lt` the top end of the left edge,
/// and so on).
#[derive(Clone, Copy, PartialEq, Eq, Debug, Structural)]
pub struct TileTilingInfo {
    pub tl: TilingCorner,
    pub tr: TilingCorner,
    pub rt: TilingCorner,
    pub rb: TilingCorner,
    pub br: TilingCorner,
    pub bl: TilingCorner,
    pub lb: TilingCorner,
    pub lt: TilingCorner,
    pub left_int: bool,
    pub right_int: bool,
    pub top_int: bool,
    pub bottom_int: bool,
    pub terrain: Terrain,
}

/// The border of a free-standing tile of `terrain`: no interior edge and
/// nothing at any corner.
pub open spec fn blank_info(terrain: Terrain) -> TileTilingInfo {
    TileTilingInfo {
        tl: TilingCorner::Empty,
        tr: TilingCorner::Empty,
        rt: TilingCorner::Empty,
        rb: TilingCorner::Empty,
        br: TilingCorner::Empty,
        bl: TilingCorner::Empty,
        lb: TilingCorner::Empty,
        lt: TilingCorner::Empty,
        left_int: false,
        right_int: false,
        top_int: false,
        bottom_int: false,
        terrain,
    }
}

impl TileTilingInfo {
    /// The border of a free-standing tile of `terrain`.
    pub fn new(terrain: Terrain) -> (r: Self)
        ensures
            r == blank_info(terrain),
    {
        Self {
            tl: TilingCorner::Empty,
            tr: TilingCorner::Empty,
            rt: TilingCorner::Empty,
            rb: TilingCorner::Empty,
            br: TilingCorner::Empty,
            bl: TilingCorner::Empty,
            lb: TilingCorner::Empty,
            lt: TilingCorner::Empty,
            left_int: false,
            right_int: false,
            top_int: false,
            bottom_int: false,
            terrain,
        }
    }
}

/// `Inner` when `b` holds, else `Empty`.
pub open spec fn inner_if(b: bool) -> TilingCorner {
    if b {
        TilingCorner::Inner
    } else {
        TilingCorner::Empty
    }
}

/// The border that a terrain tile shows by its shape.
pub open spec fn terrain_tile_info(terrain: Terrain, tt: TerrainTile) -> TileTilingInfo {
    let b = blank_info(terrain);
    match tt {
        TerrainTile::BlockFace(lmr, tmb) => {
            let top_int = tmb != TMB::T;
            let left_int = lmr != LMR::L;
            let right_int = lmr != LMR::R;
            let bottom_int = tmb != TMB::B;
            TileTilingInfo {
                tl: inner_if(top_int && lmr == LMR::L),
                tr: inner_if(top_int && lmr == LMR::R),
                rt: inner_if(right_int && tmb == TMB::T),
                rb: inner_if(right_int && tmb == TMB::B),
                br: inner_if(bottom_int && lmr == LMR::R),
                bl: inner_if(bottom_int && lmr == LMR::L),
                lb: inner_if(left_int && tmb == TMB::B),
                lt: inner_if(left_int && tmb == TMB::T),
                left_int,
                right_int,
                top_int,
                bottom_int,
                terrain,
            }
        },
        TerrainTile::Slope(LR::L) => TileTilingInfo {
            bottom_int: true,
            right_int: true,
            bl: TilingCorner::Slope,
            ..b
        },
        TerrainTile::Slope(LR::R) => TileTilingInfo {
            bottom_int: true,
            left_int: true,
            br: TilingCorner::Slope,
            ..b
        },
        TerrainTile::SlopeInt(lr) => TileTilingInfo {
            top_int: true,
            left_int: true,
            right_int: true,
            bottom_int: true,
            tl: if lr == LR::L { TilingCorner::Slope } else { TilingCorner::Empty },
            lt: if lr == LR::L { TilingCorner::Slope } else { TilingCorner::Empty },
            tr: if lr == LR::R { TilingCorner::Slope } else { TilingCorner::Empty },
            rt: if lr == LR::R { TilingCorner::Slope } else { TilingCorner::Empty },
            ..b
        },
        TerrainTile::FaceInt(lr, tb) => TileTilingInfo {
            top_int: true,
            left_int: true,
            right_int: true,
            bottom_int: true,
            bl: inner_if(lr == LR::L && tb == TB::T),
            lb: inner_if(lr == LR::L && tb == TB::T),
            tl: inner_if(lr == LR::L && tb == TB::B),
            lt: inner_if(lr == LR::L && tb == TB::B),
            br: inner_if(lr == LR::R && tb == TB::T),
            rb: inner_if(lr == LR::R && tb == TB::T),
            tr: inner_if(lr == LR::R && tb == TB::B),
            rt: inner_if(lr == LR::R && tb == TB::B),
            ..b
        },
        TerrainTile::Single => TileTilingInfo { bottom_int: true, ..b },
        TerrainTile::SingleBare => TileTilingInfo {
            bottom_int: true,
            left_int: true,
            right_int: true,
            ..b
        },
        TerrainTile::Jagged => TileTilingInfo { top_int: true, left_int: true, right_int: true, ..b },
        _ => b,
    }
}

/// The border of a cell: that of its terrain tile, that of solid ground
/// (interior on every edge) for ground, and none for any other tile.
pub open spec fn tiling_info(t: TilingTile) -> Option<TileTilingInfo> {
    match t {
        TilingTile::Exactly(Tile::Terrain(terrain, tt)) => Some(terrain_tile_info(terrain, tt)),
        TilingTile::Exactly(_) => None,
        TilingTile::Ground(_, terrain) => Some(
            TileTilingInfo {
                top_int: true,
                left_int: true,
                right_int: true,
                bottom_int: true,
                ..blank_info(terrain)
            },
        ),
    }
}

impl TilingTile {
    /// The border that the cell shows to its neighbours, if it takes part in
    /// tiling.
    pub fn info(self) -> (r: Option<TileTilingInfo>)
        ensures
            r == tiling_info(self),
    {
        match self {
            TilingTile::Exactly(Tile::Terrain(terrain, tt)) => {
                let info = TileTilingInfo::new(terrain);
                match tt {
                    TerrainTile::BlockFace(lmr, tmb) => {
                        let top_int = tmb != TMB::T;
                        let left_int = lmr != LMR::L;
                        let right_int = lmr != LMR::R;
                        let bottom_int = tmb != TMB::B;
                        return Some(
                            TileTilingInfo {
                                tl: if top_int && lmr == LMR::L {
                                    TilingCorner::Inner
                                } else {
                                    TilingCorner::Empty
                                },
                                tr: if top_int && lmr == LMR::R {
                                    TilingCorner::Inner
                                } else {
                                    TilingCorner::Empty
                                },
                                rt: if right_int && tmb == TMB::T {
                                    TilingCorner::Inner
                                } else {
                                    TilingCorner::Empty
                                },
                                rb: if right_int && tmb == TMB::B {
                                    TilingCorner::Inner
                                } else {
                                    TilingCorner::Empty
                                },
                                br: if bottom_int && lmr == LMR::R {
                                    TilingCorner::Inner
                                } else {
                                    TilingCorner::Empty
                                },
                                bl: if bottom_int && lmr == LMR::L {
                                    TilingCorner::Inner
                                } else {
                                    TilingCorner::Empty
                                },
                                lb: if left_int && tmb == TMB::B {
                                    TilingCorner::Inner
                                } else {
                                    TilingCorner::Empty
                                },
                                lt: if left_int && tmb == TMB::T {
                                    TilingCorner::Inner
                                } else {
                                    TilingCorner::Empty
                                },
                                left_int,
                                right_int,
                                top_int,
                                bottom_int,
                                terrain,
                            },
                        );
                    },
                    TerrainTile::Slope(lr) => {
                        let mut info = info;
                        info.bottom_int = true;
                        match lr {
                            LR::L => {
                                info.right_int = true;
                                info.bl = TilingCorner::Slope;
                            },
                            LR::R => {
                                info.left_int = true;
                                info.br = TilingCorner::Slope;
                            },
                        }
                        return Some(info);
                    },
                    TerrainTile::SlopeInt(lr) => {
                        let mut info = info;
                        info.top_int = true;
                        info.left_int = true;
                        info.right_int = true;
                        info.bottom_int = true;
                        match lr {
                            LR::L => {
                                info.tl = TilingCorner::Slope;
                                info.lt = TilingCorner::Slope;
                            },
                            LR::R => {
                                info.tr = TilingCorner::Slope;
                                info.rt = TilingCorner::Slope;
                            },
                        }
                        return Some(info);
                    },
                    TerrainTile::FaceInt(lr, tb) => {
                        let mut info = info;
                        info.top_int = true;
                        info.left_int = true;
                        info.right_int = true;
                        info.bottom_int = true;
                        match (lr, tb) {
                            (LR::L, TB::T) => {
                                info.bl = TilingCorner::Inner;
                                info.lb = TilingCorner::Inner;
                            },
                            (LR::L, TB::B) => {
                                info.tl = TilingCorner::Inner;
                                info.lt = TilingCorner::Inner;
                            },
                            (LR::R, TB::T) => {
                                info.br = TilingCorner::Inner;
                                info.rb = TilingCorner::Inner;
                            },
                            (LR::R, TB::B) => {
                                info.tr = TilingCorner::Inner;
                                info.rt = TilingCorner::Inner;
                            },
                        }
                        return Some(info);
                    },
                    TerrainTile::Single => {
                        let mut info = info;
                        info.bottom_int = true;
                        return Some(info);
                    },
                    TerrainTile::SingleBare => {
                        let mut info = info;
                        info.bottom_int = true;
                        info.left_int = true;
                        info.right_int = true;
                        return Some(info);
                    },
                    TerrainTile::Jagged => {
                        let mut info = info;
                        info.top_int = true;
                        info.left_int = true;
                        info.right_int = true;
                        return Some(info);
                    },
                    _ => {
                        return Some(info);
                    },
                }
            },
            TilingTile::Exactly(_) => {
                return None;
            },
            TilingTile::Ground(_, terrain) => {
                return Some(
                    TileTilingInfo {
                        top_int: true,
                        left_int: true,
                        right_int: true,
                        bottom_int: true,
                        tl: TilingCorner::Empty,
                        tr: TilingCorner::Empty,
                        rt: TilingCorner::Empty,
                        rb: TilingCorner::Empty,
                        br: TilingCorner::Empty,
                        bl: TilingCorner::Empty,
                        lb: TilingCorner::Empty,
                        lt: TilingCorner::Empty,
                        terrain,
                    },
                );
            },
        }
    }
}

/// The terrain caps drawn over a tiled cell from its left and right
/// neighbours.
#[derive(Clone, Copy, PartialEq, Eq, Debug, Structural)]
pub struct CapInfo {
    pub left_cap: Option<Terrain>,
    pub right_cap: Option<Terrain>,
}

/// The product of the axis lengths of `d` that are not zero, as ndarray
/// counts the elements of a shape when it checks that the shape fits.
pub open spec fn nonzero_product(d: Seq<usize>) -> int
    decreases d.len(),
{
    if d.len() == 0 {
        1
    } else {
        nonzero_product(d.drop_last()) * if d.last() == 0 {
            1int
        } else {
            d.last() as int
        }
    }
}

/// An axis length as ndarray counts it in a shape's size: zero counts as one.
pub open spec fn axis_factor(x: usize) -> int {
    if x == 0 {
        1
    } else {
        x as int
    }
}

/// The counted size of a two-axis shape.
pub proof fn lemma_shape_fits2(sx: usize, sy: usize)
    ensures
        nonzero_product(seq![sx, sy]) == axis_factor(sx) * axis_factor(sy),
{
    let s = seq![sx, sy];
    assert(s.drop_last() =~= seq![sx]);
    assert(seq![sx].drop_last() =~= Seq::<usize>::empty());
    assert(nonzero_product(Seq::<usize>::empty()) == 1);
    assert(nonzero_product(seq![sx]) == axis_factor(sx));
}

/// The counted size of a three-axis shape.
pub proof fn lemma_shape_fits3(d0: usize, d1: usize, d2: usize)
    ensures
        nonzero_product(seq![d0, d1, d2]) == axis_factor(d0) * axis_factor(d1) * axis_factor(d2),
{
    assert(seq![d0, d1, d2].drop_last() =~= seq![d0, d1]);
    lemma_shape_fits2(d0, d1);
}

/// An array of the shape `d` can be made: the product of its axis lengths
/// that are not zero stays within `isize`.
pub open spec fn shape_fits(d: Seq<usize>) -> bool {
    nonzero_product(d) <= isize::MAX
}

/// A two-dimensional array of cells before tiling, indexed `[i, j]`.
#[verifier::external_body]
pub struct TilingGrid {
    cells: ndarray::Array2<TilingTile>,
}

/// The cells of a `TilingGrid`: `tiling_grid_cells(g)[(i, j)]` is the cell at `[i, j]`.
pub uninterp spec fn tiling_grid_cells(g: TilingGrid) -> Map<(int, int), TilingTile>;

/// The shape that a `TilingGrid` was made with.
pub uninterp spec fn tiling_grid_dims(g: TilingGrid) -> (usize, usize);

impl TilingGrid {
    /// `ndarray::Array2::from_elem`: an `sx` by `sy` array with every cell
    /// `elem`; it panics when the product of the axis lengths that are not
    /// zero overflows `isize`.
    #[verifier::external_body]
    pub(crate) fn from_elem(sx: usize, sy: usize, elem: TilingTile) -> (g: Self)
        requires
            shape_fits(seq![sx, sy]),
        ensures
            tiling_grid_dims(g) == (sx, sy),
            tiling_grid_cells(g) == Map::new(
                |p: (int, int)| 0 <= p.0 < sx && 0 <= p.1 < sy,
                |p: (int, int)| elem,
            ),
    {
        TilingGrid { cells: ndarray::Array2::from_elem([sx, sy], elem) }
    }

    /// `ArrayBase::dim`: the shape of the array.
    #[verifier::external_body]
    pub(crate) fn dim(&self) -> (r: (usize, usize))
        ensures
            r == tiling_grid_dims(*self),
            r.0 * r.1 <= isize::MAX,
    {
        self.cells.dim()
    }

    /// Indexing with `[[i, j]]`: the cell at `[i, j]`; it panics outside the
    /// shape.
    #[verifier::external_body]
    pub(crate) fn get(&self, i: usize, j: usize) -> (r: TilingTile)
        requires
            i < tiling_grid_dims(*self).0,
            j < tiling_grid_dims(*self).1,
        ensures
            r == tiling_grid_cells(*self)[(i as int, j as int)],
    {
        self.cells[[i, j]]
    }

    /// Assigning through `[[i, j]]`: replaces the cell at `[i, j]`; it panics
    /// outside the shape.
    #[verifier::external_body]
    pub(crate) fn set(&mut self, i: usize, j: usize, v: TilingTile)
        requires
            i < tiling_grid_dims(*old(self)).0,
            j < tiling_grid_dims(*old(self)).1,
        ensures
            tiling_grid_dims(*final(self)) == tiling_grid_dims(*old(self)),
            tiling_grid_cells(*final(self)) == tiling_grid_cells(*old(self)).insert((i as int, j as int), v),
    {
        self.cells[[i, j]] = v;
    }
}

impl TilingGrid {
    /// An `sx` by `sy` grid with every cell `elem`.
    pub fn filled(sx: usize, sy: usize, elem: TilingTile) -> (g: Self)
        requires
            shape_fits(seq![sx, sy]),
        ensures
            tiling_grid_dims(g) == (sx, sy),
            tiling_grid_cells(g) == Map::new(
                |p: (int, int)| 0 <= p.0 < sx && 0 <= p.1 < sy,
                |p: (int, int)| elem,
            ),
    {
        Self::from_elem(sx, sy, elem)
    }

    /// Replaces the cell at `[i, j]`.
    pub fn put(&mut self, i: usize, j: usize, v: TilingTile)
        requires
            i < tiling_grid_dims(*old(self)).0,
            j < tiling_grid_dims(*old(self)).1,
        ensures
            tiling_grid_dims(*final(self)) == tiling_grid_dims(*old(self)),
            tiling_grid_cells(*final(self)) == tiling_grid_cells(*old(self)).insert((i as int, j as int), v),
    {
        self.set(i, j, v)
    }
}

impl TiledGrid {
    /// The shape of the grid.
    pub fn shape(&self) -> (r: (usize, usize))
        ensures
            r == tiled_grid_dims(*self),
    {
        self.dim()
    }

    /// The tiled cell at `[i, j]`.
    pub fn cell(&self, i: usize, j: usize) -> (r: (Tile, CapInfo))
        requires
            i < tiled_grid_dims(*self).0,
            j < tiled_grid_dims(*self).1,
        ensures
            r == tiled_grid_cells(*self)[(i as int, j as int)],
    {
        self.get(i, j)
    }
}

/// A two-dimensional array of cells with their borders, indexed `[i, j]`.
#[verifier::external_body]
pub struct InfoGrid {
    cells: ndarray::Array2<(TilingTile, Option<TileTilingInfo>)>,
}

/// The cells of a `InfoGrid`: `info_grid_cells(g)[(i, j)]` is the cell at `[i, j]`.
pub uninterp spec fn info_grid_cells(g: InfoGrid) -> Map<(int, int), (TilingTile, Option<TileTilingInfo>)>;

/// The shape that a `InfoGrid` was made with.
pub uninterp spec fn info_grid_dims(g: InfoGrid) -> (usize, usize);

impl InfoGrid {
    /// `ndarray::Array2::from_elem`: an `sx` by `sy` array with every cell
    /// `elem`; it panics when the product of the axis lengths that are not
    /// zero overflows `isize`.
    #[verifier::external_body]
    pub(crate) fn from_elem(sx: usize, sy: usize, elem: (TilingTile, Option<TileTilingInfo>)) -> (g: Self)
        requires
            shape_fits(seq![sx, sy]),
        ensures
            info_grid_dims(g) == (sx, sy),
            info_grid_cells(g) == Map::new(
                |p: (int, int)| 0 <= p.0 < sx && 0 <= p.1 < sy,
                |p: (int, int)| elem,
            ),
    {
        InfoGrid { cells: ndarray::Array2::from_elem([sx, sy], elem) }
    }

    /// `ArrayBase::dim`: the shape of the array.
    #[verifier::external_body]
    pub(crate) fn dim(&self) -> (r: (usize, usize))
        ensures
            r == info_grid_dims(*self),
            r.0 * r.1 <= isize::MAX,
    {
        self.cells.dim()
    }

    /// Indexing with `[[i, j]]`: the cell at `[i, j]`; it panics outside the
    /// shape.
    #[verifier::external_body]
    pub(crate) fn get(&self, i: usize, j: usize) -> (r: (TilingTile, Option<TileTilingInfo>))
        requires
            i < info_grid_dims(*self).0,
            j < info_grid_dims(*self).1,
        ensures
            r == info_grid_cells(*self)[(i as int, j as int)],
    {
        self.cells[[i, j]]
    }

    /// Assigning through `[[i, j]]`: replaces the cell at `[i, j]`; it panics
    /// outside the shape.
    #[verifier::external_body]
    pub(crate) fn set(&mut self, i: usize, j: usize, v: (TilingTile, Option<TileTilingInfo>))
        requires
            i < info_grid_dims(*old(self)).0,
            j < info_grid_dims(*old(self)).1,
        ensures
            info_grid_dims(*final(self)) == info_grid_dims(*old(self)),
            info_grid_cells(*final(self)) == info_grid_cells(*old(self)).insert((i as int, j as int), v),
    {
        self.cells[[i, j]] = v;
    }
}

/// A two-dimensional array of tiled cells with their caps, indexed `[i, j]`.
#[verifier::external_body]
pub struct TiledGrid {
    cells: ndarray::Array2<(Tile, CapInfo)>,
}

/// The cells of a `TiledGrid`: `tiled_grid_cells(g)[(i, j)]` is the cell at `[i, j]`.
pub uninterp spec fn tiled_grid_cells(g: TiledGrid) -> Map<(int, int), (Tile, CapInfo)>;

/// The shape that a `TiledGrid` was made with.
pub uninterp spec fn tiled_grid_dims(g: TiledGrid) -> (usize, usize);

impl TiledGrid {
    /// `ndarray::Array2::from_elem`: an `sx` by `sy` array with every cell
    /// `elem`; it panics when the product of the axis lengths that are not
    /// zero overflows `isize`.
    #[verifier::external_body]
    pub(crate) fn from_elem(sx: usize, sy: usize, elem: (Tile, CapInfo)) -> (g: Self)
        requires
            shape_fits(seq![sx, sy]),
        ensures
            tiled_grid_dims(g) == (sx, sy),
            tiled_grid_cells(g) == Map::new(
                |p: (int, int)| 0 <= p.0 < sx && 0 <= p.1 < sy,
                |p: (int, int)| elem,
            ),
    {
        TiledGrid { cells: ndarray::Array2::from_elem([sx, sy], elem) }
    }

    /// `ArrayBase::dim`: the shape of the array.
    #[verifier::external_body]
    pub(crate) fn dim(&self) -> (r: (usize, usize))
        ensures
            r == tiled_grid_dims(*self),
            r.0 * r.1 <= isize::MAX,
    {
        self.cells.dim()
    }

    /// Indexing with `[[i, j]]`: the cell at `[i, j]`; it panics outside the
    /// shape.
    #[verifier::external_body]
    pub(crate) fn get(&self, i: usize, j: usize) -> (r: (Tile, CapInfo))
        requires
            i < tiled_grid_dims(*self).0,
            j < tiled_grid_dims(*self).1,
        ensures
            r == tiled_grid_cells(*self)[(i as int, j as int)],
    {
        self.cells[[i, j]]
    }

    /// Assigning through `[[i, j]]`: replaces the cell at `[i, j]`; it panics
    /// outside the shape.
    #[verifier::external_body]
    pub(crate) fn set(&mut self, i: usize, j: usize, v: (Tile, CapInfo))
        requires
            i < tiled_grid_dims(*old(self)).0,
            j < tiled_grid_dims(*old(self)).1,
        ensures
            tiled_grid_dims(*final(self)) == tiled_grid_dims(*old(self)),
            tiled_grid_cells(*final(self)) == tiled_grid_cells(*old(self)).insert((i as int, j as int), v),
    {
        self.cells[[i, j]] = v;
    }
}


/// A cell together with its border.
pub type Cell = (TilingTile, Option<TileTilingInfo>);

/// `p` lies in the `sx` by `sy` rectangle of indices.
pub open spec fn in_rect(p: (int, int), sx: int, sy: int) -> bool {
    0 <= p.0 < sx && 0 <= p.1 < sy
}

/// Each cell of the `sx` by `sy` array `a` paired with its border.
pub open spec fn with_info(a: Map<(int, int), TilingTile>, sx: int, sy: int) -> Map<(int, int), Cell> {
    Map::new(|p: (int, int)| in_rect(p, sx, sy), |p: (int, int)| (a[p], tiling_info(a[p])))
}

/// The terrain of a neighbour whose right edge continues into the interior.
pub open spec fn terrain_if_right_int(o: Option<TileTilingInfo>) -> Option<Terrain> {
    match o {
        Some(ti) => if ti.right_int { Some(ti.terrain) } else { None },
        None => None,
    }
}

/// The terrain of a neighbour whose left edge continues into the interior.
pub open spec fn terrain_if_left_int(o: Option<TileTilingInfo>) -> Option<Terrain> {
    match o {
        Some(ti) => if ti.left_int { Some(ti.terrain) } else { None },
        None => None,
    }
}

/// The terrain of a neighbour whose top edge continues into the interior.
pub open spec fn terrain_if_top_int(o: Option<TileTilingInfo>) -> Option<Terrain> {
    match o {
        Some(ti) => if ti.top_int { Some(ti.terrain) } else { None },
        None => None,
    }
}

/// The terrain of a neighbour whose bottom edge continues into the interior.
pub open spec fn terrain_if_bottom_int(o: Option<TileTilingInfo>) -> Option<Terrain> {
    match o {
        Some(ti) => if ti.bottom_int { Some(ti.terrain) } else { None },
        None => None,
    }
}

/// The border of a ground cell once its cover is drawn: an edge whose
/// neighbour does not continue the same terrain into it stops being interior
/// and gets inner corners, on every side for a fully covered block and on the
/// top only for a top-covered one (a bare block keeps its border).
pub open spec fn covered_info(
    gc: GroundCover,
    terrain: Terrain,
    ti: TileTilingInfo,
    left: Option<Terrain>,
    right: Option<Terrain>,
    top: Option<Terrain>,
    bottom: Option<Terrain>,
) -> TileTilingInfo {
    let ti1 = if gc == GroundCover::FullyCovered && left != Some(terrain) {
        TileTilingInfo { bl: TilingCorner::Inner, tl: TilingCorner::Inner, left_int: false, ..ti }
    } else {
        ti
    };
    let ti2 = if gc == GroundCover::FullyCovered && right != Some(terrain) {
        TileTilingInfo { br: TilingCorner::Inner, tr: TilingCorner::Inner, right_int: false, ..ti1 }
    } else {
        ti1
    };
    let ti3 = if gc != GroundCover::Bare && top != Some(terrain) {
        TileTilingInfo { lt: TilingCorner::Inner, rt: TilingCorner::Inner, top_int: false, ..ti2 }
    } else {
        ti2
    };
    if gc == GroundCover::FullyCovered && bottom != Some(terrain) {
        TileTilingInfo { lb: TilingCorner::Inner, rb: TilingCorner::Inner, bottom_int: false, ..ti3 }
    } else {
        ti3
    }
}

/// One step of the first pass, at cell `(i + 1, j + 1)`: a ground cell gets
/// the border of its cover, read from its neighbours as they stand.
pub open spec fn cover_step(c: Map<(int, int), Cell>, i: int, j: int) -> Map<(int, int), Cell> {
    match c[(i + 1, j + 1)] {
        (TilingTile::Ground(gc, terrain), Some(ti)) => c.insert(
            (i + 1, j + 1),
            (
                c[(i + 1, j + 1)].0,
                Some(
                    covered_info(
                        gc,
                        terrain,
                        ti,
                        terrain_if_right_int(c[(i, j + 1)].1),
                        terrain_if_left_int(c[(i + 2, j + 1)].1),
                        terrain_if_bottom_int(c[(i + 1, j + 2)].1),
                        terrain_if_top_int(c[(i + 1, j)].1),
                    ),
                ),
            ),
        ),
        _ => c,
    }
}

/// The first pass over row `i` of the interior, columns `0` to `j - 1`, in
/// order.
pub open spec fn cover_row(c: Map<(int, int), Cell>, i: int, j: int) -> Map<(int, int), Cell>
    decreases j,
{
    if j <= 0 {
        c
    } else {
        cover_step(cover_row(c, i, j - 1), i, j - 1)
    }
}

/// The first pass over rows `0` to `i - 1` of an interior `ny` cells high, in
/// order: the cells are updated in place, so a cell reads its left and lower
/// neighbours as already covered.
pub open spec fn cover_rows(c: Map<(int, int), Cell>, i: int, ny: int) -> Map<(int, int), Cell>
    decreases i,
{
    if i <= 0 {
        c
    } else {
        cover_row(cover_rows(c, i - 1, ny), i - 1, ny)
    }
}

/// The corners and edges of a neighbour, or a blank border where there is no
/// neighbour that takes part in tiling.
pub open spec fn border_or_blank(o: Option<TileTilingInfo>) -> TileTilingInfo {
    match o {
        Some(ti) => ti,
        None => blank_info(Terrain::Cake),
    }
}

/// The terrain tile of an interior ground cell, from the corners that its
/// neighbours show around it.
pub open spec fn interior_tile(c: Map<(int, int), Cell>, i: int, j: int) -> TerrainTile {
    let left = border_or_blank(c[(i, j + 1)].1);
    let right = border_or_blank(c[(i + 2, j + 1)].1);
    let top = border_or_blank(c[(i + 1, j + 2)].1);
    let bottom = border_or_blank(c[(i + 1, j)].1);
    let tl = spec_merge_corners(left.rt, top.bl);
    let tr = spec_merge_corners(right.lt, top.br);
    let bl = spec_merge_corners(left.rb, bottom.tl);
    let br = spec_merge_corners(right.lb, bottom.tr);
    if tl == TilingCorner::Slope || tr == TilingCorner::Slope {
        TerrainTile::SlopeInt(if tl == TilingCorner::Slope { LR::L } else { LR::R })
    } else if tl == TilingCorner::Inner {
        TerrainTile::FaceInt(LR::L, TB::T)
    } else if tr == TilingCorner::Inner {
        TerrainTile::FaceInt(LR::R, TB::T)
    } else if bl == TilingCorner::Inner {
        TerrainTile::FaceInt(LR::L, TB::B)
    } else if br == TilingCorner::Inner {
        TerrainTile::FaceInt(LR::R, TB::B)
    } else {
        TerrainTile::BlockFace(LMR::M, TMB::M)
    }
}

/// The tile of cell `(i + 1, j + 1)`: a fixed tile stays as it is; ground
/// shows a face on the edges that are not interior, or else the interior
/// tile that its neighbours' corners call for.
pub open spec fn tiled_tile(c: Map<(int, int), Cell>, i: int, j: int) -> Tile {
    match c[(i + 1, j + 1)].0 {
        TilingTile::Exactly(t) => t,
        TilingTile::Ground(_, terrain) => {
            let ti = match c[(i + 1, j + 1)].1 {
                Some(x) => x,
                None => blank_info(terrain),
            };
            let lmr = if ti.left_int && !ti.right_int {
                LMR::R
            } else if !ti.left_int && ti.right_int {
                LMR::L
            } else {
                LMR::M
            };
            let tmb = if ti.top_int && !ti.bottom_int {
                TMB::B
            } else if !ti.top_int && ti.bottom_int {
                TMB::T
            } else {
                TMB::M
            };
            if lmr != LMR::M || tmb != TMB::M {
                Tile::Terrain(terrain, TerrainTile::BlockFace(lmr, tmb))
            } else {
                Tile::Terrain(terrain, interior_tile(c, i, j))
            }
        },
    }
}

/// The cap that a neighbour's border puts over a cell: none without a
/// neighbour or where both show the same terrain with the same top edge, else
/// the neighbour's terrain when its top edge is not interior.
pub open spec fn cap_from(n: Option<TileTilingInfo>, me: Option<TileTilingInfo>) -> Option<Terrain> {
    match n {
        None => None,
        Some(t1) => match me {
            Some(t2) => if t1.terrain == t2.terrain && t1.top_int == t2.top_int {
                None
            } else if !t1.top_int {
                Some(t1.terrain)
            } else {
                None
            },
            None => if !t1.top_int { Some(t1.terrain) } else { None },
        },
    }
}

/// The tile and caps of cell `(i, j)` of the tiled output.
pub open spec fn tiled_cell(c: Map<(int, int), Cell>, i: int, j: int) -> (Tile, CapInfo) {
    (
        tiled_tile(c, i, j),
        CapInfo {
            left_cap: cap_from(c[(i + 2, j + 1)].1, c[(i + 1, j + 1)].1),
            right_cap: cap_from(c[(i, j + 1)].1, c[(i + 1, j + 1)].1),
        },
    )
}

fn terrain_if_right_int_exec(o: Option<TileTilingInfo>) -> (r: Option<Terrain>)
    ensures
        r == terrain_if_right_int(o),
{
    match o {
        Some(ti) => if ti.right_int { Some(ti.terrain) } else { None },
        None => None,
    }
}

fn terrain_if_left_int_exec(o: Option<TileTilingInfo>) -> (r: Option<Terrain>)
    ensures
        r == terrain_if_left_int(o),
{
    match o {
        Some(ti) => if ti.left_int { Some(ti.terrain) } else { None },
        None => None,
    }
}

fn terrain_if_top_int_exec(o: Option<TileTilingInfo>) -> (r: Option<Terrain>)
    ensures
        r == terrain_if_top_int(o),
{
    match o {
        Some(ti) => if ti.top_int { Some(ti.terrain) } else { None },
        None => None,
    }
}

fn terrain_if_bottom_int_exec(o: Option<TileTilingInfo>) -> (r: Option<Terrain>)
    ensures
        r == terrain_if_bottom_int(o),
{
    match o {
        Some(ti) => if ti.bottom_int { Some(ti.terrain) } else { None },
        None => None,
    }
}

/// `o` is not `Some(t)`.
fn differs(o: Option<Terrain>, t: Terrain) -> (r: bool)
    ensures
        r == (o != Some(t)),
{
    match o {
        Some(x) => x != t,
        None => true,
    }
}

fn covered_info_exec(
    gc: GroundCover,
    terrain: Terrain,
    ti: TileTilingInfo,
    left: Option<Terrain>,
    right: Option<Terrain>,
    top: Option<Terrain>,
    bottom: Option<Terrain>,
) -> (r: TileTilingInfo)
    ensures
        r == covered_info(gc, terrain, ti, left, right, top, bottom),
{
    let mut ti = ti;
    if gc == GroundCover::FullyCovered && differs(left, terrain) {
        ti.bl = TilingCorner::Inner;
        ti.tl = TilingCorner::Inner;
        ti.left_int = false;
    }
    if gc == GroundCover::FullyCovered && differs(right, terrain) {
        ti.br = TilingCorner::Inner;
        ti.tr = TilingCorner::Inner;
        ti.right_int = false;
    }
    if gc != GroundCover::Bare && differs(top, terrain) {
        ti.lt = TilingCorner::Inner;
        ti.rt = TilingCorner::Inner;
        ti.top_int = false;
    }
    if gc == GroundCover::FullyCovered && differs(bottom, terrain) {
        ti.lb = TilingCorner::Inner;
        ti.rb = TilingCorner::Inner;
        ti.bottom_int = false;
    }
    ti
}

fn border_or_blank_exec(o: Option<TileTilingInfo>) -> (r: TileTilingInfo)
    ensures
        r == border_or_blank(o),
{
    match o {
        Some(ti) => ti,
        None => TileTilingInfo::new(Terrain::Cake),
    }
}

fn cap_from_exec(n: Option<TileTilingInfo>, me: Option<TileTilingInfo>) -> (r: Option<Terrain>)
    ensures
        r == cap_from(n, me),
{
    match n {
        None => None,
        Some(t1) => match me {
            Some(t2) => if t1.terrain == t2.terrain && t1.top_int == t2.top_int {
                None
            } else if !t1.top_int {
                Some(t1.terrain)
            } else {
                None
            },
            None => if !t1.top_int { Some(t1.terrain) } else { None },
        },
    }
}

fn interior_tile_exec(c: &InfoGrid, i: usize, j: usize) -> (r: TerrainTile)
    requires
        i + 2 < info_grid_dims(*c).0,
        j + 2 < info_grid_dims(*c).1,
    ensures
        r == interior_tile(info_grid_cells(*c), i as int, j as int),
{
    let left = border_or_blank_exec(c.get(i, j + 1).1);
    let right = border_or_blank_exec(c.get(i + 2, j + 1).1);
    let top = border_or_blank_exec(c.get(i + 1, j + 2).1);
    let bottom = border_or_blank_exec(c.get(i + 1, j).1);
    let tl = merge_corners(left.rt, top.bl);
    let tr = merge_corners(right.lt, top.br);
    let bl = merge_corners(left.rb, bottom.tl);
    let br = merge_corners(right.lb, bottom.tr);
    if tl == TilingCorner::Slope || tr == TilingCorner::Slope {
        let lr = if tl == TilingCorner::Slope { LR::L } else { LR::R };
        TerrainTile::SlopeInt(lr)
    } else if tl == TilingCorner::Inner {
        TerrainTile::FaceInt(LR::L, TB::T)
    } else if tr == TilingCorner::Inner {
        TerrainTile::FaceInt(LR::R, TB::T)
    } else if bl == TilingCorner::Inner {
        TerrainTile::FaceInt(LR::L, TB::B)
    } else if br == TilingCorner::Inner {
        TerrainTile::FaceInt(LR::R, TB::B)
    } else {
        TerrainTile::BlockFace(LMR::M, TMB::M)
    }
}

fn tiled_cell_exec(c: &InfoGrid, i: usize, j: usize) -> (r: (Tile, CapInfo))
    requires
        i + 2 < info_grid_dims(*c).0,
        j + 2 < info_grid_dims(*c).1,
    ensures
        r == tiled_cell(info_grid_cells(*c), i as int, j as int),
{
    let me = c.get(i + 1, j + 1);
    let tile = match me.0 {
        TilingTile::Exactly(t) => t,
        TilingTile::Ground(_, terrain) => {
            let ti = match me.1 {
                Some(x) => x,
                None => TileTilingInfo::new(terrain),
            };
            let lmr = if ti.left_int && !ti.right_int {
                LMR::R
            } else if !ti.left_int && ti.right_int {
                LMR::L
            } else {
                LMR::M
            };
            let tmb = if ti.top_int && !ti.bottom_int {
                TMB::B
            } else if !ti.top_int && ti.bottom_int {
                TMB::T
            } else {
                TMB::M
            };
            if lmr != LMR::M || tmb != TMB::M {
                Tile::Terrain(terrain, TerrainTile::BlockFace(lmr, tmb))
            } else {
                Tile::Terrain(terrain, interior_tile_exec(c, i, j))
            }
        },
    };
    let right_cap = cap_from_exec(c.get(i, j + 1).1, me.1);
    let left_cap = cap_from_exec(c.get(i + 2, j + 1).1, me.1);
    (tile, CapInfo { left_cap, right_cap })
}

/// Tiles an array of cells: the output is two cells smaller in each
/// direction (the outer ring only serves as neighbours). A first pass, in
/// place and in order, gives each ground cell the border of its cover; a
/// second pass picks each cell's tile and caps from the bordered cells.
pub fn compute_tiling(array: TilingGrid) -> (out: TiledGrid)
    requires
        tiling_grid_dims(array).0 >= 2,
        tiling_grid_dims(array).1 >= 2,
    ensures
        tiled_grid_dims(out) == ((tiling_grid_dims(array).0 - 2) as usize, (tiling_grid_dims(
            array,
        ).1 - 2) as usize),
        forall|i: int, j: int|
            #![trigger tiled_grid_cells(out)[(i, j)]]
            0 <= i < tiling_grid_dims(array).0 - 2 && 0 <= j < tiling_grid_dims(array).1 - 2
                ==> tiled_grid_cells(out)[(i, j)] == tiled_cell(
                cover_rows(
                    with_info(
                        tiling_grid_cells(array),
                        tiling_grid_dims(array).0 as int,
                        tiling_grid_dims(array).1 as int,
                    ),
                    tiling_grid_dims(array).0 - 2,
                    tiling_grid_dims(array).1 - 2,
                ),
                i,
                j,
            ),
{
    let (sx, sy) = array.dim();
    let ghost a = tiling_grid_cells(array);
    let ghost init = with_info(a, sx as int, sy as int);
    proof {
        lemma_shape_fits2(sx, sy);
    }
    let mut array2 = InfoGrid::from_elem(sx, sy, (TilingTile::Exactly(Tile::Air), None));
    let mut i: usize = 0;
    while i < sx
        invariant
            0 <= i <= sx,
            sx == tiling_grid_dims(array).0,
            sy == tiling_grid_dims(array).1,
            a == tiling_grid_cells(array),
            init == with_info(a, sx as int, sy as int),
            info_grid_dims(array2) == (sx, sy),
            info_grid_cells(array2).dom() == init.dom(),
            forall|p: (int, int)|
                #![trigger info_grid_cells(array2)[p]]
                in_rect(p, sx as int, sy as int) && p.0 < i ==> info_grid_cells(array2)[p]
                    == init[p],
        decreases sx - i,
    {
        let mut j: usize = 0;
        while j < sy
            invariant
                0 <= i < sx,
                0 <= j <= sy,
                sx == tiling_grid_dims(array).0,
                sy == tiling_grid_dims(array).1,
                a == tiling_grid_cells(array),
                init == with_info(a, sx as int, sy as int),
                info_grid_dims(array2) == (sx, sy),
                info_grid_cells(array2).dom() == init.dom(),
                forall|p: (int, int)|
                    #![trigger info_grid_cells(array2)[p]]
                    in_rect(p, sx as int, sy as int) && (p.0 < i || (p.0 == i && p.1 < j))
                        ==> info_grid_cells(array2)[p] == init[p],
            decreases sy - j,
        {
            let t = array.get(i, j);
            array2.set(i, j, (t, t.info()));
            proof {
                assert(init.dom().contains((i as int, j as int)));
            }
            j = j + 1;
        }
        i = i + 1;
    }
    proof {
        assert(info_grid_cells(array2) =~= init);
    }
    let nx = sx - 2;
    let ny = sy - 2;
    assert(nx * ny <= isize::MAX) by (nonlinear_arith)
        requires
            sx * sy <= isize::MAX,
            nx == sx - 2,
            ny == sy - 2,
            nx >= 0,
            ny >= 0,
    ;
    proof {
        assert(axis_factor(nx) * axis_factor(ny) <= sx * sy) by (nonlinear_arith)
            requires
                sx >= 2,
                sy >= 2,
                nx == sx - 2,
                ny == sy - 2,
                1 <= axis_factor(nx) <= sx,
                1 <= axis_factor(ny) <= sy,
        ;
        lemma_shape_fits2(nx, ny);
    }
    let mut i: usize = 0;
    while i < nx
        invariant
            0 <= i <= nx,
            nx == sx - 2,
            ny == sy - 2,
            info_grid_dims(array2) == (sx, sy),
            info_grid_cells(array2) == cover_rows(init, i as int, ny as int),
        decreases nx - i,
    {
        let mut j: usize = 0;
        while j < ny
            invariant
                0 <= i < nx,
                0 <= j <= ny,
                nx == sx - 2,
                ny == sy - 2,
                info_grid_dims(array2) == (sx, sy),
                info_grid_cells(array2) == cover_row(
                    cover_rows(init, i as int, ny as int),
                    i as int,
                    j as int,
                ),
            decreases ny - j,
        {
            let cur = array2.get(i + 1, j + 1);
            match cur {
                (TilingTile::Ground(gc, terrain), Some(ti)) => {
                    let left = terrain_if_right_int_exec(array2.get(i, j + 1).1);
                    let right = terrain_if_left_int_exec(array2.get(i + 2, j + 1).1);
                    let top = terrain_if_bottom_int_exec(array2.get(i + 1, j + 2).1);
                    let bottom = terrain_if_top_int_exec(array2.get(i + 1, j).1);
                    let ti2 = covered_info_exec(gc, terrain, ti, left, right, top, bottom);
                    array2.set(i + 1, j + 1, (cur.0, Some(ti2)));
                },
                _ => {},
            }
            j = j + 1;
        }
        i = i + 1;
    }
    let ghost covered = info_grid_cells(array2);
    let mut out = TiledGrid::from_elem(
        nx,
        ny,
        (Tile::Air, CapInfo { left_cap: None, right_cap: None }),
    );
    let mut i: usize = 0;
    while i < nx
        invariant
            0 <= i <= nx,
            nx == sx - 2,
            ny == sy - 2,
            info_grid_dims(array2) == (sx, sy),
            info_grid_cells(array2) == covered,
            tiled_grid_dims(out) == (nx, ny),
            forall|p: (int, int)|
                #![trigger tiled_grid_cells(out)[p]]
                in_rect(p, nx as int, ny as int) && p.0 < i ==> tiled_grid_cells(out)[p]
                    == tiled_cell(covered, p.0, p.1),
        decreases nx - i,
    {
        let mut j: usize = 0;
        while j < ny
            invariant
                0 <= i < nx,
                0 <= j <= ny,
                nx == sx - 2,
                ny == sy - 2,
                info_grid_dims(array2) == (sx, sy),
                info_grid_cells(array2) == covered,
                tiled_grid_dims(out) == (nx, ny),
                forall|p: (int, int)|
                    #![trigger tiled_grid_cells(out)[p]]
                    in_rect(p, nx as int, ny as int) && (p.0 < i || (p.0 == i && p.1 < j))
                        ==> tiled_grid_cells(out)[p] == tiled_cell(covered, p.0, p.1),
            decreases ny - j,
        {
            let v = tiled_cell_exec(&array2, i, j);
            out.set(i, j, v);
            j = j + 1;
        }
        i = i + 1;
    }
    proof {
        assert forall|i: int, j: int|
            #![trigger tiled_grid_cells(out)[(i, j)]]
            0 <= i < nx && 0 <= j < ny implies tiled_grid_cells(out)[(i, j)] == tiled_cell(
            covered,
            i,
            j,
        ) by {
            assert(in_rect((i, j), nx as int, ny as int));
        }
    }
    out
}

/// The first pass only changes borders: every cell keeps its tile.
pub proof fn lemma_cover_row_keeps_tiles(c: Map<(int, int), Cell>, i: int, j: int, p: (int, int))
    requires
        c.dom().contains(p),
    ensures
        cover_row(c, i, j).dom().contains(p),
        cover_row(c, i, j)[p].0 == c[p].0,
    decreases j,
{
    if j > 0 {
        lemma_cover_row_keeps_tiles(c, i, j - 1, p);
    }
}

/// The first pass over several rows only changes borders: every cell keeps
/// its tile.
pub proof fn lemma_cover_rows_keeps_tiles(c: Map<(int, int), Cell>, i: int, ny: int, p: (int, int))
    requires
        c.dom().contains(p),
    ensures
        cover_rows(c, i, ny).dom().contains(p),
        cover_rows(c, i, ny)[p].0 == c[p].0,
    decreases i,
{
    if i > 0 {
        lemma_cover_rows_keeps_tiles(c, i - 1, ny, p);
        lemma_cover_row_keeps_tiles(cover_rows(c, i - 1, ny), i - 1, ny, p);
    }
}

/// The first pass leaves a cell with a fixed tile as it is, border and all.
pub proof fn lemma_cover_row_keeps_fixed(c: Map<(int, int), Cell>, i: int, j: int, p: (int, int))
    requires
        c.dom().contains(p),
        c[p].0 is Exactly,
    ensures
        cover_row(c, i, j)[p] == c[p],
    decreases j,
{
    if j > 0 {
        lemma_cover_row_keeps_fixed(c, i, j - 1, p);
    }
}

/// The first pass over several rows leaves a cell with a fixed tile as it
/// is, border and all.
pub proof fn lemma_cover_rows_keeps_fixed(c: Map<(int, int), Cell>, i: int, ny: int, p: (int, int))
    requires
        c.dom().contains(p),
        c[p].0 is Exactly,
    ensures
        cover_rows(c, i, ny)[p] == c[p],
    decreases i,
{
    if i > 0 {
        lemma_cover_rows_keeps_fixed(c, i - 1, ny, p);
        lemma_cover_rows_keeps_tiles(c, i - 1, ny, p);
        lemma_cover_row_keeps_fixed(cover_rows(c, i - 1, ny), i - 1, ny, p);
    }
}

/// Tiling keeps every fixed tile where it is (shifted by the outer ring), and
/// turns every ground cell into a tile of that ground's terrain.
pub proof fn lemma_tiling_keeps_tiles(a: Map<(int, int), TilingTile>, sx: int, sy: int, i: int, j: int)
    requires
        sx >= 2,
        sy >= 2,
        0 <= i < sx - 2,
        0 <= j < sy - 2,
    ensures
        ({
            let out = tiled_cell(cover_rows(with_info(a, sx, sy), sx - 2, sy - 2), i, j).0;
            &&& (a[(i + 1, j + 1)] matches TilingTile::Exactly(t) ==> out == t)
            &&& (a[(i + 1, j + 1)] matches TilingTile::Ground(_, terrain) ==> out matches Tile::Terrain(
                t2,
                _,
            ) && t2 == terrain)
        }),
{
    let c = with_info(a, sx, sy);
    assert(c.dom().contains((i + 1, j + 1)));
    lemma_cover_rows_keeps_tiles(c, sx - 2, sy - 2, (i + 1, j + 1));
}

/// The face of a tiled ground cell points at its exposed sides: a ground
/// cell whose border shows its left edge exposed and its right edge
/// interior gets a left-end face, and the other way round a right-end face;
/// likewise an exposed top with an interior bottom gives a top face and an
/// exposed bottom with an interior top a bottom face; a cell whose opposite
/// edges agree shows no end face. The tile is always of the cell's terrain,
/// and a cell with a fixed tile keeps it.
pub proof fn lemma_tiled_faces(c: Map<(int, int), Cell>, i: int, j: int)
    ensures
        c[(i + 1, j + 1)].0 matches TilingTile::Exactly(t) ==> tiled_cell(c, i, j).0 == t,
        c[(i + 1, j + 1)] matches (TilingTile::Ground(_, terrain), Some(ti)) ==> {
            let out = tiled_cell(c, i, j).0;
            &&& out matches Tile::Terrain(t2, _) && t2 == terrain
            &&& (!ti.left_int && ti.right_int ==> out matches Tile::Terrain(
                _,
                TerrainTile::BlockFace(LMR::L, _),
            ))
            &&& (ti.left_int && !ti.right_int ==> out matches Tile::Terrain(
                _,
                TerrainTile::BlockFace(LMR::R, _),
            ))
            &&& (!ti.top_int && ti.bottom_int ==> out matches Tile::Terrain(
                _,
                TerrainTile::BlockFace(_, TMB::T),
            ))
            &&& (ti.top_int && !ti.bottom_int ==> out matches Tile::Terrain(
                _,
                TerrainTile::BlockFace(_, TMB::B),
            ))
            &&& (ti.left_int == ti.right_int && ti.top_int == ti.bottom_int ==> match out {
                Tile::Terrain(_, TerrainTile::BlockFace(l, m)) => l == LMR::M && m == TMB::M,
                _ => true,
            })
        },
{
}

/// The caps of a tiled cell come from its neighbours: a cell that takes no
/// part in tiling (air, say) next to a cell whose top edge is exposed gets a
/// cap of that neighbour's terrain, on the neighbour's side: a right cap when
/// the neighbour is on its left, a left cap when it is on its right. A cell
/// with no tiling neighbour on a side gets no cap from it.
pub proof fn lemma_tiled_caps(c: Map<(int, int), Cell>, i: int, j: int)
    ensures
        c[(i + 1, j + 1)].1 is None ==> match c[(i, j + 1)].1 {
            Some(ln) => !ln.top_int ==> tiled_cell(c, i, j).1.right_cap == Some(ln.terrain),
            None => true,
        },
        c[(i + 1, j + 1)].1 is None ==> match c[(i + 2, j + 1)].1 {
            Some(rn) => !rn.top_int ==> tiled_cell(c, i, j).1.left_cap == Some(rn.terrain),
            None => true,
        },
        c[(i, j + 1)].1 is None ==> tiled_cell(c, i, j).1.right_cap is None,
        c[(i + 2, j + 1)].1 is None ==> tiled_cell(c, i, j).1.left_cap is None,
{
}

} // verus!
