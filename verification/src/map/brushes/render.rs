//! Rendering a rectangle of a level into five layers of tiles: background,
//! tiled midground, foreground, and the left and right ground caps.

use vstd::prelude::*;
use crate::helpers::Box2;
use crate::map::Place;
use crate::map::brushes::{Terrain, TerrainTile, Tile, LR};
use crate::map::brushes::{MushroomStyle};
use crate::map::brushes::features::Schema;
use crate::map::brushes::tiles::{get_tile, possible_tile, LayeredTile, PointNoise};
use crate::map::brushes::tiling::{
    axis_factor, CapInfo, compute_tiling, lemma_shape_fits2, lemma_shape_fits3, shape_fits, cover_rows, in_rect, tiled_cell, tiled_grid_cells, tiled_grid_dims,
    tiling_grid_cells, tiling_grid_dims, with_info, TiledGrid, TilingGrid, TilingTile,
};

verus! {

/// A three-dimensional array of tiles, indexed `[i, j, layer]`.
#[verifier::external_body]
pub struct TileLayers {
    cells: ndarray::Array3<Tile>,
}

/// The tiles of a `TileLayers`: `layers_cells(t)[(i, j, k)]` is the tile at
/// `[i, j, k]`.
pub uninterp spec fn layers_cells(t: TileLayers) -> Map<(int, int, int), Tile>;

/// The shape that a `TileLayers` was made with.
pub uninterp spec fn layers_dims(t: TileLayers) -> (usize, usize, usize);

/// `p` lies in the `d.0` by `d.1` by `d.2` box of indices.
pub open spec fn in_box3(p: (int, int, int), d: (usize, usize, usize)) -> bool {
    0 <= p.0 < d.0 && 0 <= p.1 < d.1 && 0 <= p.2 < d.2
}

impl TileLayers {
    /// `ndarray::Array3::from_elem`: an array of the shape `d` with every
    /// tile `elem`; it panics when the product of the axis lengths that are
    /// not zero overflows `isize`.
    #[verifier::external_body]
    pub(crate) fn from_elem(d: (usize, usize, usize), elem: Tile) -> (t: Self)
        requires
            shape_fits(seq![d.0, d.1, d.2]),
        ensures
            layers_dims(t) == d,
            layers_cells(t) == Map::new(|p: (int, int, int)| in_box3(p, d), |p: (int, int, int)| elem),
    {
        TileLayers { cells: ndarray::Array3::from_elem([d.0, d.1, d.2], elem) }
    }

    /// `ArrayBase::dim`: the shape of the array.
    #[verifier::external_body]
    pub(crate) fn dim(&self) -> (r: (usize, usize, usize))
        ensures
            r == layers_dims(*self),
    {
        self.cells.dim()
    }

    /// Indexing with `[[i, j, k]]`: the tile at `[i, j, k]`; it panics
    /// outside the shape.
    #[verifier::external_body]
    pub(crate) fn get(&self, i: usize, j: usize, k: usize) -> (r: Tile)
        requires
            in_box3((i as int, j as int, k as int), layers_dims(*self)),
        ensures
            r == layers_cells(*self)[(i as int, j as int, k as int)],
    {
        self.cells[[i, j, k]]
    }

    /// Assigning through `[[i, j, k]]`: replaces the tile at `[i, j, k]`; it
    /// panics outside the shape.
    #[verifier::external_body]
    pub(crate) fn set(&mut self, i: usize, j: usize, k: usize, v: Tile)
        requires
            in_box3((i as int, j as int, k as int), layers_dims(*old(self))),
        ensures
            layers_dims(*final(self)) == layers_dims(*old(self)),
            layers_cells(*final(self)) == layers_cells(*old(self)).insert(
                (i as int, j as int, k as int),
                v,
            ),
    {
        self.cells[[i, j, k]] = v;
    }

    /// The shape of the layers: columns, rows, layers.
    pub fn shape(&self) -> (r: (usize, usize, usize))
        ensures
            r == layers_dims(*self),
    {
        self.dim()
    }

    /// The tile of layer `k` at column `i`, row `j`.
    pub fn tile(&self, i: usize, j: usize, k: usize) -> (r: Tile)
        requires
            in_box3((i as int, j as int, k as int), layers_dims(*self)),
        ensures
            r == layers_cells(*self)[(i as int, j as int, k as int)],
    {
        self.get(i, j, k)
    }
}

/// The tile of a fixed cell, air for a ground cell.
pub open spec fn exactly_or_air(t: TilingTile) -> Tile {
    match t {
        TilingTile::Exactly(x) => x,
        TilingTile::Ground(_, _) => Tile::Air,
    }
}

/// The midground cells of an `sx` by `sy` grid of layers.
pub open spec fn midground_grid(lt: Map<(int, int), LayeredTile>, sx: int, sy: int) -> Map<
    (int, int),
    TilingTile,
> {
    Map::new(|p: (int, int)| in_rect(p, sx, sy), |p: (int, int)| lt[p].midground)
}

/// The tile of layer `k` of a rendered cell: the fixed background tile
/// `bt`, the tiled midground, the fixed foreground tile `ft`, and the left
/// and right caps of the tiled midground.
pub open spec fn cell_layer(bt: TilingTile, tiled: (Tile, CapInfo), ft: TilingTile, k: int) -> Tile {
    if k == 0 {
        exactly_or_air(bt)
    } else if k == 1 {
        tiled.0
    } else if k == 2 {
        exactly_or_air(ft)
    } else if k == 3 {
        match tiled.1.left_cap {
            Some(terrain) => Tile::Terrain(terrain, TerrainTile::Cap(LR::L)),
            None => Tile::Air,
        }
    } else {
        match tiled.1.right_cap {
            Some(terrain) => Tile::Terrain(terrain, TerrainTile::Cap(LR::R)),
            None => Tile::Air,
        }
    }
}

/// The tile of layer `k` at column `i`, row `j` of an `sx` by `sy`
/// rectangle rendered from the layers `lt` of the points of the rectangle
/// grown by one on every side (indexed from its lower corner); the midground
/// is tiled with the ring of neighbours.
pub open spec fn rendered_cell(lt: Map<(int, int), LayeredTile>, sx: int, sy: int, i: int, j: int, k: int) -> Tile {
    cell_layer(
        lt[(i + 1, j + 1)].background,
        tiled_cell(cover_rows(with_info(midground_grid(lt, sx + 2, sy + 2), sx + 2, sy + 2), sx, sy), i, j),
        lt[(i + 1, j + 1)].foreground,
        k,
    )
}

/// The rectangle can be rendered: its extended bounds are `i32`s and its
/// arrays fit in memory.
pub open spec fn renderable(box2: Box2) -> bool {
    &&& box2.wf()
    &&& box2.x.size_fits()
    &&& box2.y.size_fits()
    &&& box2.x.lo_incl > i32::MIN
    &&& box2.y.lo_incl > i32::MIN
    &&& box2.x.hi_excl < i32::MAX
    &&& box2.y.hi_excl < i32::MAX
    &&& (box2.x.spec_size() + 2) * (box2.y.spec_size() + 2) * 5 <= isize::MAX
}

/// The layers of each point of the rectangle `x0..x0 + sx` by `y0..y0 + sy`,
/// as three grids of cells indexed from 0.
fn layer_grids<T: Fn(Place) -> LayeredTile>(x0: i32, y0: i32, sx: usize, sy: usize, tile_at: &T) -> (r: (
    TilingGrid,
    TilingGrid,
    TilingGrid,
    Ghost<Map<(int, int), LayeredTile>>,
))
    requires
        shape_fits(seq![sx, sy]),
        x0 + sx <= i32::MAX,
        y0 + sy <= i32::MAX,
        forall|p: Place| tile_at.requires((p,)),
    ensures
        tiling_grid_dims(r.0) == (sx, sy),
        tiling_grid_dims(r.1) == (sx, sy),
        tiling_grid_dims(r.2) == (sx, sy),
        forall|a: int, b: int|
            #![trigger r.3@[(a, b)]]
            0 <= a < sx && 0 <= b < sy ==> {
                &&& tile_at.ensures((Place { x: (x0 + a) as i32, y: (y0 + b) as i32 },), r.3@[(a, b)])
                &&& tiling_grid_cells(r.0)[(a, b)] == r.3@[(a, b)].background
                &&& tiling_grid_cells(r.2)[(a, b)] == r.3@[(a, b)].foreground
            },
        tiling_grid_cells(r.1) == midground_grid(r.3@, sx as int, sy as int),
{
    proof {
        lemma_shape_fits2(sx, sy);
        assert(sx * sy <= axis_factor(sx) * axis_factor(sy)) by (nonlinear_arith)
            requires
                sx == 0 || axis_factor(sx) == sx,
                sy == 0 || axis_factor(sy) == sy,
                axis_factor(sx) >= 1,
                axis_factor(sy) >= 1,
        ;
    }
    let mut back = TilingGrid::from_elem(sx, sy, TilingTile::Exactly(Tile::Air));
    let mut mid = TilingGrid::from_elem(sx, sy, TilingTile::Exactly(Tile::Air));
    let mut fore = TilingGrid::from_elem(sx, sy, TilingTile::Exactly(Tile::Air));
    let ghost mut lt: Map<(int, int), LayeredTile> = Map::empty();
    let mut i: usize = 0;
    while i < sx
        invariant
            i <= sx,
            sx * sy <= isize::MAX,
            x0 + sx <= i32::MAX,
            y0 + sy <= i32::MAX,
            forall|p: Place| tile_at.requires((p,)),
            tiling_grid_dims(back) == (sx, sy),
            tiling_grid_dims(mid) == (sx, sy),
            tiling_grid_dims(fore) == (sx, sy),
            tiling_grid_cells(mid).dom() == Set::new(|p: (int, int)| in_rect(p, sx as int, sy as int)),
            forall|a: int, b: int|
                #![trigger lt[(a, b)]]
                0 <= a < i && 0 <= b < sy ==> {
                    &&& tile_at.ensures((Place { x: (x0 + a) as i32, y: (y0 + b) as i32 },), lt[(a, b)])
                    &&& tiling_grid_cells(back)[(a, b)] == lt[(a, b)].background
                    &&& tiling_grid_cells(mid)[(a, b)] == lt[(a, b)].midground
                    &&& tiling_grid_cells(fore)[(a, b)] == lt[(a, b)].foreground
                },
        decreases sx - i,
    {
        let mut j: usize = 0;
        while j < sy
            invariant
                i < sx,
                j <= sy,
                sx * sy <= isize::MAX,
                x0 + sx <= i32::MAX,
                y0 + sy <= i32::MAX,
                forall|p: Place| tile_at.requires((p,)),
                tiling_grid_dims(back) == (sx, sy),
                tiling_grid_dims(mid) == (sx, sy),
                tiling_grid_dims(fore) == (sx, sy),
                tiling_grid_cells(mid).dom() == Set::new(|p: (int, int)| in_rect(p, sx as int, sy as int)),
                forall|a: int, b: int|
                    #![trigger lt[(a, b)]]
                    (0 <= a < i && 0 <= b < sy) || (a == i && 0 <= b < j) ==> {
                        &&& tile_at.ensures((Place { x: (x0 + a) as i32, y: (y0 + b) as i32 },), lt[(a, b)])
                        &&& tiling_grid_cells(back)[(a, b)] == lt[(a, b)].background
                        &&& tiling_grid_cells(mid)[(a, b)] == lt[(a, b)].midground
                        &&& tiling_grid_cells(fore)[(a, b)] == lt[(a, b)].foreground
                    },
            decreases sy - j,
        {
            proof {
                assert(sx <= sx * sy) by (nonlinear_arith)
                    requires
                        sy >= 1,
                ;
                assert(sy <= sx * sy) by (nonlinear_arith)
                    requires
                        sx >= 1,
                ;
            }
            let px = (x0 as i64 + i as i64) as i32;
            let py = (y0 as i64 + j as i64) as i32;
            let p = Place::new(px, py);
            assert(p == Place { x: (x0 + i) as i32, y: (y0 + j) as i32 });
            let t = tile_at(p);
            back.set(i, j, t.background);
            mid.set(i, j, t.midground);
            fore.set(i, j, t.foreground);
            proof {
                lt = lt.insert((i as int, j as int), t);
                assert(tiling_grid_cells(mid).dom() =~= Set::new(
                    |p: (int, int)| in_rect(p, sx as int, sy as int),
                ));
            }
            j = j + 1;
        }
        i = i + 1;
    }
    proof {
        assert forall|p: (int, int)| #[trigger] in_rect(p, sx as int, sy as int) implies tiling_grid_cells(
            mid,
        )[p] == lt[p].midground by {
            assert(lt[(p.0, p.1)] == lt[p]);
        }
        assert(tiling_grid_cells(mid) =~= midground_grid(lt, sx as int, sy as int));
    }
    (back, mid, fore, Ghost(lt))
}

/// `out` is `box2` rendered from the layers `lt` that `tile_at` gave for
/// the points of `box2` grown by one on every side (indexed from its lower
/// corner).
pub open spec fn rendered_from<T: Fn(Place) -> LayeredTile>(
    out: TileLayers,
    lt: Map<(int, int), LayeredTile>,
    box2: Box2,
    tile_at: &T,
) -> bool {
    &&& forall|a: int, b: int|
        #![trigger lt[(a, b)]]
        0 <= a < box2.x.spec_size() + 2 && 0 <= b < box2.y.spec_size() + 2 ==> tile_at.ensures(
            (Place { x: (box2.x.lo_incl - 1 + a) as i32, y: (box2.y.lo_incl - 1 + b) as i32 },),
            lt[(a, b)],
        )
    &&& forall|p: (int, int, int)|
        #![trigger layers_cells(out)[p]]
        in_box3(p, layers_dims(out)) ==> layers_cells(out)[p] == rendered_cell(
            lt,
            box2.x.spec_size(),
            box2.y.spec_size(),
            p.0,
            p.1,
            p.2,
        )
}

/// Writes the five layers of the cell at column `i`, row `j`.
fn render_cell(out: &mut TileLayers, i: usize, j: usize, bt: TilingTile, tiled: (Tile, CapInfo), ft: TilingTile)
    requires
        in_box3((i as int, j as int, 0), layers_dims(*old(out))),
        layers_dims(*old(out)).2 == 5,
        layers_cells(*old(out)).dom() == Set::new(|p: (int, int, int)| in_box3(p, layers_dims(*old(out)))),
        forall|k: int| 0 <= k < 5 ==> layers_cells(*old(out))[(i as int, j as int, k)] == Tile::Air,
    ensures
        layers_dims(*final(out)) == layers_dims(*old(out)),
        layers_cells(*final(out)).dom() == layers_cells(*old(out)).dom(),
        forall|p: (int, int, int)|
            #![trigger layers_cells(*final(out))[p]]
            layers_cells(*old(out)).dom().contains(p) ==> layers_cells(*final(out))[p] == if p.0 == i
                && p.1 == j && 0 <= p.2 < 5 {
                cell_layer(bt, tiled, ft, p.2)
            } else {
                layers_cells(*old(out))[p]
            },
{
    let ghost c0 = layers_cells(*out);
    if let TilingTile::Exactly(t) = bt {
        out.set(i, j, 0, t);
    }
    out.set(i, j, 1, tiled.0);
    if let TilingTile::Exactly(t) = ft {
        out.set(i, j, 2, t);
    }
    if let Some(terrain) = tiled.1.left_cap {
        out.set(i, j, 3, Tile::Terrain(terrain, TerrainTile::Cap(LR::L)));
    }
    if let Some(terrain) = tiled.1.right_cap {
        out.set(i, j, 4, Tile::Terrain(terrain, TerrainTile::Cap(LR::R)));
    }
    proof {
        assert(layers_cells(*out).dom() =~= c0.dom());
    }
}

/// Renders `box2`: takes the layers of each point of `box2` grown by one on
/// every side from `tile_at`, tiles the midground, and lays the five layers
/// of each point of `box2` out as `[column, row, layer]`.
pub fn render_tiles<T: Fn(Place) -> LayeredTile>(box2: Box2, tile_at: &T) -> (out: TileLayers)
    requires
        renderable(box2),
        forall|p: Place| tile_at.requires((p,)),
    ensures
        layers_dims(out) == (box2.x.spec_size() as usize, box2.y.spec_size() as usize, 5usize),
        exists|lt: Map<(int, int), LayeredTile>| #[trigger] rendered_from(out, lt, box2, tile_at),
{
    let sx = box2.x.size() as usize;
    let sy = box2.y.size() as usize;
    proof {
        assert(sx * sy * 5 <= (sx + 2) * (sy + 2) * 5) by (nonlinear_arith);
        assert((sx + 2) * (sy + 2) <= (sx + 2) * (sy + 2) * 5) by (nonlinear_arith);
        assert(sx + 2 <= (sx + 2) * (sy + 2)) by (nonlinear_arith);
        assert(sy + 2 <= (sx + 2) * (sy + 2)) by (nonlinear_arith);
    }
    proof {
        lemma_shape_fits2((sx + 2) as usize, (sy + 2) as usize);
        lemma_shape_fits3(sx, sy, 5);
        assert(axis_factor(sx) * axis_factor(sy) * 5 <= (sx + 2) * (sy + 2) * 5) by (nonlinear_arith)
            requires
                1 <= axis_factor(sx) <= sx + 2,
                1 <= axis_factor(sy) <= sy + 2,
        ;
    }
    let (back, mid, fore, Ghost(lt)) = layer_grids(
        box2.x.lo_incl - 1,
        box2.y.lo_incl - 1,
        sx + 2,
        sy + 2,
        tile_at,
    );
    let mid2 = compute_tiling(mid);
    let mut out = TileLayers::from_elem((sx, sy, 5), Tile::Air);
    let mut i: usize = 0;
    while i < sx
        invariant
            i <= sx,
            sx == box2.x.spec_size(),
            sy == box2.y.spec_size(),
            sx + 2 <= isize::MAX,
            sy + 2 <= isize::MAX,
            tiling_grid_dims(back) == ((sx + 2) as usize, (sy + 2) as usize),
            tiling_grid_dims(fore) == ((sx + 2) as usize, (sy + 2) as usize),
            tiled_grid_dims(mid2) == (sx, sy),
            forall|a: int, b: int|
                #![trigger tiled_grid_cells(mid2)[(a, b)]]
                0 <= a < sx && 0 <= b < sy ==> tiled_grid_cells(mid2)[(a, b)] == tiled_cell(
                    cover_rows(with_info(midground_grid(lt, sx + 2, sy + 2), sx + 2, sy + 2), sx as int, sy as int),
                    a,
                    b,
                ),
            forall|a: int, b: int|
                #![trigger lt[(a, b)]]
                0 <= a < sx + 2 && 0 <= b < sy + 2 ==> tiling_grid_cells(back)[(a, b)] == lt[(a, b)].background
                    && tiling_grid_cells(fore)[(a, b)] == lt[(a, b)].foreground,
            layers_dims(out) == (sx, sy, 5usize),
            layers_cells(out).dom() == Set::new(|p: (int, int, int)| in_box3(p, (sx, sy, 5usize))),
            forall|p: (int, int, int)|
                #![trigger layers_cells(out)[p]]
                in_box3(p, (sx, sy, 5usize)) ==> layers_cells(out)[p] == if p.0 < i {
                    rendered_cell(lt, sx as int, sy as int, p.0, p.1, p.2)
                } else {
                    Tile::Air
                },
        decreases sx - i,
    {
        let mut j: usize = 0;
        while j < sy
            invariant
                i < sx,
                j <= sy,
                sx == box2.x.spec_size(),
                sy == box2.y.spec_size(),
                sx + 2 <= isize::MAX,
                sy + 2 <= isize::MAX,
                tiling_grid_dims(back) == ((sx + 2) as usize, (sy + 2) as usize),
                tiling_grid_dims(fore) == ((sx + 2) as usize, (sy + 2) as usize),
                tiled_grid_dims(mid2) == (sx, sy),
                forall|a: int, b: int|
                    #![trigger tiled_grid_cells(mid2)[(a, b)]]
                    0 <= a < sx && 0 <= b < sy ==> tiled_grid_cells(mid2)[(a, b)] == tiled_cell(
                        cover_rows(
                            with_info(midground_grid(lt, sx + 2, sy + 2), sx + 2, sy + 2),
                            sx as int,
                            sy as int,
                        ),
                        a,
                        b,
                    ),
                forall|a: int, b: int|
                    #![trigger lt[(a, b)]]
                    0 <= a < sx + 2 && 0 <= b < sy + 2 ==> tiling_grid_cells(back)[(a, b)]
                        == lt[(a, b)].background && tiling_grid_cells(fore)[(a, b)] == lt[(a, b)].foreground,
                layers_dims(out) == (sx, sy, 5usize),
                layers_cells(out).dom() == Set::new(|p: (int, int, int)| in_box3(p, (sx, sy, 5usize))),
                forall|p: (int, int, int)|
                    #![trigger layers_cells(out)[p]]
                    in_box3(p, (sx, sy, 5usize)) ==> layers_cells(out)[p] == if p.0 < i || (p.0 == i
                        && p.1 < j) {
                        rendered_cell(lt, sx as int, sy as int, p.0, p.1, p.2)
                    } else {
                        Tile::Air
                    },
            decreases sy - j,
        {
            let bt = back.get(i + 1, j + 1);
            let tiled = mid2.get(i, j);
            let ft = fore.get(i + 1, j + 1);
            proof {
                assert(lt[(i + 1, j + 1)] == lt[(i + 1, j + 1)]);
                assert forall|k: int| 0 <= k < 5 implies layers_cells(out)[(i as int, j as int, k)]
                    == Tile::Air by {
                    assert(in_box3((i as int, j as int, k), (sx, sy, 5usize)));
                }
            }
            render_cell(&mut out, i, j, bt, tiled, ft);
            j = j + 1;
        }
        i = i + 1;
    }
    proof {
        assert(rendered_from(out, lt, box2, tile_at));
    }
    out
}

/// The noise sampler gives usable picks at every point.
pub open spec fn noise_usable<N: Fn(Place) -> PointNoise>(noise_at: &N) -> bool {
    &&& forall|p: Place| noise_at.requires((p,))
    &&& forall|p: Place, n: PointNoise| #[trigger] noise_at.ensures((p,), n) ==> n.crate_pick < 3 && n.stem_pick < 4
}

/// The point at index `(a, b)` of `box2` grown by one on every side.
pub open spec fn ring_point(box2: Box2, a: int, b: int) -> Place {
    Place { x: (box2.x.lo_incl - 1 + a) as i32, y: (box2.y.lo_incl - 1 + b) as i32 }
}

/// `t` is a layering of `p` by the features of `all` with noise that
/// `noise_at` gives at `p`.
pub open spec fn point_layered<N: Fn(Place) -> PointNoise, S: Fn(Place) -> MushroomStyle>(
    all: Seq<crate::map::brushes::features::Feature>,
    p: Place,
    noise_at: &N,
    style_of: &S,
    t: LayeredTile,
) -> bool {
    exists|n: PointNoise| noise_at.ensures((p,), n) && #[trigger] possible_tile(all, p, n, style_of, t)
}

/// `out` is `box2` rendered from the layers `lt` of the points of `box2`
/// grown by one on every side (indexed from its lower corner), each a
/// layering of its point by the features of `all` with noise that
/// `noise_at` gives there.
pub open spec fn level_rendered<N: Fn(Place) -> PointNoise, S: Fn(Place) -> MushroomStyle>(
    out: TileLayers,
    lt: Map<(int, int), LayeredTile>,
    box2: Box2,
    all: Seq<crate::map::brushes::features::Feature>,
    noise_at: &N,
    style_of: &S,
) -> bool {
    &&& forall|a: int, b: int|
        #![trigger lt[(a, b)]]
        0 <= a < box2.x.spec_size() + 2 && 0 <= b < box2.y.spec_size() + 2 ==> point_layered(
            all,
            ring_point(box2, a, b),
            noise_at,
            style_of,
            lt[(a, b)],
        )
    &&& forall|p: (int, int, int)|
        #![trigger layers_cells(out)[p]]
        in_box3(p, layers_dims(out)) ==> layers_cells(out)[p] == rendered_cell(
            lt,
            box2.x.spec_size(),
            box2.y.spec_size(),
            p.0,
            p.1,
            p.2,
        )
}

/// Renders `box2` of the level: the layers of each point (and of the ring
/// around `box2`) from the features of the schema that hold it, with the
/// noise that `noise_at` gives there and the mushroom styles of `style_of`;
/// then the midground tiled, and the five layers of each point of `box2` laid
/// out as `[column, row, layer]`.
pub fn render_level<N: Fn(Place) -> PointNoise, S: Fn(Place) -> MushroomStyle>(
    schema: &Schema,
    box2: Box2,
    noise_at: &N,
    style_of: &S,
) -> (out: TileLayers)
    requires
        schema.wf(),
        renderable(box2),
        noise_usable(noise_at),
        forall|c: Place| style_of.requires((c,)),
    ensures
        layers_dims(out) == (box2.x.spec_size() as usize, box2.y.spec_size() as usize, 5usize),
        exists|lt: Map<(int, int), LayeredTile>| #[trigger] level_rendered(out, lt, box2, schema@, noise_at, style_of),
{
    let tile_at = |p: Place| -> (t: LayeredTile)
        requires
            schema.wf(),
            noise_usable(noise_at),
            forall|c: Place| style_of.requires((c,)),
        ensures
            point_layered(schema@, p, noise_at, style_of, t),
        {
            let n = noise_at(p);
            get_tile(schema, p, n, style_of)
        };
    let out = render_tiles(box2, &tile_at);
    proof {
        let lt = choose|lt: Map<(int, int), LayeredTile>| #[trigger] rendered_from(out, lt, box2, &tile_at);
        assert forall|a: int, b: int|
            #![trigger lt[(a, b)]]
            0 <= a < box2.x.spec_size() + 2 && 0 <= b < box2.y.spec_size() + 2 implies point_layered(
            schema@,
            ring_point(box2, a, b),
            noise_at,
            style_of,
            lt[(a, b)],
        ) by {
            assert(tile_at.ensures((ring_point(box2, a, b),), lt[(a, b)]));
        }
        assert(forall|q: (int, int, int)|
            #![trigger layers_cells(out)[q]]
            in_box3(q, layers_dims(out)) ==> layers_cells(out)[q] == rendered_cell(
                lt,
                box2.x.spec_size(),
                box2.y.spec_size(),
                q.0,
                q.1,
                q.2,
            ));
        assert(level_rendered(out, lt, box2, schema@, noise_at, style_of));
    }
    out
}

/// The five layers of a rendered cell: layer 0 is the background's fixed
/// tile, layer 1 the tiled midground, layer 2 the foreground's fixed tile
/// (ground left untiled on those layers shows as air); layer 3 shows the
/// left cap of the tiled midground and layer 4 its right cap, each as the
/// cap piece of the cap's terrain facing its side, or air where there is no
/// cap.
pub proof fn lemma_rendered_layers(lt: Map<(int, int), LayeredTile>, sx: int, sy: int, i: int, j: int)
    ensures
        ({
            let tc = tiled_cell(cover_rows(with_info(midground_grid(lt, sx + 2, sy + 2), sx + 2, sy + 2), sx, sy), i, j);
            &&& rendered_cell(lt, sx, sy, i, j, 1) == tc.0
            &&& match tc.1.left_cap {
                Some(t) => rendered_cell(lt, sx, sy, i, j, 3) == Tile::Terrain(t, TerrainTile::Cap(LR::L)),
                None => rendered_cell(lt, sx, sy, i, j, 3) == Tile::Air,
            }
            &&& match tc.1.right_cap {
                Some(t) => rendered_cell(lt, sx, sy, i, j, 4) == Tile::Terrain(t, TerrainTile::Cap(LR::R)),
                None => rendered_cell(lt, sx, sy, i, j, 4) == Tile::Air,
            }
            &&& match lt[(i + 1, j + 1)].background {
                TilingTile::Exactly(x) => rendered_cell(lt, sx, sy, i, j, 0) == x,
                TilingTile::Ground(_, _) => rendered_cell(lt, sx, sy, i, j, 0) == Tile::Air,
            }
            &&& match lt[(i + 1, j + 1)].foreground {
                TilingTile::Exactly(x) => rendered_cell(lt, sx, sy, i, j, 2) == x,
                TilingTile::Ground(_, _) => rendered_cell(lt, sx, sy, i, j, 2) == Tile::Air,
            }
        }),
{
}

} // verus!
