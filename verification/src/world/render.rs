//! Rendering a rectangle of the world into five layers of tiles.

use vstd::prelude::*;
use crate::helpers::Box2;
use crate::map::Place;
use crate::map::brushes::{tile_cell, MushroomStyle, Tile};
use crate::assets::SHEET_W;
use crate::helpers::Box1;
use crate::map::brushes::render::{
    in_box3, layers_cells, layers_dims, noise_usable, render_tiles, renderable, rendered_cell,
    rendered_from, ring_point, TileLayers,
};
use crate::map::brushes::tiles::{air_layers, LayeredTile, PointNoise};
use crate::map::brushes::render::midground_grid;
use crate::map::brushes::tiling::{cover_rows, in_rect, lemma_cover_rows_keeps_fixed, with_info, TilingTile};
use crate::world::feature::{Feature, Schema};
use crate::world::tiles::{get_tile, layered_tile, possible_tile};
use crate::world::feature::lists_matching;

verus! {

/// `t` is a layering of `p` by the features of `all` with noise that
/// `noise_at` gives at `p`.
pub open spec fn point_layered<N: Fn(Place) -> PointNoise, S: Fn(Place) -> MushroomStyle>(
    all: Seq<Feature>,
    p: Place,
    noise_at: &N,
    style_of: &S,
    t: LayeredTile,
) -> bool {
    exists|n: PointNoise| noise_at.ensures((p,), n) && #[trigger] possible_tile(all, p, n, style_of, t)
}

/// `out` is `box2` rendered from the layers `lt` of the points of `box2`
/// grown by one on every side (indexed from its lower corner), each a
/// layering of its point by the features of `all` with noise that
/// `noise_at` gives there.
pub open spec fn level_rendered<N: Fn(Place) -> PointNoise, S: Fn(Place) -> MushroomStyle>(
    out: TileLayers,
    lt: Map<(int, int), LayeredTile>,
    box2: Box2,
    all: Seq<Feature>,
    noise_at: &N,
    style_of: &S,
) -> bool {
    &&& forall|a: int, b: int|
        #![trigger lt[(a, b)]]
        0 <= a < box2.x.spec_size() + 2 && 0 <= b < box2.y.spec_size() + 2 ==> point_layered(
            all,
            ring_point(box2, a, b),
            noise_at,
            style_of,
            lt[(a, b)],
        )
    &&& forall|p: (int, int, int)|
        #![trigger layers_cells(out)[p]]
        in_box3(p, layers_dims(out)) ==> layers_cells(out)[p] == rendered_cell(
            lt,
            box2.x.spec_size(),
            box2.y.spec_size(),
            p.0,
            p.1,
            p.2,
        )
}

/// Renders `box2` of the world: the layers of each point (and of the ring
/// around `box2`) from the features of the schema that hold it, with the
/// noise that `noise_at` gives there and the mushroom styles of `style_of`;
/// then the midground tiled, and the five layers of each point of `box2` laid
/// out as `[column, row, layer]`.
pub fn render_level<N: Fn(Place) -> PointNoise, S: Fn(Place) -> MushroomStyle>(
    schema: &Schema,
    box2: Box2,
    noise_at: &N,
    style_of: &S,
) -> (out: TileLayers)
    requires
        schema.wf(),
        renderable(box2),
        noise_usable(noise_at),
        forall|c: Place| style_of.requires((c,)),
    ensures
        layers_dims(out) == (box2.x.spec_size() as usize, box2.y.spec_size() as usize, 5usize),
        exists|lt: Map<(int, int), LayeredTile>| #[trigger] level_rendered(out, lt, box2, schema@, noise_at, style_of),
{
    let tile_at = |p: Place| -> (t: LayeredTile)
        requires
            schema.wf(),
            noise_usable(noise_at),
            forall|c: Place| style_of.requires((c,)),
        ensures
            point_layered(schema@, p, noise_at, style_of, t),
        {
            let n = noise_at(p);
            get_tile(schema, p, n, style_of)
        };
    let out = render_tiles(box2, &tile_at);
    proof {
        let lt = choose|lt: Map<(int, int), LayeredTile>| #[trigger] rendered_from(out, lt, box2, &tile_at);
        assert forall|a: int, b: int|
            #![trigger lt[(a, b)]]
            0 <= a < box2.x.spec_size() + 2 && 0 <= b < box2.y.spec_size() + 2 implies point_layered(
            schema@,
            ring_point(box2, a, b),
            noise_at,
            style_of,
            lt[(a, b)],
        ) by {
            assert(tile_at.ensures((ring_point(box2, a, b),), lt[(a, b)]));
        }
        assert(forall|q: (int, int, int)|
            #![trigger layers_cells(out)[q]]
            in_box3(q, layers_dims(out)) ==> layers_cells(out)[q] == rendered_cell(
                lt,
                box2.x.spec_size(),
                box2.y.spec_size(),
                q.0,
                q.1,
                q.2,
            ));
        assert(level_rendered(out, lt, box2, schema@, noise_at, style_of));
    }
    out
}

/// The side of a chunk of the world, in tiles.
pub const CHUNK_SIZE: i32 = 32;

/// The rectangle of the chunk at `chunk_place`: `CHUNK_SIZE` tiles square,
/// starting at `chunk_place` times `CHUNK_SIZE`.
pub fn chunk_bounds(chunk_place: Place) -> (b: Box2)
    requires
        i32::MIN <= chunk_place.x * CHUNK_SIZE,
        (chunk_place.x + 1) * CHUNK_SIZE <= i32::MAX,
        i32::MIN <= chunk_place.y * CHUNK_SIZE,
        (chunk_place.y + 1) * CHUNK_SIZE <= i32::MAX,
    ensures
        b == (Box2 {
            x: Box1 {
                lo_incl: (chunk_place.x * CHUNK_SIZE) as i32,
                hi_excl: ((chunk_place.x + 1) * CHUNK_SIZE) as i32,
            },
            y: Box1 {
                lo_incl: (chunk_place.y * CHUNK_SIZE) as i32,
                hi_excl: ((chunk_place.y + 1) * CHUNK_SIZE) as i32,
            },
        }),
{
    Box2::from_box1s(
        Box1::new(chunk_place.x * CHUNK_SIZE, (chunk_place.x + 1) * CHUNK_SIZE),
        Box1::new(chunk_place.y * CHUNK_SIZE, (chunk_place.y + 1) * CHUNK_SIZE),
    )
}

/// The number of a tile's cell in the sprite sheet, counted row by row.
pub fn texture_index(t: Tile) -> (r: u32)
    ensures
        r == tile_cell(t).1 * SHEET_W + tile_cell(t).0,
{
    let (ix, iy): (u16, u16) = t.into();
    proof {
        crate::map::brushes::lemma_tile_cell_in_sheet(t);
    }
    (iy as u32) * (SHEET_W as u32) + ix as u32
}

/// With no features, a point is layered with air alone.
proof fn lemma_no_features_air<N: Fn(Place) -> PointNoise, S: Fn(Place) -> MushroomStyle>(
    p: Place,
    noise_at: &N,
    style_of: &S,
    t: LayeredTile,
)
    requires
        point_layered(Seq::empty(), p, noise_at, style_of, t),
    ensures
        t == air_layers(),
{
    let n = choose|n: PointNoise| noise_at.ensures((p,), n) && #[trigger] possible_tile(Seq::empty(), p, n, style_of, t);
    let (fs, styles) = choose|fs: Seq<Feature>, styles: Seq<MushroomStyle>|
        #![trigger layered_tile(fs, styles, p, n)]
        {
            &&& lists_matching(fs, Seq::empty(), |f: Feature| crate::world::feature::feature_holds(f, (p.x, p.y)))
            &&& styles.len() == fs.len()
            &&& forall|k: int|
                0 <= k < fs.len() ==> (#[trigger] fs[k] matches Feature::BigMushroomTop(c, _)
                    ==> style_of.ensures((c,), styles[k]))
            &&& t == layered_tile(fs, styles, p, n)
        };
    crate::world::feature::lemma_listed_items(
        fs,
        Seq::empty(),
        |f: Feature| crate::world::feature::feature_holds(f, (p.x, p.y)),
    );
    if fs.len() > 0 {
        assert(Seq::<Feature>::empty().contains(fs[0]));
    }
}

/// A rectangle of the world rendered from a schema with no features is air
/// on every layer of every point.
pub proof fn lemma_empty_renders_air<N: Fn(Place) -> PointNoise, S: Fn(Place) -> MushroomStyle>(
    out: TileLayers,
    lt: Map<(int, int), LayeredTile>,
    box2: Box2,
    noise_at: &N,
    style_of: &S,
)
    requires
        box2.wf(),
        layers_dims(out) == (box2.x.spec_size() as usize, box2.y.spec_size() as usize, 5usize),
        level_rendered(out, lt, box2, Seq::empty(), noise_at, style_of),
    ensures
        forall|p: (int, int, int)| in_box3(p, layers_dims(out)) ==> #[trigger] layers_cells(out)[p] == Tile::Air,
{
    let sx = box2.x.spec_size();
    let sy = box2.y.spec_size();
    assert forall|a: int, b: int| 0 <= a < sx + 2 && 0 <= b < sy + 2 implies #[trigger] lt[(a, b)] == air_layers() by {
        lemma_no_features_air(ring_point(box2, a, b), noise_at, style_of, lt[(a, b)]);
    }
    let c = with_info(midground_grid(lt, sx + 2, sy + 2), sx + 2, sy + 2);
    assert forall|q: (int, int)| in_rect(q, sx + 2, sy + 2) implies #[trigger] cover_rows(c, sx, sy)[q] == (
        TilingTile::Exactly(Tile::Air),
        None::<crate::map::brushes::tiling::TileTilingInfo>,
    ) by {
        assert(lt[(q.0, q.1)] == air_layers());
        lemma_cover_rows_keeps_fixed(c, sx, sy, q);
    }
    assert forall|p: (int, int, int)| in_box3(p, layers_dims(out)) implies #[trigger] layers_cells(out)[p] == Tile::Air by {
        let cc = cover_rows(c, sx, sy);
        assert(in_rect((p.0 + 1, p.1 + 1), sx + 2, sy + 2));
        assert(in_rect((p.0 + 2, p.1 + 1), sx + 2, sy + 2));
        assert(in_rect((p.0, p.1 + 1), sx + 2, sy + 2));
        assert(cc[(p.0 + 1, p.1 + 1)].0 == TilingTile::Exactly(Tile::Air));
        assert(cc[(p.0 + 2, p.1 + 1)].1 is None);
        assert(cc[(p.0, p.1 + 1)].1 is None);
        assert(lt[(p.0 + 1, p.1 + 1)] == air_layers());
    }
}

} // verus!
