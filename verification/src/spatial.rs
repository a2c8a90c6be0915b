//! The spatial index of a level's features: an `rstar` R-tree of rectangles,
//! each tagged with the number of the feature that it stands for.

use vstd::prelude::*;
use vstd::multiset::Multiset;
use rstar::primitives::{GeomWithData, Rectangle};
use rstar::{RTree, AABB};
use crate::helpers::{max_int, min_int, Box2};

verus! {

/// The R-tree that indexes features: rectangles of integer points, each with
/// the number of its feature. The tree is held out of the verifier's sight;
/// what it holds is `index_entries`.
#[verifier::external_body]
pub struct FeatureIndex {
    tree: RTree<GeomWithData<Rectangle<(i32, i32)>, usize>>,
}

/// An entry of the index: the lower corner `(e.0, e.1)`, the upper corner
/// `(e.2, e.3)` (both included), and the feature number `e.4`.
pub type Entry = (i32, i32, i32, i32, usize);

/// The entries that an index holds, each as many times as it was inserted.
pub uninterp spec fn index_entries(t: FeatureIndex) -> Multiset<Entry>;

/// The largest magnitude of a coordinate that the index accepts: the tree's
/// area and distance arithmetic on `i32` stays in range below it. A
/// rectangle is then at most 2^14 wide and high, so an area is at most 2^28;
/// choosing a subtree sums the overlap areas of up to seven children (a node
/// holds at most six, plus the new entry), and splitting sums two areas, so
/// every sum stays below 2^31. At twice the limit one sum of two areas could
/// already reach 2^31.
pub open spec fn coord_limit() -> int {
    8192
}

/// Both coordinates of a point are within the index's limit.
pub open spec fn point_in_range(p: (i32, i32)) -> bool {
    -coord_limit() <= p.0 <= coord_limit() && -coord_limit() <= p.1 <= coord_limit()
}

/// Every coordinate of an entry is within the index's limit.
pub open spec fn entry_in_range(e: Entry) -> bool {
    point_in_range((e.0, e.1)) && point_in_range((e.2, e.3))
}

/// The entry that a rectangle with corners `c1` and `c2` (in either order)
/// and feature number `id` is stored as: the lower and the upper corner.
pub open spec fn entry_of(c1: (i32, i32), c2: (i32, i32), id: usize) -> Entry {
    (
        min_int(c1.0 as int, c2.0 as int) as i32,
        min_int(c1.1 as int, c2.1 as int) as i32,
        max_int(c1.0 as int, c2.0 as int) as i32,
        max_int(c1.1 as int, c2.1 as int) as i32,
        id,
    )
}

/// The rectangle of an entry meets the rectangle from `lo` to `hi` (corners
/// included).
pub open spec fn entry_meets(e: Entry, lo: (i32, i32), hi: (i32, i32)) -> bool {
    e.0 <= hi.0 && e.1 <= hi.1 && e.2 >= lo.0 && e.3 >= lo.1
}

/// The rectangle of an entry holds the point `p` (its border included).
pub open spec fn entry_holds(e: Entry, p: (i32, i32)) -> bool {
    e.0 <= p.0 && e.1 <= p.1 && e.2 >= p.0 && e.3 >= p.1
}

/// `RTree::new`: an empty tree.
#[verifier::external_body]
pub(crate) fn index_new() -> (t: FeatureIndex)
    ensures
        index_entries(t) == Multiset::<Entry>::empty(),
{
    FeatureIndex { tree: RTree::new() }
}

/// `RTree::insert` of `GeomWithData::new(Rectangle::from_corners(c1, c2), id)`:
/// the tree holds one more entry, the rectangle's lower and upper corners with
/// `id`. The tree's area arithmetic stays within `i32` for entries within the
/// coordinate limit.
#[verifier::external_body]
pub(crate) fn index_insert(t: &mut FeatureIndex, c1: (i32, i32), c2: (i32, i32), id: usize)
    requires
        point_in_range(c1),
        point_in_range(c2),
        forall|e: Entry| index_entries(*old(t)).count(e) > 0 ==> entry_in_range(e),
    ensures
        index_entries(*final(t)) == index_entries(*old(t)).insert(entry_of(c1, c2, id)),
{
    t.tree.insert(GeomWithData::new(Rectangle::from_corners(c1, c2), id))
}

/// `RTree::locate_in_envelope_intersecting` with `AABB::from_corners(lo, hi)`
/// (where `lo` is below `hi`), each item handed out as its entry: the entries
/// whose rectangle meets the query rectangle, in the tree's order.
#[verifier::external_body]
pub(crate) fn index_intersecting(t: &FeatureIndex, lo: (i32, i32), hi: (i32, i32)) -> (r: Vec<Entry>)
    requires
        lo.0 <= hi.0,
        lo.1 <= hi.1,
    ensures
        r@.to_multiset() == index_entries(*t).filter(|e: Entry| entry_meets(e, lo, hi)),
{
    t.tree.locate_in_envelope_intersecting(&AABB::from_corners(lo, hi)).map(
        |g| (g.geom().lower().0, g.geom().lower().1, g.geom().upper().0, g.geom().upper().1, g.data),
    ).collect()
}

/// `RTree::locate_all_at_point`, each item handed out as its entry: the
/// entries whose rectangle holds `p`, in the tree's order.
#[verifier::external_body]
pub(crate) fn index_at_point(t: &FeatureIndex, p: (i32, i32)) -> (r: Vec<Entry>)
    ensures
        r@.to_multiset() == index_entries(*t).filter(|e: Entry| entry_holds(e, p)),
{
    t.tree.locate_all_at_point(&p).map(
        |g| (g.geom().lower().0, g.geom().lower().1, g.geom().upper().0, g.geom().upper().1, g.data),
    ).collect()
}

/// `RTree::root().envelope()`, as the lower corner `(r.0, r.1)` and the
/// upper corner `(r.2, r.3)`: the smallest rectangle that holds every entry,
/// or the empty envelope (lower corner at `i32::MAX`, upper at `i32::MIN`) for
/// an empty tree.
#[verifier::external_body]
pub(crate) fn index_bounds(t: &FeatureIndex) -> (r: (i32, i32, i32, i32))
    ensures
        index_entries(*t).len() == 0 ==> r == (i32::MAX, i32::MAX, i32::MIN, i32::MIN),
        forall|e: Entry|
            index_entries(*t).count(e) > 0 ==> r.0 <= e.0 && r.1 <= e.1 && r.2 >= e.2 && r.3 >= e.3,
        index_entries(*t).len() > 0 ==> index_entries(*t).filter(|e: Entry| e.0 == r.0).len() > 0,
        index_entries(*t).len() > 0 ==> index_entries(*t).filter(|e: Entry| e.1 == r.1).len() > 0,
        index_entries(*t).len() > 0 ==> index_entries(*t).filter(|e: Entry| e.2 == r.2).len() > 0,
        index_entries(*t).len() > 0 ==> index_entries(*t).filter(|e: Entry| e.3 == r.3).len() > 0,
{
    let env = t.tree.root().envelope();
    (env.lower().0, env.lower().1, env.upper().0, env.upper().1)
}

} // verus!
