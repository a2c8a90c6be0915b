//! Sets of integers kept as sorted, separated ranges: a `ranges::Ranges` of
//! `i32`, held out of the verifier's sight, whose contents are `open_points`.

use vstd::prelude::*;
use ranges::{GenericRange, Ranges};
use std::ops::{Bound, RangeBounds};

verus! {

/// A set of `i32` values kept by `ranges::Ranges` as sorted ranges.
#[verifier::external_body]
pub struct OpenRanges {
    r: Ranges<i32>,
}

/// The integers that a set of ranges holds.
pub uninterp spec fn open_points(r: OpenRanges) -> Set<int>;

/// One end of a range, as `std::ops::Bound` gives it.
#[derive(Clone, Copy, PartialEq, Eq, Debug, Structural)]
pub enum Edge {
    Included(i32),
    Excluded(i32),
    Unbounded,
}

/// The least integer that a range starting at `e` holds.
pub open spec fn edge_lo(e: Edge) -> int {
    match e {
        Edge::Included(x) => x as int,
        Edge::Excluded(x) => x + 1,
        Edge::Unbounded => i32::MIN as int,
    }
}

/// One past the greatest integer that a range ending at `e` holds.
pub open spec fn edge_hi(e: Edge) -> int {
    match e {
        Edge::Included(x) => x + 1,
        Edge::Excluded(x) => x as int,
        Edge::Unbounded => i32::MAX + 1,
    }
}

/// The integers from `lo` up to (not including) `hi`.
pub open spec fn half_open(lo: int, hi: int) -> Set<int> {
    Set::new(|x: int| lo <= x < hi)
}

/// The integers that the ranges `es` hold together.
pub open spec fn edges_points(es: Seq<(Edge, Edge)>) -> Set<int>
    decreases es.len(),
{
    if es.len() == 0 {
        Set::empty()
    } else {
        edges_points(es.drop_last()).union(half_open(edge_lo(es.last().0), edge_hi(es.last().1)))
    }
}

/// The ranges are nonempty, in increasing order, and separated by at least
/// one integer that none of them holds.
pub open spec fn edges_separated(es: Seq<(Edge, Edge)>) -> bool {
    &&& forall|k: int| 0 <= k < es.len() ==> edge_lo((#[trigger] es[k]).0) < edge_hi(es[k].1)
    &&& forall|i: int, j: int|
        0 <= i && j == i + 1 && j < es.len() ==> edge_hi((#[trigger] es[i]).1) < edge_lo(
            (#[trigger] es[j]).0,
        )
}

/// `Ranges::new`: the empty set.
#[verifier::external_body]
pub(crate) fn open_ranges_new() -> (r: OpenRanges)
    ensures
        open_points(r) == Set::<int>::empty(),
{
    OpenRanges { r: Ranges::new() }
}

/// `Ranges::insert` of `GenericRange::new_closed_open(lo, hi)`: the set
/// gains the integers from `lo` up to `hi`.
#[verifier::external_body]
pub(crate) fn open_ranges_insert(r: &mut OpenRanges, lo: i32, hi: i32)
    requires
        lo <= hi,
    ensures
        open_points(*final(r)) == open_points(*old(r)).union(half_open(lo as int, hi as int)),
{
    r.r.insert(GenericRange::new_closed_open(lo, hi));
}

/// `Ranges::remove` of `GenericRange::new_closed_open(lo, hi)`: the set
/// loses the integers from `lo` up to `hi`.
#[verifier::external_body]
pub(crate) fn open_ranges_remove(r: &mut OpenRanges, lo: i32, hi: i32)
    requires
        lo <= hi,
    ensures
        open_points(*final(r)) == open_points(*old(r)).difference(half_open(lo as int, hi as int)),
{
    r.r.remove(GenericRange::new_closed_open(lo, hi));
}

/// `Ranges::as_slice`, each range given by its start and end bounds: the
/// ranges are kept sorted, nonempty and apart, and together they hold exactly
/// the set's integers. (The set only ever receives and loses closed-open
/// ranges here; `insert` merges a range with those it overlaps or touches,
/// and `remove` leaves the closed-open pieces that remain.)
#[verifier::external_body]
pub(crate) fn open_ranges_edges(r: &OpenRanges) -> (es: Vec<(Edge, Edge)>)
    ensures
        edges_separated(es@),
        edges_points(es@) == open_points(*r),
{
    r.r.as_slice().iter().map(
        |g| (
            match g.start_bound() {
                Bound::Included(x) => Edge::Included(*x),
                Bound::Excluded(x) => Edge::Excluded(*x),
                Bound::Unbounded => Edge::Unbounded,
            },
            match g.end_bound() {
                Bound::Included(x) => Edge::Included(*x),
                Bound::Excluded(x) => Edge::Excluded(*x),
                Bound::Unbounded => Edge::Unbounded,
            },
        ),
    ).collect()
}

} // verus!
