//! Half-open integer intervals (`Box1`) and axis-aligned integer rectangles
//! (`Box2`), with the integer halves of the noise-to-range helpers.

use vstd::prelude::*;

verus! {

/// The smaller of two integers.
pub open spec fn min_int(a: int, b: int) -> int {
    if a <= b { a } else { b }
}

/// The larger of two integers.
pub open spec fn max_int(a: int, b: int) -> int {
    if a >= b { a } else { b }
}

/// True when `v` fits in an `i32`.
pub open spec fn fits_i32(v: int) -> bool {
    i32::MIN <= v <= i32::MAX
}

/// The half-open interval `[lo_incl, hi_excl)` of integers.
#[derive(Clone, Copy, PartialEq, Eq, Debug, Structural)]
pub struct Box1 {
    pub lo_incl: i32,
    pub hi_excl: i32,
}

impl Box1 {
    /// The bounds are in order (an interval built by `new` always is).
    pub open spec fn wf(self) -> bool {
        self.lo_incl <= self.hi_excl
    }

    /// `p` lies in the interval.
    pub open spec fn has(self, p: int) -> bool {
        self.lo_incl <= p < self.hi_excl
    }

    /// The set of integers that the interval covers.
    pub open spec fn points(self) -> Set<int> {
        Set::new(|p: int| self.has(p))
    }

    /// The number of integers that the interval covers, negative when inverted.
    pub open spec fn spec_size(self) -> int {
        self.hi_excl - self.lo_incl
    }

    /// The size can be computed without overflow.
    pub open spec fn size_fits(self) -> bool {
        fits_i32(self.spec_size())
    }

    /// `hi_excl - lo_incl`.
    pub fn size(self) -> (r: i32)
        requires
            self.size_fits(),
        ensures
            r == self.spec_size(),
    {
        self.hi_excl - self.lo_incl
    }

    /// The interval `[lo_incl, hi_excl)`; the bounds must be in order.
    pub fn new(lo_incl: i32, hi_excl: i32) -> (r: Self)
        requires
            lo_incl <= hi_excl,
        ensures
            r.lo_incl == lo_incl,
            r.hi_excl == hi_excl,
            r.wf(),
    {
        Box1 { lo_incl, hi_excl }
    }

    /// The interval that holds exactly `x`.
    pub fn from_point(x: i32) -> (r: Self)
        requires
            x < i32::MAX,
        ensures
            r.lo_incl == x,
            r.hi_excl == x + 1,
            r.points() == set![x as int],
    {
        let r = Self::new(x, x + 1);
        assert(r.points() =~= set![x as int]);
        r
    }

    /// The bounds coincide.
    pub fn is_empty(self) -> (r: bool)
        ensures
            r == (self.lo_incl == self.hi_excl),
    {
        self.lo_incl == self.hi_excl
    }

    /// The lower bound of the union cover.
    pub open spec fn spec_union_cover(self, other: Self) -> Self {
        Box1 {
            lo_incl: min_int(self.lo_incl as int, other.lo_incl as int) as i32,
            hi_excl: max_int(self.hi_excl as int, other.hi_excl as int) as i32,
        }
    }

    /// The smallest interval from the lower of the two lower bounds to the
    /// higher of the two upper bounds.
    pub fn union_cover(self, other: Self) -> (r: Self)
        requires
            min_int(self.lo_incl as int, other.lo_incl as int) <= max_int(
                self.hi_excl as int,
                other.hi_excl as int,
            ),
        ensures
            r == self.spec_union_cover(other),
    {
        let lo = if self.lo_incl <= other.lo_incl { self.lo_incl } else { other.lo_incl };
        let hi = if self.hi_excl >= other.hi_excl { self.hi_excl } else { other.hi_excl };
        Self::new(lo, hi)
    }

    /// The interval from the higher lower bound to the lower upper bound.
    pub open spec fn spec_intersect(self, other: Self) -> Self {
        Box1 {
            lo_incl: max_int(self.lo_incl as int, other.lo_incl as int) as i32,
            hi_excl: min_int(self.hi_excl as int, other.hi_excl as int) as i32,
        }
    }

    /// The two intervals meet or overlap, so that `intersect` is defined.
    pub open spec fn meets(self, other: Self) -> bool {
        max_int(self.lo_incl as int, other.lo_incl as int) <= min_int(
            self.hi_excl as int,
            other.hi_excl as int,
        )
    }

    /// The common part of two intervals that meet.
    pub fn intersect(self, other: Self) -> (r: Self)
        requires
            self.meets(other),
        ensures
            r == self.spec_intersect(other),
    {
        let lo = if self.lo_incl >= other.lo_incl { self.lo_incl } else { other.lo_incl };
        let hi = if self.hi_excl <= other.hi_excl { self.hi_excl } else { other.hi_excl };
        Self::new(lo, hi)
    }

    /// The overlap test of `intersects`.
    pub open spec fn spec_intersects(self, other: Self) -> bool {
        self.hi_excl > other.lo_incl && self.lo_incl < other.hi_excl
    }

    /// Each interval ends after the other one starts.
    pub fn intersects(self, other: Self) -> (r: bool)
        ensures
            r == self.spec_intersects(other),
    {
        self.hi_excl > other.lo_incl && self.lo_incl < other.hi_excl
    }

    /// `point` lies in the interval.
    pub fn contains(self, point: i32) -> (r: bool)
        ensures
            r == self.has(point as int),
    {
        self.lo_incl <= point && point < self.hi_excl
    }

    /// The containment test of `contains_box`.
    pub open spec fn spec_contains_box(self, other: Self) -> bool {
        self.lo_incl <= other.lo_incl && self.hi_excl >= other.hi_excl
    }

    /// The bounds of `other` lie within those of `self`.
    pub fn contains_box(self, other: Self) -> (r: bool)
        ensures
            r == self.spec_contains_box(other),
    {
        self.lo_incl <= other.lo_incl && self.hi_excl >= other.hi_excl
    }

    /// The interval from the smallest of `0` and the items to one past the
    /// largest of `0` and the items.
    pub fn from_iter(items: &[i32]) -> (r: Self)
        requires
            forall|i: int| 0 <= i < items@.len() ==> items@[i] < i32::MAX,
        ensures
            r.lo_incl <= 0,
            forall|i: int| 0 <= i < items@.len() ==> r.lo_incl <= items@[i],
            r.lo_incl == 0 || exists|i: int| 0 <= i < items@.len() && items@[i] == r.lo_incl,
            r.hi_excl - 1 >= 0,
            forall|i: int| 0 <= i < items@.len() ==> r.hi_excl - 1 >= items@[i],
            r.hi_excl - 1 == 0 || exists|i: int|
                0 <= i < items@.len() && items@[i] == r.hi_excl - 1,
    {
        let mut min: i32 = 0;
        let mut max: i32 = 0;
        let mut k: usize = 0;
        while k < items.len()
            invariant
                k <= items@.len(),
                forall|i: int| 0 <= i < items@.len() ==> items@[i] < i32::MAX,
                min <= 0,
                max >= 0,
                max < i32::MAX,
                forall|i: int| 0 <= i < k ==> min <= items@[i] && items@[i] <= max,
                min == 0 || exists|i: int| 0 <= i < k && items@[i] == min,
                max == 0 || exists|i: int| 0 <= i < k && items@[i] == max,
            decreases items@.len() - k,
        {
            let t = items[k];
            if t < min {
                min = t;
            }
            if t > max {
                max = t;
            }
            k = k + 1;
        }
        Self::new(min, max + 1)
    }

    /// An iterator over the integers of the interval, in increasing order.
    pub fn iter(self) -> (r: Box1Iter)
        ensures
            r.lo_incl == self.lo_incl,
            r.hi_excl == self.hi_excl,
    {
        Box1Iter { lo_incl: self.lo_incl, hi_excl: self.hi_excl }
    }

    /// The pieces that `subtract` returns.
    pub open spec fn spec_subtract(self, other: Self) -> SubtractResult {
        if self.lo_incl >= other.lo_incl && self.hi_excl <= other.hi_excl {
            SubtractResult::Empty
        } else if self.lo_incl >= other.lo_incl {
            SubtractResult::One(Box1 { lo_incl: other.hi_excl, hi_excl: self.hi_excl })
        } else if self.hi_excl <= other.hi_excl {
            SubtractResult::One(Box1 { lo_incl: self.lo_incl, hi_excl: other.lo_incl })
        } else {
            SubtractResult::Two(
                Box1 { lo_incl: self.lo_incl, hi_excl: other.lo_incl },
                Box1 { lo_incl: other.hi_excl, hi_excl: self.hi_excl },
            )
        }
    }

    /// What is left of `self` once `other` is cut out: nothing, one interval
    /// or the two intervals on either side of `other`.
    pub fn subtract(self, other: Self) -> (r: SubtractResult)
        ensures
            r == self.spec_subtract(other),
            r.wf(),
    {
        if self.lo_incl >= other.lo_incl && self.hi_excl <= other.hi_excl {
            return SubtractResult::Empty;
        } else if self.lo_incl >= other.lo_incl {
            return SubtractResult::One(Box1::new(other.hi_excl, self.hi_excl));
        } else if self.hi_excl <= other.hi_excl {
            return SubtractResult::One(Box1::new(self.lo_incl, other.lo_incl));
        } else {
            return SubtractResult::Two(
                Box1::new(self.lo_incl, other.lo_incl),
                Box1::new(other.hi_excl, self.hi_excl),
            );
        }
    }
}

/// What remains of an interval after another one is cut out of it.
#[derive(Clone, Copy, PartialEq, Eq, Debug, Structural)]
pub enum SubtractResult {
    Empty,
    One(Box1),
    Two(Box1, Box1),
}

impl SubtractResult {
    /// Every piece is an interval with its bounds in order.
    pub open spec fn wf(self) -> bool {
        match self {
            SubtractResult::Empty => true,
            SubtractResult::One(a) => a.wf(),
            SubtractResult::Two(a, b) => a.wf() && b.wf(),
        }
    }

    /// The integers that the pieces cover together.
    pub open spec fn points(self) -> Set<int> {
        match self {
            SubtractResult::Empty => Set::empty(),
            SubtractResult::One(a) => a.points(),
            SubtractResult::Two(a, b) => a.points().union(b.points()),
        }
    }

    /// No integer lies in two pieces.
    pub open spec fn disjoint_pieces(self) -> bool {
        match self {
            SubtractResult::Two(a, b) => a.points().disjoint(b.points()),
            _ => true,
        }
    }
}

/// Cutting `other` out of `self`, where the two intervals are in order and
/// meet or overlap, leaves pieces that together hold exactly the integers of
/// `self` that are not in `other`, no integer twice.
pub proof fn lemma_subtract_points(a: Box1, b: Box1)
    requires
        a.wf(),
        b.wf(),
        a.meets(b),
    ensures
        a.spec_subtract(b).points() == a.points().difference(b.points()),
        a.spec_subtract(b).disjoint_pieces(),
{
    let r = a.spec_subtract(b);
    assert(r.points() =~= a.points().difference(b.points()));
    match r {
        SubtractResult::Two(x, y) => {
            assert(x.points().disjoint(y.points()));
        },
        _ => {},
    }
}

/// Two intervals that each hold an integer share an integer exactly when
/// `intersects` says they do.
pub proof fn lemma_intersects_common_point(a: Box1, b: Box1)
    requires
        a.lo_incl < a.hi_excl,
        b.lo_incl < b.hi_excl,
    ensures
        a.spec_intersects(b) <==> exists|p: int| a.has(p) && b.has(p),
{
    if a.spec_intersects(b) {
        let p = max_int(a.lo_incl as int, b.lo_incl as int);
        assert(a.has(p) && b.has(p));
    }
}

/// The intersection of two intervals that meet holds exactly their common
/// integers.
pub proof fn lemma_intersect_points(a: Box1, b: Box1)
    requires
        a.meets(b),
    ensures
        a.spec_intersect(b).points() == a.points().intersect(b.points()),
        a.spec_intersect(b).wf(),
{
    assert(a.spec_intersect(b).points() =~= a.points().intersect(b.points()));
}

/// The union cover of two intervals in order contains both, and lies within
/// every interval that contains both.
pub proof fn lemma_union_cover_smallest(a: Box1, b: Box1, c: Box1)
    requires
        a.wf(),
        b.wf(),
    ensures
        a.spec_union_cover(b).wf(),
        a.spec_union_cover(b).spec_contains_box(a),
        a.spec_union_cover(b).spec_contains_box(b),
        c.spec_contains_box(a) && c.spec_contains_box(b) ==> c.spec_contains_box(
            a.spec_union_cover(b),
        ),
        a.points().union(b.points()).subset_of(a.spec_union_cover(b).points()),
{
}

/// For an interval `b` that holds an integer, `contains_box` says exactly
/// whether every integer of `b` lies in `a`.
pub proof fn lemma_contains_box_subset(a: Box1, b: Box1)
    requires
        b.lo_incl < b.hi_excl,
    ensures
        a.spec_contains_box(b) <==> b.points().subset_of(a.points()),
{
    if a.spec_contains_box(b) {
        assert(b.points().subset_of(a.points()));
    }
    if b.points().subset_of(a.points()) {
        assert(b.points().contains(b.lo_incl as int));
        assert(a.points().contains(b.lo_incl as int));
        assert(b.points().contains(b.hi_excl - 1));
        assert(a.points().contains(b.hi_excl - 1));
    }
}

/// An iterator over the integers of a `Box1`, from the lower bound up.
#[derive(Clone, PartialEq, Eq, Debug, Structural)]
pub struct Box1Iter {
    pub lo_incl: i32,
    pub hi_excl: i32,
}

/// The number of integers left in an iterator, or `0` when its bounds are
/// inverted.
pub open spec fn iter_remaining(lo: int, hi: int) -> int {
    if hi >= lo { hi - lo } else { 0 }
}

impl Box1Iter {
    /// The next integer, or `None` once the lower bound has reached the upper
    /// one.
    pub fn next(&mut self) -> (r: Option<i32>)
        requires
            old(self).lo_incl == old(self).hi_excl || old(self).lo_incl < i32::MAX,
        ensures
            old(self).lo_incl == old(self).hi_excl ==> r == None::<i32> && *final(self) == *old(
                self,
            ),
            old(self).lo_incl != old(self).hi_excl ==> r == Some(old(self).lo_incl)
                && final(self).lo_incl == old(self).lo_incl + 1 && final(self).hi_excl == old(
                self,
            ).hi_excl,
    {
        if self.lo_incl == self.hi_excl {
            None
        } else {
            let lo = self.lo_incl;
            self.lo_incl = self.lo_incl + 1;
            Some(lo)
        }
    }

    /// The number of integers left, as both bounds of a size hint.
    pub fn size_hint(&self) -> (r: (usize, Option<usize>))
        requires
            fits_i32(self.hi_excl - self.lo_incl),
        ensures
            r.0 == iter_remaining(self.lo_incl as int, self.hi_excl as int),
            r.1 == Some(r.0),
    {
        let size = if self.hi_excl >= self.lo_incl {
            self.hi_excl - self.lo_incl
        } else {
            0
        };
        let size = size as usize;
        (size, Some(size))
    }

    /// The number of integers left.
    pub fn count(self) -> (r: usize)
        requires
            fits_i32(self.hi_excl - self.lo_incl),
        ensures
            r == iter_remaining(self.lo_incl as int, self.hi_excl as int),
    {
        let size = if self.hi_excl >= self.lo_incl {
            self.hi_excl - self.lo_incl
        } else {
            0
        };
        size as usize
    }

    /// Skips `n` integers and returns the one after them, or `None` (leaving
    /// the iterator as it was) when there are not that many left.
    pub fn nth(&mut self, n: usize) -> (r: Option<i32>)
        requires
            n <= i32::MAX ==> fits_i32(old(self).lo_incl + n),
        ensures
            n > i32::MAX ==> r == None::<i32> && *final(self) == *old(self),
            n <= i32::MAX && old(self).lo_incl + n < old(self).hi_excl ==> r == Some(
                (old(self).lo_incl + n) as i32,
            ) && final(self).lo_incl == old(self).lo_incl + n + 1 && final(self).hi_excl == old(
                self,
            ).hi_excl,
            n <= i32::MAX && old(self).lo_incl + n >= old(self).hi_excl ==> r == None::<i32>
                && *final(self) == *old(self),
    {
        if n > 2147483647usize {
            return None;
        }
        let lo = self.lo_incl + n as i32;
        if lo < self.hi_excl {
            self.lo_incl = lo + 1;
            Some(lo)
        } else {
            None
        }
    }

    /// Lowers the upper bound by one and returns it, or `None` when it does
    /// not then lie above the lower bound.
    pub fn next_back(&mut self) -> (r: Option<i32>)
        requires
            old(self).hi_excl > i32::MIN,
        ensures
            final(self).lo_incl == old(self).lo_incl,
            final(self).hi_excl == old(self).hi_excl - 1,
            r == (if final(self).hi_excl > final(self).lo_incl {
                Some(final(self).hi_excl)
            } else {
                None::<i32>
            }),
    {
        self.hi_excl = self.hi_excl - 1;
        if self.hi_excl > self.lo_incl {
            Some(self.hi_excl)
        } else {
            None
        }
    }
}

/// An axis-aligned rectangle of integer points: the product of two intervals.
#[derive(Clone, Copy, PartialEq, Eq, Debug, Structural)]
pub struct Box2 {
    pub x: Box1,
    pub y: Box1,
}

impl Box2 {
    /// Both intervals are in order.
    pub open spec fn wf(self) -> bool {
        self.x.wf() && self.y.wf()
    }

    /// The point `(px, py)` lies in the rectangle.
    pub open spec fn has(self, px: int, py: int) -> bool {
        self.x.has(px) && self.y.has(py)
    }

    /// The set of integer points that the rectangle covers.
    pub open spec fn points(self) -> Set<(int, int)> {
        Set::new(|p: (int, int)| self.has(p.0, p.1))
    }

    /// The number of points: the product of the two sizes.
    pub open spec fn spec_size(self) -> int {
        self.x.spec_size() * self.y.spec_size()
    }

    /// The product of the sizes of the two intervals.
    pub fn size(self) -> (r: i32)
        requires
            self.x.size_fits(),
            self.y.size_fits(),
            fits_i32(self.spec_size()),
        ensures
            r == self.spec_size(),
    {
        self.x.size() * self.y.size()
    }

    /// The rectangle from corner `lo_incl` (included) to corner `hi_excl`
    /// (excluded).
    pub fn new(lo_incl: (i32, i32), hi_excl: (i32, i32)) -> (r: Self)
        requires
            lo_incl.0 <= hi_excl.0,
            lo_incl.1 <= hi_excl.1,
        ensures
            r.x.lo_incl == lo_incl.0,
            r.x.hi_excl == hi_excl.0,
            r.y.lo_incl == lo_incl.1,
            r.y.hi_excl == hi_excl.1,
            r.wf(),
    {
        Box2 { x: Box1::new(lo_incl.0, hi_excl.0), y: Box1::new(lo_incl.1, hi_excl.1) }
    }

    /// The rectangle that holds exactly the point `x`.
    pub fn from_point(x: (i32, i32)) -> (r: Self)
        requires
            x.0 < i32::MAX,
            x.1 < i32::MAX,
        ensures
            r.x.lo_incl == x.0,
            r.x.hi_excl == x.0 + 1,
            r.y.lo_incl == x.1,
            r.y.hi_excl == x.1 + 1,
            r.points() == set![(x.0 as int, x.1 as int)],
    {
        let r = Box2 { x: Box1::from_point(x.0), y: Box1::from_point(x.1) };
        assert(r.points() =~= set![(x.0 as int, x.1 as int)]);
        r
    }

    /// The rectangle with intervals `x` and `y`.
    pub fn from_box1s(x: Box1, y: Box1) -> (r: Self)
        ensures
            r.x == x,
            r.y == y,
    {
        Box2 { x, y }
    }

    /// One of the two intervals has coinciding bounds.
    pub fn is_empty(self) -> (r: bool)
        ensures
            r == (self.x.lo_incl == self.x.hi_excl || self.y.lo_incl == self.y.hi_excl),
    {
        self.x.is_empty() || self.y.is_empty()
    }

    /// The union cover taken in each direction.
    pub fn union_cover(self, other: Self) -> (r: Self)
        requires
            min_int(self.x.lo_incl as int, other.x.lo_incl as int) <= max_int(
                self.x.hi_excl as int,
                other.x.hi_excl as int,
            ),
            min_int(self.y.lo_incl as int, other.y.lo_incl as int) <= max_int(
                self.y.hi_excl as int,
                other.y.hi_excl as int,
            ),
        ensures
            r.x == self.x.spec_union_cover(other.x),
            r.y == self.y.spec_union_cover(other.y),
    {
        Box2 { x: self.x.union_cover(other.x), y: self.y.union_cover(other.y) }
    }

    /// The intersection taken in each direction, for rectangles that meet in
    /// both.
    pub fn intersect(self, other: Self) -> (r: Self)
        requires
            self.x.meets(other.x),
            self.y.meets(other.y),
        ensures
            r.x == self.x.spec_intersect(other.x),
            r.y == self.y.spec_intersect(other.y),
    {
        Box2 { x: self.x.intersect(other.x), y: self.y.intersect(other.y) }
    }

    /// The overlap test of `intersects`.
    pub open spec fn spec_intersects(self, other: Self) -> bool {
        self.x.spec_intersects(other.x) && self.y.spec_intersects(other.y)
    }

    /// The intervals overlap in both directions.
    pub fn intersects(self, other: Self) -> (r: bool)
        ensures
            r == self.spec_intersects(other),
    {
        self.x.intersects(other.x) && self.y.intersects(other.y)
    }

    /// `point` lies in the rectangle.
    pub fn contains(self, point: (i32, i32)) -> (r: bool)
        ensures
            r == self.has(point.0 as int, point.1 as int),
    {
        self.x.contains(point.0) && self.y.contains(point.1)
    }

    /// The containment test of `contains_box`.
    pub open spec fn spec_contains_box(self, other: Self) -> bool {
        self.x.spec_contains_box(other.x) && self.y.spec_contains_box(other.y)
    }

    /// The intervals of `other` lie within those of `self`.
    pub fn contains_box(self, other: Self) -> (r: bool)
        ensures
            r == self.spec_contains_box(other),
    {
        self.x.contains_box(other.x) && self.y.contains_box(other.y)
    }

    /// The rectangle from the smallest to the largest coordinates among `0`
    /// and the points, in each direction, the largest ones excluded.
    pub fn from_iter(items: &[(i32, i32)]) -> (r: Self)
        ensures
            r.x.lo_incl <= 0 && r.y.lo_incl <= 0,
            r.x.hi_excl >= 0 && r.y.hi_excl >= 0,
            forall|i: int|
                #![trigger items@[i]]
                0 <= i < items@.len() ==> r.x.lo_incl <= items@[i].0 <= r.x.hi_excl
                    && r.y.lo_incl <= items@[i].1 <= r.y.hi_excl,
            r.x.lo_incl == 0 || exists|i: int| 0 <= i < items@.len() && items@[i].0 == r.x.lo_incl,
            r.x.hi_excl == 0 || exists|i: int| 0 <= i < items@.len() && items@[i].0 == r.x.hi_excl,
            r.y.lo_incl == 0 || exists|i: int| 0 <= i < items@.len() && items@[i].1 == r.y.lo_incl,
            r.y.hi_excl == 0 || exists|i: int| 0 <= i < items@.len() && items@[i].1 == r.y.hi_excl,
    {
        let mut min_x: i32 = 0;
        let mut max_x: i32 = 0;
        let mut min_y: i32 = 0;
        let mut max_y: i32 = 0;
        let mut k: usize = 0;
        while k < items.len()
            invariant
                k <= items@.len(),
                min_x <= 0 && min_y <= 0 && max_x >= 0 && max_y >= 0,
                forall|i: int|
                    #![trigger items@[i]]
                    0 <= i < k ==> min_x <= items@[i].0 <= max_x && min_y <= items@[i].1 <= max_y,
                min_x == 0 || exists|i: int| 0 <= i < k && items@[i].0 == min_x,
                max_x == 0 || exists|i: int| 0 <= i < k && items@[i].0 == max_x,
                min_y == 0 || exists|i: int| 0 <= i < k && items@[i].1 == min_y,
                max_y == 0 || exists|i: int| 0 <= i < k && items@[i].1 == max_y,
            decreases items@.len() - k,
        {
            let (tx, ty) = items[k];
            if tx < min_x {
                min_x = tx;
            }
            if tx > max_x {
                max_x = tx;
            }
            if ty < min_y {
                min_y = ty;
            }
            if ty > max_y {
                max_y = ty;
            }
            k = k + 1;
        }
        Self::new((min_x, min_y), (max_x, max_y))
    }
}

/// Two rectangles that each hold a point share a point exactly when
/// `intersects` says they do.
pub proof fn lemma_box2_intersects_common_point(a: Box2, b: Box2)
    requires
        a.x.lo_incl < a.x.hi_excl,
        a.y.lo_incl < a.y.hi_excl,
        b.x.lo_incl < b.x.hi_excl,
        b.y.lo_incl < b.y.hi_excl,
    ensures
        a.spec_intersects(b) <==> exists|px: int, py: int| a.has(px, py) && b.has(px, py),
{
    lemma_intersects_common_point(a.x, b.x);
    lemma_intersects_common_point(a.y, b.y);
    if a.spec_intersects(b) {
        let px = max_int(a.x.lo_incl as int, b.x.lo_incl as int);
        let py = max_int(a.y.lo_incl as int, b.y.lo_incl as int);
        assert(a.has(px, py) && b.has(px, py));
    }
    if exists|px: int, py: int| a.has(px, py) && b.has(px, py) {
        let (px, py) = choose|px: int, py: int| a.has(px, py) && b.has(px, py);
        assert(a.x.has(px) && b.x.has(px));
        assert(a.y.has(py) && b.y.has(py));
    }
}

/// For a rectangle `b` that holds a point, `contains_box` says exactly whether
/// every point of `b` lies in `a`.
pub proof fn lemma_box2_contains_box_subset(a: Box2, b: Box2)
    requires
        b.x.lo_incl < b.x.hi_excl,
        b.y.lo_incl < b.y.hi_excl,
    ensures
        a.spec_contains_box(b) <==> b.points().subset_of(a.points()),
{
    if b.points().subset_of(a.points()) {
        let lx = b.x.lo_incl as int;
        let hx = b.x.hi_excl - 1;
        let ly = b.y.lo_incl as int;
        let hy = b.y.hi_excl - 1;
        assert(b.points().contains((lx, ly)));
        assert(a.points().contains((lx, ly)));
        assert(b.points().contains((hx, hy)));
        assert(a.points().contains((hx, hy)));
    }
}

/// The intersection of two rectangles that meet in both directions holds
/// exactly their common points.
pub proof fn lemma_box2_intersect_points(a: Box2, b: Box2)
    requires
        a.x.meets(b.x),
        a.y.meets(b.y),
    ensures
        (Box2 { x: a.x.spec_intersect(b.x), y: a.y.spec_intersect(b.y) }).points() == a.points().intersect(
            b.points(),
        ),
{
    let c = Box2 { x: a.x.spec_intersect(b.x), y: a.y.spec_intersect(b.y) };
    assert(c.points() =~= a.points().intersect(b.points()));
}

/// The remainder of `a` divided by `b`, rounded towards zero as Rust's `%`
/// does on signed integers.
pub open spec fn trunc_rem(a: int, b: int) -> int {
    if a >= 0 {
        a % b
    } else {
        -((-a) % b)
    }
}

/// The index that a noise sample selects among `top` choices, given the
/// sample already rounded down to an integer: the truncated remainder of
/// `floored` by `top`.
pub fn wrap_floor(floored: i32, top: i32) -> (r: i32)
    requires
        top != 0,
        !(floored == i32::MIN && top == -1),
    ensures
        r == trunc_rem(floored as int, top as int),
{
    floored % top
}

/// The integer of `b` at `offset` from its lower bound, where the offset (a
/// noise sample scaled by the size and rounded down) lies within the size.
pub fn box1_offset(offset: i32, b: Box1) -> (r: i32)
    requires
        b.size_fits(),
        b.spec_size() > 0,
        0 <= offset < b.spec_size(),
    ensures
        r == b.lo_incl + offset,
        b.has(r as int),
{
    b.lo_incl + offset
}

/// The start offset that `fit_box1` picks.
pub open spec fn fit_start(start_floor: int, size: int, range: Box1) -> int {
    trunc_rem(start_floor, range.spec_size() - size + 1)
}

/// The interval of `size` integers that `fit_box1` places within `range`, or
/// `None` when `range` is too small.
pub open spec fn spec_fit_box1(start_floor: int, size: int, range: Box1) -> Option<Box1> {
    if range.spec_size() < size {
        None
    } else {
        Some(
            Box1 {
                lo_incl: (range.lo_incl + fit_start(start_floor, size, range)) as i32,
                hi_excl: (range.lo_incl + fit_start(start_floor, size, range) + size) as i32,
            },
        )
    }
}

/// Places an interval of `size` integers within `range`, at the offset that
/// the rounded-down noise sample `start_floor` selects among the possible
/// starts; `None` when `range` is too small.
pub fn fit_box1(start_floor: i32, size: i32, range: Box1) -> (r: Option<Box1>)
    requires
        range.size_fits(),
        range.spec_size() >= size ==> range.spec_size() - size < i32::MAX,
        range.spec_size() >= size ==> size >= 0 && (start_floor >= 0 || (start_floor as int) % (
        range.spec_size() - size + 1) == 0),
    ensures
        range.spec_size() < size ==> r == None::<Box1>,
        range.spec_size() >= size ==> r == Some(
            Box1 {
                lo_incl: (range.lo_incl + fit_start(start_floor as int, size as int, range)) as i32,
                hi_excl: (range.lo_incl + fit_start(start_floor as int, size as int, range)
                    + size) as i32,
            },
        ),
        r matches Some(b) ==> b.wf() && range.spec_contains_box(b) && b.spec_size() == size,
        r == spec_fit_box1(start_floor as int, size as int, range),
{
    if range.size() < size {
        return None;
    }
    let m = range.size() - size + 1;
    let start = wrap_floor(start_floor, m);
    proof {
        let a = start_floor as int;
        if a >= 0 {
            assert(0 <= a % (m as int) < m);
        } else {
            assert((-a) % (m as int) == 0) by {
                vstd::arithmetic::div_mod::lemma_mod_self_0(m as int);
                assert(a % (m as int) == 0);
                vstd::arithmetic::div_mod::lemma_fundamental_div_mod(a, m as int);
                vstd::arithmetic::div_mod::lemma_fundamental_div_mod(-a, m as int);
                vstd::arithmetic::div_mod::lemma_mod_multiples_basic(-(a / (m as int)), m as int);
                assert(-a == (m as int) * (-(a / (m as int)))) by (nonlinear_arith)
                    requires a == (m as int) * (a / (m as int)) + 0;
                vstd::arithmetic::mul::lemma_mul_is_commutative(m as int, -(a / (m as int)));
            }
        }
    }
    Some(Box1::new(range.lo_incl + start, range.lo_incl + start + size))
}

} // verus!
