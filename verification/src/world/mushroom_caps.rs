//! The big mushrooms of a zone stand apart: each grows on a range of open
//! columns that no earlier mushroom took, so no two caps share a column.

use vstd::prelude::*;
use crate::helpers::Box1;
use crate::helpers::Box2;
use crate::open_ranges::{edge_hi, edge_lo, edges_points, edges_separated, Edge};
use crate::world::brushes::{
    box_of_edges, boxes_of, by_size_desc, grow, insert_by_size, lemma_edges_sub, lemma_open_columns_char,
    mushroom_cap, mushroom_noise_fits, mushroom_rest, open_columns, within, MushroomNoise,
};
use crate::world::feature::Feature;

verus! {

/// The two ranges share no column (an empty range shares none).
pub open spec fn apart(a: Box1, b: Box1) -> bool {
    a.spec_size() <= 0 || b.spec_size() <= 0 || a.hi_excl <= b.lo_incl || b.hi_excl <= a.lo_incl
}

/// No two of the ranges share a column.
pub open spec fn pairwise_apart(xs: Seq<Box1>) -> bool {
    forall|i: int, j: int| 0 <= i < j < xs.len() ==> apart(#[trigger] xs[i], #[trigger] xs[j])
}

/// Every step of growing mushrooms from `stack` with the samples `ns` finds
/// a range on the stack, and its sample fits that range.
pub open spec fn steps_fit(stack: Seq<Box1>, ns: Seq<MushroomNoise>, box2: Box2) -> bool {
    forall|k: int|
        0 <= k < ns.len() ==> {
            let st = (#[trigger] grow(stack, ns.take(k), box2)).0;
            &&& st.len() > 0
            &&& mushroom_noise_fits(ns[k], st.last(), box2)
        }
}

/// The cap of the `k`th mushroom grown from `stack` with the samples `ns`.
pub open spec fn cap_at(stack: Seq<Box1>, ns: Seq<MushroomNoise>, box2: Box2, k: int) -> Box1 {
    mushroom_cap(grow(stack, ns, box2).1[k], ns[k])->Some_0
}

proof fn lemma_apart_within(p: Box1, b: Box1, c: Box1)
    requires
        within(p, b),
        apart(b, c),
    ensures
        apart(p, c),
{
}

/// A cap fits within the range it grows on, and the ranges left beside it
/// lie within that range, apart from the cap and from each other.
proof fn lemma_cap_step(b: Box1, n: MushroomNoise, box2: Box2)
    requires
        b.wf(),
        mushroom_noise_fits(n, b, box2),
    ensures
        mushroom_cap(b, n) is Some,
        within(mushroom_cap(b, n)->Some_0, b),
        mushroom_cap(b, n)->Some_0.spec_size() > 0,
        pairwise_apart(mushroom_rest(b, n)),
        forall|i: int| 0 <= i < mushroom_rest(b, n).len() ==> {
            &&& within(#[trigger] mushroom_rest(b, n)[i], b)
            &&& mushroom_rest(b, n)[i].wf()
            &&& apart(mushroom_rest(b, n)[i], mushroom_cap(b, n)->Some_0)
        },
{
    let size = 2 * (1 + n.size_offset) + 1;
    let m = b.spec_size() - size + 1;
    assert(m >= 1);
    assert(0 <= (n.cap_floor as int) % m < m) by {
        vstd::arithmetic::div_mod::lemma_mod_bound(n.cap_floor as int, m);
    }
    let cap = mushroom_cap(b, n)->Some_0;
    assert(cap.lo_incl == b.lo_incl + (n.cap_floor as int) % m);
    assert(cap.hi_excl == b.lo_incl + (n.cap_floor as int) % m + size);
    let r = mushroom_rest(b, n);
    assert forall|i: int, j: int| 0 <= i < j < r.len() implies apart(#[trigger] r[i], #[trigger] r[j]) by {}
}

/// The range lies within one of the ranges `outer`.
pub open spec fn within_some(x: Box1, outer: Seq<Box1>) -> bool {
    exists|j: int| 0 <= j < outer.len() && within(x, #[trigger] outer[j])
}

/// The ranges lie each within one of the ranges `outer`.
pub open spec fn each_within(xs: Seq<Box1>, outer: Seq<Box1>) -> bool {
    forall|i: int| 0 <= i < xs.len() ==> within_some(#[trigger] xs[i], outer)
}

/// Growing mushrooms from a stack of ranges that share no column: the caps
/// share no column with each other or with the ranges left on the stack, and
/// each cap, like each range left, lies within one of the first ranges.
proof fn lemma_grow_apart(stack: Seq<Box1>, ns: Seq<MushroomNoise>, box2: Box2)
    requires
        forall|i: int| 0 <= i < stack.len() ==> (#[trigger] stack[i]).wf(),
        pairwise_apart(stack),
        steps_fit(stack, ns, box2),
    ensures
        grow(stack, ns, box2).1.len() == ns.len(),
        forall|i: int| 0 <= i < grow(stack, ns, box2).0.len() ==> (#[trigger] grow(stack, ns, box2).0[i]).wf(),
        each_within(grow(stack, ns, box2).0, stack),
        pairwise_apart(grow(stack, ns, box2).0),
        forall|k: int| 0 <= k < ns.len() ==> mushroom_cap(#[trigger] grow(stack, ns, box2).1[k], ns[k]) is Some,
        forall|k: int| 0 <= k < ns.len() ==> (#[trigger] cap_at(stack, ns, box2, k)).spec_size() > 0,
        each_within(Seq::new(ns.len(), |k: int| cap_at(stack, ns, box2, k)), stack),
        forall|k: int, l: int|
            0 <= k < l < ns.len() ==> apart(#[trigger] cap_at(stack, ns, box2, k), #[trigger] cap_at(stack, ns, box2, l)),
        forall|k: int, i: int|
            0 <= k < ns.len() && 0 <= i < grow(stack, ns, box2).0.len() ==> apart(
                #[trigger] cap_at(stack, ns, box2, k),
                #[trigger] grow(stack, ns, box2).0[i],
            ),
    decreases ns.len(),
{
    if ns.len() == 0 {
        assert forall|i: int| 0 <= i < stack.len() implies within_some(#[trigger] stack[i], stack) by {
            assert(within(stack[i], stack[i]));
        }
        assert(Seq::new(ns.len(), |k: int| cap_at(stack, ns, box2, k)) =~= Seq::<Box1>::empty());
    } else {
        let n0 = ns.drop_last();
        assert forall|k: int| 0 <= k < n0.len() implies {
            let st = (#[trigger] grow(stack, n0.take(k), box2)).0;
            &&& st.len() > 0
            &&& mushroom_noise_fits(n0[k], st.last(), box2)
        } by {
            assert(n0.take(k) =~= ns.take(k));
            assert(grow(stack, ns.take(k), box2).0.len() > 0);
        }
        lemma_grow_apart(stack, n0, box2);
        assert(ns.take(ns.len() - 1) =~= n0);
        assert(grow(stack, ns.take(ns.len() - 1), box2).0.len() > 0);
        let (st0, grown0, fs0) = grow(stack, n0, box2);
        let b = st0.last();
        let n = ns.last();
        assert(b == st0[st0.len() - 1]);
        lemma_cap_step(b, n, box2);
        let cap = mushroom_cap(b, n)->Some_0;
        let rest = mushroom_rest(b, n);
        let st = grow(stack, ns, box2).0;
        let grown = grow(stack, ns, box2).1;
        assert(st == st0.drop_last() + rest);
        assert(grown == grown0.push(b));
        assert forall|k: int| 0 <= k < n0.len() implies #[trigger] cap_at(stack, ns, box2, k) == cap_at(stack, n0, box2, k) by {
            assert(grown[k] == grown0[k]);
            assert(ns[k] == n0[k]);
        }
        assert(cap_at(stack, ns, box2, n0.len() as int) == cap);
        // the ranges left
        assert forall|i: int| 0 <= i < st.len() implies (#[trigger] st[i]).wf() && within_some(st[i], stack) by {
            if i < st0.len() - 1 {
                assert(st[i] == st0[i]);
            } else {
                assert(st[i] == rest[i - (st0.len() - 1)]);
                assert(within_some(st0[st0.len() - 1], stack));
                let j = choose|j: int| 0 <= j < stack.len() && within(st0[st0.len() - 1], stack[j]);
                assert(within(st[i], stack[j]));
            }
        }
        assert forall|i: int, j: int| 0 <= i < j < st.len() implies apart(#[trigger] st[i], #[trigger] st[j]) by {
            let m = st0.len() - 1;
            if j < m {
                assert(st[i] == st0[i] && st[j] == st0[j]);
            } else if i < m {
                assert(st[i] == st0[i]);
                assert(st[j] == rest[j - m]);
                assert(apart(st0[i], st0[m]));
                lemma_apart_within(st[j], b, st[i]);
            } else {
                assert(st[i] == rest[i - m] && st[j] == rest[j - m]);
            }
        }
        // the caps
        assert forall|k: int| 0 <= k < ns.len() implies (#[trigger] cap_at(stack, ns, box2, k)).spec_size() > 0 by {}
        let cs = Seq::new(ns.len(), |k: int| cap_at(stack, ns, box2, k));
        let cs0 = Seq::new(n0.len(), |k: int| cap_at(stack, n0, box2, k));
        assert forall|k: int| 0 <= k < cs.len() implies within_some(#[trigger] cs[k], stack) by {
            if k < n0.len() {
                assert(cs[k] == cs0[k]);
            } else {
                assert(within_some(st0[st0.len() - 1], stack));
                let j = choose|j: int| 0 <= j < stack.len() && within(st0[st0.len() - 1], stack[j]);
                assert(within(cs[k], stack[j]));
            }
        }
        assert forall|k: int, l: int| 0 <= k < l < ns.len() implies apart(
            #[trigger] cap_at(stack, ns, box2, k),
            #[trigger] cap_at(stack, ns, box2, l),
        ) by {
            if l < n0.len() {
                assert(apart(cap_at(stack, n0, box2, k), cap_at(stack, n0, box2, l)));
            } else {
                assert(apart(cap_at(stack, n0, box2, k), st0[st0.len() - 1]));
            }
        }
        assert forall|k: int, i: int| 0 <= k < ns.len() && 0 <= i < st.len() implies apart(
            #[trigger] cap_at(stack, ns, box2, k),
            #[trigger] st[i],
        ) by {
            let m = st0.len() - 1;
            if k < n0.len() {
                if i < m {
                    assert(st[i] == st0[i]);
                    assert(apart(cap_at(stack, n0, box2, k), st0[i]));
                } else {
                    assert(st[i] == rest[i - m]);
                    assert(apart(cap_at(stack, n0, box2, k), st0[m]));
                    lemma_apart_within(st[i], b, cap_at(stack, n0, box2, k));
                }
            } else {
                if i < m {
                    assert(st[i] == st0[i]);
                    assert(apart(st0[i], st0[m]));
                    lemma_apart_within(cap, b, st[i]);
                } else {
                    assert(st[i] == rest[i - m]);
                }
            }
        }
    }
}

/// The range is one of `xs`.
pub open spec fn one_of(x: Box1, xs: Seq<Box1>) -> bool {
    exists|i: int| 0 <= i < xs.len() && #[trigger] xs[i] == x
}

proof fn lemma_insert_by_size_apart(r: Seq<Box1>, x: Box1)
    requires
        pairwise_apart(r),
        forall|i: int| 0 <= i < r.len() ==> apart(x, #[trigger] r[i]),
    ensures
        insert_by_size(r, x).len() == r.len() + 1,
        pairwise_apart(insert_by_size(r, x)),
        forall|k: int| 0 <= k < insert_by_size(r, x).len() ==> #[trigger] insert_by_size(r, x)[k] == x || one_of(insert_by_size(r, x)[k], r),
    decreases r.len(),
{
    let ins = insert_by_size(r, x);
    if r.len() == 0 {
    } else if r[0].spec_size() < x.spec_size() {
        assert forall|k: int| 0 <= k < ins.len() implies #[trigger] ins[k] == x || one_of(ins[k], r) by {
            if k > 0 {
                assert(ins[k] == r[k - 1]);
            }
        }
        assert forall|i: int, j: int| 0 <= i < j < ins.len() implies apart(#[trigger] ins[i], #[trigger] ins[j]) by {
            assert(ins[j] == r[j - 1]);
            if i > 0 {
                assert(ins[i] == r[i - 1]);
            }
        }
    } else {
        let rest = r.drop_first();
        assert forall|i: int, j: int| 0 <= i < j < rest.len() implies apart(#[trigger] rest[i], #[trigger] rest[j]) by {
            assert(rest[i] == r[i + 1] && rest[j] == r[j + 1]);
        }
        assert forall|i: int| 0 <= i < rest.len() implies apart(x, #[trigger] rest[i]) by {
            assert(rest[i] == r[i + 1]);
        }
        lemma_insert_by_size_apart(rest, x);
        let tail = insert_by_size(rest, x);
        assert(ins == seq![r[0]] + tail);
        assert forall|k: int| 0 <= k < ins.len() implies #[trigger] ins[k] == x || one_of(ins[k], r) by {
            if k == 0 {
                assert(r[0] == ins[0]);
            } else {
                assert(ins[k] == tail[k - 1]);
                if tail[k - 1] != x {
                    let i = choose|i: int| 0 <= i < rest.len() && #[trigger] rest[i] == tail[k - 1];
                    assert(r[i + 1] == ins[k]);
                }
            }
        }
        assert forall|i: int, j: int| 0 <= i < j < ins.len() implies apart(#[trigger] ins[i], #[trigger] ins[j]) by {
            assert(ins[j] == tail[j - 1]);
            if i > 0 {
                assert(ins[i] == tail[i - 1]);
            } else {
                if tail[j - 1] == x {
                    assert(apart(x, r[0]));
                } else {
                    let m = choose|m: int| 0 <= m < rest.len() && #[trigger] rest[m] == tail[j - 1];
                    assert(rest[m] == r[m + 1]);
                    assert(apart(r[0], r[m + 1]));
                }
            }
        }
    }
}

proof fn lemma_by_size_desc_apart(xs: Seq<Box1>)
    requires
        pairwise_apart(xs),
    ensures
        by_size_desc(xs).len() == xs.len(),
        pairwise_apart(by_size_desc(xs)),
        forall|k: int| 0 <= k < by_size_desc(xs).len() ==> one_of(#[trigger] by_size_desc(xs)[k], xs),
    decreases xs.len(),
{
    if xs.len() > 0 {
        let x0 = xs.drop_last();
        let x = xs.last();
        assert forall|i: int, j: int| 0 <= i < j < x0.len() implies apart(#[trigger] x0[i], #[trigger] x0[j]) by {
            assert(x0[i] == xs[i] && x0[j] == xs[j]);
        }
        lemma_by_size_desc_apart(x0);
        let s0 = by_size_desc(x0);
        assert forall|i: int| 0 <= i < s0.len() implies apart(x, #[trigger] s0[i]) by {
            assert(one_of(s0[i], x0));
            let m = choose|m: int| 0 <= m < x0.len() && #[trigger] x0[m] == s0[i];
            assert(apart(xs[m], xs[xs.len() - 1]));
        }
        lemma_insert_by_size_apart(s0, x);
        let s = by_size_desc(xs);
        assert forall|k: int| 0 <= k < s.len() implies one_of(#[trigger] s[k], xs) by {
            if s[k] == x {
                assert(xs[xs.len() - 1] == x);
            } else {
                assert(one_of(s[k], s0));
                let m = choose|m: int| 0 <= m < s0.len() && #[trigger] s0[m] == s[k];
                assert(one_of(s0[m], x0));
                let q = choose|q: int| 0 <= q < x0.len() && #[trigger] x0[q] == s0[m];
                assert(xs[q] == s[k]);
            }
        }
    }
}

proof fn lemma_separated_order(es: Seq<(Edge, Edge)>, i: int, j: int)
    requires
        edges_separated(es),
        0 <= i < j < es.len(),
    ensures
        edge_hi(es[i].1) < edge_lo(es[j].0),
    decreases j - i,
{
    if j > i + 1 {
        lemma_separated_order(es, i, j - 1);
        assert(edge_lo(es[j - 1].0) < edge_hi(es[j - 1].1));
        assert(edge_hi(es[j - 1].1) < edge_lo(es[j].0));
    }
}

/// The big mushrooms grown on the open columns of a zone stand apart: when
/// the open columns `open_columns(before, box2)` are the separated ranges
/// `es`, and each sample of `ns` fits the range its mushroom grows on (as
/// `big_mushroom_brush` has them), every mushroom gets a cap, no two caps
/// share a column, and every cap lies on open columns.
pub proof fn lemma_mushroom_caps_apart(
    before: Seq<Feature>,
    box2: Box2,
    es: Seq<(Edge, Edge)>,
    ns: Seq<MushroomNoise>,
)
    requires
        edges_separated(es),
        edges_points(es) == open_columns(before, box2),
        steps_fit(by_size_desc(boxes_of(es)), ns, box2),
    ensures
        forall|k: int|
            0 <= k < ns.len() ==> mushroom_cap(
                #[trigger] grow(by_size_desc(boxes_of(es)), ns, box2).1[k],
                ns[k],
            ) is Some,
        forall|k: int, l: int|
            0 <= k < l < ns.len() ==> apart(
                #[trigger] cap_at(by_size_desc(boxes_of(es)), ns, box2, k),
                #[trigger] cap_at(by_size_desc(boxes_of(es)), ns, box2, l),
            ),
        forall|k: int, x: int|
            0 <= k < ns.len() && #[trigger] cap_at(by_size_desc(boxes_of(es)), ns, box2, k).has(x)
                ==> open_columns(before, box2).contains(x),
{
    let bs = boxes_of(es);
    // the ranges lie within the zone, so their bounds are exact
    assert forall|k: int| 0 <= k < es.len() implies box2.x.lo_incl <= edge_lo((#[trigger] es[k]).0)
        && edge_hi(es[k].1) <= box2.x.hi_excl by {
        let lo = edge_lo(es[k].0);
        let hi = edge_hi(es[k].1);
        lemma_edges_sub(es, k, lo);
        lemma_edges_sub(es, k, hi - 1);
        lemma_open_columns_char(before, box2, lo);
        lemma_open_columns_char(before, box2, hi - 1);
    }
    assert forall|i: int, j: int| 0 <= i < j < bs.len() implies apart(#[trigger] bs[i], #[trigger] bs[j]) by {
        lemma_separated_order(es, i, j);
        assert(bs[i] == box_of_edges(es[i]) && bs[j] == box_of_edges(es[j]));
    }
    lemma_by_size_desc_apart(bs);
    let stack = by_size_desc(bs);
    assert forall|i: int| 0 <= i < stack.len() implies (#[trigger] stack[i]).wf() by {
        assert(one_of(stack[i], bs));
        let m = choose|m: int| 0 <= m < bs.len() && #[trigger] bs[m] == stack[i];
        assert(bs[m] == box_of_edges(es[m]));
    }
    lemma_grow_apart(stack, ns, box2);
    assert forall|k: int, x: int|
        0 <= k < ns.len() && #[trigger] cap_at(stack, ns, box2, k).has(x) implies open_columns(
        before,
        box2,
    ).contains(x) by {
        let cs = Seq::new(ns.len(), |k: int| cap_at(stack, ns, box2, k));
        assert(cs[k] == cap_at(stack, ns, box2, k));
        assert(within_some(cs[k], stack));
        let j = choose|j: int| 0 <= j < stack.len() && within(cs[k], #[trigger] stack[j]);
        assert(one_of(stack[j], bs));
        let m = choose|m: int| 0 <= m < bs.len() && #[trigger] bs[m] == stack[j];
        assert(bs[m] == box_of_edges(es[m]));
        lemma_edges_sub(es, m, x);
    }
}

} // verus!
