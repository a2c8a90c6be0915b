//! The graph of a level's zones: a main path of zones with shortcuts, side
//! branches that leave and rejoin it, and safe loops hanging off it.

use vstd::prelude::*;
use petgraph::graph::{Graph, NodeIndex};
use petgraph::Directed;
use rand::distributions::{Distribution, WeightedIndex};
use crate::random::{gen_range_i32, gen_range_usize, gen_ratio};
use rand_pcg::Lcg128Xsl64;

verus! {

/// The kind of terrain of a zone.
#[derive(Clone, Copy, PartialEq, Eq, Debug, Structural)]
pub enum Zone {
    Flat,
    Slopes,
    Pits,
    Caves,
}

/// A zone of the level graph.
#[derive(Clone, Copy, PartialEq, Eq, Debug, Structural)]
pub struct ZoneInfo {
    kind: Zone,
    bonus: bool,
    powerup_block: bool,
    decorate: bool,
    safe: bool,
}

/// The zone the level starts in: flat, safe and decorated, with a power-up
/// block and no bonus.
pub closed spec fn spec_start_zone() -> ZoneInfo {
    ZoneInfo { kind: Zone::Flat, bonus: false, powerup_block: true, decorate: true, safe: true }
}

/// The zone the level starts in.
pub fn start_zone() -> (r: ZoneInfo)
    ensures
        r == spec_start_zone(),
{
    ZoneInfo { kind: Zone::Flat, bonus: false, powerup_block: true, decorate: true, safe: true }
}

/// `petgraph::Graph`, a graph kept as a list of nodes and a list of edges;
/// its contents reach the verifier only through `graph_nodes` and
/// `graph_edges`.
#[verifier::external_type_specification]
#[verifier::external_body]
#[verifier::reject_recursive_types(N)]
#[verifier::reject_recursive_types(E)]
#[verifier::reject_recursive_types(Ty)]
#[verifier::reject_recursive_types(Ix)]
pub struct ExGraph<N, E, Ty, Ix>(Graph<N, E, Ty, Ix>);

/// `petgraph::Directed`, the marker of a graph with directed edges.
#[verifier::external_type_specification]
#[verifier::external_body]
pub struct ExDirected(Directed);

/// The nodes of a level graph, by index.
pub uninterp spec fn graph_nodes(g: Graph<ZoneInfo, i32>) -> Seq<ZoneInfo>;

/// The edges of a level graph, by index: source, target, weight.
pub uninterp spec fn graph_edges(g: Graph<ZoneInfo, i32>) -> Seq<(usize, usize, i32)>;

/// `Graph::new`: no nodes and no edges.
#[verifier::external_body]
fn graph_new() -> (g: Graph<ZoneInfo, i32>)
    ensures
        graph_nodes(g) == Seq::<ZoneInfo>::empty(),
        graph_edges(g) == Seq::<(usize, usize, i32)>::empty(),
{
    Graph::new()
}

/// `Graph::add_node`: the node goes last and its index is returned; it
/// panics when the `u32` indices run out.
#[verifier::external_body]
fn graph_add_node(g: &mut Graph<ZoneInfo, i32>, w: ZoneInfo) -> (r: usize)
    requires
        graph_nodes(*old(g)).len() < u32::MAX,
    ensures
        r == graph_nodes(*old(g)).len(),
        graph_nodes(*final(g)) == graph_nodes(*old(g)).push(w),
        graph_edges(*final(g)) == graph_edges(*old(g)),
{
    g.add_node(w).index()
}

/// `Graph::add_edge` from node `a` to node `b`: the edge goes last; it
/// panics when a node does not exist or the `u32` indices run out.
#[verifier::external_body]
fn graph_add_edge(g: &mut Graph<ZoneInfo, i32>, a: usize, b: usize, w: i32)
    requires
        a < graph_nodes(*old(g)).len(),
        b < graph_nodes(*old(g)).len(),
        graph_edges(*old(g)).len() < u32::MAX,
    ensures
        graph_nodes(*final(g)) == graph_nodes(*old(g)),
        graph_edges(*final(g)) == graph_edges(*old(g)).push((a, b, w)),
{
    g.add_edge(NodeIndex::new(a), NodeIndex::new(b), w);
}

/// `WeightedIndex::new(weights)` sampled once: the index of an item, picked
/// with a chance proportional to its weight (an item of weight zero is never
/// picked); it panics when all weights are zero.
#[verifier::external_body]
fn weighted_pick(rng: &mut Lcg128Xsl64, weights: [usize; 4]) -> (r: usize)
    requires
        weights[0] + weights[1] + weights[2] + weights[3] <= usize::MAX,
        weights[0] + weights[1] + weights[2] + weights[3] > 0,
    ensures
        r < 4,
        weights[r as int] > 0,
{
    WeightedIndex::new(weights).unwrap().sample(rng)
}

/// The kind of zone number `k` of flat, slopes, pits and caves.
pub open spec fn zone_kind(k: int) -> Zone {
    if k == 0 {
        Zone::Flat
    } else if k == 1 {
        Zone::Slopes
    } else if k == 2 {
        Zone::Pits
    } else {
        Zone::Caves
    }
}

/// The zone that the draws give: kind number `pick` and the four flags.
pub closed spec fn spec_zone_of_draws(
    pick: int,
    bonus: bool,
    powerup_block: bool,
    decorate: bool,
    safe: bool,
) -> ZoneInfo {
    ZoneInfo { kind: zone_kind(pick), bonus, powerup_block, decorate, safe }
}

/// The zone made of the draws of `gen_zone`: the kind numbered `pick` among
/// flat, slopes, pits and caves, and the four flags as drawn.
pub fn zone_of_draws(pick: usize, bonus: bool, powerup_block: bool, decorate: bool, safe: bool) -> (r: ZoneInfo)
    requires
        pick < 4,
    ensures
        r == spec_zone_of_draws(pick as int, bonus, powerup_block, decorate, safe),
{
    let kinds = [Zone::Flat, Zone::Slopes, Zone::Pits, Zone::Caves];
    let kind = kinds[pick];
    ZoneInfo { kind, bonus, powerup_block, decorate, safe }
}

/// A zone drawn at random: its kind with weights four, three, two and one
/// for flat, slopes, pits and caves; a bonus one time in ten; a power-up
/// block two times in ten; decoration eight times in ten; safe three times
/// in ten. Every zone can come out.
pub fn gen_zone(rng: &mut Lcg128Xsl64) -> (r: ZoneInfo) {
    let k = weighted_pick(rng, [4, 3, 2, 1]);
    let bonus = gen_ratio(rng, 1, 10);
    let powerup_block = gen_ratio(rng, 2, 10);
    let decorate = gen_ratio(rng, 8, 10);
    let safe = gen_ratio(rng, 3, 10);
    zone_of_draws(k, bonus, powerup_block, decorate, safe)
}

/// The number of zones on the main path after the start.
pub const MAIN_PATH: i32 = 100;

/// Every edge of `es` joins nodes of the first `n`.
pub open spec fn edges_within(es: Seq<(usize, usize, i32)>, n: int) -> bool {
    forall|e: int| 0 <= e < es.len() ==> (#[trigger] es[e]).0 < n && es[e].1 < n
}

/// Every edge of `es` is of one of the graph's kinds: a main path step
/// (weight 3) from a node to the next; a shortcut (weight 2) to a main path
/// node from one of the ten before its predecessor (or from the start); a
/// step along a branch (weight 4) from a node to the next; or a junction
/// between a branch and the main path (weight 5).
pub open spec fn edges_kinded(es: Seq<(usize, usize, i32)>) -> bool {
    forall|e: int|
        0 <= e < es.len() ==> {
            let (a, b, w) = #[trigger] es[e];
            ||| (w == 3 && b == a + 1 && b <= MAIN_PATH)
            ||| (w == 2 && 1 <= b <= MAIN_PATH && a < b && (b - 11 <= a || a == 0))
            ||| (w == 4 && b == a + 1 && a > MAIN_PATH)
            ||| (w == 5 && ((a < MAIN_PATH && b > MAIN_PATH) || (a > MAIN_PATH && b < MAIN_PATH)))
        }
}

/// The edges of weight 4 that join the nodes `first`, `first + 1`, ...,
/// `first + n` one after the other.
pub open spec fn chain_edges(first: int, n: int) -> Seq<(usize, usize, i32)> {
    Seq::new(n as nat, |k: int| ((first + k) as usize, (first + k + 1) as usize, 4i32))
}

/// Adds a chain of `n` new zones from `first` on, each step an edge of
/// weight 4, the zones drawn at random or all start zones; returns the last.
fn add_chain(g: &mut Graph<ZoneInfo, i32>, rng: &mut Lcg128Xsl64, first: usize, n: i32, random: bool) -> (r: usize)
    requires
        first == graph_nodes(*old(g)).len() - 1,
        first > MAIN_PATH,
        0 <= n,
        graph_nodes(*old(g)).len() + n < u32::MAX,
        graph_edges(*old(g)).len() + n < u32::MAX,
        edges_within(graph_edges(*old(g)), graph_nodes(*old(g)).len() as int),
        edges_kinded(graph_edges(*old(g))),
    ensures
        graph_nodes(*final(g)).len() == graph_nodes(*old(g)).len() + n,
        graph_edges(*final(g)).len() == graph_edges(*old(g)).len() + n,
        graph_nodes(*final(g)).subrange(0, graph_nodes(*old(g)).len() as int) == graph_nodes(*old(g)),
        graph_edges(*final(g)).subrange(0, graph_edges(*old(g)).len() as int) == graph_edges(*old(g)),
        !random ==> forall|k: int|
            graph_nodes(*old(g)).len() <= k < graph_nodes(*final(g)).len() ==> #[trigger] graph_nodes(
                *final(g),
            )[k] == spec_start_zone(),
        r == graph_nodes(*final(g)).len() - 1,
        graph_edges(*final(g)) == graph_edges(*old(g)) + chain_edges(first as int, n as int),
        edges_within(graph_edges(*final(g)), graph_nodes(*final(g)).len() as int),
        edges_kinded(graph_edges(*final(g))),
{
    let mut end = first;
    let mut k: i32 = 0;
    while k < n
        invariant
            0 <= k <= n,
            end == graph_nodes(*g).len() - 1,
            end > MAIN_PATH,
            graph_nodes(*g).len() == graph_nodes(*old(g)).len() + k,
            graph_edges(*g).len() == graph_edges(*old(g)).len() + k,
            graph_nodes(*old(g)).len() + n < u32::MAX,
            graph_edges(*old(g)).len() + n < u32::MAX,
            graph_nodes(*g).subrange(0, graph_nodes(*old(g)).len() as int) == graph_nodes(*old(g)),
            graph_edges(*g).subrange(0, graph_edges(*old(g)).len() as int) == graph_edges(*old(g)),
            graph_edges(*g) == graph_edges(*old(g)) + chain_edges(first as int, k as int),
            first == graph_nodes(*old(g)).len() - 1,
            !random ==> forall|j: int|
                graph_nodes(*old(g)).len() <= j < graph_nodes(*g).len() ==> #[trigger] graph_nodes(*g)[j]
                    == spec_start_zone(),
            edges_within(graph_edges(*g), graph_nodes(*g).len() as int),
            edges_kinded(graph_edges(*g)),
        decreases n - k,
    {
        let zone = if random {
            gen_zone(rng)
        } else {
            start_zone()
        };
        let ghost before = graph_nodes(*g);
        let ghost edges_before = graph_edges(*g);
        let new = graph_add_node(g, zone);
        graph_add_edge(g, end, new, 4);
        proof {
            assert(graph_nodes(*g).subrange(0, graph_nodes(*old(g)).len() as int) =~= before.subrange(
                0,
                graph_nodes(*old(g)).len() as int,
            ));
            assert(graph_edges(*g).subrange(0, graph_edges(*old(g)).len() as int) =~= edges_before.subrange(
                0,
                graph_edges(*old(g)).len() as int,
            ));
            assert(chain_edges(first as int, k + 1) =~= chain_edges(first as int, k as int).push(
                (end, new, 4i32),
            ));
            assert(graph_edges(*g) =~= graph_edges(*old(g)) + chain_edges(first as int, k + 1));
        }
        end = new;
        k = k + 1;
    }
    end
}

/// A graph as its nodes and its edges (source, target, weight), in order.
pub type GraphParts = (Seq<ZoneInfo>, Seq<(usize, usize, i32)>);

/// The start zone and the main path drawn as `main`: entry `k` is the zone
/// of node `k + 1` and the node its shortcut comes from, or -1 for none.
/// Each node is joined to the one before by an edge of weight 3, then its
/// shortcut follows, of weight 2.
pub open spec fn main_path_parts(main: Seq<(ZoneInfo, int)>) -> GraphParts
    decreases main.len(),
{
    if main.len() == 0 {
        (seq![spec_start_zone()], Seq::empty())
    } else {
        let p = main_path_parts(main.drop_last());
        let k = p.0.len() - 1;
        let z = main.last().0;
        let f = main.last().1;
        let es = p.1.push((k as usize, (k + 1) as usize, 3i32));
        (p.0.push(z), if f >= 0 {
            es.push((f as usize, (k + 1) as usize, 2i32))
        } else {
            es
        })
    }
}

/// The shortcuts drawn for the main path can come out: the one to node
/// `k + 1` comes from one of the ten nodes before node `k`, or node 0.
pub open spec fn main_draws_valid(main: Seq<(ZoneInfo, int)>) -> bool {
    forall|k: int|
        0 <= k < main.len() ==> {
            let f = (#[trigger] main[k]).1;
            f == -1 || ((k - 10 > 0 ==> k - 10 <= f) && 0 <= f && f < (if k > 1 {
                k
            } else {
                1
            }))
        }
}

/// A branch or loop can hang at main path node `s` and `e`: `s` on the main
/// path, `e` from `s` on, fewer than fifteen nodes on and before node 100.
pub open spec fn attach_valid(s: int, e: int) -> bool {
    0 <= s < MAIN_PATH && s <= e < (if s + 15 < MAIN_PATH {
        s + 15
    } else {
        MAIN_PATH as int
    })
}

/// The graph `p` with the branch `b` added: the zones `b.0`, joined in a
/// chain by edges of weight 4, an edge of weight 5 from main path node `b.1`
/// to the first and one from the last to main path node `b.2`.
pub open spec fn add_branch(p: GraphParts, b: (Seq<ZoneInfo>, int, int)) -> GraphParts {
    let f = p.0.len() as int;
    let last = f + b.0.len() - 1;
    (
        p.0 + b.0,
        p.1 + chain_edges(f, b.0.len() - 1) + seq![
            (b.1 as usize, f as usize, 5i32),
            (last as usize, b.2 as usize, 5i32),
        ],
    )
}

/// The graph `p` with the loop `l` added: `l.0` start zones joined in a
/// chain by edges of weight 4, an edge of weight 5 from the first to main
/// path node `l.1` and one from main path node `l.2` to the last.
pub open spec fn add_loop(p: GraphParts, l: (int, int, int)) -> GraphParts {
    let f = p.0.len() as int;
    let last = f + l.0 - 1;
    (
        p.0 + Seq::new(l.0 as nat, |k: int| spec_start_zone()),
        p.1 + chain_edges(f, l.0 - 1) + seq![
            (f as usize, l.1 as usize, 5i32),
            (l.2 as usize, last as usize, 5i32),
        ],
    )
}

/// The graph `p` with the branches `bs` added in order.
pub open spec fn with_branches(p: GraphParts, bs: Seq<(Seq<ZoneInfo>, int, int)>) -> GraphParts
    decreases bs.len(),
{
    if bs.len() == 0 {
        p
    } else {
        add_branch(with_branches(p, bs.drop_last()), bs.last())
    }
}

/// The graph `p` with the loops `ls` added in order.
pub open spec fn with_loops(p: GraphParts, ls: Seq<(int, int, int)>) -> GraphParts
    decreases ls.len(),
{
    if ls.len() == 0 {
        p
    } else {
        add_loop(with_loops(p, ls.drop_last()), ls.last())
    }
}

/// The graph that the draws give: the main path, then the branches, then
/// the loops.
pub open spec fn drawn_graph(
    main: Seq<(ZoneInfo, int)>,
    bs: Seq<(Seq<ZoneInfo>, int, int)>,
    ls: Seq<(int, int, int)>,
) -> GraphParts {
    with_loops(with_branches(main_path_parts(main), bs), ls)
}

/// The draws can come out of `gen_graph`: a hundred main path zones with
/// their shortcuts; one to nineteen branches of two to six zones; one to
/// nine loops of two to six zones; each hanging where it can.
pub open spec fn draws_valid(
    main: Seq<(ZoneInfo, int)>,
    bs: Seq<(Seq<ZoneInfo>, int, int)>,
    ls: Seq<(int, int, int)>,
) -> bool {
    &&& main.len() == MAIN_PATH
    &&& main_draws_valid(main)
    &&& 1 <= bs.len() <= 19
    &&& forall|k: int|
        0 <= k < bs.len() ==> 2 <= (#[trigger] bs[k]).0.len() <= 6 && attach_valid(bs[k].1, bs[k].2)
    &&& 1 <= ls.len() <= 9
    &&& forall|k: int| 0 <= k < ls.len() ==> 2 <= (#[trigger] ls[k]).0 <= 6 && attach_valid(ls[k].1, ls[k].2)
}

/// Generates a level graph: the start zone, then a main path of a hundred
/// random zones, each joined to the last by an edge of weight 3, three
/// times in ten with a shortcut of weight 2 from one of the ten zones before;
/// then one to nineteen side branches of two to six random zones, leaving
/// the main path at a random zone and rejoining it at most fifteen zones on,
/// by edges of weight 5; then one to nine loops of two to six start zones,
/// hanging off the main path the other way round.
pub fn gen_graph(rng: &mut Lcg128Xsl64) -> (g: Graph<ZoneInfo, i32>)
    ensures
        MAIN_PATH + 5 <= graph_nodes(g).len() <= MAIN_PATH + 1 + 6 * 19 + 6 * 9,
        graph_nodes(g)[0] == spec_start_zone(),
        forall|k: int|
            0 <= k < MAIN_PATH ==> #[trigger] graph_edges(g).contains((k as usize, (k + 1) as usize, 3)),
        edges_within(graph_edges(g), graph_nodes(g).len() as int),
        edges_kinded(graph_edges(g)),
        exists|main: Seq<(ZoneInfo, int)>, bs: Seq<(Seq<ZoneInfo>, int, int)>, ls: Seq<(int, int, int)>|
            #![trigger drawn_graph(main, bs, ls)]
            draws_valid(main, bs, ls) && (graph_nodes(g), graph_edges(g)) == drawn_graph(main, bs, ls),
{
    let mut g = graph_new();
    let start = graph_add_node(&mut g, start_zone());
    let mut main_path = start;
    let ghost mut main: Seq<(ZoneInfo, int)> = Seq::empty();
    proof {
        assert(graph_nodes(g) =~= main_path_parts(main).0);
    }
    let mut i: i32 = 0;
    while i < MAIN_PATH
        invariant
            0 <= i <= MAIN_PATH,
            main_path == i,
            main.len() == i,
            main_draws_valid(main),
            graph_nodes(g) == main_path_parts(main).0,
            graph_edges(g) == main_path_parts(main).1,
            graph_nodes(g).len() == i + 1,
            graph_edges(g).len() <= 2 * i,
            graph_nodes(g)[0] == spec_start_zone(),
            forall|k: int|
                0 <= k < i ==> #[trigger] graph_edges(g).contains((k as usize, (k + 1) as usize, 3)),
            edges_within(graph_edges(g), graph_nodes(g).len() as int),
            edges_kinded(graph_edges(g)),
        decreases MAIN_PATH - i,
    {
        let zone = gen_zone(rng);
        let ghost e0 = graph_edges(g);
        let new = graph_add_node(&mut g, zone);
        graph_add_edge(&mut g, main_path, new, 3);
        let ghost e1 = graph_edges(g);
        let ghost mut f: int = -1;
        if gen_ratio(rng, 3, 10) {
            let lo = if i - 10 > 0 {
                i - 10
            } else {
                0
            };
            let hi = if i > 1 {
                i
            } else {
                1
            };
            let from = gen_range_i32(rng, lo, hi - 1);
            graph_add_edge(&mut g, from as usize, new, 2);
            proof {
                f = from as int;
            }
        }
        proof {
            let m2 = main.push((zone, f));
            assert(m2.drop_last() =~= main);
            assert(m2[i as int] == (zone, f));
            assert forall|k: int| 0 <= k < m2.len() implies {
                let f = (#[trigger] m2[k]).1;
                f == -1 || ((k - 10 > 0 ==> k - 10 <= f) && 0 <= f && f < (if k > 1 {
                    k
                } else {
                    1
                }))
            } by {
                if k < i {
                    assert(m2[k] == main[k]);
                }
            }
            main = m2;
        }
        proof {
            assert forall|k: int| 0 <= k < i + 1 implies #[trigger] graph_edges(g).contains(
                (k as usize, (k + 1) as usize, 3),
            ) by {
                if k < i {
                    assert(e0.contains((k as usize, (k + 1) as usize, 3i32)));
                    let e = choose|e: int| 0 <= e < e0.len() && e0[e] == (k as usize, (k + 1) as usize, 3i32);
                    assert(e1[e] == e0[e]);
                    assert(graph_edges(g)[e] == e1[e]);
                } else {
                    assert(graph_edges(g)[e0.len() as int] == (k as usize, (k + 1) as usize, 3i32));
                }
            }
        }
        main_path = new;
        i = i + 1;
    }
    let branches = gen_range_i32(rng, 1, 19);
    let ghost mut bs: Seq<(Seq<ZoneInfo>, int, int)> = Seq::empty();
    let mut b: i32 = 0;
    while b < branches
        invariant
            0 <= b <= branches < 20,
            1 <= branches,
            main.len() == MAIN_PATH,
            main_draws_valid(main),
            bs.len() == b,
            forall|k: int|
                0 <= k < bs.len() ==> 2 <= (#[trigger] bs[k]).0.len() <= 6 && attach_valid(bs[k].1, bs[k].2),
            graph_nodes(g) == with_branches(main_path_parts(main), bs).0,
            graph_edges(g) == with_branches(main_path_parts(main), bs).1,
            MAIN_PATH + 1 + 2 * b <= graph_nodes(g).len() <= MAIN_PATH + 1 + 6 * b,
            graph_edges(g).len() <= 2 * MAIN_PATH + 7 * b,
            graph_nodes(g)[0] == spec_start_zone(),
            forall|k: int|
                0 <= k < MAIN_PATH ==> #[trigger] graph_edges(g).contains((k as usize, (k + 1) as usize, 3)),
            edges_within(graph_edges(g), graph_nodes(g).len() as int),
            edges_kinded(graph_edges(g)),
        decreases branches - b,
    {
        let ghost g0 = g;
        let zone = gen_zone(rng);
        let first = graph_add_node(&mut g, zone);
        let n = gen_range_i32(rng, 1, 5);
        let end = add_chain(&mut g, rng, first, n, true);
        let start_index = gen_range_usize(rng, 0, 99);
        graph_add_edge(&mut g, start_index, first, 5);
        let top = if start_index + 15 < 100 {
            start_index + 15
        } else {
            100
        };
        let end_index = gen_range_usize(rng, start_index, top - 1);
        graph_add_edge(&mut g, end, end_index, 5);
        proof {
            let n0 = graph_nodes(g0);
            let zs = graph_nodes(g).subrange(n0.len() as int, graph_nodes(g).len() as int);
            assert(graph_nodes(g).subrange(0, n0.len() as int) =~= n0);
            assert(graph_nodes(g) =~= n0 + zs);
            let br = (zs, start_index as int, end_index as int);
            let bs2 = bs.push(br);
            assert(bs2.drop_last() =~= bs);
            assert(graph_edges(g) =~= add_branch(with_branches(main_path_parts(main), bs), br).1);
            assert forall|k: int| 0 <= k < bs2.len() implies 2 <= (#[trigger] bs2[k]).0.len() <= 6
                && attach_valid(bs2[k].1, bs2[k].2) by {
                if k < bs.len() {
                    assert(bs2[k] == bs[k]);
                }
            }
            bs = bs2;
        }
        proof {
            assert(graph_edges(g).subrange(0, graph_edges(g0).len() as int) =~= graph_edges(g0));
            lemma_edges_kept(graph_edges(g0), graph_edges(g));
            assert(graph_nodes(g)[0] == graph_nodes(g).subrange(0, graph_nodes(g0).len() as int)[0]);
        }
        b = b + 1;
    }
    let loops = gen_range_i32(rng, 1, 9);
    let ghost mut ls: Seq<(int, int, int)> = Seq::empty();
    let mut l: i32 = 0;
    while l < loops
        invariant
            0 <= l <= loops < 10,
            main.len() == MAIN_PATH,
            main_draws_valid(main),
            1 <= bs.len() <= 19,
            forall|k: int|
                0 <= k < bs.len() ==> 2 <= (#[trigger] bs[k]).0.len() <= 6 && attach_valid(bs[k].1, bs[k].2),
            ls.len() == l,
            forall|k: int| 0 <= k < ls.len() ==> 2 <= (#[trigger] ls[k]).0 <= 6 && attach_valid(ls[k].1, ls[k].2),
            graph_nodes(g) == drawn_graph(main, bs, ls).0,
            graph_edges(g) == drawn_graph(main, bs, ls).1,
            0 <= branches < 20,
            1 <= branches,
            MAIN_PATH + 1 + 2 * branches + 2 * l <= graph_nodes(g).len() <= MAIN_PATH + 1 + 6 * branches + 6 * l,
            graph_edges(g).len() <= 2 * MAIN_PATH + 7 * branches + 7 * l,
            graph_nodes(g)[0] == spec_start_zone(),
            forall|k: int|
                0 <= k < MAIN_PATH ==> #[trigger] graph_edges(g).contains((k as usize, (k + 1) as usize, 3)),
            edges_within(graph_edges(g), graph_nodes(g).len() as int),
            edges_kinded(graph_edges(g)),
        decreases loops - l,
    {
        let ghost g0 = g;
        let first = graph_add_node(&mut g, start_zone());
        let ghost n1 = graph_nodes(g);
        let n = gen_range_i32(rng, 1, 5);
        let end = add_chain(&mut g, rng, first, n, false);
        let start_index = gen_range_usize(rng, 0, 99);
        graph_add_edge(&mut g, first, start_index, 5);
        let top = if start_index + 15 < 100 {
            start_index + 15
        } else {
            100
        };
        let end_index = gen_range_usize(rng, start_index, top - 1);
        graph_add_edge(&mut g, end_index, end, 5);
        proof {
            let n0 = graph_nodes(g0);
            let starts = Seq::new((n + 1) as nat, |k: int| spec_start_zone());
            assert(graph_nodes(g).subrange(0, n0.len() as int) =~= n0);
            assert forall|k: int| 0 <= k < graph_nodes(g).len() implies #[trigger] graph_nodes(g)[k] == (n0
                + starts)[k] by {
                if k < n0.len() {
                    assert(graph_nodes(g).subrange(0, n0.len() as int)[k] == graph_nodes(g)[k]);
                } else if k == n0.len() {
                    assert(graph_nodes(g).subrange(0, n1.len() as int)[k] == n1[k]);
                }
            }
            assert(graph_nodes(g) =~= n0 + starts);
            let lp = ((n + 1) as int, start_index as int, end_index as int);
            let ls2 = ls.push(lp);
            assert(ls2.drop_last() =~= ls);
            assert(graph_edges(g) =~= add_loop(drawn_graph(main, bs, ls), lp).1);
            assert forall|k: int| 0 <= k < ls2.len() implies 2 <= (#[trigger] ls2[k]).0 <= 6 && attach_valid(
                ls2[k].1,
                ls2[k].2,
            ) by {
                if k < ls.len() {
                    assert(ls2[k] == ls[k]);
                }
            }
            ls = ls2;
        }
        proof {
            assert(graph_edges(g).subrange(0, graph_edges(g0).len() as int) =~= graph_edges(g0));
            lemma_edges_kept(graph_edges(g0), graph_edges(g));
            assert(graph_nodes(g)[0] == graph_nodes(g).subrange(0, graph_nodes(g0).len() as int)[0]);
        }
        l = l + 1;
    }
    assert(draws_valid(main, bs, ls) && (graph_nodes(g), graph_edges(g)) == drawn_graph(main, bs, ls));
    g
}

/// Edges kept at the front of a longer sequence are still in it.
proof fn lemma_edges_kept(e0: Seq<(usize, usize, i32)>, e1: Seq<(usize, usize, i32)>)
    requires
        e1.len() >= e0.len(),
        e1.subrange(0, e0.len() as int) == e0,
    ensures
        forall|t: (usize, usize, i32)| e0.contains(t) ==> e1.contains(t),
{
    assert forall|t: (usize, usize, i32)| e0.contains(t) implies e1.contains(t) by {
        let k = choose|k: int| 0 <= k < e0.len() && e0[k] == t;
        assert(e1.subrange(0, e0.len() as int)[k] == t);
    }
}

} // verus!
