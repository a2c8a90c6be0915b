use petgraph::graph::NodeIndex;
use rand::SeedableRng;
use rand_pcg::Pcg64;
use sofia::map::level_graph::{gen_graph, gen_zone, start_zone, zone_of_draws, MAIN_PATH};

fn edges_of(seed: u64) -> Vec<(usize, usize, i32)> {
    let mut rng = Pcg64::seed_from_u64(seed);
    let g = gen_graph(&mut rng);
    g.raw_edges()
        .iter()
        .map(|e| (e.source().index(), e.target().index(), e.weight))
        .collect()
}

#[test]
fn graph_starts_at_the_start_zone() {
    for seed in 0..20u64 {
        let mut rng = Pcg64::seed_from_u64(seed);
        let g = gen_graph(&mut rng);
        assert_eq!(g[NodeIndex::new(0)], start_zone());
    }
}

#[test]
fn graph_has_a_main_path_of_a_hundred_steps() {
    for seed in 0..20u64 {
        let es = edges_of(seed);
        for k in 0..MAIN_PATH as usize {
            assert!(es.contains(&(k, k + 1, 3)), "seed {} step {}", seed, k);
        }
    }
}

#[test]
fn graph_size_is_within_the_branch_and_loop_counts() {
    for seed in 0..20u64 {
        let mut rng = Pcg64::seed_from_u64(seed);
        let g = gen_graph(&mut rng);
        let n = g.node_count();
        // the main path, then one to nineteen branches and one to nine loops,
        // each of two to six zones
        assert!(n >= 101 + 2 * 2, "seed {}: {}", seed, n);
        assert!(n <= 101 + 19 * 6 + 9 * 6, "seed {}: {}", seed, n);
        assert_eq!(g.raw_edges().len(), g.edge_count());
    }
}

#[test]
fn graph_edges_are_of_the_four_kinds() {
    let m = MAIN_PATH as usize;
    for seed in 0..20u64 {
        let mut rng = Pcg64::seed_from_u64(seed);
        let g = gen_graph(&mut rng);
        let n = g.node_count();
        for e in g.raw_edges() {
            let (a, b, w) = (e.source().index(), e.target().index(), e.weight);
            assert!(a < n && b < n);
            let ok = match w {
                3 => b == a + 1 && b <= m,
                2 => 1 <= b && b <= m && a < b && (a + 11 >= b || a == 0),
                4 => b == a + 1 && a > m,
                5 => (a < m && b > m) || (a > m && b < m),
                _ => false,
            };
            assert!(ok, "seed {}: edge {:?}", seed, (a, b, w));
        }
    }
}

#[test]
fn same_seed_gives_the_same_graph() {
    assert_eq!(edges_of(7), edges_of(7));
    let mut r1 = Pcg64::seed_from_u64(3);
    let mut r2 = Pcg64::seed_from_u64(3);
    assert_eq!(gen_zone(&mut r1), gen_zone(&mut r2));
}

#[test]
fn zone_of_draws_builds_the_drawn_zone() {
    assert_eq!(zone_of_draws(0, false, true, true, true), start_zone());
    assert_ne!(zone_of_draws(1, false, true, true, true), start_zone());
    assert_ne!(zone_of_draws(0, true, true, true, true), start_zone());
    assert_ne!(zone_of_draws(0, false, true, true, false), start_zone());
    assert_eq!(zone_of_draws(2, true, false, false, true), zone_of_draws(2, true, false, false, true));
    assert_ne!(zone_of_draws(2, true, false, false, true), zone_of_draws(3, true, false, false, true));
}

#[test]
fn graph_chains_and_junctions_add_up() {
    for seed in 0..20u64 {
        let mut rng = Pcg64::seed_from_u64(seed);
        let g = gen_graph(&mut rng);
        let count = |w: i32| g.raw_edges().iter().filter(|e| e.weight == w).count();
        let pieces = count(5) / 2;
        assert_eq!(count(5) % 2, 0);
        assert!((2..=28).contains(&pieces), "seed {}", seed);
        assert_eq!(count(3), 100);
        // every branch or loop of m zones has m - 1 chain edges
        assert_eq!(count(4), g.node_count() - 101 - pieces, "seed {}", seed);
        assert_eq!(g.edge_count(), count(2) + count(3) + count(4) + count(5));
    }
}
