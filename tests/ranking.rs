use spatial_centrality::{
    analyze_centrality, analyze_centrality_checked, bfs_total_distance, construct_graph, has_bounded_weights, CentralityScore,
    Property,
};

fn p(i: i64) -> Property {
    Property { latitude: Some(i), longitude: Some(i) }
}

fn points(n: i64) -> Vec<Property> {
    (0..n).map(p).collect()
}

/// Path A - B (5 km) - C (7 km); A and C are too far apart to be joined.
fn path_graph() -> spatial_centrality::ProximityGraph {
    let d = vec![vec![0, 5_000, 20_000], vec![5_000, 0, 7_000], vec![20_000, 7_000, 0]];
    construct_graph(&points(3), &d, 10_000)
}

#[test]
fn path_total_from_end() {
    let g = path_graph();
    assert_eq!(bfs_total_distance(&g, 0), 17_000);
    assert_eq!(bfs_total_distance(&g, 1), 12_000);
    assert_eq!(bfs_total_distance(&g, 2), 19_000);
}

#[test]
fn first_dequeued_distance_wins() {
    // A-B 1, A-C 10, B-C 1: C is reached at 10 before the shorter way
    // through B is considered, and B keeps its first entry of 1.
    let d = vec![vec![0, 1_000, 10_000], vec![1_000, 0, 1_000], vec![10_000, 1_000, 0]];
    let g = construct_graph(&points(3), &d, 10_000);
    assert_eq!(bfs_total_distance(&g, 0), 11_000);
}

#[test]
fn unreachable_nodes_add_nothing() {
    let d = vec![vec![0, 3_000, 50_000], vec![3_000, 0, 50_000], vec![50_000, 50_000, 0]];
    let g = construct_graph(&points(3), &d, 10_000);
    assert_eq!(bfs_total_distance(&g, 0), 3_000);
    assert_eq!(bfs_total_distance(&g, 2), 0);
}

#[test]
fn triangle_scores() {
    let d = vec![vec![0, 8_200, 9_400], vec![8_200, 0, 6_900], vec![9_400, 6_900, 0]];
    let g = construct_graph(&points(3), &d, 10_000);
    assert!(bfs_total_distance(&g, 0) > 0);
    assert!(bfs_total_distance(&g, 1) > 0);
    assert!(bfs_total_distance(&g, 2) > 0);
    let r = analyze_centrality(&g, 3);
    assert_eq!(r.len(), 3);
    assert!(!r[0].is_zero());
    assert_eq!(r[0].numerator(), 1);
}

#[test]
fn ranking_is_by_score_then_index() {
    let g = path_graph();
    let r = analyze_centrality(&g, 3);
    assert_eq!(
        r,
        vec![
            CentralityScore { node: 1, total_distance: 12_000 },
            CentralityScore { node: 0, total_distance: 17_000 },
            CentralityScore { node: 2, total_distance: 19_000 },
        ]
    );
    for i in 1..r.len() {
        let (a, b) = (r[i - 1], r[i]);
        assert!(a.numerator() * b.denominator() >= b.numerator() * a.denominator());
    }
}

#[test]
fn isolated_nodes_rank_last_with_zero_score() {
    let d = vec![
        vec![0, 90_000, 90_000, 90_000],
        vec![90_000, 0, 2_000, 90_000],
        vec![90_000, 2_000, 0, 90_000],
        vec![90_000, 90_000, 90_000, 0],
    ];
    let g = construct_graph(&points(4), &d, 10_000);
    let r = analyze_centrality(&g, 10);
    assert_eq!(r.len(), 4);
    assert_eq!(r[0], CentralityScore { node: 1, total_distance: 2_000 });
    assert_eq!(r[1], CentralityScore { node: 2, total_distance: 2_000 });
    assert_eq!(r[2], CentralityScore { node: 0, total_distance: 0 });
    assert_eq!(r[3], CentralityScore { node: 3, total_distance: 0 });
    assert!(r[2].is_zero());
    assert_eq!(r[2].numerator(), 0);
    assert_eq!(r[2].denominator(), 1);
    assert_eq!(r[0].denominator(), 2_000);
}

#[test]
fn sample_is_a_prefix_of_the_nodes() {
    let g = path_graph();
    let r = analyze_centrality(&g, 2);
    assert_eq!(
        r,
        vec![
            CentralityScore { node: 1, total_distance: 12_000 },
            CentralityScore { node: 0, total_distance: 17_000 },
        ]
    );
    assert_eq!(analyze_centrality(&g, 0).len(), 0);
}

#[test]
fn empty_graph_gives_empty_ranking() {
    let g = construct_graph(&Vec::new(), &Vec::new(), 10_000);
    assert!(analyze_centrality(&g, 50).is_empty());
}

#[test]
fn weight_bound_check() {
    let g = path_graph();
    assert!(has_bounded_weights(&g));
    let d = vec![vec![0, u64::MAX / 2], vec![u64::MAX / 2, 0]];
    let big = construct_graph(&points(2), &d, u64::MAX);
    assert!(!has_bounded_weights(&big));
}

#[test]
fn checked_ranking_refuses_oversized_weights() {
    let g = path_graph();
    assert_eq!(analyze_centrality_checked(&g, 3), Some(analyze_centrality(&g, 3)));
    let d = vec![vec![0, u64::MAX / 2], vec![u64::MAX / 2, 0]];
    let big = construct_graph(&points(2), &d, u64::MAX);
    assert_eq!(analyze_centrality_checked(&big, 2), None);
}
