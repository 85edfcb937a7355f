use spatial_centrality::{
    analyze_centrality, bfs_total_distance, construct_graph, edge_count, edge_list, incident_edges, located_points,
    node_coordinates, node_count, Coordinate, Property,
};

fn fixed(deg: f64) -> i64 {
    (deg * 1e7).round() as i64
}

fn at(lat: f64, lon: f64) -> Property {
    Property { latitude: Some(fixed(lat)), longitude: Some(fixed(lon)) }
}

fn haversine_m(a: Coordinate, b: Coordinate) -> u64 {
    let (lat1, lon1) = (a.lat_e7 as f64 / 1e7, a.lon_e7 as f64 / 1e7);
    let (lat2, lon2) = (b.lat_e7 as f64 / 1e7, b.lon_e7 as f64 / 1e7);
    let dlat = (lat2 - lat1).to_radians();
    let dlon = (lon2 - lon1).to_radians();
    let h = (dlat / 2.0).sin().powi(2)
        + lat1.to_radians().cos() * lat2.to_radians().cos() * (dlon / 2.0).sin().powi(2);
    let c = 2.0 * h.sqrt().atan2((1.0 - h).sqrt());
    (6371.0 * c * 1000.0).round() as u64
}

fn table(records: &Vec<Property>) -> Vec<Vec<u64>> {
    let pts = located_points(records);
    pts.iter().map(|a| pts.iter().map(|b| haversine_m(*a, *b)).collect()).collect()
}

fn dubai_triangle() -> Vec<Property> {
    vec![at(25.276987, 55.296249), at(25.204849, 55.270783), at(25.171356, 55.212227)]
}

#[test]
fn dubai_points_at_ten_km() {
    // The first and third points are about 14.5 km apart, so at 10 km the
    // graph is the path 0 - 1 - 2.
    let records = dubai_triangle();
    let d = table(&records);
    assert_eq!(d[0][1], 8_420);
    assert_eq!(d[1][2], 6_970);
    assert_eq!(d[0][2], 14_471);
    let g = construct_graph(&records, &d, 10_000);
    assert_eq!(node_count(&g), 3);
    assert_eq!(edge_count(&g), 2);
    assert_eq!(edge_list(&g)[0], (0, 1, 8_420));
    assert_eq!(edge_list(&g)[1], (1, 2, 6_970));
    for v in 0..3 {
        assert!(bfs_total_distance(&g, v) > 0);
    }
    let r = analyze_centrality(&g, 3);
    assert_eq!(r.len(), 3);
    assert!(!r[0].is_zero());
    assert_eq!(r[0].node, 1);
}

#[test]
fn dubai_points_form_triangle_at_fifteen_km() {
    let records = dubai_triangle();
    let g = construct_graph(&records, &table(&records), 15_000);
    assert_eq!(node_count(&g), 3);
    assert_eq!(edge_count(&g), 3);
    assert_eq!(edge_list(&g)[0].0, 0);
    assert_eq!(edge_list(&g)[0].1, 1);
    assert_eq!(edge_list(&g)[1].0, 0);
    assert_eq!(edge_list(&g)[1].1, 2);
    assert_eq!(edge_list(&g)[2].0, 1);
    assert_eq!(edge_list(&g)[2].1, 2);
    for v in 0..3 {
        assert!(bfs_total_distance(&g, v) > 0);
    }
    let r = analyze_centrality(&g, 3);
    assert_eq!(r.len(), 3);
    assert!(!r[0].is_zero());
}

#[test]
fn records_missing_a_coordinate_are_dropped() {
    let records = vec![
        at(25.0, 55.0),
        Property { latitude: None, longitude: Some(fixed(55.1)) },
        Property { latitude: Some(fixed(25.1)), longitude: None },
        Property { latitude: None, longitude: None },
        at(25.01, 55.01),
    ];
    let pts = located_points(&records);
    assert_eq!(pts.len(), 2);
    assert_eq!(pts[1], Coordinate { lat_e7: fixed(25.01), lon_e7: fixed(55.01) });
    let g = construct_graph(&records, &table(&records), 10_000);
    assert_eq!(node_count(&g), 2);
    assert_eq!(node_coordinates(&g)[0], Coordinate { lat_e7: 250_000_000, lon_e7: 550_000_000 });
    assert_eq!(node_coordinates(&g)[1], Coordinate { lat_e7: 250_100_000, lon_e7: 550_100_000 });
    assert_eq!(edge_count(&g), 1);
}

#[test]
fn empty_input_gives_empty_graph() {
    let records: Vec<Property> = Vec::new();
    let g = construct_graph(&records, &Vec::new(), 10_000);
    assert_eq!(node_count(&g), 0);
    assert_eq!(edge_count(&g), 0);
    assert!(node_coordinates(&g).is_empty());
    assert!(edge_list(&g).is_empty());
}

#[test]
fn near_pair_joined_far_pair_not() {
    // Dubai Marina and Abu Dhabi are over 100 km apart.
    let records = vec![at(25.0800, 55.1400), at(25.0900, 55.1500), at(24.4539, 54.3773)];
    let d = table(&records);
    assert!(d[0][1] <= 10_000);
    assert!(d[0][2] > 100_000);
    let g = construct_graph(&records, &d, 10_000);
    assert_eq!(edge_count(&g), 1);
    assert_eq!(edge_list(&g)[0], (0, 1, d[0][1]));
}

#[test]
fn radius_is_inclusive() {
    let records = vec![at(1.0, 1.0), at(2.0, 2.0), at(3.0, 3.0)];
    let d = vec![vec![0, 10_000, 10_001], vec![10_000, 0, 9_999], vec![10_001, 9_999, 0]];
    let g = construct_graph(&records, &d, 10_000);
    assert_eq!(edge_count(&g), 2);
    assert_eq!(edge_list(&g)[0], (0, 1, 10_000));
    assert_eq!(edge_list(&g)[1], (1, 2, 9_999));
}

#[test]
fn no_self_or_repeated_edges() {
    let records = vec![at(1.0, 1.0), at(1.0, 1.0), at(1.0, 1.0), at(1.0, 1.0)];
    let d = table(&records);
    assert_eq!(d[0][0], 0);
    let g = construct_graph(&records, &d, 10_000);
    assert_eq!(edge_count(&g), 6);
    let mut seen: Vec<(usize, usize)> = Vec::new();
    for k in 0..edge_count(&g) {
        let (a, b, w) = edge_list(&g)[k];
        assert!(a < b);
        assert_eq!(w, 0);
        assert!(!seen.contains(&(a, b)));
        seen.push((a, b));
    }
}

#[test]
fn incident_edges_follow_petgraph_order() {
    let records = vec![at(1.0, 1.0), at(2.0, 2.0), at(3.0, 3.0)];
    let d = vec![vec![0, 5, 6], vec![5, 0, 7], vec![6, 7, 0]];
    let g = construct_graph(&records, &d, 10);
    assert_eq!(incident_edges(&g, 0), vec![(2, 6), (1, 5)]);
    assert_eq!(incident_edges(&g, 1), vec![(2, 7), (0, 5)]);
    assert_eq!(incident_edges(&g, 2), vec![(1, 7), (0, 6)]);
}
