//! Proximity graphs over geolocated records and a traversal-based
//! closeness ranking of their nodes.
//!
//! Coordinates are fixed-point integers (units of 1e-7 degree) and edge
//! weights are great-circle distances in whole metres.

pub mod centrality;
pub mod construction;
pub mod geo_graph;
pub mod traversal;

pub use centrality::{analyze_centrality, analyze_centrality_checked, CentralityScore};
pub use construction::{construct_graph, located_points, Property};
pub use geo_graph::{
    edge_count, edge_list, incident_edges, node_coordinates, node_count, Coordinate,
    ProximityGraph,
};
pub use traversal::{bfs_total_distance, has_bounded_weights};
