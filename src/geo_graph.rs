use vstd::prelude::*;
use petgraph::graph::{Graph, NodeIndex, UnGraph};
use petgraph::visit::EdgeRef;
use petgraph::Undirected;

verus! {

/// A latitude/longitude pair in units of 1e-7 degree.
#[derive(Clone, Copy, Debug, PartialEq, Eq, Structural)]
pub struct Coordinate {
    pub lat_e7: i64,
    pub lon_e7: i64,
}

#[verifier::external_type_specification]
#[verifier::external_body]
#[verifier::reject_recursive_types(N)]
#[verifier::reject_recursive_types(E)]
#[verifier::reject_recursive_types(Ty)]
#[verifier::reject_recursive_types(Ix)]
pub struct ExGraph<N, E, Ty, Ix>(Graph<N, E, Ty, Ix>);

#[verifier::external_type_specification]
#[verifier::external_body]
pub struct ExUndirected(Undirected);

/// An undirected proximity graph: nodes carry coordinates, edges carry
/// distances in metres.
pub type ProximityGraph = UnGraph<Coordinate, u64>;

/// The node weights of a graph, by node index.
pub uninterp spec fn graph_nodes(g: ProximityGraph) -> Seq<Coordinate>;

/// The edges of a graph, by edge index, as (source, target, weight).
pub uninterp spec fn graph_edges(g: ProximityGraph) -> Seq<(usize, usize, u64)>;

/// The edges that an undirected petgraph walk from node `a` yields first:
/// its outgoing list, each edge as (other endpoint, weight).
pub uninterp spec fn graph_outgoing(g: ProximityGraph, a: int) -> Seq<(usize, u64)>;

/// The edges that an undirected petgraph walk from node `a` yields after
/// its outgoing list: its incoming list without self-loops, each edge as
/// (other endpoint, weight).
pub uninterp spec fn graph_incoming(g: ProximityGraph, a: int) -> Seq<(usize, u64)>;

/// The neighbours of `a`, with edge weights, in the order the graph walks
/// them.
pub open spec fn neighbours(g: ProximityGraph, a: int) -> Seq<(usize, u64)> {
    graph_outgoing(g, a) + graph_incoming(g, a)
}

/// Relies on petgraph's `Graph::new_undirected`: a graph with no nodes and
/// no edges.
#[verifier::external_body]
pub(crate) fn new_graph() -> (g: ProximityGraph)
    ensures
        graph_nodes(g) == Seq::<Coordinate>::empty(),
        graph_edges(g) == Seq::<(usize, usize, u64)>::empty(),
        forall|a: int| #[trigger] graph_outgoing(g, a) == Seq::<(usize, u64)>::empty(),
        forall|a: int| #[trigger] graph_incoming(g, a) == Seq::<(usize, u64)>::empty(),
{
    Graph::new_undirected()
}

/// Relies on petgraph's `Graph::node_count`: the number of nodes.
#[verifier::external_body]
pub fn node_count(g: &ProximityGraph) -> (r: usize)
    ensures
        r == graph_nodes(*g).len(),
{
    g.node_count()
}

/// Relies on petgraph's `Graph::edge_count`: the number of edges.
#[verifier::external_body]
pub fn edge_count(g: &ProximityGraph) -> (r: usize)
    ensures
        r == graph_edges(*g).len(),
{
    g.edge_count()
}

/// Relies on petgraph's `Graph::add_node`: the node is appended with empty
/// edge lists and its index is the former node count. It panics once the `u32` index space is
/// full, hence the bound.
#[verifier::external_body]
pub(crate) fn add_node(g: &mut ProximityGraph, c: Coordinate) -> (r: usize)
    requires
        graph_nodes(*old(g)).len() < u32::MAX,
    ensures
        r == graph_nodes(*old(g)).len(),
        graph_nodes(*final(g)) == graph_nodes(*old(g)).push(c),
        graph_edges(*final(g)) == graph_edges(*old(g)),
        graph_outgoing(*final(g), r as int) == Seq::<(usize, u64)>::empty(),
        graph_incoming(*final(g), r as int) == Seq::<(usize, u64)>::empty(),
        forall|x: int|
            x != r ==> #[trigger] graph_outgoing(*final(g), x) == graph_outgoing(*old(g), x),
        forall|x: int|
            x != r ==> #[trigger] graph_incoming(*final(g), x) == graph_incoming(*old(g), x),
{
    g.add_node(c).index()
}

/// Relies on petgraph's `Graph::add_edge`: the edge (a, b, w) is appended,
/// put at the head of `a`'s outgoing list and of `b`'s incoming list (which
/// a walk from `b` skips when the edge is a self-loop). It panics on a missing endpoint or once the `u32` index space is full,
/// hence the bounds.
#[verifier::external_body]
pub(crate) fn add_edge(g: &mut ProximityGraph, a: usize, b: usize, w: u64)
    requires
        a < graph_nodes(*old(g)).len(),
        b < graph_nodes(*old(g)).len(),
        graph_edges(*old(g)).len() < u32::MAX,
    ensures
        graph_nodes(*final(g)) == graph_nodes(*old(g)),
        graph_edges(*final(g)) == graph_edges(*old(g)).push((a, b, w)),
        graph_outgoing(*final(g), a as int) == seq![(b, w)] + graph_outgoing(*old(g), a as int),
        a != b ==> graph_incoming(*final(g), b as int) == seq![(a, w)] + graph_incoming(
            *old(g),
            b as int,
        ),
        a == b ==> graph_incoming(*final(g), b as int) == graph_incoming(*old(g), b as int),
        forall|x: int|
            x != a ==> #[trigger] graph_outgoing(*final(g), x) == graph_outgoing(*old(g), x),
        forall|x: int|
            x != b ==> #[trigger] graph_incoming(*final(g), x) == graph_incoming(*old(g), x),
{
    g.add_edge(NodeIndex::new(a), NodeIndex::new(b), w);
}

/// Relies on petgraph's `Graph::raw_edges`: the edges in index order, each
/// with its stored source, target and weight.
#[verifier::external_body]
fn edge_at(g: &ProximityGraph, k: usize) -> (r: (usize, usize, u64))
    requires
        k < graph_edges(*g).len(),
    ensures
        r == graph_edges(*g)[k as int],
{
    let e = &g.raw_edges()[k];
    (e.source().index(), e.target().index(), e.weight)
}

/// Relies on petgraph's indexing of a graph by a node: the node's weight.
#[verifier::external_body]
fn coordinate_of(g: &ProximityGraph, a: usize) -> (r: Coordinate)
    requires
        a < graph_nodes(*g).len(),
    ensures
        r == graph_nodes(*g)[a as int],
{
    g[NodeIndex::new(a)]
}

/// Relies on petgraph's `Graph::edges` on an undirected graph: it walks the
/// node's outgoing list, then its incoming list without self-loops, and
/// each reference has `a` as source. Every edge of a petgraph graph joins
/// existing nodes.
#[verifier::external_body]
pub fn incident_edges(g: &ProximityGraph, a: usize) -> (r: Vec<(usize, u64)>)
    requires
        a < graph_nodes(*g).len(),
    ensures
        r@ == neighbours(*g, a as int),
        forall|i: int| 0 <= i < r@.len() ==> (#[trigger] r@[i]).0 < graph_nodes(*g).len(),
{
    g.edges(NodeIndex::new(a)).map(|e| (e.target().index(), *e.weight())).collect()
}

/// The coordinates of the nodes, by node index.
pub fn node_coordinates(g: &ProximityGraph) -> (r: Vec<Coordinate>)
    ensures
        r@ == graph_nodes(*g),
{
    let n = node_count(g);
    let mut r: Vec<Coordinate> = Vec::new();
    let mut a: usize = 0;
    while a < n
        invariant
            n == graph_nodes(*g).len(),
            a <= n,
            r@ == graph_nodes(*g).take(a as int),
        decreases n - a,
    {
        r.push(coordinate_of(g, a));
        assert(graph_nodes(*g).take(a + 1) == graph_nodes(*g).take(a as int).push(
            graph_nodes(*g)[a as int],
        ));
        a = a + 1;
    }
    assert(graph_nodes(*g).take(n as int) == graph_nodes(*g));
    r
}

/// The edges as (source, target, weight), by edge index.
pub fn edge_list(g: &ProximityGraph) -> (r: Vec<(usize, usize, u64)>)
    ensures
        r@ == graph_edges(*g),
{
    let m = edge_count(g);
    let mut r: Vec<(usize, usize, u64)> = Vec::new();
    let mut k: usize = 0;
    while k < m
        invariant
            m == graph_edges(*g).len(),
            k <= m,
            r@ == graph_edges(*g).take(k as int),
        decreases m - k,
    {
        r.push(edge_at(g, k));
        assert(graph_edges(*g).take(k + 1) == graph_edges(*g).take(k as int).push(
            graph_edges(*g)[k as int],
        ));
        k = k + 1;
    }
    assert(graph_edges(*g).take(m as int) == graph_edges(*g));
    r
}

} // verus!
