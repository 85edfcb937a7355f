use vstd::prelude::*;
use crate::geo_graph::{
    add_edge, add_node, graph_edges, graph_incoming, graph_nodes, graph_outgoing, new_graph, Coordinate,
    ProximityGraph,
};

verus! {

/// A listing as the graph builder sees it: a latitude and a longitude in
/// units of 1e-7 degree, each of which may be unknown.
#[derive(Clone, Copy, Debug, PartialEq, Eq, Structural)]
pub struct Property {
    pub latitude: Option<i64>,
    pub longitude: Option<i64>,
}

/// Both coordinates of the record are known.
pub open spec fn is_located(p: Property) -> bool {
    p.latitude.is_some() && p.longitude.is_some()
}

/// The coordinate of a located record.
pub open spec fn coordinate_spec(p: Property) -> Coordinate {
    Coordinate { lat_e7: p.latitude.unwrap(), lon_e7: p.longitude.unwrap() }
}

/// The coordinates of the located records, in input order.
pub open spec fn located(records: Seq<Property>) -> Seq<Coordinate> {
    records.filter(|p: Property| is_located(p)).map_values(|p: Property| coordinate_spec(p))
}

/// `d` is a square table of side `n`.
pub open spec fn square_table(d: Seq<Vec<u64>>, n: int) -> bool {
    &&& d.len() == n
    &&& forall|i: int| 0 <= i < n ==> (#[trigger] d[i])@.len() == n
}

/// Every edge joins an earlier node to a later one, carries the tabled
/// distance, and lies within the radius; edges come in increasing order of
/// their (earlier, later) pair; and every pair within the radius has an edge.
pub open spec fn edges_follow_threshold(
    es: Seq<(usize, usize, u64)>,
    d: Seq<Vec<u64>>,
    n: int,
    radius: u64,
) -> bool {
    &&& forall|k: int|
        0 <= k < es.len() ==> {
            let e = #[trigger] es[k];
            &&& e.0 < e.1 < n
            &&& e.2 == d[e.0 as int]@[e.1 as int]
            &&& e.2 <= radius
        }
    &&& forall|k1: int, k2: int|
        0 <= k1 < k2 < es.len() ==> {
            let a = #[trigger] es[k1];
            let b = #[trigger] es[k2];
            a.0 < b.0 || (a.0 == b.0 && a.1 < b.1)
        }
    &&& forall|i: int, j: int|
        0 <= i < j < n && #[trigger] d[i]@[j] <= radius ==> exists|k: int|
            0 <= k < es.len() && #[trigger] es[k] == (i as usize, j as usize, d[i]@[j])
}

/// The pair (a, b) comes before the pair (i, j) in row-major order.
pub open spec fn pair_before(a: int, b: int, i: int, j: int) -> bool {
    a < i || (a == i && b < j)
}

/// `edges_follow_threshold` for the pairs that come before (i, j).
pub open spec fn edges_before(
    es: Seq<(usize, usize, u64)>,
    d: Seq<Vec<u64>>,
    n: int,
    radius: u64,
    i: int,
    j: int,
) -> bool {
    &&& forall|k: int|
        0 <= k < es.len() ==> {
            let e = #[trigger] es[k];
            &&& e.0 < e.1 < n
            &&& pair_before(e.0 as int, e.1 as int, i, j)
            &&& e.2 == d[e.0 as int]@[e.1 as int]
            &&& e.2 <= radius
        }
    &&& forall|k1: int, k2: int|
        0 <= k1 < k2 < es.len() ==> {
            let a = #[trigger] es[k1];
            let b = #[trigger] es[k2];
            a.0 < b.0 || (a.0 == b.0 && a.1 < b.1)
        }
    &&& forall|a: int, b: int|
        0 <= a < b < n && pair_before(a, b, i, j) && #[trigger] d[a]@[b] <= radius ==> exists|k: int|
            0 <= k < es.len() && #[trigger] es[k] == (a as usize, b as usize, d[a]@[b])
}

/// The neighbours j of node x with x < j < hi whose tabled distance is
/// within the radius, each as (j, distance), largest j first.
pub open spec fn later_within(d: Seq<Vec<u64>>, radius: u64, x: int, hi: int) -> Seq<
    (usize, u64),
>
    decreases hi - x,
{
    if hi <= x + 1 {
        seq![]
    } else {
        let j = hi - 1;
        let rest = later_within(d, radius, x, j);
        if d[x]@[j] <= radius {
            seq![(j as usize, d[x]@[j])] + rest
        } else {
            rest
        }
    }
}

/// The neighbours i of node x with i < x and i < hi whose tabled distance
/// is within the radius, each as (i, distance), largest i first.
pub open spec fn earlier_within(d: Seq<Vec<u64>>, radius: u64, x: int, hi: int) -> Seq<
    (usize, u64),
>
    decreases hi,
{
    if hi <= 0 {
        seq![]
    } else {
        let i = hi - 1;
        let rest = earlier_within(d, radius, x, i);
        if i < x && d[i]@[x] <= radius {
            seq![(i as usize, d[i]@[x])] + rest
        } else {
            rest
        }
    }
}

/// The walk order of the built graph: from node x, first the later
/// neighbours (largest index first), then the earlier ones (largest index
/// first).
pub open spec fn lists_follow_threshold(
    g: ProximityGraph,
    d: Seq<Vec<u64>>,
    n: int,
    radius: u64,
) -> bool {
    &&& forall|x: int|
        0 <= x < n ==> #[trigger] graph_outgoing(g, x) == later_within(d, radius, x, n)
    &&& forall|x: int|
        0 <= x < n ==> #[trigger] graph_incoming(g, x) == earlier_within(d, radius, x, n)
}

fn coordinate_of_record(p: &Property) -> (c: Coordinate)
    requires
        is_located(*p),
    ensures
        c == coordinate_spec(*p),
{
    Coordinate { lat_e7: p.latitude.unwrap(), lon_e7: p.longitude.unwrap() }
}

/// The coordinates of the records whose latitude and longitude are both
/// known, in input order.
pub fn located_points(data: &Vec<Property>) -> (r: Vec<Coordinate>)
    ensures
        r@ == located(data@),
{
    let mut r: Vec<Coordinate> = Vec::new();
    let mut i: usize = 0;
    while i < data.len()
        invariant
            i <= data.len(),
            r@ == located(data@.take(i as int)),
        decreases data.len() - i,
    {
        let p = &data[i];
        proof {
            assert(data@.take(i + 1).drop_last() == data@.take(i as int));
            assert(data@.take(i + 1).last() == *p);
            reveal_with_fuel(Seq::filter, 1);
        }
        if p.latitude.is_some() && p.longitude.is_some() {
            let c = coordinate_of_record(p);
            r.push(c);
        }
        i = i + 1;
    }
    assert(data@.take(data.len() as int) == data@);
    r
}

/// Builds the proximity graph of the located records: one node per located
/// record, in input order, and an edge (i, j) for each pair i < j whose
/// tabled distance `distances[i][j]` (in metres) is at most `radius`. The
/// table is indexed by node, and only its entries above the diagonal are
/// read. Up to 65535 located records fit petgraph's `u32` edge indices.
pub fn construct_graph(data: &Vec<Property>, distances: &Vec<Vec<u64>>, radius: u64) -> (g:
    ProximityGraph)
    requires
        located(data@).len() <= u16::MAX,
        square_table(distances@, located(data@).len() as int),
    ensures
        graph_nodes(g) == located(data@),
        graph_nodes(g).len() == data@.filter(|p: Property| is_located(p)).len(),
        edges_follow_threshold(graph_edges(g), distances@, located(data@).len() as int, radius),
        lists_follow_threshold(g, distances@, located(data@).len() as int, radius),
{
    let points = located_points(data);
    let n = points.len();
    let mut g = new_graph();
    let mut i: usize = 0;
    while i < n
        invariant
            n == points@.len() <= u16::MAX,
            i <= n,
            graph_nodes(g) == points@.take(i as int),
            graph_edges(g) == Seq::<(usize, usize, u64)>::empty(),
            forall|x: int| #[trigger] graph_outgoing(g, x) == Seq::<(usize, u64)>::empty(),
            forall|x: int| #[trigger] graph_incoming(g, x) == Seq::<(usize, u64)>::empty(),
        decreases n - i,
    {
        add_node(&mut g, points[i]);
        assert(points@.take(i + 1) == points@.take(i as int).push(points@[i as int]));
        i = i + 1;
    }
    assert(points@.take(n as int) == points@);
    let ghost d = distances@;
    proof {
        assert forall|x: int| 0 <= x < n implies #[trigger] graph_outgoing(g, x) == later_within(
            d,
            radius,
            x,
            x + 1,
        ) by {}
        assert forall|x: int| 0 <= x < n implies #[trigger] graph_incoming(g, x) == earlier_within(
            d,
            radius,
            x,
            0,
        ) by {}
    }
    let mut i: usize = 0;
    while i < n
        invariant
            n == points@.len() <= u16::MAX,
            d == distances@,
            square_table(d, n as int),
            i <= n,
            graph_nodes(g) == points@,
            graph_edges(g).len() <= i * n,
            edges_before(graph_edges(g), d, n as int, radius, i as int, 0),
            forall|x: int|
                0 <= x < n ==> #[trigger] graph_outgoing(g, x) == later_within(
                    d,
                    radius,
                    x,
                    if x < i {
                        n as int
                    } else {
                        x + 1
                    },
                ),
            forall|x: int|
                0 <= x < n ==> #[trigger] graph_incoming(g, x) == earlier_within(
                    d,
                    radius,
                    x,
                    i as int,
                ),
        decreases n - i,
    {
        let mut j: usize = i + 1;
        proof {
            assert forall|a: int, b: int|
                0 <= a < b < n && pair_before(a, b, i as int, 0) <==> 0 <= a < b < n
                    && pair_before(a, b, i as int, j as int) by {}
            assert forall|x: int| 0 <= x < n && x <= i implies #[trigger] earlier_within(
                d,
                radius,
                x,
                i + 1,
            ) == earlier_within(d, radius, x, i as int) by {}
        }
        while j < n
            invariant
                n == points@.len() <= u16::MAX,
                d == distances@,
                square_table(d, n as int),
                i < n,
                i < j <= n,
                graph_nodes(g) == points@,
                graph_edges(g).len() <= i * n + j,
                edges_before(graph_edges(g), d, n as int, radius, i as int, j as int),
                forall|x: int|
                    0 <= x < n ==> #[trigger] graph_outgoing(g, x) == later_within(
                        d,
                        radius,
                        x,
                        if x < i {
                            n as int
                        } else if x == i {
                            j as int
                        } else {
                            x + 1
                        },
                    ),
                forall|x: int|
                    0 <= x < n ==> #[trigger] graph_incoming(g, x) == earlier_within(
                        d,
                        radius,
                        x,
                        if x < j {
                            i + 1
                        } else {
                            i as int
                        },
                    ),
            decreases n - j,
        {
            let w = distances[i][j];
            let ghost old_es = graph_edges(g);
            let ghost old_g = g;
            assert(later_within(d, radius, i as int, j + 1) == if w <= radius {
                seq![(j, w)] + later_within(d, radius, i as int, j as int)
            } else {
                later_within(d, radius, i as int, j as int)
            });
            assert(earlier_within(d, radius, j as int, i + 1) == if w <= radius {
                seq![(i, w)] + earlier_within(d, radius, j as int, i as int)
            } else {
                earlier_within(d, radius, j as int, i as int)
            });
            proof {
                assert(i * n + j < n * n) by (nonlinear_arith)
                    requires
                        i < n,
                        j < n,
                ;
                assert(n * n <= u16::MAX * u16::MAX) by (nonlinear_arith)
                    requires
                        n <= u16::MAX,
                ;
            }
            if w <= radius {
                add_edge(&mut g, i, j, w);
                proof {
                    let es = graph_edges(g);
                    assert(es.last() == (i, j, w));
                    assert forall|a: int, b: int|
                        0 <= a < b < n && pair_before(a, b, i as int, j + 1) && #[trigger] d[a]@[b]
                            <= radius implies exists|k: int|
                        0 <= k < es.len() && #[trigger] es[k] == (a as usize, b as usize, d[a]@[b]) by {
                        if a == i && b == j {
                            assert(es[es.len() - 1] == (a as usize, b as usize, d[a]@[b]));
                        } else {
                            let k = choose|k: int|
                                0 <= k < old_es.len() && #[trigger] old_es[k] == (
                                    a as usize,
                                    b as usize,
                                    d[a]@[b],
                                );
                            assert(es[k] == old_es[k]);
                        }
                    }
                }
            } else {
                proof {
                    let es = graph_edges(g);
                    assert forall|a: int, b: int|
                        0 <= a < b < n && pair_before(a, b, i as int, j + 1) && #[trigger] d[a]@[b]
                            <= radius implies exists|k: int|
                        0 <= k < es.len() && #[trigger] es[k] == (a as usize, b as usize, d[a]@[b]) by {
                        assert(!(a == i && b == j));
                    }
                }
            }
            j = j + 1;
        }
        proof {
            assert(i * n + n <= (i + 1) * n) by (nonlinear_arith);
            assert forall|a: int, b: int|
                0 <= a < b < n && pair_before(a, b, i + 1, 0) implies pair_before(
                    a,
                    b,
                    i as int,
                    j as int,
                ) by {}
        }
        i = i + 1;
    }
    g
}

/// The two edges join the same unordered pair of nodes.
pub open spec fn same_pair(a: (usize, usize, u64), b: (usize, usize, u64)) -> bool {
    (a.0 == b.0 && a.1 == b.1) || (a.0 == b.1 && a.1 == b.0)
}

/// Threshold rule: in a built graph, nodes i < j are joined by an edge
/// exactly when their tabled distance is at most the radius, and such an
/// edge carries that distance.
pub proof fn lemma_edge_iff_within_radius(
    g: ProximityGraph,
    distances: Seq<Vec<u64>>,
    radius: u64,
    i: usize,
    j: usize,
)
    requires
        square_table(distances, graph_nodes(g).len() as int),
        edges_follow_threshold(graph_edges(g), distances, graph_nodes(g).len() as int, radius),
        i < j < graph_nodes(g).len(),
    ensures
        (exists|k: int|
            0 <= k < graph_edges(g).len() && (#[trigger] graph_edges(g)[k]).0 == i
                && graph_edges(g)[k].1 == j) <==> distances[i as int]@[j as int] <= radius,
        forall|k: int|
            0 <= k < graph_edges(g).len() && (#[trigger] graph_edges(g)[k]).0 == i
                && graph_edges(g)[k].1 == j ==> graph_edges(g)[k].2 == distances[i as int]@[j as int],
{
    let es = graph_edges(g);
    let (a, b) = (i as int, j as int);
    if distances[a]@[b] <= radius {
        let k = choose|k: int| 0 <= k < es.len() && #[trigger] es[k] == (i, j, distances[a]@[b]);
        assert(es[k].0 == i && es[k].1 == j);
    }
}

/// A built graph is simple: no edge joins a node to itself, and no two
/// edges join the same unordered pair.
pub proof fn lemma_no_self_or_parallel_edges(
    g: ProximityGraph,
    distances: Seq<Vec<u64>>,
    radius: u64,
)
    requires
        edges_follow_threshold(graph_edges(g), distances, graph_nodes(g).len() as int, radius),
    ensures
        forall|k: int|
            0 <= k < graph_edges(g).len() ==> (#[trigger] graph_edges(g)[k]).0 != graph_edges(
                g,
            )[k].1,
        forall|k1: int, k2: int|
            0 <= k1 < graph_edges(g).len() && 0 <= k2 < graph_edges(g).len() && k1 != k2
                ==> !same_pair(#[trigger] graph_edges(g)[k1], #[trigger] graph_edges(g)[k2]),
{
    let es = graph_edges(g);
    assert forall|k1: int, k2: int|
        0 <= k1 < es.len() && 0 <= k2 < es.len() && k1 != k2 implies !same_pair(
        #[trigger] es[k1],
        #[trigger] es[k2],
    ) by {
        if k1 < k2 {
            assert(es[k1].0 < es[k2].0 || (es[k1].0 == es[k2].0 && es[k1].1 < es[k2].1));
        } else {
            assert(es[k2].0 < es[k1].0 || (es[k2].0 == es[k1].0 && es[k2].1 < es[k1].1));
        }
    }
}

} // verus!
