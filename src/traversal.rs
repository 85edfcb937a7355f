use vstd::prelude::*;
use std::collections::VecDeque;
use crate::geo_graph::{
    graph_nodes, incident_edges, neighbours, node_count,
    ProximityGraph,
};

verus! {

/// The number of nodes not yet marked in `visited`.
pub open spec fn unvisited(visited: Seq<bool>) -> nat
    decreases visited.len(),
{
    if visited.len() == 0 {
        0
    } else {
        unvisited(visited.drop_last()) + if visited.last() {
            0nat
        } else {
            1nat
        }
    }
}

/// The queue entries that visiting a node at distance `dist` adds: each
/// listed neighbour not yet visited, in list order, at `dist` plus the
/// weight of the edge that leads to it.
pub open spec fn discoveries(nbrs: Seq<(usize, u64)>, visited: Seq<bool>, dist: int) -> Seq<
    (usize, int),
>
    decreases nbrs.len(),
{
    if nbrs.len() == 0 {
        seq![]
    } else {
        let (u, w) = nbrs.last();
        discoveries(nbrs.drop_last(), visited, dist) + if u < visited.len() && !visited[u as int] {
            seq![(u, dist + w)]
        } else {
            seq![]
        }
    }
}

/// The breadth-first walk from a state: the front entry of the queue is
/// taken; an entry of a node already visited is dropped; otherwise the node
/// is marked, its distance is added to the running total, and its unvisited
/// neighbours are queued. The result is the total once the queue is empty.
/// A node's distance is that of the first of its entries to leave the
/// queue, which need not be the shortest.
pub open spec fn walk(
    g: ProximityGraph,
    queue: Seq<(usize, int)>,
    visited: Seq<bool>,
    total: int,
) -> int
    decreases unvisited(visited), queue.len(),
    via walk_decreases
{
    if queue.len() == 0 {
        total
    } else {
        let (v, dist) = queue[0];
        let rest = queue.drop_first();
        if v < visited.len() && !visited[v as int] {
            let seen = visited.update(v as int, true);
            walk(g, rest + discoveries(neighbours(g, v as int), seen, dist), seen, total + dist)
        } else {
            walk(g, rest, visited, total)
        }
    }
}

#[via_fn]
proof fn walk_decreases(
    g: ProximityGraph,
    queue: Seq<(usize, int)>,
    visited: Seq<bool>,
    total: int,
) {
    if queue.len() > 0 {
        let v = queue[0].0;
        if v < visited.len() && !visited[v as int] {
            lemma_unvisited_mark(visited, v as int);
        }
    }
}

/// The accumulated traversal distance from `start` in graph `g`.
pub open spec fn bfs_total(g: ProximityGraph, start: int) -> int {
    walk(
        g,
        seq![(start as usize, 0int)],
        Seq::new(graph_nodes(g).len(), |i: int| false),
        0,
    )
}

/// Every edge weight times the square of the node count fits in a `u64`,
/// which keeps every accumulated distance within a `u64`.
pub open spec fn weights_fit(g: ProximityGraph) -> bool {
    let n = graph_nodes(g).len();
    forall|a: int, i: int|
        0 <= a < n && 0 <= i < neighbours(g, a).len() ==> (#[trigger] neighbours(g, a)[i]).1 * (n
            * n) <= u64::MAX
}

/// Whether every edge weight times the square of the node count fits in a
/// `u64`, the condition the traversal needs.
pub fn has_bounded_weights(graph: &ProximityGraph) -> (r: bool)
    ensures
        r == weights_fit(*graph),
{
    let n = node_count(graph);
    let ghost nodes: int = n as int;
    proof {
        assert(nodes * nodes <= u128::MAX) by (nonlinear_arith)
            requires
                0 <= nodes <= usize::MAX,
        ;
    }
    let nn: u128 = (n as u128) * (n as u128);
    let mut a: usize = 0;
    while a < n
        invariant
            n == graph_nodes(*graph).len(),
            nn == n * n,
            a <= n,
            forall|b: int, i: int|
                0 <= b < a && 0 <= i < neighbours(*graph, b).len() ==> (#[trigger] neighbours(
                    *graph,
                    b,
                )[i]).1 * (n * n) <= u64::MAX,
        decreases n - a,
    {
        let nbrs = incident_edges(graph, a);
        let mut k: usize = 0;
        while k < nbrs.len()
            invariant
                n == graph_nodes(*graph).len(),
                nn == n * n,
                a < n,
                k <= nbrs@.len(),
                nbrs@ == neighbours(*graph, a as int),
                forall|b: int, i: int|
                    0 <= b < a && 0 <= i < neighbours(*graph, b).len() ==> (#[trigger] neighbours(
                        *graph,
                        b,
                    )[i]).1 * (n * n) <= u64::MAX,
                forall|i: int| 0 <= i < k ==> (#[trigger] nbrs@[i]).1 * (n * n) <= u64::MAX,
            decreases nbrs.len() - k,
        {
            match (nbrs[k].1 as u128).checked_mul(nn) {
                None => {
                    return false;
                },
                Some(p) => {
                    if p > u64::MAX as u128 {
                        return false;
                    }
                },
            }
            k = k + 1;
        }
        a = a + 1;
    }
    true
}

pub proof fn lemma_unvisited_mark(visited: Seq<bool>, i: int)
    requires
        0 <= i < visited.len(),
        !visited[i],
    ensures
        unvisited(visited.update(i, true)) + 1 == unvisited(visited),
    decreases visited.len(),
{
    let seen = visited.update(i, true);
    if i == visited.len() - 1 {
        assert(seen.drop_last() =~= visited.drop_last());
    } else {
        lemma_unvisited_mark(visited.drop_last(), i);
        assert(seen.drop_last() =~= visited.drop_last().update(i, true));
    }
}

pub proof fn lemma_unvisited_bound(visited: Seq<bool>)
    ensures
        unvisited(visited) <= visited.len(),
    decreases visited.len(),
{
    if visited.len() > 0 {
        lemma_unvisited_bound(visited.drop_last());
    }
}

spec fn entries(q: Seq<(usize, u64)>) -> Seq<(usize, int)> {
    q.map_values(|e: (usize, u64)| (e.0, e.1 as int))
}

/// Accumulated traversal distance from `start_node`: a breadth-first walk
/// over a FIFO queue of (node, distance) entries that adds, for each node it
/// reaches, the distance of the first entry of that node to leave the queue.
/// Nodes that cannot be reached add nothing.
pub fn bfs_total_distance(graph: &ProximityGraph, start_node: usize) -> (r: u64)
    requires
        start_node < graph_nodes(*graph).len(),
        weights_fit(*graph),
    ensures
        r == bfs_total(*graph, start_node as int),
{
    let n = node_count(graph);
    let ghost nn: int = n * n;
    let ghost cap: int = (u64::MAX as int) / nn;
    proof {
        assert(nn >= 1) by (nonlinear_arith)
            requires
                n >= 1,
                nn == n * n,
        ;
        assert(nn * cap <= u64::MAX) by (nonlinear_arith)
            requires
                nn >= 1,
                cap == (u64::MAX as int) / nn,
        ;
        assert forall|a: int, i: int|
            0 <= a < n && 0 <= i < neighbours(*graph, a).len() implies (#[trigger] neighbours(
            *graph,
            a,
        )[i]).1 <= cap by {
            let w = neighbours(*graph, a)[i].1 as int;
            assert(w * nn <= u64::MAX);
            assert(w <= cap) by (nonlinear_arith)
                requires
                    w * nn <= u64::MAX,
                    nn >= 1,
                    cap == (u64::MAX as int) / nn,
            ;
        }
    }
    let mut visited: Vec<bool> = Vec::new();
    let mut i: usize = 0;
    while i < n
        invariant
            i <= n,
            visited@ =~= Seq::new(i as nat, |k: int| false),
            unvisited(visited@) == i,
        decreases n - i,
    {
        visited.push(false);
        assert(visited@.drop_last() =~= Seq::new(i as nat, |k: int| false));
        i = i + 1;
    }
    let mut queue: VecDeque<(usize, u64)> = VecDeque::new();
    queue.push_back((start_node, 0));
    let mut total: u64 = 0;
    assert(entries(queue@) =~= seq![(start_node, 0int)]);
    while queue.len() > 0
        invariant
            n == graph_nodes(*graph).len(),
            nn == n * n,
            nn * cap <= u64::MAX,
            cap >= 0,
            forall|a: int, i: int|
                0 <= a < n && 0 <= i < neighbours(*graph, a).len() ==> (#[trigger] neighbours(
                    *graph,
                    a,
                )[i]).1 <= cap,
            visited@.len() == n,
            unvisited(visited@) <= n,
            forall|k: int|
                0 <= k < queue@.len() ==> {
                    &&& (#[trigger] queue@[k]).0 < n
                    &&& queue@[k].1 <= (n - unvisited(visited@)) * cap
                },
            total <= (n - unvisited(visited@)) * n * cap,
            walk(*graph, entries(queue@), visited@, total as int) == bfs_total(
                *graph,
                start_node as int,
            ),
        decreases unvisited(visited@), queue@.len(),
    {
        let ghost q0 = queue@;
        let front = queue.pop_front();
        let (v, dist) = front.unwrap();
        assert(entries(queue@) =~= entries(q0).drop_first());
        if visited[v] {
        } else {
            let ghost vc: int = n - unvisited(visited@);
            proof {
                lemma_unvisited_mark(visited@, v as int);
                lemma_unvisited_bound(visited@.update(v as int, true));
                assert(dist <= vc * cap);
                assert(vc + 1 <= n);
                assert(total + dist <= (vc + 1) * n * cap) by (nonlinear_arith)
                    requires
                        total <= vc * n * cap,
                        dist <= vc * cap,
                        vc + 1 <= n,
                        cap >= 0,
                ;
                assert((vc + 1) * n * cap <= nn * cap) by (nonlinear_arith)
                    requires
                        vc + 1 <= n,
                        nn == n * n,
                        cap >= 0,
                ;
            }
            visited.set(v, true);
            total = total + dist;
            let nbrs = incident_edges(graph, v);
            proof {
                assert forall|k: int| 0 <= k < nbrs@.len() implies (#[trigger] nbrs@[k]).1
                    <= cap by {
                    assert(nbrs@[k] == neighbours(*graph, v as int)[k]);
                }
                assert(vc * cap + cap <= (vc + 1) * cap) by (nonlinear_arith);
                assert((vc + 1) * cap <= nn * cap) by (nonlinear_arith)
                    requires
                        vc + 1 <= n,
                        nn == n * n,
                        cap >= 0,
                        n >= 1,
                ;
            }
            let ghost rest = entries(queue@);
            let mut j: usize = 0;
            while j < nbrs.len()
                invariant
                    n == graph_nodes(*graph).len(),
                    visited@.len() == n,
                    v < n,
                    visited@[v as int],
                    j <= nbrs@.len(),
                    forall|k: int| 0 <= k < nbrs@.len() ==> (#[trigger] nbrs@[k]).0 < n,
                    forall|k: int| 0 <= k < nbrs@.len() ==> (#[trigger] nbrs@[k]).1 <= cap,
                    dist <= vc * cap,
                    (vc + 1) * cap <= u64::MAX,
                    vc + 1 == n - unvisited(visited@),
                    forall|k: int|
                        0 <= k < queue@.len() ==> {
                            &&& (#[trigger] queue@[k]).0 < n
                            &&& queue@[k].1 <= (n - unvisited(visited@)) * cap
                        },
                    entries(queue@) == rest + discoveries(nbrs@.take(j as int), visited@, dist as int),
                decreases nbrs.len() - j,
            {
                let (u, w) = nbrs[j];
                let ghost qb = queue@;
                assert(nbrs@.take(j + 1).drop_last() =~= nbrs@.take(j as int));
                assert(nbrs@.take(j + 1).last() == nbrs@[j as int]);
                if !visited[u] {
                    assert(dist + w <= (vc + 1) * cap) by (nonlinear_arith)
                        requires
                            dist <= vc * cap,
                            w <= cap,
                    ;
                    queue.push_back((u, dist + w));
                    assert(entries(queue@) =~= entries(qb).push((u, dist + w as int)));
                }
                j = j + 1;
            }
            assert(nbrs@.take(nbrs@.len() as int) =~= nbrs@);
            assert(entries(queue@) =~= rest + discoveries(
                neighbours(*graph, v as int),
                visited@,
                dist as int,
            ));
        }
    }
    total
}

} // verus!
