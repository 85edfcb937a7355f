use vstd::prelude::*;
use crate::geo_graph::{graph_nodes, neighbours, node_count, ProximityGraph};
use crate::traversal::{
    bfs_total, bfs_total_distance, discoveries, has_bounded_weights, walk, weights_fit,
};

verus! {

/// The closeness of one node: its accumulated traversal distance (metres).
/// Its score is the reciprocal of that distance, or zero when the distance
/// is zero.
#[derive(Clone, Copy, Debug, PartialEq, Eq, Structural)]
pub struct CentralityScore {
    pub node: usize,
    pub total_distance: u64,
}

impl CentralityScore {
    /// Numerator of the score as a fraction.
    pub open spec fn score_num(self) -> nat {
        if self.total_distance == 0 {
            0
        } else {
            1
        }
    }

    /// Denominator of the score as a fraction.
    pub open spec fn score_den(self) -> nat {
        if self.total_distance == 0 {
            1
        } else {
            self.total_distance as nat
        }
    }

    /// Numerator of the score (per metre): 1, or 0 for a zero distance.
    pub fn numerator(&self) -> (r: u64)
        ensures
            r == self.score_num(),
    {
        if self.total_distance == 0 {
            0
        } else {
            1
        }
    }

    /// Denominator of the score (per metre): the distance, or 1 for a zero
    /// distance.
    pub fn denominator(&self) -> (r: u64)
        ensures
            r == self.score_den(),
    {
        if self.total_distance == 0 {
            1
        } else {
            self.total_distance
        }
    }

    /// Whether the score is exactly zero.
    pub fn is_zero(&self) -> (r: bool)
        ensures
            r == (self.score_num() == 0),
    {
        self.total_distance == 0
    }
}

/// The score of `a` is at least that of `b`.
pub open spec fn score_at_least(a: CentralityScore, b: CentralityScore) -> bool {
    a.score_num() * b.score_den() >= b.score_num() * a.score_den()
}

/// Ranking key of a distance: larger scores first, so smaller positive
/// distances first and zero distances last.
pub open spec fn rank_key(total: u64) -> int {
    if total == 0 {
        u64::MAX + 1
    } else {
        total as int
    }
}

/// `a` is ranked ahead of `b`: by higher score, then by lower node index.
pub open spec fn ranks_before(a: CentralityScore, b: CentralityScore) -> bool {
    rank_key(a.total_distance) < rank_key(b.total_distance) || (rank_key(a.total_distance)
        == rank_key(b.total_distance) && a.node < b.node)
}

/// The number of nodes a sample of `k` covers.
pub open spec fn sample_len(g: ProximityGraph, k: int) -> int {
    let n = graph_nodes(g).len() as int;
    if k < n {
        k
    } else {
        n
    }
}

/// `r` is the closeness ranking of the first `k` nodes of `g`: one entry
/// per sampled node with its accumulated traversal distance, in ranking
/// order.
pub open spec fn is_ranking(g: ProximityGraph, k: int, r: Seq<CentralityScore>) -> bool {
    &&& r.len() == sample_len(g, k)
    &&& forall|i: int|
        0 <= i < r.len() ==> {
            &&& (#[trigger] r[i]).node < r.len()
            &&& r[i].total_distance == bfs_total(g, r[i].node as int)
        }
    &&& forall|i: int, j: int| 0 <= i < j < r.len() ==> ranks_before(#[trigger] r[i], #[trigger] r[j])
}

fn ranks_before_exec(a: &CentralityScore, b: &CentralityScore) -> (r: bool)
    ensures
        r == ranks_before(*a, *b),
{
    if a.total_distance == 0 {
        b.total_distance == 0 && a.node < b.node
    } else if b.total_distance == 0 {
        true
    } else {
        a.total_distance < b.total_distance || (a.total_distance == b.total_distance && a.node
            < b.node)
    }
}

/// Closeness ranking of the first `sample_size` nodes (all of them when the
/// graph is smaller): one entry per sampled node with its accumulated
/// traversal distance, ordered by score from highest to lowest, equal
/// scores by ascending node index.
pub fn analyze_centrality(graph: &ProximityGraph, sample_size: usize) -> (r: Vec<
    CentralityScore,
>)
    requires
        weights_fit(*graph),
    ensures
        is_ranking(*graph, sample_size as int, r@),
        forall|i: int, j: int|
            0 <= i < j < r@.len() ==> score_at_least(#[trigger] r@[i], #[trigger] r@[j]),
{
    let n = node_count(graph);
    let m = if sample_size < n {
        sample_size
    } else {
        n
    };
    let mut ranked: Vec<CentralityScore> = Vec::new();
    let mut v: usize = 0;
    while v < m
        invariant
            m == sample_len(*graph, sample_size as int),
            m <= n == graph_nodes(*graph).len(),
            weights_fit(*graph),
            v <= m,
            ranked@.len() == v,
            forall|i: int|
                0 <= i < ranked@.len() ==> {
                    &&& (#[trigger] ranked@[i]).node < v
                    &&& ranked@[i].total_distance == bfs_total(*graph, ranked@[i].node as int)
                },
            forall|i: int, j: int|
                0 <= i < j < ranked@.len() ==> ranks_before(
                    #[trigger] ranked@[i],
                    #[trigger] ranked@[j],
                ),
        decreases m - v,
    {
        let t = bfs_total_distance(graph, v);
        let s = CentralityScore { node: v, total_distance: t };
        let mut pos: usize = 0;
        let mut searching = true;
        while searching && pos < ranked.len()
            invariant
                pos <= ranked@.len(),
                forall|i: int| 0 <= i < pos ==> ranks_before(#[trigger] ranked@[i], s),
                !searching ==> pos < ranked@.len() && !ranks_before(ranked@[pos as int], s),
            decreases ranked@.len() - pos + if searching {
                1int
            } else {
                0int
            },
        {
            if ranks_before_exec(&ranked[pos], &s) {
                pos = pos + 1;
            } else {
                searching = false;
            }
        }
        let ghost old_ranked = ranked@;
        proof {
            assert forall|j: int| pos <= j < old_ranked.len() implies ranks_before(
                s,
                #[trigger] old_ranked[j],
            ) by {
                assert(ranks_before(s, old_ranked[pos as int]));
                if j > pos {
                    assert(ranks_before(old_ranked[pos as int], old_ranked[j]));
                }
            }
        }
        ranked.insert(pos, s);
        proof {
            let r = ranked@;
            assert forall|i: int, j: int| 0 <= i < j < r.len() implies ranks_before(
                #[trigger] r[i],
                #[trigger] r[j],
            ) by {
                if j < pos {
                    assert(r[i] == old_ranked[i] && r[j] == old_ranked[j]);
                } else if j == pos {
                    assert(r[i] == old_ranked[i]);
                } else if i < pos {
                    assert(r[i] == old_ranked[i] && r[j] == old_ranked[j - 1]);
                    assert(ranks_before(old_ranked[i], s));
                    assert(ranks_before(s, old_ranked[j - 1]));
                } else if i == pos {
                    assert(r[j] == old_ranked[j - 1]);
                } else {
                    assert(r[i] == old_ranked[i - 1] && r[j] == old_ranked[j - 1]);
                }
            }
            assert forall|i: int| 0 <= i < r.len() implies {
                &&& (#[trigger] r[i]).node < v + 1
                &&& r[i].total_distance == bfs_total(*graph, r[i].node as int)
            } by {
                if i < pos {
                    assert(r[i] == old_ranked[i]);
                } else if i > pos {
                    assert(r[i] == old_ranked[i - 1]);
                }
            }
        }
        v = v + 1;
    }
    proof {
        assert forall|i: int, j: int| 0 <= i < j < ranked@.len() implies score_at_least(
            #[trigger] ranked@[i],
            #[trigger] ranked@[j],
        ) by {
            assert(ranks_before(ranked@[i], ranked@[j]));
        }
    }
    ranked
}

/// The closeness ranking of `analyze_centrality`, or `None` when the edge
/// weights are too large for the traversal totals to fit in a `u64`.
pub fn analyze_centrality_checked(graph: &ProximityGraph, sample_size: usize) -> (r: Option<
    Vec<CentralityScore>,
>)
    ensures
        r is None <==> !weights_fit(*graph),
        r matches Some(v) ==> is_ranking(*graph, sample_size as int, v@),
{
    if has_bounded_weights(graph) {
        Some(analyze_centrality(graph, sample_size))
    } else {
        None
    }
}

/// A node with no incident edge has an accumulated traversal distance of
/// zero, so its score is exactly zero.
pub proof fn lemma_isolated_node_scores_zero(g: ProximityGraph, v: usize)
    requires
        0 <= v < graph_nodes(g).len(),
        neighbours(g, v as int).len() == 0,
    ensures
        bfs_total(g, v as int) == 0,
        (CentralityScore { node: v, total_distance: bfs_total(g, v as int) as u64 }).score_num()
            == 0,
{
    let start = seq![(v, 0int)];
    let fresh = Seq::new(graph_nodes(g).len(), |i: int| false);
    let seen = fresh.update(v as int, true);
    assert(start[0] == (v, 0int));
    assert(!fresh[v as int]);
    assert(discoveries(neighbours(g, v as int), seen, 0) =~= seq![]);
    assert(start.drop_first() + discoveries(neighbours(g, v as int), seen, 0) =~= seq![]);
    assert(walk(g, seq![], seen, 0) == 0);
    assert(walk(g, start, fresh, 0) == walk(
        g,
        start.drop_first() + discoveries(neighbours(g, v as int), seen, 0),
        seen,
        0int + 0int,
    ));
}

} // verus!
