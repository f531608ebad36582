//! The in-memory projection of the graph into a `petgraph` directed graph
//! (node `i` is the `i`-th node identifier, edges labelled with their
//! types) and its weak connectivity.

use vstd::prelude::*;

use petgraph::graph::{DiGraph, Graph, NodeIndex};
use petgraph::Directed;

use crate::text::{owned, str_eq, string_views};

verus! {

// ─── The petgraph graph ──────────────────────────────────────────────────────

#[verifier::external_type_specification]
#[verifier::external_body]
#[verifier::reject_recursive_types(N)]
#[verifier::reject_recursive_types(E)]
#[verifier::reject_recursive_types(Ty)]
#[verifier::reject_recursive_types(Ix)]
pub struct ExGraph<N, E, Ty, Ix>(Graph<N, E, Ty, Ix>);

#[verifier::external_type_specification]
#[verifier::external_body]
pub struct ExDirected(Directed);

/// The node weights of a graph, by node index.
pub uninterp spec fn digraph_nodes(g: DiGraph<String, String>) -> Seq<Seq<char>>;

/// The edges of a graph, by edge index: source index, target index, weight.
pub uninterp spec fn digraph_edges(g: DiGraph<String, String>) -> Seq<(usize, usize, Seq<char>)>;

/// An empty graph.
///
/// Calls `petgraph::graph::DiGraph::new`, which starts with no node and no
/// edge.
#[verifier::external_body]
fn new_digraph() -> (g: DiGraph<String, String>)
    ensures
        digraph_nodes(g) == Seq::<Seq<char>>::empty(),
        digraph_edges(g) == Seq::<(usize, usize, Seq<char>)>::empty(),
{
    DiGraph::new()
}

/// Add a node; returns its index.
///
/// Calls `Graph::add_node`, which appends the node after the others and
/// returns its position; it panics once the `u32` index space is full, which
/// the `requires` rules out.
#[verifier::external_body]
fn digraph_add_node(g: &mut DiGraph<String, String>, weight: String) -> (i: usize)
    requires
        digraph_nodes(*old(g)).len() < u32::MAX,
    ensures
        digraph_nodes(*final(g)) == digraph_nodes(*old(g)).push(weight@),
        digraph_edges(*final(g)) == digraph_edges(*old(g)),
        i == digraph_nodes(*old(g)).len(),
{
    g.add_node(weight).index()
}

/// Add an edge from node `a` to node `b`.
///
/// Calls `Graph::add_edge`, which appends the edge after the others; it
/// panics when an end is not a node or once the `u32` index space of edges
/// is full, which the `requires` rules out.
#[verifier::external_body]
fn digraph_add_edge(g: &mut DiGraph<String, String>, a: usize, b: usize, weight: String)
    requires
        a < digraph_nodes(*old(g)).len(),
        b < digraph_nodes(*old(g)).len(),
        digraph_edges(*old(g)).len() < u32::MAX,
    ensures
        digraph_nodes(*final(g)) == digraph_nodes(*old(g)),
        digraph_edges(*final(g)) == digraph_edges(*old(g)).push((a, b, weight@)),
{
    g.add_edge(NodeIndex::new(a), NodeIndex::new(b), weight);
}

/// The number of nodes.
///
/// Calls `Graph::node_count`, the length of the node list.
#[verifier::external_body]
fn digraph_node_count(g: &DiGraph<String, String>) -> (n: usize)
    ensures
        n == digraph_nodes(*g).len(),
{
    g.node_count()
}

/// The (source, target) indices of every edge, by edge index.
///
/// Reads `Graph::raw_edges` with `Edge::source` and `Edge::target`. The
/// graph keeps every edge between existing nodes (adding one between
/// missing nodes panics, removing a node removes its edges), so each index
/// is below the node count.
#[verifier::external_body]
fn digraph_edge_ends(g: &DiGraph<String, String>) -> (v: Vec<(usize, usize)>)
    ensures
        v@ == edge_pairs(digraph_edges(*g)),
        forall|i: int| 0 <= i < v@.len() ==> (#[trigger] v@[i]).0 < digraph_nodes(*g).len() && v@[i].1 < digraph_nodes(*g).len(),
{
    g.raw_edges().iter().map(|e| (e.source().index(), e.target().index())).collect()
}

/// The (source, target) pairs of labelled edges.
pub open spec fn edge_pairs(es: Seq<(usize, usize, Seq<char>)>) -> Seq<(usize, usize)> {
    es.map_values(|e: (usize, usize, Seq<char>)| (e.0, e.1))
}

// ─── Weak connectivity ───────────────────────────────────────────────────────

/// Nodes `u` and `w` are joined by one of `edges`, in either direction.
pub open spec fn joined(edges: Seq<(usize, usize)>, u: int, w: int) -> bool {
    exists|i: int| 0 <= i < edges.len()
        && ((#[trigger] edges[i]) == (u as usize, w as usize) || edges[i] == (w as usize, u as usize))
        && 0 <= u && 0 <= w
}

/// `p` walks a graph of `n` nodes along `edges` taken in either direction.
pub open spec fn walk_in(n: nat, edges: Seq<(usize, usize)>, p: Seq<int>) -> bool {
    &&& p.len() >= 1
    &&& forall|k: int| 0 <= k < p.len() ==> 0 <= #[trigger] p[k] < n
    &&& forall|k: int| 0 <= k < p.len() - 1 ==> joined(edges, #[trigger] p[k], p[k + 1])
}

/// Node `v` can be reached from node `s`, edges taken in either direction.
pub open spec fn reaches_in(n: nat, edges: Seq<(usize, usize)>, s: int, v: int) -> bool {
    exists|p: Seq<int>| #[trigger] walk_in(n, edges, p) && p[0] == s && p.last() == v
}

/// A graph of `n` nodes is weakly connected: it is empty, or every node
/// can be reached from the first, edges taken in either direction.
pub open spec fn weakly_connected_in(n: nat, edges: Seq<(usize, usize)>) -> bool {
    n == 0 || forall|v: int| 0 <= v < n ==> #[trigger] reaches_in(n, edges, 0, v)
}

/// The edges of a graph over the nodes `0 .. node_count`, as the
/// connectivity search reads them.
struct Digraph {
    node_count: usize,
    edges: Vec<(usize, usize)>,
}

impl Digraph {
    /// Every edge joins two nodes of the graph.
    spec fn wf(&self) -> bool {
        forall|i: int| 0 <= i < self.edges@.len() ==>
            (#[trigger] self.edges@[i]).0 < self.node_count && self.edges@[i].1 < self.node_count
    }

    /// Nodes `u` and `w` are joined by an edge, in either direction.
    spec fn adjacent(&self, u: int, w: int) -> bool {
        exists|i: int| 0 <= i < self.edges@.len()
            && ((#[trigger] self.edges@[i]) == (u as usize, w as usize) || self.edges@[i] == (w as usize, u as usize))
            && 0 <= u && 0 <= w
    }

    /// `p` walks the graph along edges taken in either direction.
    spec fn is_walk(&self, p: Seq<int>) -> bool {
        &&& p.len() >= 1
        &&& forall|k: int| 0 <= k < p.len() ==> 0 <= #[trigger] p[k] < self.node_count
        &&& forall|k: int| 0 <= k < p.len() - 1 ==> self.adjacent(#[trigger] p[k], p[k + 1])
    }

    /// Node `v` can be reached from node `s`, edges taken in either direction.
    spec fn reaches(&self, s: int, v: int) -> bool {
        exists|p: Seq<int>| #[trigger] self.is_walk(p) && p[0] == s && p.last() == v
    }

    /// The graph is weakly connected: it is empty, or every node can be
    /// reached from the first.
    spec fn weakly_connected(&self) -> bool {
        self.node_count == 0 || forall|v: int| 0 <= v < self.node_count ==> #[trigger] self.reaches(0, v)
    }

    /// The search's own reading of connectivity is the graph's.
    proof fn lemma_same_connectivity(&self)
        ensures
            self.weakly_connected() == weakly_connected_in(self.node_count as nat, self.edges@),
    {
        let n = self.node_count as nat;
        let e = self.edges@;
        assert forall|u: int, w: int| self.adjacent(u, w) == joined(e, u, w) by {
            if self.adjacent(u, w) {
                let i = choose|i: int| 0 <= i < self.edges@.len()
                    && ((#[trigger] self.edges@[i]) == (u as usize, w as usize) || self.edges@[i] == (w as usize, u as usize))
                    && 0 <= u && 0 <= w;
                assert(e[i] == self.edges@[i]);
            }
            if joined(e, u, w) {
                let i = choose|i: int| 0 <= i < e.len()
                    && ((#[trigger] e[i]) == (u as usize, w as usize) || e[i] == (w as usize, u as usize))
                    && 0 <= u && 0 <= w;
                assert(self.edges@[i] == e[i]);
            }
        }
        assert forall|p: Seq<int>| self.is_walk(p) == walk_in(n, e, p) by {
            if self.is_walk(p) {
                assert forall|k: int| 0 <= k < p.len() - 1 implies joined(e, #[trigger] p[k], p[k + 1]) by {
                    assert(self.adjacent(p[k], p[k + 1]));
                }
            }
            if walk_in(n, e, p) {
                assert forall|k: int| 0 <= k < p.len() - 1 implies self.adjacent(#[trigger] p[k], p[k + 1]) by {
                    assert(joined(e, p[k], p[k + 1]));
                }
            }
        }
        assert forall|s0: int, v: int| self.reaches(s0, v) == reaches_in(n, e, s0, v) by {
            if self.reaches(s0, v) {
                let p = choose|p: Seq<int>| #[trigger] self.is_walk(p) && p[0] == s0 && p.last() == v;
                assert(walk_in(n, e, p));
            }
            if reaches_in(n, e, s0, v) {
                let p = choose|p: Seq<int>| #[trigger] walk_in(n, e, p) && p[0] == s0 && p.last() == v;
                assert(self.is_walk(p));
            }
        }
        if self.weakly_connected() && n > 0 {
            assert forall|v: int| 0 <= v < n implies #[trigger] reaches_in(n, e, 0, v) by {
                assert(self.reaches(0, v));
            }
        }
        if weakly_connected_in(n, e) && n > 0 {
            assert forall|v: int| 0 <= v < self.node_count implies #[trigger] self.reaches(0, v) by {
                assert(reaches_in(n, e, 0, v));
            }
        }
    }

    /// Whether the graph is weakly connected: a breadth-first search from
    /// the first node, following edges both ways, reaches every node.
    fn search_connected(&self) -> (b: bool)
        requires
            self.wf(),
        ensures
            b == self.weakly_connected(),
    {
        let n = self.node_count;
        if n == 0 {
            return true;
        }
        let mut visited: Vec<bool> = Vec::new();
        let mut i: usize = 0;
        while i < n
            invariant
                i <= n,
                visited@.len() == i,
                forall|k: int| 0 <= k < i ==> !visited@[k],
            decreases n - i,
        {
            visited.push(false);
            i = i + 1;
        }
        visited.set(0, true);
        let mut queue: Vec<usize> = Vec::new();
        queue.push(0);
        proof {
            let p = seq![0int];
            assert(self.is_walk(p));
        }
        proof {
            assert forall|v: int| 0 <= v < n implies (visited@[v] <==> queue@.contains(v as usize)) by {
                if v == 0 {
                    assert(queue@[0] == 0usize);
                } else {
                    assert(!visited@[v]);
                    if queue@.contains(v as usize) {
                        let k = choose|k: int| 0 <= k < queue@.len() && queue@[k] == v as usize;
                    }
                }
            }
            assert forall|v: int| 0 <= v < n && #[trigger] visited@[v] implies self.reaches(0, v) by {
                assert(v == 0);
                let p = seq![0int];
                assert(self.is_walk(p));
            }
        }
        let mut head: usize = 0;
        while head < queue.len()
            invariant
                self.wf(),
                n == self.node_count,
                n > 0,
                visited@.len() == n,
                visited@[0],
                head <= queue@.len(),
                queue@.len() <= n,
                queue@.no_duplicates(),
                forall|k: int| 0 <= k < queue@.len() ==> (#[trigger] queue@[k]) < n,
                forall|v: int| 0 <= v < n ==> (visited@[v] <==> queue@.contains(v as usize)),
                forall|v: int| 0 <= v < n && #[trigger] visited@[v] ==> self.reaches(0, v),
                forall|k: int, w: int| 0 <= k < head && 0 <= w < n && self.adjacent(#[trigger] queue@[k] as int, w)
                    ==> #[trigger] visited@[w],
            decreases n - head, n - queue@.len(),
        {
            let u = queue[head];
            let mut e: usize = 0;
            while e < self.edges.len()
                invariant
                    self.wf(),
                    n == self.node_count,
                    visited@.len() == n,
                    visited@[0],
                    head < queue@.len(),
                    u == queue@[head as int],
                    queue@.len() <= n,
                    queue@.no_duplicates(),
                    forall|k: int| 0 <= k < queue@.len() ==> (#[trigger] queue@[k]) < n,
                    forall|v: int| 0 <= v < n ==> (visited@[v] <==> queue@.contains(v as usize)),
                    forall|v: int| 0 <= v < n && #[trigger] visited@[v] ==> self.reaches(0, v),
                    forall|k: int, w: int| 0 <= k < head && 0 <= w < n && self.adjacent(#[trigger] queue@[k] as int, w)
                        ==> #[trigger] visited@[w],
                    e <= self.edges@.len(),
                    forall|j: int| 0 <= j < e ==> {
                        let (a, b) = #[trigger] self.edges@[j];
                        (a == u ==> visited@[b as int]) && (b == u ==> visited@[a as int])
                    },
                decreases self.edges@.len() - e,
            {
                let (a, b) = self.edges[e];
                assert(self.edges@[e as int] == (a, b));
                if a == u && !visited[b] {
                    self.visit(&mut visited, &mut queue, u, b, Ghost(e));
                }
                if b == u && !visited[a] {
                    self.visit(&mut visited, &mut queue, u, a, Ghost(e));
                }
                e = e + 1;
            }
            proof {
                assert forall|k: int, w: int| 0 <= k < head + 1 && 0 <= w < n && self.adjacent(#[trigger] queue@[k] as int, w)
                    implies #[trigger] visited@[w] by {
                    if k == head {
                        let j = choose|j: int| 0 <= j < self.edges@.len()
                            && (self.edges@[j] == (u, w as usize) || self.edges@[j] == (w as usize, u));
                        let (a, b) = self.edges@[j];
                    }
                }
            }
            head = head + 1;
        }
        proof {
            assert forall|u: int, w: int| 0 <= u < n && 0 <= w < n && visited@[u] && self.adjacent(u, w)
                implies visited@[w] by {
                assert(queue@.contains(u as usize));
                let k = choose|k: int| 0 <= k < queue@.len() && queue@[k] == u as usize;
                assert(self.adjacent(queue@[k] as int, w));
            }
            self.lemma_closed_set_holds_reachable(visited@);
        }
        let mut v: usize = 0;
        while v < n
            invariant
                n == self.node_count,
                visited@.len() == n,
                v <= n,
                forall|w: int| 0 <= w < n && #[trigger] self.reaches(0, w) ==> visited@[w],
                forall|w: int| 0 <= w < n && #[trigger] visited@[w] ==> self.reaches(0, w),
                forall|k: int| 0 <= k < v ==> visited@[k],
            decreases n - v,
        {
            if !visited[v] {
                proof {
                    assert(!self.reaches(0, v as int));
                }
                return false;
            }
            v = v + 1;
        }
        proof {
            assert forall|w: int| 0 <= w < n implies #[trigger] self.reaches(0, w) by {
                assert(visited@[w]);
            }
        }
        true
    }

    fn visit(&self, visited: &mut Vec<bool>, queue: &mut Vec<usize>, u: usize, w: usize, Ghost(e): Ghost<usize>)
        requires
            self.wf(),
            old(visited)@.len() == self.node_count,
            old(visited)@[0],
            w < self.node_count,
            u < self.node_count,
            !old(visited)@[w as int],
            old(visited)@[u as int],
            e < self.edges@.len(),
            self.edges@[e as int] == (u, w) || self.edges@[e as int] == (w, u),
            old(queue)@.len() <= self.node_count,
            old(queue)@.no_duplicates(),
            forall|k: int| 0 <= k < old(queue)@.len() ==> (#[trigger] old(queue)@[k]) < self.node_count,
            forall|v: int| 0 <= v < self.node_count ==> (old(visited)@[v] <==> old(queue)@.contains(v as usize)),
            forall|v: int| 0 <= v < self.node_count && #[trigger] old(visited)@[v] ==> self.reaches(0, v),
        ensures
            final(visited)@ == old(visited)@.update(w as int, true),
            final(queue)@ == old(queue)@.push(w),
            final(queue)@.len() <= self.node_count,
            final(queue)@.no_duplicates(),
            forall|k: int| 0 <= k < final(queue)@.len() ==> (#[trigger] final(queue)@[k]) < self.node_count,
            forall|v: int| 0 <= v < self.node_count ==> (final(visited)@[v] <==> final(queue)@.contains(v as usize)),
            forall|v: int| 0 <= v < self.node_count && #[trigger] final(visited)@[v] ==> self.reaches(0, v),
    {
        proof {
            assert(self.reaches(0, u as int));
            let p = choose|p: Seq<int>| #[trigger] self.is_walk(p) && p[0] == 0 && p.last() == u as int;
            let q = p.push(w as int);
            assert(self.adjacent(u as int, w as int));
            assert forall|k: int| 0 <= k < q.len() - 1 implies self.adjacent(#[trigger] q[k], q[k + 1]) by {
                if k < p.len() - 1 {
                    assert(q[k] == p[k] && q[k + 1] == p[k + 1]);
                } else {
                    assert(q[k] == u as int && q[k + 1] == w as int);
                }
            }
            assert(self.is_walk(q));
            assert(self.reaches(0, w as int));
            // The queue did not hold w, so it holds fewer than all nodes.
            assert(!old(queue)@.contains(w));
            lemma_distinct_below_bound(old(queue)@, self.node_count, w);
        }
        visited.set(w, true);
        queue.push(w);
        proof {
            assert forall|v: int| 0 <= v < self.node_count implies (visited@[v] <==> queue@.contains(v as usize)) by {
                if v == w as int {
                    assert(queue@[queue@.len() - 1] == w);
                } else {
                    if old(queue)@.contains(v as usize) {
                        let k = choose|k: int| 0 <= k < old(queue)@.len() && old(queue)@[k] == v as usize;
                        assert(queue@[k] == v as usize);
                    }
                    if queue@.contains(v as usize) {
                        let k = choose|k: int| 0 <= k < queue@.len() && queue@[k] == v as usize;
                        if k < old(queue)@.len() {
                            assert(old(queue)@[k] == v as usize);
                        }
                    }
                }
            }
        }
    }

    /// A set of nodes that holds the first node and every neighbour of its
    /// members holds every node reachable from the first.
    proof fn lemma_closed_set_holds_reachable(&self, s: Seq<bool>)
        requires
            self.node_count > 0,
            s.len() == self.node_count,
            s[0],
            forall|u: int, w: int| 0 <= u < self.node_count && 0 <= w < self.node_count && s[u] && self.adjacent(u, w) ==> s[w],
        ensures
            forall|v: int| 0 <= v < self.node_count && #[trigger] self.reaches(0, v) ==> s[v],
    {
        assert forall|v: int| 0 <= v < self.node_count && #[trigger] self.reaches(0, v) implies s[v] by {
            let p = choose|p: Seq<int>| #[trigger] self.is_walk(p) && p[0] == 0 && p.last() == v;
            self.lemma_walk_stays(s, p, (p.len() - 1) as nat);
        }
    }

    proof fn lemma_walk_stays(&self, s: Seq<bool>, p: Seq<int>, k: nat)
        requires
            self.node_count > 0,
            s.len() == self.node_count,
            s[0],
            forall|u: int, w: int| 0 <= u < self.node_count && 0 <= w < self.node_count && s[u] && self.adjacent(u, w) ==> s[w],
            self.is_walk(p),
            p[0] == 0,
            k < p.len(),
        ensures
            s[p[k as int]],
        decreases k,
    {
        if k > 0 {
            self.lemma_walk_stays(s, p, (k - 1) as nat);
            assert(self.adjacent(p[k - 1], p[k as int]));
            assert(0 <= p[k - 1] < self.node_count);
            assert(0 <= p[k as int] < self.node_count);
        }
    }
}

/// Distinct values below `n` that leave out `w < n` number fewer than `n`.
proof fn lemma_distinct_below_bound(q: Seq<usize>, n: usize, w: usize)
    requires
        q.no_duplicates(),
        forall|k: int| 0 <= k < q.len() ==> (#[trigger] q[k]) < n,
        w < n,
        !q.contains(w),
    ensures
        q.len() < n,
{
    let s = q.to_set();
    let full = Set::new(|x: usize| x < n);
    q.unique_seq_to_set();
    lemma_below_len(n);
    assert(full.contains(w));
    assert(full.remove(w).len() == n - 1);
    assert forall|x: usize| s.contains(x) implies full.remove(w).contains(x) by {
        let k = choose|k: int| 0 <= k < q.len() && q[k] == x;
    }
    vstd::set_lib::lemma_len_subset(s, full.remove(w));
}

proof fn lemma_below_len(n: usize)
    ensures
        Set::new(|x: usize| x < n).finite(),
        Set::new(|x: usize| x < n).len() == n,
    decreases n,
{
    if n == 0 {
        assert(Set::new(|x: usize| x < n) =~= Set::<usize>::empty());
    } else {
        let m = (n - 1) as usize;
        lemma_below_len(m);
        assert(Set::new(|x: usize| x < n) =~= Set::new(|x: usize| x < m).insert(m));
    }
}

/// Whether the graph is weakly connected: a breadth-first search from the
/// first node, following edges both ways, reaches every node.
pub fn is_connected(graph: &DiGraph<String, String>) -> (b: bool)
    ensures
        b == weakly_connected_in(digraph_nodes(*graph).len(), edge_pairs(digraph_edges(*graph))),
{
    let d = Digraph { node_count: digraph_node_count(graph), edges: digraph_edge_ends(graph) };
    proof {
        d.lemma_same_connectivity();
    }
    d.search_connected()
}

/// The projection of a graph's live nodes and edges: node `i` is the
/// `i`-th identifier, and each edge whose two ends are known nodes becomes
/// an edge, labelled with its type, between their positions (the last
/// position, should an identifier repeat).
#[derive(Debug)]
pub struct GraphProjection {
    pub graph: DiGraph<String, String>,
    pub node_ids: Vec<String>,
}

/// The last position of `id` among `ids`.
pub open spec fn last_index_of(ids: Seq<Seq<char>>, id: Seq<char>) -> Option<int> {
    if exists|i: int| 0 <= i < ids.len() && ids[i] == id {
        Some(choose|i: int| 0 <= i < ids.len() && ids[i] == id && forall|j: int| i < j < ids.len() ==> ids[j] != id)
    } else {
        None
    }
}

/// The (source, target, type) of each edge.
pub open spec fn typed_edge_views(edges: Seq<(String, String, String)>) -> Seq<(Seq<char>, Seq<char>, Seq<char>)> {
    edges.map_values(|e: (String, String, String)| (e.0@, e.1@, e.2@))
}

/// The edges of the projection, in the order they are given.
pub open spec fn projected_edges(ids: Seq<Seq<char>>, edges: Seq<(Seq<char>, Seq<char>, Seq<char>)>) -> Seq<(usize, usize, Seq<char>)>
    decreases edges.len(),
{
    if edges.len() == 0 {
        seq![]
    } else {
        let rest = projected_edges(ids, edges.drop_last());
        match (last_index_of(ids, edges.last().0), last_index_of(ids, edges.last().1)) {
            (Some(a), Some(b)) => rest.push((a as usize, b as usize, edges.last().2)),
            _ => rest,
        }
    }
}

proof fn lemma_projected_len(ids: Seq<Seq<char>>, edges: Seq<(Seq<char>, Seq<char>, Seq<char>)>)
    ensures
        projected_edges(ids, edges).len() <= edges.len(),
    decreases edges.len(),
{
    if edges.len() > 0 {
        lemma_projected_len(ids, edges.drop_last());
    }
}

fn last_index(ids: &Vec<String>, id: &str) -> (r: Option<usize>)
    ensures
        match r {
            Some(i) => last_index_of(string_views(ids@), id@) == Some(i as int) && i < ids@.len(),
            None => last_index_of(string_views(ids@), id@) is None,
        },
{
    let ghost v = string_views(ids@);
    let mut i: usize = ids.len();
    while i > 0
        invariant
            v == string_views(ids@),
            i <= ids@.len(),
            forall|j: int| i <= j < ids@.len() ==> v[j] != id@,
        decreases i,
    {
        if str_eq(ids[i - 1].as_str(), id) {
            let k = i - 1;
            assert(v[k as int] == id@);
            proof {
                let c = choose|c: int| 0 <= c < v.len() && v[c] == id@ && forall|j: int| c < j < v.len() ==> v[j] != id@;
                assert(0 <= k < v.len() && v[k as int] == id@ && forall|j: int| k < j < v.len() ==> v[j] != id@);
                if c < k {
                    assert(v[k as int] != id@);
                } else if c > k {
                    assert(v[c] != id@);
                }
            }
            return Some(k);
        }
        i = i - 1;
    }
    None
}

impl GraphProjection {
    /// Project nodes and edges: one node per identifier, one edge per given
    /// (source, target, type) whose ends are both among the identifiers.
    /// The graph indexes nodes and edges with `u32`, whose range bounds
    /// both counts.
    pub fn build(node_ids: Vec<String>, edges: &Vec<(String, String, String)>) -> (p: GraphProjection)
        requires
            node_ids@.len() < u32::MAX,
            edges@.len() < u32::MAX,
        ensures
            string_views(p.node_ids@) == string_views(node_ids@),
            digraph_nodes(p.graph) == string_views(node_ids@),
            digraph_edges(p.graph) == projected_edges(string_views(node_ids@), typed_edge_views(edges@)),
    {
        let ghost ids = string_views(node_ids@);
        let ghost ev = typed_edge_views(edges@);
        let mut graph = new_digraph();
        let mut i: usize = 0;
        while i < node_ids.len()
            invariant
                ids == string_views(node_ids@),
                node_ids@.len() < u32::MAX,
                i <= node_ids@.len(),
                digraph_nodes(graph) == ids.take(i as int),
                digraph_edges(graph) == Seq::<(usize, usize, Seq<char>)>::empty(),
            decreases node_ids.len() - i,
        {
            digraph_add_node(&mut graph, owned(node_ids[i].as_str()));
            assert(ids.take(i + 1) =~= ids.take(i as int).push(node_ids@[i as int]@));
            i = i + 1;
        }
        assert(ids.take(node_ids.len() as int) =~= ids);
        let mut k: usize = 0;
        assert(ev.take(0) =~= Seq::<(Seq<char>, Seq<char>, Seq<char>)>::empty());
        while k < edges.len()
            invariant
                ids == string_views(node_ids@),
                ev == typed_edge_views(edges@),
                edges@.len() < u32::MAX,
                digraph_nodes(graph) == ids,
                k <= edges@.len(),
                digraph_edges(graph) == projected_edges(ids, ev.take(k as int)),
            decreases edges.len() - k,
        {
            let ghost before = ev.take(k as int);
            let ghost cur = ev.take(k + 1);
            assert(cur.drop_last() =~= before);
            assert(cur.last() == (edges@[k as int].0@, edges@[k as int].1@, edges@[k as int].2@));
            proof {
                lemma_projected_len(ids, before);
            }
            let a = last_index(&node_ids, edges[k].0.as_str());
            let b = last_index(&node_ids, edges[k].1.as_str());
            match (a, b) {
                (Some(a), Some(b)) => {
                    assert(projected_edges(ids, cur) == projected_edges(ids, before).push((a, b, edges@[k as int].2@)));
                    digraph_add_edge(&mut graph, a, b, owned(edges[k].2.as_str()));
                },
                _ => {
                    assert(projected_edges(ids, cur) == projected_edges(ids, before));
                },
            }
            k = k + 1;
        }
        assert(ev.take(edges.len() as int) =~= ev);
        GraphProjection { graph, node_ids }
    }

    /// The node index of an identifier: its last position.
    pub fn node_index(&self, id: &str) -> (r: Option<usize>)
        ensures
            match r {
                Some(i) => last_index_of(string_views(self.node_ids@), id@) == Some(i as int),
                None => last_index_of(string_views(self.node_ids@), id@) is None,
            },
    {
        last_index(&self.node_ids, id)
    }
}

/// How many communities a membership names: one more than the largest
/// community identifier, or none when there is no member.
pub fn community_count(ids: &Vec<usize>) -> (n: usize)
    requires
        forall|i: int| 0 <= i < ids@.len() ==> ids@[i] < usize::MAX,
    ensures
        ids@.len() == 0 ==> n == 0,
        ids@.len() > 0 ==> (exists|i: int| 0 <= i < ids@.len() && n == ids@[i] + 1)
            && forall|i: int| 0 <= i < ids@.len() ==> ids@[i] < n,
{
    let mut n: usize = 0;
    let mut k: usize = 0;
    while k < ids.len()
        invariant
            k <= ids@.len(),
            forall|i: int| 0 <= i < ids@.len() ==> ids@[i] < usize::MAX,
            k == 0 ==> n == 0,
            k > 0 ==> exists|i: int| 0 <= i < k && n == ids@[i] + 1,
            forall|i: int| 0 <= i < k ==> ids@[i] < n,
        decreases ids.len() - k,
    {
        if ids[k] + 1 > n {
            n = ids[k] + 1;
        }
        k = k + 1;
    }
    n
}

} // verus!
