//! Path search between two nodes: a breadth-first search that asks for the
//! neighbours of one node at a time (the store answers) and collects up to
//! five paths, shortest first.

use vstd::prelude::*;

use crate::text::{contains_string, owned, str_eq, string_views};

verus! {

/// At most this many paths are collected.
pub const MAX_PATHS: usize = 5;

/// What the search wants next.
#[derive(Debug)]
pub enum PathStep {
    /// The identifiers of the nodes joined to this one by a live edge, in
    /// either direction.
    Neighbors(String),
    /// The search is over; these are the paths found.
    Done(Vec<Vec<String>>),
}

/// A breadth-first path search in progress. Each queued path ends at the
/// node it reaches.
pub struct PathSearch {
    source: String,
    target: String,
    max_depth: i64,
    max_edges: i64,
    queue: Vec<Vec<String>>,
    head: usize,
    visited: Vec<String>,
    paths: Vec<Vec<String>>,
    edges_traversed: i64,
    asking: bool,
    done: bool,
    reported: Ghost<Set<(Seq<char>, Seq<char>)>>,
}

/// The step from the `k`-th node of `p` to the next was reported.
pub open spec fn reported_step(p: Seq<Seq<char>>, k: int, reported: Set<(Seq<char>, Seq<char>)>) -> bool {
    reported.contains((p[k], p[k + 1]))
}

/// A path from `source` to `last`: at least one node, no node twice, each
/// step between nodes reported as neighbours.
pub open spec fn is_path(p: Seq<Seq<char>>, source: Seq<char>, last: Seq<char>, reported: Set<(Seq<char>, Seq<char>)>) -> bool {
    &&& p.len() >= 1
    &&& p[0] == source
    &&& p.last() == last
    &&& p.no_duplicates()
    &&& forall|k: int| 0 <= k < p.len() - 1 ==> #[trigger] reported_step(p, k, reported)
}

pub open spec fn path_views(ps: Seq<Vec<String>>) -> Seq<Seq<Seq<char>>> {
    ps.map_values(|p: Vec<String>| string_views(p@))
}

/// Every queued path is a path from the source, over visited nodes.
pub open spec fn queue_ok(q: Seq<Seq<Seq<char>>>, source: Seq<char>, visited: Seq<Seq<char>>, reported: Set<(Seq<char>, Seq<char>)>) -> bool {
    forall|k: int| 0 <= k < q.len() ==> {
        &&& is_path(#[trigger] q[k], source, q[k].last(), reported)
        &&& forall|i: int| 0 <= i < q[k].len() ==> visited.contains(#[trigger] q[k][i])
    }
}

/// Every path found leads from the source to the target within the depth.
pub open spec fn paths_ok(ps: Seq<Seq<Seq<char>>>, source: Seq<char>, target: Seq<char>, max_depth: i64, reported: Set<(Seq<char>, Seq<char>)>) -> bool {
    forall|k: int| 0 <= k < ps.len() ==> is_path(#[trigger] ps[k], source, target, reported) && ps[k].len() <= max_depth
}

/// The paths are ordered by length, shortest first.
pub open spec fn shortest_first(ps: Seq<Seq<Seq<char>>>) -> bool {
    forall|i: int, j: int| 0 <= i < j < ps.len() ==> #[trigger] ps[i].len() <= #[trigger] ps[j].len()
}

/// Where a step of the search stops, scanning the queue from `head`: the
/// position after the last path looked at, the paths found by then, and the
/// node to expand (`None` when the search is over). Paths longer than
/// `max_depth` are passed over; a path that ends at the target is kept; the
/// scan stops at the first other path, or once five paths are found, the
/// edge budget is spent or the queue runs out.
pub open spec fn scan(
    q: Seq<Seq<Seq<char>>>,
    head: int,
    paths: Seq<Seq<Seq<char>>>,
    target: Seq<char>,
    max_depth: i64,
    traversed: i64,
    max_edges: i64,
) -> (int, Seq<Seq<Seq<char>>>, Option<Seq<char>>)
    decreases q.len() - head,
{
    if head < 0 || head >= q.len() || paths.len() >= MAX_PATHS || traversed >= max_edges {
        (head, paths, None)
    } else if q[head].len() > max_depth {
        scan(q, head + 1, paths, target, max_depth, traversed, max_edges)
    } else if q[head].len() > 0 && q[head].last() == target {
        scan(q, head + 1, paths.push(q[head]), target, max_depth, traversed, max_edges)
    } else {
        (head + 1, paths, Some(q[head].last()))
    }
}

/// What expanding the path `p` queues, given the nodes `v` visited so far
/// and the neighbours `ns` of its last node in the order the store gave
/// them: `p` extended by each neighbour not visited yet (nor queued earlier
/// in this expansion), and those neighbours.
pub open spec fn expansion(p: Seq<Seq<char>>, v: Seq<Seq<char>>, ns: Seq<Seq<char>>) -> (Seq<Seq<Seq<char>>>, Seq<Seq<char>>)
    decreases ns.len(),
{
    if ns.len() == 0 {
        (seq![], seq![])
    } else {
        let (qa, va) = expansion(p, v, ns.drop_last());
        let w = ns.last();
        if (v + va).contains(w) {
            (qa, va)
        } else {
            (qa.push(p.push(w)), va.push(w))
        }
    }
}

proof fn lemma_path_more_reported(p: Seq<Seq<char>>, s: Seq<char>, l: Seq<char>, r1: Set<(Seq<char>, Seq<char>)>, r2: Set<(Seq<char>, Seq<char>)>)
    requires
        is_path(p, s, l, r1),
        r1.subset_of(r2),
    ensures
        is_path(p, s, l, r2),
{
    assert forall|k: int| 0 <= k < p.len() - 1 implies #[trigger] reported_step(p, k, r2) by {
        assert(reported_step(p, k, r1));
    }
}

proof fn lemma_more_reported(
    q: Seq<Seq<Seq<char>>>, ps: Seq<Seq<Seq<char>>>, s: Seq<char>, t: Seq<char>, d: i64, v: Seq<Seq<char>>,
    r1: Set<(Seq<char>, Seq<char>)>, r2: Set<(Seq<char>, Seq<char>)>,
)
    requires
        queue_ok(q, s, v, r1),
        paths_ok(ps, s, t, d, r1),
        r1.subset_of(r2),
    ensures
        queue_ok(q, s, v, r2),
        paths_ok(ps, s, t, d, r2),
{
    assert forall|k: int| 0 <= k < q.len() implies is_path(#[trigger] q[k], s, q[k].last(), r2) by {
        lemma_path_more_reported(q[k], s, q[k].last(), r1, r2);
    }
    assert forall|k: int| 0 <= k < ps.len() implies is_path(#[trigger] ps[k], s, t, r2) by {
        lemma_path_more_reported(ps[k], s, t, r1, r2);
    }
}

proof fn lemma_extend_path(p: Seq<Seq<char>>, s: Seq<char>, v: Seq<Seq<char>>, r: Set<(Seq<char>, Seq<char>)>, w: Seq<char>)
    requires
        is_path(p, s, p.last(), r),
        forall|i: int| 0 <= i < p.len() ==> v.contains(#[trigger] p[i]),
        r.contains((p.last(), w)),
        !v.contains(w),
    ensures
        is_path(p.push(w), s, w, r),
        forall|i: int| 0 <= i < p.push(w).len() ==> v.push(w).contains(#[trigger] p.push(w)[i]),
{
    let nv = v.push(w);
    let np = p.push(w);
    assert(!p.contains(w)) by {
        if p.contains(w) {
            let t = choose|t: int| 0 <= t < p.len() && p[t] == w;
            assert(v.contains(p[t]));
        }
    }
    assert forall|a: int, b: int| 0 <= a < b < np.len() implies np[a] != np[b] by {
        if b == np.len() - 1 {
            assert(np[a] == p[a]);
        } else {
            assert(np[a] == p[a] && np[b] == p[b]);
        }
    }
    assert forall|i: int| 0 <= i < np.len() - 1 implies #[trigger] reported_step(np, i, r) by {
        if i < p.len() - 1 {
            assert(reported_step(p, i, r));
            assert(np[i] == p[i] && np[i + 1] == p[i + 1]);
        } else {
            assert(np[i] == p.last() && np[i + 1] == w);
        }
    }
    assert forall|i: int| 0 <= i < np.len() implies nv.contains(#[trigger] np[i]) by {
        if i < p.len() {
            assert(np[i] == p[i]);
            let t = choose|t: int| 0 <= t < v.len() && v[t] == p[i];
            assert(nv[t] == p[i]);
        } else {
            assert(nv[v.len() as int] == w);
        }
    }
}

proof fn lemma_queue_push(q: Seq<Seq<Seq<char>>>, s: Seq<char>, v: Seq<Seq<char>>, r: Set<(Seq<char>, Seq<char>)>, np: Seq<Seq<char>>, w: Seq<char>)
    requires
        queue_ok(q, s, v, r),
        is_path(np, s, np.last(), r),
        forall|i: int| 0 <= i < np.len() ==> v.push(w).contains(#[trigger] np[i]),
    ensures
        queue_ok(q.push(np), s, v.push(w), r),
{
    let nv = v.push(w);
    let nq = q.push(np);
    assert forall|j: int| 0 <= j < nq.len() implies {
        &&& is_path(#[trigger] nq[j], s, nq[j].last(), r)
        &&& forall|i: int| 0 <= i < nq[j].len() ==> nv.contains(#[trigger] nq[j][i])
    } by {
        if j < q.len() {
            assert(nq[j] == q[j]);
            assert forall|i: int| 0 <= i < nq[j].len() implies nv.contains(#[trigger] nq[j][i]) by {
                let t = choose|t: int| 0 <= t < v.len() && v[t] == q[j][i];
                assert(nv[t] == q[j][i]);
            }
        } else {
            assert(nq[j] == np);
        }
    }
}

impl PathSearch {
    pub closed spec fn queue_views(&self) -> Seq<Seq<Seq<char>>> {
        path_views(self.queue@)
    }

    /// The pairs (node, neighbour) the store has reported so far.
    pub closed spec fn reported(&self) -> Set<(Seq<char>, Seq<char>)> {
        self.reported@
    }

    pub closed spec fn source_view(&self) -> Seq<char> {
        self.source@
    }

    pub closed spec fn target_view(&self) -> Seq<char> {
        self.target@
    }

    pub closed spec fn max_depth_view(&self) -> i64 {
        self.max_depth
    }

    /// The edges counted so far.
    pub closed spec fn traversed(&self) -> i64 {
        self.edges_traversed
    }

    /// The edge budget.
    pub closed spec fn max_edges_view(&self) -> i64 {
        self.max_edges
    }

    /// The position in the queue of the next path to look at.
    pub closed spec fn head_pos(&self) -> int {
        self.head as int
    }

    /// The nodes visited so far, in the order they were reached.
    pub closed spec fn visited_view(&self) -> Seq<Seq<char>> {
        string_views(self.visited@)
    }

    /// The paths found so far.
    pub closed spec fn found(&self) -> Seq<Seq<Seq<char>>> {
        path_views(self.paths@)
    }

    /// The node whose neighbours the search asked for last.
    pub closed spec fn asked(&self) -> Seq<char> {
        self.queue_views()[self.head - 1].last()
    }

    /// Whether the search waits for the neighbours it asked for.
    pub closed spec fn is_asking(&self) -> bool {
        self.asking
    }

    /// Whether the search is over.
    pub closed spec fn is_done(&self) -> bool {
        self.done
    }

    /// The search's own bookkeeping holds.
    pub closed spec fn wf(&self) -> bool {
        &&& self.head <= self.queue@.len()
        &&& self.paths@.len() <= MAX_PATHS
        &&& self.edges_traversed >= 0
        &&& (self.asking ==> 0 < self.head && !self.done)
        &&& queue_ok(self.queue_views(), self.source@, string_views(self.visited@), self.reported@)
        &&& paths_ok(path_views(self.paths@), self.source@, self.target@, self.max_depth, self.reported@)
        &&& self.queue@.len() >= 1
        &&& shortest_first(self.queue_views())
        &&& shortest_first(path_views(self.paths@))
        &&& (self.head == 0 ==> self.queue@.len() == 1 && self.paths@.len() == 0)
        &&& (self.head > 0 ==> self.queue_views().last().len() <= self.queue_views()[self.head - 1].len() + 1)
        &&& (self.head > 0 ==> forall|k: int| 0 <= k < self.paths@.len()
                ==> #[trigger] path_views(self.paths@)[k].len() <= self.queue_views()[self.head - 1].len())
    }

    /// Start a search from `source` to `target` over paths of at most
    /// `max_depth` nodes, counting at most `max_edges` edges.
    pub fn new(source: &str, target: &str, max_depth: i64, max_edges: i64) -> (s: PathSearch)
        ensures
            s.wf(),
            s.source_view() == source@,
            s.target_view() == target@,
            s.max_depth_view() == max_depth,
            s.reported() == Set::<(Seq<char>, Seq<char>)>::empty(),
            s.traversed() == 0,
            s.max_edges_view() == max_edges,
            s.queue_views() == seq![seq![source@]],
            s.head_pos() == 0,
            s.visited_view() == seq![source@],
            s.found() == Seq::<Seq<Seq<char>>>::empty(),
            !s.is_asking(),
            !s.is_done(),
    {
        let mut path: Vec<String> = Vec::new();
        path.push(owned(source));
        let mut queue: Vec<Vec<String>> = Vec::new();
        queue.push(path);
        let mut visited: Vec<String> = Vec::new();
        visited.push(owned(source));
        let s = PathSearch {
            source: owned(source),
            target: owned(target),
            max_depth,
            max_edges,
            queue,
            head: 0,
            visited,
            paths: Vec::new(),
            edges_traversed: 0,
            asking: false,
            done: false,
            reported: Ghost(Set::empty()),
        };
        proof {
            let qv = s.queue_views();
            assert(qv[0] =~= seq![source@]);
            assert(string_views(s.visited@)[0] == source@);
            assert(path_views(s.paths@) =~= Seq::<Seq<Seq<char>>>::empty());
            assert(qv =~= seq![seq![source@]]);
            assert(string_views(s.visited@) =~= seq![source@]);
        }
        s
    }

    /// The next step: ask for the neighbours of the next node to expand, or
    /// end with the paths found. A path is kept when the node reached is the
    /// target; nodes on paths longer than `max_depth` are not expanded; the
    /// search ends when the queue runs out, when five paths are found, or
    /// once `max_edges` edges have been counted. The paths handed out come
    /// shortest first, each from the source to the target with at most
    /// `max_depth` nodes, at most five of them.
    pub fn next_step(&mut self) -> (step: PathStep)
        requires
            old(self).wf(),
            !old(self).is_asking(),
            !old(self).is_done(),
        ensures
            final(self).wf(),
            final(self).reported() == old(self).reported(),
            final(self).source_view() == old(self).source_view(),
            final(self).target_view() == old(self).target_view(),
            final(self).max_depth_view() == old(self).max_depth_view(),
            final(self).max_edges_view() == old(self).max_edges_view(),
            final(self).traversed() == old(self).traversed(),
            final(self).queue_views() == old(self).queue_views(),
            final(self).visited_view() == old(self).visited_view(),
            ({
                let (h, ps, n) = scan(old(self).queue_views(), old(self).head_pos(), old(self).found(),
                    old(self).target_view(), old(self).max_depth_view(), old(self).traversed(), old(self).max_edges_view());
                match step {
                    PathStep::Neighbors(x) => n == Some(x@) && final(self).head_pos() == h && final(self).found() == ps
                        && final(self).is_asking() && !final(self).is_done() && x@ == final(self).asked(),
                    PathStep::Done(r) => n is None && path_views(r@) == ps
                        && final(self).is_done() && !final(self).is_asking(),
                }
            }),
            match step {
                PathStep::Neighbors(_) => true,
                PathStep::Done(ps) => ps@.len() <= MAX_PATHS
                    && shortest_first(path_views(ps@))
                    && paths_ok(path_views(ps@), old(self).source_view(), old(self).target_view(),
                        old(self).max_depth_view(), old(self).reported()),
            },
    {
        let ghost q = self.queue_views();
        let ghost s0 = scan(q, self.head as int, path_views(self.paths@), self.target@, self.max_depth,
            self.edges_traversed, self.max_edges);
        while self.head < self.queue.len() && self.paths.len() < MAX_PATHS && self.edges_traversed < self.max_edges
            invariant
                self.wf(),
                !self.asking,
                !self.done,
                self.reported == old(self).reported,
                self.source == old(self).source,
                self.target == old(self).target,
                self.max_depth == old(self).max_depth,
                self.max_edges == old(self).max_edges,
                self.edges_traversed == old(self).edges_traversed,
                self.queue_views() == q,
                q == old(self).queue_views(),
                s0 == scan(old(self).queue_views(), old(self).head_pos(), old(self).found(),
                    old(self).target_view(), old(self).max_depth_view(), old(self).traversed(), old(self).max_edges_view()),
                self.visited == old(self).visited,
                s0 == scan(q, self.head as int, path_views(self.paths@), self.target@, self.max_depth,
                    self.edges_traversed, self.max_edges),
            decreases self.queue@.len() - self.head,
        {
            let k = self.head;
            self.head = self.head + 1;
            let len = self.queue[k].len();
            proof {
                assert(is_path(q[k as int], self.source@, q[k as int].last(), self.reported@));
                assert(q[k as int].len() == len);
                if k > 0 {
                    assert(q[k - 1].len() <= q[k as int].len());
                }
            }
            if (len as i128) > (self.max_depth as i128) {
                continue;
            }
            let last = self.queue[k][len - 1].as_str();
            assert(q[k as int].last() == last@);
            if str_eq(last, self.target.as_str()) {
                let p = copy_strings(&self.queue[k]);
                let ghost pv = path_views(self.paths@);
                self.paths.push(p);
                proof {
                    assert(path_views(self.paths@) =~= pv.push(q[k as int]));
                    assert(is_path(q[k as int], self.source@, last@, self.reported@));
                    assert forall|i: int| 0 <= i < pv.len() implies #[trigger] pv[i].len() <= q[k as int].len() by {
                        if k > 0 {
                            assert(pv[i].len() <= q[k - 1].len());
                        }
                    }
                }
                continue;
            }
            self.asking = true;
            return PathStep::Neighbors(owned(last));
        }
        self.done = true;
        let mut r: Vec<Vec<String>> = Vec::new();
        std::mem::swap(&mut r, &mut self.paths);
        assert(path_views(self.paths@) =~= Seq::<Seq<Seq<char>>>::empty());
        PathStep::Done(r)
    }

    /// The neighbours of the node asked for: count them as traversed edges,
    /// and queue each one not seen before, with its path.
    pub fn on_neighbors(&mut self, neighbors: Vec<String>)
        requires
            old(self).wf(),
            old(self).is_asking(),
            old(self).traversed() + neighbors@.len() <= i64::MAX,
        ensures
            final(self).wf(),
            !final(self).is_asking(),
            !final(self).is_done(),
            final(self).source_view() == old(self).source_view(),
            final(self).target_view() == old(self).target_view(),
            final(self).max_depth_view() == old(self).max_depth_view(),
            final(self).traversed() == old(self).traversed() + neighbors@.len(),
            final(self).reported() == old(self).reported().union(
                string_views(neighbors@).to_set().map(|w: Seq<char>| (old(self).asked(), w))),
            final(self).max_edges_view() == old(self).max_edges_view(),
            final(self).head_pos() == old(self).head_pos(),
            final(self).found() == old(self).found(),
            ({
                let (qa, va) = expansion(old(self).queue_views()[old(self).head_pos() - 1], old(self).visited_view(),
                    string_views(neighbors@));
                &&& final(self).queue_views() == old(self).queue_views() + qa
                &&& final(self).visited_view() == old(self).visited_view() + va
            }),
    {
        let k = self.head - 1;
        let ghost p0 = self.queue_views()[k as int];
        let ghost q0 = self.queue_views();
        let ghost v0 = string_views(self.visited@);
        let ghost ns = string_views(neighbors@);
        let ghost current = self.queue_views()[k as int].last();
        let ghost added = string_views(neighbors@).to_set().map(|w: Seq<char>| (current, w));
        self.edges_traversed = self.edges_traversed + neighbors.len() as i64;
        let ghost r1 = self.reported@;
        proof {
            lemma_more_reported(self.queue_views(), path_views(self.paths@), self.source@, self.target@,
                self.max_depth, string_views(self.visited@), r1, r1.union(added));
        }
        self.reported = Ghost(r1.union(added));
        let mut i: usize = 0;
        while i < neighbors.len()
            invariant
                self.wf(),
                self.asking,
                !self.done,
                k + 1 == self.head,
                k < self.queue@.len(),
                current == self.queue_views()[k as int].last(),
                added == string_views(neighbors@).to_set().map(|w: Seq<char>| (current, w)),
                self.reported@ == r1.union(added),
                self.source == old(self).source,
                self.target == old(self).target,
                self.max_depth == old(self).max_depth,
                self.edges_traversed == old(self).edges_traversed + neighbors@.len(),
                self.max_edges == old(self).max_edges,
                self.paths == old(self).paths,
                i <= neighbors@.len(),
                p0 == q0[k as int],
                k < q0.len(),
                ns == string_views(neighbors@),
                self.queue_views() == q0 + expansion(p0, v0, ns.take(i as int)).0,
                string_views(self.visited@) == v0 + expansion(p0, v0, ns.take(i as int)).1,
            decreases neighbors.len() - i,
        {
            let w = neighbors[i].as_str();
            proof {
                assert(ns.take(i + 1).drop_last() =~= ns.take(i as int));
                assert(ns.take(i + 1).last() == w@);
                assert(self.queue_views()[k as int] == p0);
            }
            if !contains_string(&self.visited, w) {
                proof {
                    assert(string_views(neighbors@)[i as int] == w@);
                    assert(string_views(neighbors@).to_set().contains(w@));
                    assert(added.contains((current, w@)));
                }
                let ghost qb = self.queue_views();
                let ghost vb = string_views(self.visited@);
                self.enqueue(k, w);
                proof {
                    assert(self.queue_views() =~= q0 + expansion(p0, v0, ns.take(i + 1)).0);
                    assert(string_views(self.visited@) =~= v0 + expansion(p0, v0, ns.take(i + 1)).1);
                }
            }
            i = i + 1;
        }
        assert(ns.take(neighbors.len() as int) =~= ns);
        self.asking = false;
    }
}

impl PathSearch {
    /// Queue the path to `w` through the node expanded at position `k`.
    fn enqueue(&mut self, k: usize, w: &str)
        requires
            old(self).wf(),
            k < old(self).queue@.len(),
            k + 1 == old(self).head,
            !string_views(old(self).visited@).contains(w@),
            old(self).reported@.contains((old(self).queue_views()[k as int].last(), w@)),
        ensures
            final(self).wf(),
            final(self).source == old(self).source,
            final(self).target == old(self).target,
            final(self).max_depth == old(self).max_depth,
            final(self).max_edges == old(self).max_edges,
            final(self).head == old(self).head,
            final(self).edges_traversed == old(self).edges_traversed,
            final(self).asking == old(self).asking,
            final(self).done == old(self).done,
            final(self).reported == old(self).reported,
            final(self).paths == old(self).paths,
            final(self).queue_views() == old(self).queue_views().push(old(self).queue_views()[k as int].push(w@)),
            string_views(final(self).visited@) == string_views(old(self).visited@).push(w@),
    {
        let mut np = copy_strings(&self.queue[k]);
        let ghost qv = self.queue_views();
        let ghost vv = string_views(self.visited@);
        let ghost p = qv[k as int];
        proof {
            assert(is_path(p, self.source@, p.last(), self.reported@));
            lemma_extend_path(p, self.source@, vv, self.reported@, w@);
        }
        np.push(owned(w));
        let ghost npv = string_views(np@);
        assert(npv =~= p.push(w@));
        proof {
            lemma_queue_push(qv, self.source@, vv, self.reported@, npv, w@);
        }
        self.visited.push(owned(w));
        self.queue.push(np);
        proof {
            assert(string_views(self.visited@) =~= vv.push(w@));
            assert(self.queue_views() =~= qv.push(npv));
            let nq = qv.push(npv);
            assert forall|i: int, j: int| 0 <= i < j < nq.len() implies #[trigger] nq[i].len() <= #[trigger] nq[j].len() by {
                if j == nq.len() - 1 {
                    assert(qv[i].len() <= qv.last().len());
                } else {
                    assert(nq[i] == qv[i] && nq[j] == qv[j]);
                }
            }
        }
    }
}

fn copy_strings(v: &Vec<String>) -> (r: Vec<String>)
    ensures
        string_views(r@) == string_views(v@),
{
    let mut r: Vec<String> = Vec::new();
    let mut i: usize = 0;
    while i < v.len()
        invariant
            i <= v@.len(),
            string_views(r@) == string_views(v@).take(i as int),
        decreases v.len() - i,
    {
        let ghost before = string_views(r@);
        r.push(owned(v[i].as_str()));
        assert(string_views(r@) =~= before.push(v@[i as int]@));
        assert(string_views(v@).take(i + 1) =~= string_views(v@).take(i as int).push(v@[i as int]@));
        i = i + 1;
    }
    assert(string_views(v@).take(v.len() as int) =~= string_views(v@));
    r
}

} // verus!
