//! The downward emission walk of the flow engine: a breadth-first walk from
//! a root node through its children, each node reached once, down to a
//! maximum depth. The store answers which children a node has; each node
//! reached carries the index of the drive state it receives.

use vstd::prelude::*;

use crate::text::{contains_string, owned, string_views};

verus! {

/// One node the emission reaches: its depth below the root, the node it was
/// reached from, and the index of the drive state it receives.
#[derive(Debug)]
pub struct EmissionVisit {
    pub node: String,
    pub depth: i64,
    pub from: String,
    pub state: usize,
}

/// A reached node as a mathematical value.
pub struct VisitView {
    pub node: Seq<char>,
    pub depth: i64,
    pub from: Seq<char>,
    pub state: usize,
}

impl View for EmissionVisit {
    type V = VisitView;

    open spec fn view(&self) -> VisitView {
        VisitView { node: self.node@, depth: self.depth, from: self.from@, state: self.state }
    }
}

impl EmissionVisit {
    fn copy(&self) -> (r: EmissionVisit)
        ensures
            r@ == self@,
    {
        EmissionVisit { node: owned(self.node.as_str()), depth: self.depth, from: owned(self.from.as_str()), state: self.state }
    }
}

pub open spec fn visit_views(q: Seq<EmissionVisit>) -> Seq<VisitView> {
    q.map_values(|v: EmissionVisit| v@)
}

pub open spec fn visit_nodes(q: Seq<VisitView>) -> Seq<Seq<char>> {
    q.map_values(|v: VisitView| v.node)
}

/// The children not seen before, each once, in the order given.
pub open spec fn fresh_children(seen: Seq<Seq<char>>, children: Seq<Seq<char>>) -> Seq<Seq<char>>
    decreases children.len(),
{
    if children.len() == 0 {
        seq![]
    } else {
        let p = fresh_children(seen, children.drop_last());
        let c = children.last();
        if seen.contains(c) || p.contains(c) { p } else { p.push(c) }
    }
}

/// The visits queued for fresh children.
pub open spec fn visits_to(fresh: Seq<Seq<char>>, depth: i64, from: Seq<char>, state: usize) -> Seq<VisitView> {
    fresh.map_values(|c: Seq<char>| VisitView { node: c, depth, from, state })
}

/// The position of the first queued visit from `from` on that lies within
/// the depth, or the queue's length when none does.
pub open spec fn first_due(q: Seq<VisitView>, from: int, max_depth: i64) -> int
    decreases q.len() - from,
{
    if from < 0 || from >= q.len() {
        q.len() as int
    } else if q[from].depth <= max_depth {
        from
    } else {
        first_due(q, from + 1, max_depth)
    }
}

/// A downward emission in progress.
pub struct EmissionWalk {
    root: String,
    max_depth: i64,
    queue: Vec<EmissionVisit>,
    head: usize,
    visited: Vec<String>,
}

proof fn lemma_concat_contains(a: Seq<Seq<char>>, b: Seq<Seq<char>>, x: Seq<char>)
    ensures
        (a + b).contains(x) <==> (a.contains(x) || b.contains(x)),
{
    if a.contains(x) {
        let i = choose|i: int| 0 <= i < a.len() && a[i] == x;
        assert((a + b)[i] == x);
    }
    if b.contains(x) {
        let i = choose|i: int| 0 <= i < b.len() && b[i] == x;
        assert((a + b)[a.len() + i] == x);
    }
    if (a + b).contains(x) {
        let i = choose|i: int| 0 <= i < (a + b).len() && (a + b)[i] == x;
        if i < a.len() {
            assert(a[i] == x);
        } else {
            assert(b[i - a.len()] == x);
        }
    }
}

proof fn lemma_push_distinct(s: Seq<Seq<char>>, x: Seq<char>)
    requires
        s.no_duplicates(),
        !s.contains(x),
    ensures
        s.push(x).no_duplicates(),
{
    let t = s.push(x);
    assert forall|i: int, j: int| 0 <= i < t.len() && 0 <= j < t.len() && i != j implies t[i] != t[j] by {
        if i < s.len() && j < s.len() {
            assert(t[i] == s[i] && t[j] == s[j]);
        } else if i < s.len() {
            assert(t[i] == s[i] && t[j] == x);
        } else {
            assert(t[j] == s[j] && t[i] == x);
        }
    }
}

impl EmissionWalk {
    /// The node the emission starts from.
    pub closed spec fn root_view(&self) -> Seq<char> {
        self.root@
    }

    /// The deepest level that receives drive.
    pub closed spec fn max_depth_view(&self) -> i64 {
        self.max_depth
    }

    /// Every visit queued so far, in order.
    pub closed spec fn queue_view(&self) -> Seq<VisitView> {
        visit_views(self.queue@)
    }

    /// How many queued visits have been taken.
    pub closed spec fn taken(&self) -> nat {
        self.head as nat
    }

    /// The nodes seen so far: the root, then each queued node.
    pub closed spec fn seen(&self) -> Seq<Seq<char>> {
        string_views(self.visited@)
    }

    /// The walk's own bookkeeping holds.
    pub closed spec fn wf(&self) -> bool {
        &&& self.head <= self.queue@.len()
        &&& self.seen() == seq![self.root@] + visit_nodes(self.queue_view())
        &&& self.seen().no_duplicates()
        &&& forall|k: int| 0 <= k < self.queue@.len() ==> #[trigger] self.queue_view()[k].depth >= 1
    }

    fn enqueue(&mut self, children: &Vec<String>, depth: i64, from: &str, state: usize)
        requires
            old(self).wf(),
            depth >= 1,
        ensures
            final(self).wf(),
            final(self).root_view() == old(self).root_view(),
            final(self).max_depth_view() == old(self).max_depth_view(),
            final(self).taken() == old(self).taken(),
            final(self).queue_view() == old(self).queue_view()
                + visits_to(fresh_children(old(self).seen(), string_views(children@)), depth, from@, state),
    {
        let ghost q0 = self.queue_view();
        let ghost v0 = self.seen();
        let ghost cv = string_views(children@);
        let mut i: usize = 0;
        assert(cv.take(0) =~= Seq::<Seq<char>>::empty());
        assert(q0 + visits_to(fresh_children(v0, cv.take(0)), depth, from@, state) =~= q0);
        assert(v0 + fresh_children(v0, cv.take(0)) =~= v0);
        while i < children.len()
            invariant
                cv == string_views(children@),
                i <= children@.len(),
                depth >= 1,
                self.wf(),
                self.root == old(self).root,
                self.max_depth == old(self).max_depth,
                self.head == old(self).head,
                self.queue_view() == q0 + visits_to(fresh_children(v0, cv.take(i as int)), depth, from@, state),
                self.seen() == v0 + fresh_children(v0, cv.take(i as int)),
            decreases children.len() - i,
        {
            let ghost f = fresh_children(v0, cv.take(i as int));
            assert(cv.take(i + 1).drop_last() =~= cv.take(i as int));
            assert(cv.take(i + 1).last() == cv[i as int]);
            let c = children[i].as_str();
            assert(cv[i as int] == c@);
            proof {
                lemma_concat_contains(v0, f, c@);
            }
            if !contains_string(&self.visited, c) {
                let ghost sv = self.seen();
                let ghost qv = self.queue_view();
                self.visited.push(owned(c));
                self.queue.push(EmissionVisit { node: owned(c), depth, from: owned(from), state });
                proof {
                    assert(self.seen() =~= sv.push(c@));
                    lemma_push_distinct(sv, c@);
                    assert(self.queue_view() =~= qv.push(VisitView { node: c@, depth, from: from@, state }));
                    assert(visit_nodes(self.queue_view()) =~= visit_nodes(qv).push(c@));
                    assert(self.seen() =~= seq![self.root@] + visit_nodes(self.queue_view()));
                    assert(fresh_children(v0, cv.take(i + 1)) == f.push(c@));
                    assert(visits_to(f.push(c@), depth, from@, state) =~= visits_to(f, depth, from@, state).push(
                        VisitView { node: c@, depth, from: from@, state }));
                    assert(self.queue_view() =~= q0 + visits_to(f.push(c@), depth, from@, state));
                    assert(self.seen() =~= v0 + f.push(c@));
                    assert forall|k: int| 0 <= k < self.queue@.len() implies #[trigger] self.queue_view()[k].depth >= 1 by {
                        if k < qv.len() {
                            assert(self.queue_view()[k] == qv[k]);
                        }
                    }
                }
            } else {
                assert(fresh_children(v0, cv.take(i + 1)) == f);
            }
            i = i + 1;
        }
        assert(cv.take(children.len() as int) =~= cv);
    }

    /// Start an emission from `root` whose children are `children`: each
    /// child not seen before is queued once, at depth 1, from the root,
    /// with state 0 (the root's own).
    pub fn start(root: &str, max_depth: i64, children: Vec<String>) -> (w: EmissionWalk)
        ensures
            w.wf(),
            w.root_view() == root@,
            w.max_depth_view() == max_depth,
            w.taken() == 0,
            w.queue_view() == visits_to(fresh_children(seq![root@], string_views(children@)), 1, root@, 0),
    {
        let mut visited: Vec<String> = Vec::new();
        visited.push(owned(root));
        let mut w = EmissionWalk { root: owned(root), max_depth, queue: Vec::new(), head: 0, visited };
        proof {
            assert(w.seen() =~= seq![root@]);
            assert(visit_nodes(w.queue_view()) =~= Seq::<Seq<char>>::empty());
            assert(w.seen() =~= seq![w.root@] + visit_nodes(w.queue_view()));
            assert(w.queue_view() =~= Seq::<VisitView>::empty());
        }
        w.enqueue(&children, 1, root, 0);
        proof {
            assert(w.queue_view() =~= visits_to(fresh_children(seq![root@], string_views(children@)), 1, root@, 0));
        }
        w
    }

    /// The next node to receive drive: the first queued visit not taken yet
    /// that lies within the maximum depth; visits below it are passed over.
    /// `None` once every queued visit has been taken.
    pub fn next(&mut self) -> (r: Option<EmissionVisit>)
        requires
            old(self).wf(),
        ensures
            final(self).wf(),
            final(self).root_view() == old(self).root_view(),
            final(self).max_depth_view() == old(self).max_depth_view(),
            final(self).queue_view() == old(self).queue_view(),
            ({
                let q = old(self).queue_view();
                let k = first_due(q, old(self).taken() as int, old(self).max_depth_view());
                match r {
                    Some(v) => k < q.len() && v@ == q[k] && final(self).taken() == k + 1,
                    None => k == q.len() && final(self).taken() == q.len(),
                }
            }),
            r matches Some(v) ==> 1 <= v.depth <= old(self).max_depth_view()
                && v@.node != old(self).root_view()
                && forall|j: int| 0 <= j < old(self).taken() ==> #[trigger] old(self).queue_view()[j].node != v@.node,
    {
        let ghost q = self.queue_view();
        let ghost h0 = self.head as int;
        while self.head < self.queue.len() && self.queue[self.head].depth > self.max_depth
            invariant
                self.wf(),
                self.root == old(self).root,
                self.max_depth == old(self).max_depth,
                self.queue_view() == q,
                q == old(self).queue_view(),
                h0 == old(self).head,
                h0 <= self.head <= q.len(),
                first_due(q, h0, self.max_depth) == first_due(q, self.head as int, self.max_depth),
            decreases self.queue@.len() - self.head,
        {
            assert(q[self.head as int].depth > self.max_depth);
            self.head = self.head + 1;
        }
        if self.head < self.queue.len() {
            let k = self.head;
            assert(q[k as int] == self.queue@[k as int]@);
            let v = self.queue[k].copy();
            self.head = k + 1;
            proof {
                assert(q[k as int].depth >= 1);
                let ns = visit_nodes(q);
                let s = seq![self.root@] + ns;
                assert(s[k + 1] == v@.node);
                assert(s[0] == self.root@);
                assert forall|j: int| 0 <= j < h0 implies #[trigger] q[j].node != v@.node by {
                    assert(s[j + 1] == q[j].node);
                }
            }
            Some(v)
        } else {
            None
        }
    }

    /// Queue the children of a node reached at `depth`: each child not seen
    /// before, once, at the next depth, from that node, with `state`.
    pub fn expand(&mut self, from: &str, depth: i64, children: Vec<String>, state: usize)
        requires
            old(self).wf(),
            0 <= depth < i64::MAX,
        ensures
            final(self).wf(),
            final(self).root_view() == old(self).root_view(),
            final(self).max_depth_view() == old(self).max_depth_view(),
            final(self).taken() == old(self).taken(),
            final(self).queue_view() == old(self).queue_view()
                + visits_to(fresh_children(old(self).seen(), string_views(children@)), (depth + 1) as i64, from@, state),
    {
        self.enqueue(&children, depth + 1, from, state);
    }
}

/// No node receives drive twice and the root never does: every queued
/// node is distinct from the others and from the root.
pub proof fn lemma_reached_once(w: EmissionWalk)
    requires
        w.wf(),
    ensures
        forall|i: int, j: int| 0 <= i < j < w.queue_view().len() ==> w.queue_view()[i].node != w.queue_view()[j].node,
        forall|i: int| 0 <= i < w.queue_view().len() ==> #[trigger] w.queue_view()[i].node != w.root_view(),
{
    let q = w.queue_view();
    let s = seq![w.root@] + visit_nodes(q);
    assert forall|i: int, j: int| 0 <= i < j < q.len() implies q[i].node != q[j].node by {
        assert(s[i + 1] == q[i].node && s[j + 1] == q[j].node);
    }
    assert forall|i: int| 0 <= i < q.len() implies #[trigger] q[i].node != w.root_view() by {
        assert(s[i + 1] == q[i].node && s[0] == w.root@);
    }
}

} // verus!
