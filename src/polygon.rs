use vstd::prelude::*;
use crate::outline::{
    arc_labels, cleared, label_allowed, lemma_arc_wf, lemma_insert_wf, lemma_label_wf,
    lemma_remove_wf, lemma_same_structure_refl, lemma_same_structure_trans,
    lemma_same_structure_wf, lemma_update_wf, next_index, outline_wf, prev_index, same_kind,
    same_structure, vertex_ok,
};
use crate::path::{arc_frame, path_of, EdgePath};
use crate::rules::{
    all_satisfied, backward_edge, drag_rule_of, forward_edge, one_pass, pass_step, pass_trace,
    resolution, some_violated, step, sweep_edge, MAX_RESOLVING_ITERS, drag_total, dragged_outline, fixed_outline, kernel_total,
    reports, rule_of, satisfied, settled, settled_rule, DragFix, DragRule, EdgeFix, EdgeRule,
    Joint,
};
use crate::vertex::{
    plain_vertex, with_position, CircleArc, CubicBezier, EdgeConstraint, Vertex,
    VertexConstraint,
};

verus! {


/// A closed outline of vertices; edge `i` runs from vertex `i` to vertex
/// `(i + 1) mod n`.
#[derive(Debug)]
pub struct Polygon<P, L> {
    vertices: Vec<Vertex<P, L>>,
}

/// Tells whether `vs` is a valid closed outline.
pub fn outline_is_valid<P: Copy, L: Copy>(vs: &Vec<Vertex<P, L>>) -> (r: bool)
    ensures
        r == outline_wf(vs@),
{
    let n = vs.len();
    if n < 3 {
        return false;
    }
    let mut i: usize = 0;
    while i < n
        invariant
            n == vs@.len(),
            n >= 3,
            i <= n,
            forall|j: int| 0 <= j < i ==> #[trigger] vertex_ok(vs@, j),
        decreases n - i,
    {
        let v = vs[i];
        let next: usize = if i + 1 == n {
            0
        } else {
            i + 1
        };
        let single = (v.bezier.is_none() || (v.arc.is_none() && v.edge_c.is_none())) && (
        v.arc.is_none() || v.edge_c.is_none());
        let w = vs[next].vertex_c;
        let ends = v.arc.is_none() || (v.vertex_c != VertexConstraint::C1 && w
            != VertexConstraint::C1 && !(v.vertex_c == VertexConstraint::G1 && w
            == VertexConstraint::G1));
        if !(single && ends) {
            assert(!vertex_ok(vs@, i as int));
            return false;
        }
        i += 1;
    }
    true
}

impl<P: Copy, L: Copy> Polygon<P, L> {
    pub closed spec fn view(&self) -> Seq<Vertex<P, L>> {
        self.vertices@
    }

    /// The polygon is a valid closed outline.
    pub closed spec fn wf(&self) -> bool {
        outline_wf(self.vertices@)
    }

    /// A polygon is a valid closed outline; in particular it never has fewer
    /// than three vertices.
    pub proof fn lemma_closure(&self)
        requires
            self.wf(),
        ensures
            outline_wf(self@),
            self@.len() >= 3,
    {
    }

    /// The polygon with the given vertices, if they form a valid closed outline.
    pub fn new(vertices: Vec<Vertex<P, L>>) -> (r: Option<Self>)
        ensures
            r is Some <==> outline_wf(vertices@),
            r matches Some(p) ==> p.wf() && p@ == vertices@,
    {
        if outline_is_valid(&vertices) {
            Some(Polygon { vertices })
        } else {
            None
        }
    }

    pub fn vertices(&self) -> (r: &Vec<Vertex<P, L>>)
        ensures
            r@ == self@,
    {
        &self.vertices
    }

    pub fn len(&self) -> (r: usize)
        ensures
            r == self@.len(),
    {
        self.vertices.len()
    }

    pub fn next_i(&self, i: usize) -> (r: usize)
        requires
            self.wf(),
            i < self@.len(),
        ensures
            r == next_index(self@.len() as int, i as int),
            r < self@.len(),
    {
        let n = self.vertices.len();
        if i + 1 == n {
            0
        } else {
            i + 1
        }
    }

    pub fn prev_i(&self, i: usize) -> (r: usize)
        requires
            self.wf(),
            i < self@.len(),
        ensures
            r == prev_index(self@.len() as int, i as int),
            r < self@.len(),
    {
        if i == 0 {
            self.vertices.len() - 1
        } else {
            i - 1
        }
    }

    /// Edge `v_i` is a Bézier segment (false for an index out of range).
    pub fn is_bezier_start(&self, v_i: usize) -> (r: bool)
        ensures
            r == (v_i < self@.len() && self@[v_i as int].bezier is Some),
    {
        v_i < self.vertices.len() && self.vertices[v_i].bezier.is_some()
    }

    /// Edge `v_i` is a circular arc (false for an index out of range).
    pub fn is_arc_start(&self, v_i: usize) -> (r: bool)
        ensures
            r == (v_i < self@.len() && self@[v_i as int].arc is Some),
    {
        v_i < self.vertices.len() && self.vertices[v_i].arc.is_some()
    }

    /// The edge that ends at `v_i` is a circular arc.
    pub fn is_arc_end(&self, v_i: usize) -> (r: bool)
        requires
            self.wf(),
            v_i < self@.len(),
        ensures
            r == (self@[prev_index(self@.len() as int, v_i as int)].arc is Some),
    {
        let prev_i = self.prev_i(v_i);
        self.vertices[prev_i].arc.is_some()
    }

    /// The edge that ends at `v_i` is a Bézier segment.
    pub fn is_bezier_end(&self, v_i: usize) -> (r: bool)
        requires
            self.wf(),
            v_i < self@.len(),
        ensures
            r == (self@[prev_index(self@.len() as int, v_i as int)].bezier is Some),
    {
        let prev_i = self.prev_i(v_i);
        self.vertices[prev_i].bezier.is_some()
    }

    /// A curve starts or ends at `v_i`, so that its continuity matters.
    pub fn is_curve_joint(&self, v_i: usize) -> (r: bool)
        requires
            self.wf(),
            v_i < self@.len(),
        ensures
            r == (self@[v_i as int].bezier is Some || self@[v_i as int].arc is Some
                || self@[prev_index(self@.len() as int, v_i as int)].bezier is Some
                || self@[prev_index(self@.len() as int, v_i as int)].arc is Some),
    {
        self.is_bezier_start(v_i) || self.is_arc_start(v_i) || self.is_bezier_end(v_i)
            || self.is_arc_end(v_i)
    }

    /// The edge before or the edge after edge `e_i` is vertical.
    pub fn has_vertical_neighbor(&self, e_i: usize) -> (r: bool)
        requires
            self.wf(),
            e_i < self@.len(),
        ensures
            r == (self@[prev_index(self@.len() as int, e_i as int)].edge_c matches Some(
                EdgeConstraint::Vertical,
            ) || self@[next_index(self@.len() as int, e_i as int)].edge_c matches Some(
                EdgeConstraint::Vertical,
            )),
    {
        let prev_i = self.prev_i(e_i);
        let next_i = self.next_i(e_i);
        matches!(self.vertices[prev_i].edge_c, Some(EdgeConstraint::Vertical))
            || matches!(self.vertices[next_i].edge_c, Some(EdgeConstraint::Vertical))
    }

    /// The geometry of edge `i`, for drawing it and for hit-testing.
    pub fn edge_path(&self, i: usize) -> (r: EdgePath<P>)
        requires
            self.wf(),
            i < self@.len(),
        ensures
            r == path_of(self@, i as int),
    {
        let next_i = self.next_i(i);
        let v = self.vertices[i];
        let w = self.vertices[next_i];
        match v.bezier {
            Some(b) => EdgePath::Bezier { from: v.p, to: w.p, control: b.control },
            None => if v.arc.is_some() {
                let prev = self.vertices[self.prev_i(i)];
                let next = self.vertices[self.next_i(next_i)];
                EdgePath::Arc { from: v.p, to: w.p, frame: arc_frame(v, w, prev, next) }
            } else {
                EdgePath::Straight { from: v.p, to: w.p }
            },
        }
    }

    /// The rule of edge `i`: what its constraint depends on.
    pub fn edge_rule(&self, i: usize) -> (r: EdgeRule<P, L>)
        requires
            self.wf(),
            i < self@.len(),
        ensures
            r == rule_of(self@, i as int),
    {
        let v = self.vertices[i];
        let next_i = self.next_i(i);
        let next = self.vertices[next_i];
        match v.bezier {
            Some(b) => {
                let prev = self.vertices[self.prev_i(i)];
                let start = match prev.bezier {
                    Some(pb) => Joint::Curves {
                        incoming: pb.control[1],
                        outgoing: b.control[0],
                        joint: v.p,
                        continuity: v.vertex_c,
                    },
                    None => Joint::Line {
                        far: prev.p,
                        joint: v.p,
                        control: b.control[0],
                        continuity: v.vertex_c,
                    },
                };
                let end = match next.bezier {
                    Some(nb) => Joint::Curves {
                        incoming: b.control[1],
                        outgoing: nb.control[0],
                        joint: next.p,
                        continuity: next.vertex_c,
                    },
                    None => Joint::Line {
                        far: self.vertices[self.next_i(next_i)].p,
                        joint: next.p,
                        control: b.control[1],
                        continuity: next.vertex_c,
                    },
                };
                EdgeRule::Curve { start, end }
            },
            None => match v.edge_c {
                Some(kind) => EdgeRule::Shape { kind, fixed: v.p, free: next.p },
                None => EdgeRule::Free,
            },
        }
    }

    /// Whether the constraint of edge `v_i` holds, as `check` judges it; an
    /// edge without a constraint always holds.
    pub fn check_constraint<H: Fn(EdgeRule<P, L>) -> bool>(&self, v_i: usize, check: &H) -> (r:
        bool)
        requires
            self.wf(),
            v_i < self@.len(),
            forall|rule: EdgeRule<P, L>| call_requires(*check, (rule,)),
        ensures
            reports(*check, rule_of(self@, v_i as int), r),
    {
        let rule = self.edge_rule(v_i);
        match rule {
            EdgeRule::Free => true,
            _ => check(rule),
        }
    }

    /// Corrects edge `v_i` with the kernel's answer `fix`: the free end of a
    /// shaped edge moves, or the control points of a curve; nothing else.
    pub fn apply_constraint<F: Fn(EdgeRule<P, L>) -> EdgeFix<P>>(&mut self, v_i: usize, fix: &F)
        requires
            old(self).wf(),
            v_i < old(self)@.len(),
            forall|rule: EdgeRule<P, L>| call_requires(*fix, (rule,)),
        ensures
            final(self).wf(),
            same_structure(old(self)@, final(self)@),
            rule_of(old(self)@, v_i as int) is Free ==> final(self)@ == old(self)@,
            !(rule_of(old(self)@, v_i as int) is Free) ==> exists|f: EdgeFix<P>|
                call_ensures(*fix, (rule_of(old(self)@, v_i as int),), f) && final(self)@
                    == fixed_outline(old(self)@, v_i as int, f),
    {
        let ghost old_vs = self@;
        let rule = self.edge_rule(v_i);
        if let EdgeRule::Free = rule {
            proof {
                lemma_same_structure_refl(old_vs);
            }
            return;
        }
        let f = fix(rule);
        let next_i = self.next_i(v_i);
        match (rule, f) {
            (EdgeRule::Shape { .. }, EdgeFix::Free(q)) => {
                let mut w = self.vertices[next_i];
                w.p = q;
                self.vertices.set(next_i, w);
            },
            (EdgeRule::Curve { .. }, EdgeFix::Controls(c)) => {
                let mut w = self.vertices[v_i];
                if w.bezier.is_some() {
                    w.bezier = Some(CubicBezier { control: c });
                }
                self.vertices.set(v_i, w);
            },
            _ => {},
        }
        proof {
            assert(self@ == fixed_outline(old_vs, v_i as int, f));
            assert forall|j: int| 0 <= j < old_vs.len() implies #[trigger] same_kind(
                old_vs[j],
                self@[j],
            ) by {}
            lemma_same_structure_wf(old_vs, self@);
        }
    }
    /// Whether every edge holds, as `check` judges it.
    pub fn check_all<H: Fn(EdgeRule<P, L>) -> bool>(&self, check: &H) -> (r: bool)
        requires
            self.wf(),
            forall|rule: EdgeRule<P, L>| call_requires(*check, (rule,)),
        ensures
            r ==> all_satisfied(*check, self@),
            !r ==> some_violated(*check, self@),
            settled(*check, self@) ==> r,
    {
        let n = self.vertices.len();
        let mut i: usize = 0;
        while i < n
            invariant
                self.wf(),
                n == self@.len(),
                i <= n,
                forall|rule: EdgeRule<P, L>| call_requires(*check, (rule,)),
                forall|j: int| 0 <= j < i ==> #[trigger] satisfied(*check, rule_of(self@, j)),
            decreases n - i,
        {
            let ok = self.check_constraint(i, check);
            if !ok {
                proof {
                    assert(reports(*check, rule_of(self@, i as int), false));
                    if settled(*check, self@) {
                        assert(settled_rule(*check, rule_of(self@, i as int)));
                    }
                }
                return false;
            }
            i += 1;
        }
        true
    }

    /// One pass from `start`: every edge once from `start` onwards, then every
    /// edge once from the one before `start` backwards, correcting each one
    /// that is reported violated. Returns the outlines along the way.
    fn pass<H: Fn(EdgeRule<P, L>) -> bool, F: Fn(EdgeRule<P, L>) -> EdgeFix<P>>(
        &mut self,
        start: usize,
        check: &H,
        fix: &F,
    ) -> (trace: Ghost<Seq<Seq<Vertex<P, L>>>>)
        requires
            old(self).wf(),
            start < old(self)@.len(),
            kernel_total(*check, *fix),
        ensures
            final(self).wf(),
            same_structure(old(self)@, final(self)@),
            pass_trace(*check, *fix, start as int, old(self)@, trace@),
            trace@.last() == final(self)@,
            settled(*check, old(self)@) ==> final(self)@ == old(self)@,
    {
        let ghost old_vs = self@;
        proof {
            lemma_same_structure_refl(old_vs);
        }
        let n = self.vertices.len();
        let ghost ni = n as int;
        let ghost mut trace: Seq<Seq<Vertex<P, L>>> = seq![old_vs];
        let mut cur = start;
        let mut k: usize = 0;
        while k < n
            invariant
                self.wf(),
                n == self@.len(),
                ni == n,
                cur < n,
                k <= n,
                cur == forward_edge(ni, start as int, k as nat),
                kernel_total(*check, *fix),
                same_structure(old_vs, self@),
                settled(*check, old_vs) ==> self@ == old_vs,
                trace.len() == k + 1,
                trace[0] == old_vs,
                trace.last() == self@,
                forall|j: int| 0 <= j < k ==> #[trigger] pass_step(*check, *fix, start as int, ni, trace, j),
            decreases n - k,
        {
            let ghost before = self@;
            self.visit(cur, check, fix);
            proof {
                lemma_same_structure_trans(old_vs, before, self@);
                let t2 = trace.push(self@);
                assert forall|j: int| 0 <= j < k + 1 implies #[trigger] pass_step(
                    *check,
                    *fix,
                    start as int,
                    ni,
                    t2,
                    j,
                ) by {
                    if j < k {
                        assert(pass_step(*check, *fix, start as int, ni, trace, j));
                        assert(t2[j] == trace[j] && t2[j + 1] == trace[j + 1]);
                    } else {
                        assert(t2[j] == before && t2[j + 1] == self@);
                    }
                }
                trace = t2;
            }
            cur = self.next_i(cur);
            k += 1;
        }
        cur = start;
        let mut j: usize = 0;
        while j < n
            invariant
                self.wf(),
                n == self@.len(),
                ni == n,
                cur < n,
                j <= n,
                j == 0 ==> cur == start,
                j > 0 ==> cur == backward_edge(ni, start as int, (j - 1) as nat),
                kernel_total(*check, *fix),
                same_structure(old_vs, self@),
                settled(*check, old_vs) ==> self@ == old_vs,
                trace.len() == n + j + 1,
                trace[0] == old_vs,
                trace.last() == self@,
                forall|i: int|
                    0 <= i < n + j ==> #[trigger] pass_step(*check, *fix, start as int, ni, trace, i),
            decreases n - j,
        {
            let e = self.prev_i(cur);
            let ghost before = self@;
            self.visit(e, check, fix);
            proof {
                lemma_same_structure_trans(old_vs, before, self@);
                let t2 = trace.push(self@);
                let k = n + j;
                assert(e == backward_edge(ni, start as int, j as nat));
                assert(e == sweep_edge(ni, start as int, k as int));
                assert forall|i: int| 0 <= i < k + 1 implies #[trigger] pass_step(
                    *check,
                    *fix,
                    start as int,
                    ni,
                    t2,
                    i,
                ) by {
                    if i < k {
                        assert(pass_step(*check, *fix, start as int, ni, trace, i));
                        assert(t2[i] == trace[i] && t2[i + 1] == trace[i + 1]);
                    } else {
                        assert(t2[i] == before && t2[i + 1] == self@);
                    }
                }
                trace = t2;
            }
            cur = e;
            j += 1;
        }
        Ghost(trace)
    }

    /// Checks edge `e` and corrects it when it is reported violated.
    fn visit<H: Fn(EdgeRule<P, L>) -> bool, F: Fn(EdgeRule<P, L>) -> EdgeFix<P>>(
        &mut self,
        e: usize,
        check: &H,
        fix: &F,
    )
        requires
            old(self).wf(),
            e < old(self)@.len(),
            kernel_total(*check, *fix),
        ensures
            final(self).wf(),
            same_structure(old(self)@, final(self)@),
            step(*check, *fix, old(self)@, e as int, final(self)@),
            settled_rule(*check, rule_of(old(self)@, e as int)) ==> final(self)@ == old(self)@,
    {
        let ok = self.check_constraint(e, check);
        if !ok {
            self.apply_constraint(e, fix);
        } else {
            proof {
                lemma_same_structure_refl(self@);
            }
        }
    }

    /// Propagates the constraints around the polygon starting at `start_i`:
    /// each pass sweeps forwards and then backwards, correcting the edges that
    /// are reported violated, and resolution succeeds as soon as every edge
    /// holds after a pass. It gives up after `MAX_RESOLVING_ITERS` passes.
    pub fn resolve_constraints<H: Fn(EdgeRule<P, L>) -> bool, F: Fn(EdgeRule<P, L>) -> EdgeFix<P>>(
        &mut self,
        start_i: usize,
        check: &H,
        fix: &F,
    ) -> (r: bool)
        requires
            old(self).wf(),
            start_i < old(self)@.len(),
            kernel_total(*check, *fix),
        ensures
            final(self).wf(),
            same_structure(old(self)@, final(self)@),
            exists|passes: Seq<Seq<Vertex<P, L>>>|
                #[trigger] resolution(*check, *fix, start_i as int, old(self)@, passes, r)
                    && final(self)@ == passes.last(),
            r ==> all_satisfied(*check, final(self)@),
            settled(*check, old(self)@) ==> r && final(self)@ == old(self)@,
    {
        let ghost old_vs = self@;
        let ghost st = start_i as int;
        proof {
            lemma_same_structure_refl(old_vs);
        }
        let ghost mut passes: Seq<Seq<Vertex<P, L>>> = seq![old_vs];
        let mut iter: usize = 0;
        while iter < MAX_RESOLVING_ITERS
            invariant
                old_vs == old(self)@,
                st == start_i,
                self.wf(),
                start_i < self@.len(),
                kernel_total(*check, *fix),
                same_structure(old_vs, self@),
                settled(*check, old_vs) ==> self@ == old_vs && iter == 0,
                iter <= MAX_RESOLVING_ITERS,
                passes.len() == iter + 1,
                passes[0] == old_vs,
                passes.last() == self@,
                forall|p: int| 0 <= p < iter ==> #[trigger] one_pass(*check, *fix, st, passes, p),
                forall|p: int| 1 <= p <= iter ==> #[trigger] some_violated(*check, passes[p]),
            decreases MAX_RESOLVING_ITERS - iter,
        {
            let ghost before = self@;
            let trace = self.pass(start_i, check, fix);
            let ok = self.check_all(check);
            proof {
                lemma_same_structure_trans(old_vs, before, self@);
                let p2 = passes.push(self@);
                assert forall|p: int| 0 <= p < iter + 1 implies #[trigger] one_pass(
                    *check,
                    *fix,
                    st,
                    p2,
                    p,
                ) by {
                    if p < iter {
                        assert(one_pass(*check, *fix, st, passes, p));
                        assert(p2[p] == passes[p] && p2[p + 1] == passes[p + 1]);
                    } else {
                        assert(p2[p] == before && p2[p + 1] == self@);
                        assert(pass_trace(*check, *fix, st, p2[p], trace@));
                    }
                }
                assert forall|p: int| 1 <= p <= iter implies #[trigger] some_violated(
                    *check,
                    p2[p],
                ) by {
                    assert(p2[p] == passes[p]);
                }
                passes = p2;
                if ok {
                    assert(resolution(*check, *fix, st, old_vs, passes, true));
                } else {
                    assert(some_violated(*check, passes[iter + 1]));
                }
            }
            if ok {
                return true;
            }
            iter += 1;
        }
        proof {
            assert(resolution(*check, *fix, st, old_vs, passes, false));
        }
        false
    }

    /// A copy of the vertex array.
    fn snapshot(&self) -> (r: Vec<Vertex<P, L>>)
        ensures
            r@ == self@,
    {
        let mut r: Vec<Vertex<P, L>> = Vec::new();
        let mut i: usize = 0;
        while i < self.vertices.len()
            invariant
                i <= self@.len(),
                r@ == self@.subrange(0, i as int),
            decreases self@.len() - i,
        {
            r.push(self.vertices[i]);
            i += 1;
        }
        assert(r@ =~= self@);
        r
    }

    /// Installs `vs`, which holds the same kinds of edges as the current
    /// outline, and resolves from `start_i`; when resolution fails, the
    /// outline `backup` is put back.
    fn commit_or_restore<H: Fn(EdgeRule<P, L>) -> bool, F: Fn(EdgeRule<P, L>) -> EdgeFix<P>>(
        &mut self,
        start_i: usize,
        backup: Vec<Vertex<P, L>>,
        check: &H,
        fix: &F,
    ) -> (r: bool)
        requires
            old(self).wf(),
            outline_wf(backup@),
            start_i < old(self)@.len(),
            kernel_total(*check, *fix),
        ensures
            final(self).wf(),
            r ==> same_structure(old(self)@, final(self)@) && all_satisfied(*check, final(self)@),
            !r ==> final(self)@ == backup@,
            exists|passes: Seq<Seq<Vertex<P, L>>>|
                #[trigger] resolution(*check, *fix, start_i as int, old(self)@, passes, r) && (r
                    ==> final(self)@ == passes.last()),
            settled(*check, old(self)@) ==> r && final(self)@ == old(self)@,
    {
        if self.resolve_constraints(start_i, check, fix) {
            true
        } else {
            self.vertices = backup;
            false
        }
    }

    /// Moves vertex `v_i` to `new_p` and resolves the constraints from there;
    /// when resolution fails the polygon is left exactly as it was.
    pub fn try_move_vertex<H: Fn(EdgeRule<P, L>) -> bool, F: Fn(EdgeRule<P, L>) -> EdgeFix<P>>(
        &mut self,
        v_i: usize,
        new_p: P,
        check: &H,
        fix: &F,
    ) -> (r: bool)
        requires
            old(self).wf(),
            v_i < old(self)@.len(),
            kernel_total(*check, *fix),
        ensures
            final(self).wf(),
            r ==> same_structure(old(self)@, final(self)@) && all_satisfied(*check, final(self)@),
            !r ==> final(self)@ == old(self)@,
            ({
                let moved = old(self)@.update(v_i as int, with_position(old(self)@[v_i as int], new_p));
                &&& exists|passes: Seq<Seq<Vertex<P, L>>>|
                    #[trigger] resolution(*check, *fix, v_i as int, moved, passes, r) && (r
                        ==> final(self)@ == passes.last())
                &&& settled(*check, moved) ==> r && final(self)@ == moved
            }),
    {
        let ghost old_vs = self@;
        let backup = self.snapshot();
        let mut w = self.vertices[v_i];
        w.p = new_p;
        self.vertices.set(v_i, w);
        proof {
            assert(vertex_ok(old_vs, v_i as int));
            lemma_update_wf(old_vs, v_i as int, w);
            assert forall|j: int| 0 <= j < old_vs.len() implies #[trigger] same_kind(
                old_vs[j],
                self@[j],
            ) by {}
        }
        let ghost moved = self@;
        let r = self.commit_or_restore(v_i, backup, check, fix);
        proof {
            if r {
                lemma_same_structure_trans(old_vs, moved, self@);
            }
        }
        r
    }

    /// Puts the shape constraint `kind` on edge `e_i`, in place of any curve
    /// or arc there, and resolves; when resolution fails the polygon is left
    /// exactly as it was.
    pub fn try_set_edge_constraint<
        H: Fn(EdgeRule<P, L>) -> bool,
        F: Fn(EdgeRule<P, L>) -> EdgeFix<P>,
    >(&mut self, e_i: usize, kind: EdgeConstraint<L>, check: &H, fix: &F) -> (r: bool)
        requires
            old(self).wf(),
            e_i < old(self)@.len(),
            kernel_total(*check, *fix),
        ensures
            final(self).wf(),
            ({
                let set = old(self)@.update(
                    e_i as int,
                    Vertex { edge_c: Some(kind), ..cleared(old(self)@[e_i as int]) },
                );
                &&& r ==> same_structure(set, final(self)@) && all_satisfied(*check, final(self)@)
                &&& exists|passes: Seq<Seq<Vertex<P, L>>>|
                    #[trigger] resolution(*check, *fix, e_i as int, set, passes, r) && (r
                        ==> final(self)@ == passes.last())
                &&& settled(*check, set) ==> r && final(self)@ == set
            }),
            !r ==> final(self)@ == old(self)@,
    {
        let ghost old_vs = self@;
        let backup = self.snapshot();
        let mut w = self.vertices[e_i];
        w.edge_c = Some(kind);
        w.bezier = None;
        w.arc = None;
        self.vertices.set(e_i, w);
        proof {
            lemma_update_wf(old_vs, e_i as int, w);
        }
        self.commit_or_restore(e_i, backup, check, fix)
    }

    /// Continuity `c` may be set at `v_i` without breaking the rules of the
    /// arcs there.
    pub fn label_allowed(&self, v_i: usize, c: VertexConstraint) -> (r: bool)
        requires
            self.wf(),
            v_i < self@.len(),
        ensures
            r == label_allowed(self@, v_i as int, c),
    {
        match c {
            VertexConstraint::G0 => {
                proof {
                    self.lemma_arc_ends(v_i as int);
                }
                true
            },
            VertexConstraint::G1 => self.can_be_g1(v_i),
            VertexConstraint::C1 => self.can_be_c1(v_i),
        }
    }

    proof fn lemma_arc_ends(&self, v: int)
        requires
            self.wf(),
            0 <= v < self@.len(),
        ensures
            self@[v].arc is Some ==> self@[next_index(self@.len() as int, v)].vertex_c
                != VertexConstraint::C1,
            self@[prev_index(self@.len() as int, v)].arc is Some ==> self@[prev_index(
                self@.len() as int,
                v,
            )].vertex_c != VertexConstraint::C1,
    {
        assert(vertex_ok(self@, v));
        assert(vertex_ok(self@, prev_index(self@.len() as int, v)));
    }

    /// `G1` may be set at `v_i`: every arc that starts or ends there has `G0`
    /// at its other end.
    pub fn can_be_g1(&self, v_i: usize) -> (r: bool)
        requires
            self.wf(),
            v_i < self@.len(),
        ensures
            r == label_allowed(self@, v_i as int, VertexConstraint::G1),
    {
        let next_i = self.next_i(v_i);
        let prev_i = self.prev_i(v_i);
        proof {
            self.lemma_arc_ends(v_i as int);
        }
        (!self.is_arc_start(v_i) || self.vertices[next_i].vertex_c == VertexConstraint::G0) && (
        !self.is_arc_end(v_i) || self.vertices[prev_i].vertex_c == VertexConstraint::G0)
    }

    /// `C1` may be set at `v_i`: no arc starts or ends there.
    pub fn can_be_c1(&self, v_i: usize) -> (r: bool)
        requires
            self.wf(),
            v_i < self@.len(),
        ensures
            r == label_allowed(self@, v_i as int, VertexConstraint::C1),
    {
        !(self.is_arc_start(v_i) || self.is_arc_end(v_i))
    }

    /// Sets continuity `c` at vertex `v_i` and resolves. A continuity that the
    /// arcs at `v_i` do not admit is refused; when resolution fails the
    /// polygon is left exactly as it was.
    pub fn try_set_vertex_constraint<
        H: Fn(EdgeRule<P, L>) -> bool,
        F: Fn(EdgeRule<P, L>) -> EdgeFix<P>,
    >(&mut self, v_i: usize, c: VertexConstraint, check: &H, fix: &F) -> (r: bool)
        requires
            old(self).wf(),
            v_i < old(self)@.len(),
            kernel_total(*check, *fix),
        ensures
            final(self).wf(),
            ({
                let set = old(self)@.update(v_i as int, Vertex { vertex_c: c, ..old(self)@[v_i as int] });
                &&& r ==> label_allowed(old(self)@, v_i as int, c) && same_structure(set, final(self)@)
                    && all_satisfied(*check, final(self)@)
                &&& label_allowed(old(self)@, v_i as int, c) ==> exists|
                    passes: Seq<Seq<Vertex<P, L>>>,
                |
                    #[trigger] resolution(*check, *fix, v_i as int, set, passes, r) && (r
                        ==> final(self)@ == passes.last())
                &&& label_allowed(old(self)@, v_i as int, c) && settled(*check, set) ==> r
                    && final(self)@ == set
            }),
            !r ==> final(self)@ == old(self)@,
    {
        if !self.label_allowed(v_i, c) {
            return false;
        }
        let ghost old_vs = self@;
        let backup = self.snapshot();
        let mut w = self.vertices[v_i];
        w.vertex_c = c;
        self.vertices.set(v_i, w);
        proof {
            lemma_label_wf(old_vs, v_i as int, c);
        }
        self.commit_or_restore(v_i, backup, check, fix)
    }

    /// Removes vertex `v_i`, first clearing the curve, arc or shape
    /// constraint of the edge that led into it, and then resolves from the
    /// vertex that took its place. A triangle is left alone.
    pub fn remove_vertex<H: Fn(EdgeRule<P, L>) -> bool, F: Fn(EdgeRule<P, L>) -> EdgeFix<P>>(
        &mut self,
        v_i: usize,
        check: &H,
        fix: &F,
    ) -> (r: bool)
        requires
            old(self).wf(),
            v_i < old(self)@.len(),
            kernel_total(*check, *fix),
        ensures
            final(self).wf(),
            r == (old(self)@.len() > 3),
            !r ==> final(self)@ == old(self)@,
            r ==> ({
                let pv = prev_index(old(self)@.len() as int, v_i as int);
                let removed = old(self)@.update(pv, cleared(old(self)@[pv])).remove(v_i as int);
                let at = removal_anchor(old(self)@.len() as int, v_i as int);
                &&& exists|passes: Seq<Seq<Vertex<P, L>>>, ok: bool|
                    #[trigger] resolution(*check, *fix, at, removed, passes, ok) && (ok
                        ==> final(self)@ == passes.last()) && (!ok ==> final(self)@ == removed)
                &&& final(self)@ == removed || (same_structure(removed, final(self)@)
                    && all_satisfied(*check, final(self)@))
                &&& settled(*check, removed) ==> final(self)@ == removed
            }),
    {
        let n = self.vertices.len();
        if n == 3 {
            return false;
        }
        let ghost old_vs = self@;
        let prev_i = self.prev_i(v_i);
        let mut w = self.vertices[prev_i];
        w.edge_c = None;
        w.bezier = None;
        w.arc = None;
        self.vertices.set(prev_i, w);
        self.vertices.remove(v_i);
        proof {
            lemma_remove_wf(old_vs, v_i as int);
        }
        let at = if v_i == self.vertices.len() {
            0
        } else {
            v_i
        };
        let p = self.vertices[at].p;
        let ghost removed = self@;
        proof {
            assert(removed.update(at as int, with_position(removed[at as int], p)) =~= removed);
        }
        let ok = self.try_move_vertex(at, p, check, fix);
        proof {
            assert(at as int == removal_anchor(n as int, v_i as int));
            let passes = choose|passes: Seq<Seq<Vertex<P, L>>>|
                #[trigger] resolution(*check, *fix, at as int, removed, passes, ok) && (ok
                    ==> self@ == passes.last());
            assert(resolution(*check, *fix, at as int, removed, passes, ok));
        }
        true
    }

    /// Splits edge `e_i` in two at the point `midpoint` gives for its ends;
    /// the curve, arc or shape constraint of the edge is dropped first.
    pub fn subdivide_edge<M: Fn(P, P) -> P>(&mut self, e_i: usize, midpoint: &M)
        requires
            old(self).wf(),
            e_i < old(self)@.len(),
            forall|a: P, b: P| call_requires(*midpoint, (a, b)),
        ensures
            final(self).wf(),
            ({
                let n = old(self)@.len() as int;
                let k = next_index(n, e_i as int);
                let m = final(self)@[k].p;
                &&& call_ensures(*midpoint, (old(self)@[e_i as int].p, old(self)@[k].p), m)
                &&& final(self)@ == old(self)@.update(e_i as int, cleared(old(self)@[e_i as int])).insert(
                    k,
                    plain_vertex(m),
                )
            }),
    {
        let ghost old_vs = self@;
        let next_i = self.next_i(e_i);
        let m = midpoint(self.vertices[e_i].p, self.vertices[next_i].p);
        let mut w = self.vertices[e_i];
        w.edge_c = None;
        w.bezier = None;
        w.arc = None;
        self.vertices.set(e_i, w);
        let v = Vertex::new(m);
        self.vertices.insert(next_i, v);
        proof {
            lemma_insert_wf(old_vs, e_i as int, v);
        }
    }

    /// Makes edge `e_i` a Bézier segment, in place of any arc or shape
    /// constraint there. Each control point is what `handle` gives for the
    /// straight edge leading into that end: `handle(prev, e_i)` and
    /// `handle(next of next, next)`.
    pub fn init_bezier<G: Fn(P, P) -> P>(&mut self, e_i: usize, handle: &G)
        requires
            old(self).wf(),
            e_i < old(self)@.len(),
            forall|a: P, b: P| call_requires(*handle, (a, b)),
        ensures
            final(self).wf(),
            ({
                let vs = old(self)@;
                let n = vs.len() as int;
                let e = e_i as int;
                let nx = next_index(n, e);
                let c = final(self)@[e].bezier.unwrap().control;
                &&& final(self)@ == vs.update(
                    e,
                    Vertex { bezier: Some(CubicBezier { control: c }), ..cleared(vs[e]) },
                )
                &&& call_ensures(*handle, (vs[prev_index(n, e)].p, vs[e].p), c[0])
                &&& call_ensures(*handle, (vs[next_index(n, nx)].p, vs[nx].p), c[1])
            }),
    {
        let ghost old_vs = self@;
        let prev_i = self.prev_i(e_i);
        let next_i = self.next_i(e_i);
        let nn_i = self.next_i(next_i);
        let c0 = handle(self.vertices[prev_i].p, self.vertices[e_i].p);
        let c1 = handle(self.vertices[nn_i].p, self.vertices[next_i].p);
        let mut w = self.vertices[e_i];
        w.bezier = Some(CubicBezier::new([c0, c1]));
        w.arc = None;
        w.edge_c = None;
        self.vertices.set(e_i, w);
        proof {
            lemma_update_wf(old_vs, e_i as int, w);
        }
    }

    /// Makes edge `e_i` a circular arc, in place of any curve or shape
    /// constraint there, and lowers the continuity at its ends to a pair that
    /// an arc admits (see [`arc_labels`]).
    pub fn make_arc(&mut self, e_i: usize)
        requires
            old(self).wf(),
            e_i < old(self)@.len(),
        ensures
            final(self).wf(),
            ({
                let vs = old(self)@;
                let e = e_i as int;
                let nx = next_index(vs.len() as int, e);
                let l = arc_labels(vs[e].vertex_c, vs[nx].vertex_c);
                let vs1 = vs.update(e, Vertex { arc: Some(CircleArc), vertex_c: l.0, ..cleared(vs[e]) });
                final(self)@ == vs1.update(nx, Vertex { vertex_c: l.1, ..vs1[nx] })
            }),
    {
        let ghost old_vs = self@;
        let next_i = self.next_i(e_i);
        let a = self.vertices[e_i].vertex_c;
        let b = self.vertices[next_i].vertex_c;
        let (la, lb) = if a != VertexConstraint::G0 {
            (VertexConstraint::G1, VertexConstraint::G0)
        } else if b != VertexConstraint::G0 {
            (VertexConstraint::G0, VertexConstraint::G1)
        } else {
            (VertexConstraint::G0, VertexConstraint::G0)
        };
        let mut w = self.vertices[e_i];
        w.arc = Some(CircleArc);
        w.bezier = None;
        w.edge_c = None;
        w.vertex_c = la;
        self.vertices.set(e_i, w);
        let mut x = self.vertices[next_i];
        x.vertex_c = lb;
        self.vertices.set(next_i, x);
        proof {
            lemma_arc_wf(old_vs, e_i as int);
        }
    }

    /// Moves every vertex and control point by `shift`.
    pub fn move_polygon<S: Fn(P) -> P>(&mut self, shift: &S)
        requires
            old(self).wf(),
            forall|q: P| call_requires(*shift, (q,)),
        ensures
            final(self).wf(),
            same_structure(old(self)@, final(self)@),
            forall|i: int|
                0 <= i < old(self)@.len() ==> #[trigger] shifted(*shift, old(self)@[i], final(self)@[i]),
    {
        let ghost old_vs = self@;
        let n = self.vertices.len();
        let mut i: usize = 0;
        while i < n
            invariant
                n == self@.len(),
                n == old_vs.len(),
                outline_wf(old_vs),
                i <= n,
                forall|q: P| call_requires(*shift, (q,)),
                forall|j: int| 0 <= j < n ==> #[trigger] same_kind(old_vs[j], self@[j]),
                forall|j: int| 0 <= j < i ==> #[trigger] shifted(*shift, old_vs[j], self@[j]),
                forall|j: int| i <= j < n ==> self@[j] == old_vs[j],
            decreases n - i,
        {
            let mut w = self.vertices[i];
            w.p = shift(w.p);
            if let Some(b) = w.bezier {
                let c0 = shift(b.control[0]);
                let c1 = shift(b.control[1]);
                w.bezier = Some(CubicBezier::new([c0, c1]));
            }
            self.vertices.set(i, w);
            i += 1;
        }
        proof {
            lemma_same_structure_wf(old_vs, self@);
        }
    }

    /// Drops the shape constraint of edge `e_i`.
    pub fn clear_edge_constraint(&mut self, e_i: usize)
        requires
            old(self).wf(),
            e_i < old(self)@.len(),
        ensures
            final(self).wf(),
            final(self)@ == old(self)@.update(
                e_i as int,
                Vertex { edge_c: None, ..old(self)@[e_i as int] },
            ),
    {
        let ghost old_vs = self@;
        let mut w = self.vertices[e_i];
        w.edge_c = None;
        self.vertices.set(e_i, w);
        proof {
            assert(vertex_ok(old_vs, e_i as int));
            lemma_update_wf(old_vs, e_i as int, w);
        }
    }

    /// Turns the Bézier segment on edge `e_i` back into a straight edge.
    pub fn clear_bezier(&mut self, e_i: usize)
        requires
            old(self).wf(),
            e_i < old(self)@.len(),
        ensures
            final(self).wf(),
            final(self)@ == old(self)@.update(
                e_i as int,
                Vertex { bezier: None, ..old(self)@[e_i as int] },
            ),
    {
        let ghost old_vs = self@;
        let mut w = self.vertices[e_i];
        w.bezier = None;
        self.vertices.set(e_i, w);
        proof {
            assert(vertex_ok(old_vs, e_i as int));
            lemma_update_wf(old_vs, e_i as int, w);
        }
    }

    /// Turns the arc on edge `e_i` back into a straight edge.
    pub fn clear_arc(&mut self, e_i: usize)
        requires
            old(self).wf(),
            e_i < old(self)@.len(),
        ensures
            final(self).wf(),
            final(self)@ == old(self)@.update(
                e_i as int,
                Vertex { arc: None, ..old(self)@[e_i as int] },
            ),
    {
        let ghost old_vs = self@;
        let mut w = self.vertices[e_i];
        w.arc = None;
        self.vertices.set(e_i, w);
        proof {
            assert(vertex_ok(old_vs, e_i as int));
            lemma_update_wf(old_vs, e_i as int, w);
        }
    }

    /// What moving control point `which` of the curve on edge `v_i` to
    /// `new_p` drags along.
    pub fn drag_rule(&self, v_i: usize, which: usize, new_p: P) -> (r: DragRule<P, L>)
        requires
            self.wf(),
            v_i < self@.len(),
            which < 2,
        ensures
            r == drag_rule_of(self@, v_i as int, which as int, new_p),
    {
        let next_i = self.next_i(v_i);
        let (at, other, free, line) = if which == 0 {
            let prev_i = self.prev_i(v_i);
            (v_i, prev_i, prev_i, prev_i)
        } else {
            (next_i, next_i, self.next_i(next_i), next_i)
        };
        let c = self.vertices[at].vertex_c;
        if c == VertexConstraint::G0 {
            DragRule::Alone
        } else {
            match self.vertices[other].bezier {
                Some(b) => DragRule::Joint {
                    continuity: c,
                    joint: self.vertices[at].p,
                    handle: new_p,
                    partner: b.control[1 - which],
                },
                None => DragRule::Line {
                    continuity: c,
                    fixed: self.vertices[at].p,
                    free: self.vertices[free].p,
                    handle: new_p,
                    shape: self.vertices[line].edge_c,
                },
            }
        }
    }

    /// Moves control point `which` of the curve on edge `v_i` to `new_p`,
    /// lets `drag` carry the neighbouring handle or straight edge along as the
    /// continuity there requires, writes its answer back and resolves from `v_i`.
    pub fn resolve_bezier_constraints<
        D: Fn(DragRule<P, L>) -> DragFix<P>,
        H: Fn(EdgeRule<P, L>) -> bool,
        F: Fn(EdgeRule<P, L>) -> EdgeFix<P>,
    >(&mut self, v_i: usize, which: usize, new_p: P, drag: &D, check: &H, fix: &F) -> (r: bool)
        requires
            old(self).wf(),
            v_i < old(self)@.len(),
            which < 2,
            old(self)@[v_i as int].bezier is Some,
            drag_total(*drag),
            kernel_total(*check, *fix),
        ensures
            final(self).wf(),
            same_structure(old(self)@, final(self)@),
            r ==> all_satisfied(*check, final(self)@),
            exists|f: DragFix<P>, passes: Seq<Seq<Vertex<P, L>>>|
                {
                    let d = dragged_outline(old(self)@, v_i as int, which as int, new_p, f);
                    &&& call_ensures(
                        *drag,
                        (drag_rule_of(old(self)@, v_i as int, which as int, new_p),),
                        f,
                    )
                    &&& #[trigger] resolution(
                        *check,
                        *fix,
                        v_i as int,
                        dragged_outline(old(self)@, v_i as int, which as int, new_p, f),
                        passes,
                        r,
                    )
                    &&& final(self)@ == passes.last()
                    &&& settled(*check, d) ==> r && final(self)@ == d
                },
    {
        let ghost old_vs = self@;
        let rule = self.drag_rule(v_i, which, new_p);
        let f = drag(rule);
        let next_i = self.next_i(v_i);
        let prev_i = self.prev_i(v_i);
        let nn_i = self.next_i(next_i);
        let mut w = self.vertices[v_i];
        w.move_bezier_control_vertex(which, new_p);
        self.vertices.set(v_i, w);
        match (rule, f) {
            (DragRule::Joint { .. }, DragFix::Partner(h)) => {
                let e = if which == 0 {
                    prev_i
                } else {
                    next_i
                };
                let mut x = self.vertices[e];
                x.move_bezier_control_vertex(1 - which, h);
                self.vertices.set(e, x);
            },
            (DragRule::Line { .. }, DragFix::Line { fixed, free, handle }) => {
                let (a, b) = if which == 0 {
                    (v_i, prev_i)
                } else {
                    (next_i, nn_i)
                };
                let mut x = self.vertices[a];
                x.p = fixed;
                self.vertices.set(a, x);
                let mut y = self.vertices[b];
                y.p = free;
                self.vertices.set(b, y);
                let mut z = self.vertices[v_i];
                z.move_bezier_control_vertex(which, handle);
                self.vertices.set(v_i, z);
            },
            _ => {},
        }
        let ghost d = self@;
        proof {
            assert(d == dragged_outline(old_vs, v_i as int, which as int, new_p, f));
            assert forall|j: int| 0 <= j < old_vs.len() implies #[trigger] same_kind(
                old_vs[j],
                d[j],
            ) by {}
            lemma_same_structure_wf(old_vs, d);
        }
        let r = self.resolve_constraints(v_i, check, fix);
        proof {
            lemma_same_structure_trans(old_vs, d, self@);
        }
        r
    }

    /// [`Self::resolve_bezier_constraints`] as a transaction: when resolution
    /// fails the polygon is left exactly as it was.
    pub fn try_move_control_vertex<
        D: Fn(DragRule<P, L>) -> DragFix<P>,
        H: Fn(EdgeRule<P, L>) -> bool,
        F: Fn(EdgeRule<P, L>) -> EdgeFix<P>,
    >(&mut self, v_i: usize, which: usize, new_p: P, drag: &D, check: &H, fix: &F) -> (r: bool)
        requires
            old(self).wf(),
            v_i < old(self)@.len(),
            which < 2,
            old(self)@[v_i as int].bezier is Some,
            drag_total(*drag),
            kernel_total(*check, *fix),
        ensures
            final(self).wf(),
            r ==> same_structure(old(self)@, final(self)@) && all_satisfied(*check, final(self)@),
            !r ==> final(self)@ == old(self)@,
            exists|f: DragFix<P>, passes: Seq<Seq<Vertex<P, L>>>|
                {
                    let d = dragged_outline(old(self)@, v_i as int, which as int, new_p, f);
                    &&& call_ensures(
                        *drag,
                        (drag_rule_of(old(self)@, v_i as int, which as int, new_p),),
                        f,
                    )
                    &&& #[trigger] resolution(
                        *check,
                        *fix,
                        v_i as int,
                        dragged_outline(old(self)@, v_i as int, which as int, new_p, f),
                        passes,
                        r,
                    )
                    &&& r ==> final(self)@ == passes.last()
                    &&& settled(*check, d) ==> r && final(self)@ == d
                },
    {
        let backup = self.snapshot();
        if self.resolve_bezier_constraints(v_i, which, new_p, drag, check, fix) {
            true
        } else {
            self.vertices = backup;
            false
        }
    }

}

/// Where resolution restarts after vertex `v` of `n` is removed: the vertex
/// that took its place, or the first one when `v` was the last.
pub open spec fn removal_anchor(n: int, v: int) -> int {
    if v + 1 == n {
        0
    } else {
        v
    }
}

/// `w` is `v` with its position and control points moved by `shift`.
pub open spec fn shifted<P, L, S: Fn(P) -> P>(shift: S, v: Vertex<P, L>, w: Vertex<P, L>) -> bool {
    &&& call_ensures(shift, (v.p,), w.p)
    &&& same_kind(v, w)
    &&& (v.bezier matches Some(b) ==> call_ensures(shift, (b.control[0],), w.bezier.unwrap().control[0])
        && call_ensures(shift, (b.control[1],), w.bezier.unwrap().control[1]))
}

} // verus!
