use vstd::prelude::*;
use crate::outline::{next_index, prev_index};
use crate::vertex::{
    with_controls, with_handle, with_position, EdgeConstraint, Vertex, VertexConstraint,
};

verus! {

/// How many forward-and-backward passes resolution makes before giving up.
pub const MAX_RESOLVING_ITERS: usize = 64;

/// One end of a Bézier segment and what it must join smoothly with.
#[derive(Clone, Copy, Debug)]
pub enum Joint<P> {
    /// The curve meets the straight edge `far`--`joint`; `control` is the
    /// curve's handle at `joint`.
    Line { far: P, joint: P, control: P, continuity: VertexConstraint },
    /// Two curves meet at `joint`: `incoming` is the handle of the curve that
    /// ends there, `outgoing` that of the curve that starts there.
    Curves { incoming: P, outgoing: P, joint: P, continuity: VertexConstraint },
}

/// Everything the constraint of one edge depends on.
#[derive(Clone, Copy, Debug)]
pub enum EdgeRule<P, L> {
    /// Nothing is required of the edge.
    Free,
    /// A straight edge with a shape constraint; `free` is the end that moves.
    Shape { kind: EdgeConstraint<L>, fixed: P, free: P },
    /// A Bézier segment, with the joints at its start and at its end.
    Curve { start: Joint<P>, end: Joint<P> },
}

/// A correction of one edge computed by the geometry kernel.
#[derive(Clone, Copy, Debug)]
pub enum EdgeFix<P> {
    Keep,
    /// New position of the free end of a shaped edge.
    Free(P),
    /// New control points of a curve.
    Controls([P; 2]),
}

/// What dragging a control point drags along with it.
#[derive(Clone, Copy, Debug)]
pub enum DragRule<P, L> {
    /// The handle moves on its own.
    Alone,
    /// Two curves meet at `joint`; `partner` is the other curve's handle there.
    Joint { continuity: VertexConstraint, joint: P, handle: P, partner: P },
    /// The curve meets the straight edge `free`--`fixed` at `fixed`; `shape`
    /// is that edge's constraint.
    Line {
        continuity: VertexConstraint,
        fixed: P,
        free: P,
        handle: P,
        shape: Option<EdgeConstraint<L>>,
    },
}

/// The kernel's answer to a [`DragRule`].
#[derive(Clone, Copy, Debug)]
pub enum DragFix<P> {
    Keep,
    /// New position of the partner handle.
    Partner(P),
    /// New positions of both ends of the straight edge and of the handle.
    Line { fixed: P, free: P, handle: P },
}

/// The joint at the start of the curve on edge `i`.
pub open spec fn start_joint<P, L>(vs: Seq<Vertex<P, L>>, i: int) -> Joint<P> {
    let prev = vs[prev_index(vs.len() as int, i)];
    let own = vs[i].bezier.unwrap().control[0];
    match prev.bezier {
        Some(b) => Joint::Curves {
            incoming: b.control[1],
            outgoing: own,
            joint: vs[i].p,
            continuity: vs[i].vertex_c,
        },
        None => Joint::Line { far: prev.p, joint: vs[i].p, control: own, continuity: vs[i].vertex_c },
    }
}

/// The joint at the end of the curve on edge `i`.
pub open spec fn end_joint<P, L>(vs: Seq<Vertex<P, L>>, i: int) -> Joint<P> {
    let n = vs.len() as int;
    let next = vs[next_index(n, i)];
    let own = vs[i].bezier.unwrap().control[1];
    match next.bezier {
        Some(b) => Joint::Curves {
            incoming: own,
            outgoing: b.control[0],
            joint: next.p,
            continuity: next.vertex_c,
        },
        None => Joint::Line {
            far: vs[next_index(n, next_index(n, i))].p,
            joint: next.p,
            control: own,
            continuity: next.vertex_c,
        },
    }
}

/// The rule of edge `i`: its curve if it has one, else its shape constraint.
pub open spec fn rule_of<P, L>(vs: Seq<Vertex<P, L>>, i: int) -> EdgeRule<P, L> {
    if vs[i].bezier is Some {
        EdgeRule::Curve { start: start_joint(vs, i), end: end_joint(vs, i) }
    } else {
        match vs[i].edge_c {
            Some(kind) => EdgeRule::Shape {
                kind,
                fixed: vs[i].p,
                free: vs[next_index(vs.len() as int, i)].p,
            },
            None => EdgeRule::Free,
        }
    }
}

/// The outline after the correction `f` of edge `i`; an answer that does not
/// fit the edge's rule changes nothing.
pub open spec fn fixed_outline<P, L>(vs: Seq<Vertex<P, L>>, i: int, f: EdgeFix<P>) -> Seq<
    Vertex<P, L>,
> {
    let next = next_index(vs.len() as int, i);
    match (rule_of(vs, i), f) {
        (EdgeRule::Shape { .. }, EdgeFix::Free(q)) => vs.update(next, with_position(vs[next], q)),
        (EdgeRule::Curve { .. }, EdgeFix::Controls(c)) => vs.update(i, with_controls(vs[i], c)),
        _ => vs,
    }
}

/// The handle that correcting joint `j` moves: the curve's own handle there.
pub open spec fn own_handle<P>(j: Joint<P>, at_start: bool) -> P {
    match j {
        Joint::Line { control, .. } => control,
        Joint::Curves { incoming, outgoing, .. } => if at_start {
            outgoing
        } else {
            incoming
        },
    }
}

/// `f` puts every point that it may move back where `rule` has it.
pub open spec fn keeps_points<P, L>(rule: EdgeRule<P, L>, f: EdgeFix<P>) -> bool {
    match (rule, f) {
        (EdgeRule::Shape { free, .. }, EdgeFix::Free(q)) => q == free,
        (EdgeRule::Curve { start, end }, EdgeFix::Controls(c)) => c[0] == own_handle(start, true)
            && c[1] == own_handle(end, false),
        _ => true,
    }
}

/// A correction that leaves every point it may move where it is changes
/// nothing else either: `Polygon::apply_constraint` with such an answer
/// leaves the outline exactly as it was.
pub proof fn lemma_fix_in_place<P, L>(vs: Seq<Vertex<P, L>>, i: int, f: EdgeFix<P>)
    requires
        0 <= i < vs.len(),
        keeps_points(rule_of(vs, i), f),
    ensures
        fixed_outline(vs, i, f) == vs,
{
    let next = next_index(vs.len() as int, i);
    match (rule_of(vs, i), f) {
        (EdgeRule::Shape { .. }, EdgeFix::Free(q)) => {
            assert(with_position(vs[next], q) == vs[next]);
            assert(vs.update(next, vs[next]) =~= vs);
        },
        (EdgeRule::Curve { .. }, EdgeFix::Controls(c)) => {
            let b = vs[i].bezier.unwrap();
            assert(c =~= b.control);
            assert(with_controls(vs[i], c) == vs[i]);
            assert(vs.update(i, vs[i]) =~= vs);
        },
        _ => {},
    }
}

/// `check` answered `r` about `rule`; a free edge is satisfied without asking.
pub open spec fn reports<P, L, H: Fn(EdgeRule<P, L>) -> bool>(
    check: H,
    rule: EdgeRule<P, L>,
    r: bool,
) -> bool {
    if rule is Free {
        r
    } else {
        call_ensures(check, (rule,), r)
    }
}

/// `rule` is satisfied according to `check`.
pub open spec fn satisfied<P, L, H: Fn(EdgeRule<P, L>) -> bool>(
    check: H,
    rule: EdgeRule<P, L>,
) -> bool {
    reports(check, rule, true)
}

/// `check` cannot answer anything but "satisfied" about `rule`.
pub open spec fn settled_rule<P, L, H: Fn(EdgeRule<P, L>) -> bool>(
    check: H,
    rule: EdgeRule<P, L>,
) -> bool {
    forall|r: bool| reports(check, rule, r) ==> r
}

/// Every edge of `vs` is satisfied according to `check`.
pub open spec fn all_satisfied<P, L, H: Fn(EdgeRule<P, L>) -> bool>(
    check: H,
    vs: Seq<Vertex<P, L>>,
) -> bool {
    forall|i: int| 0 <= i < vs.len() ==> #[trigger] satisfied(check, rule_of(vs, i))
}

/// `check` can only call every edge of `vs` satisfied.
pub open spec fn settled<P, L, H: Fn(EdgeRule<P, L>) -> bool>(
    check: H,
    vs: Seq<Vertex<P, L>>,
) -> bool {
    forall|i: int| 0 <= i < vs.len() ==> #[trigger] settled_rule(check, rule_of(vs, i))
}

/// `check` answers each rule one way only.
pub open spec fn deterministic<P, L, H: Fn(EdgeRule<P, L>) -> bool>(check: H) -> bool {
    forall|rule: EdgeRule<P, L>, a: bool, b: bool|
        call_ensures(check, (rule,), a) && call_ensures(check, (rule,), b) ==> a == b
}

/// After an edit that succeeded, so that every edge was reported satisfied,
/// asking a deterministic `check` about any edge again (as
/// `Polygon::check_constraint` does) can only answer "satisfied".
pub proof fn lemma_satisfied_stays<P, L, H: Fn(EdgeRule<P, L>) -> bool>(
    check: H,
    vs: Seq<Vertex<P, L>>,
    i: int,
    r: bool,
)
    requires
        all_satisfied(check, vs),
        deterministic(check),
        0 <= i < vs.len(),
        reports(check, rule_of(vs, i), r),
    ensures
        r,
{
    assert(satisfied(check, rule_of(vs, i)));
}

/// `check` and `fix` accept every rule.
pub open spec fn kernel_total<P, L, H: Fn(EdgeRule<P, L>) -> bool, F: Fn(EdgeRule<P, L>) -> EdgeFix<
    P,
>>(check: H, fix: F) -> bool {
    &&& forall|r: EdgeRule<P, L>| call_requires(check, (r,))
    &&& forall|r: EdgeRule<P, L>| call_requires(fix, (r,))
}

/// The vertex whose continuity governs control point `which` of the curve on edge `i`.
pub open spec fn handle_vertex(n: int, i: int, which: int) -> int {
    if which == 0 {
        i
    } else {
        next_index(n, i)
    }
}

/// The curve on the other side of that vertex.
pub open spec fn partner_edge(n: int, i: int, which: int) -> int {
    if which == 0 {
        prev_index(n, i)
    } else {
        next_index(n, i)
    }
}

/// The far end of the straight edge on the other side of that vertex.
pub open spec fn free_vertex(n: int, i: int, which: int) -> int {
    if which == 0 {
        prev_index(n, i)
    } else {
        next_index(n, next_index(n, i))
    }
}

/// The straight edge on the other side of that vertex.
pub open spec fn line_edge(n: int, i: int, which: int) -> int {
    if which == 0 {
        prev_index(n, i)
    } else {
        next_index(n, i)
    }
}

/// What moving control point `which` of the curve on edge `i` to `q` drags along.
pub open spec fn drag_rule_of<P, L>(vs: Seq<Vertex<P, L>>, i: int, which: int, q: P) -> DragRule<
    P,
    L,
> {
    let n = vs.len() as int;
    let at = handle_vertex(n, i, which);
    let other = vs[partner_edge(n, i, which)];
    let c = vs[at].vertex_c;
    if c == VertexConstraint::G0 {
        DragRule::Alone
    } else if other.bezier is Some {
        DragRule::Joint {
            continuity: c,
            joint: vs[at].p,
            handle: q,
            partner: other.bezier.unwrap().control[1 - which],
        }
    } else {
        DragRule::Line {
            continuity: c,
            fixed: vs[at].p,
            free: vs[free_vertex(n, i, which)].p,
            handle: q,
            shape: vs[line_edge(n, i, which)].edge_c,
        }
    }
}

/// The outline after control point `which` of the curve on edge `i` is moved
/// to `q` and the kernel's answer `f` is written back.
pub open spec fn dragged_outline<P, L>(
    vs: Seq<Vertex<P, L>>,
    i: int,
    which: int,
    q: P,
    f: DragFix<P>,
) -> Seq<Vertex<P, L>> {
    let n = vs.len() as int;
    let vs1 = vs.update(i, with_handle(vs[i], which, q));
    match (drag_rule_of(vs, i, which, q), f) {
        (DragRule::Joint { .. }, DragFix::Partner(h)) => {
            let e = partner_edge(n, i, which);
            vs1.update(e, with_handle(vs1[e], 1 - which, h))
        },
        (DragRule::Line { .. }, DragFix::Line { fixed, free, handle }) => {
            let a = handle_vertex(n, i, which);
            let b = free_vertex(n, i, which);
            let vs2 = vs1.update(a, with_position(vs1[a], fixed));
            let vs3 = vs2.update(b, with_position(vs2[b], free));
            vs3.update(i, with_handle(vs3[i], which, handle))
        },
        _ => vs1,
    }
}

/// `drag` accepts every rule.
pub open spec fn drag_total<P, L, D: Fn(DragRule<P, L>) -> DragFix<P>>(drag: D) -> bool {
    forall|r: DragRule<P, L>| call_requires(drag, (r,))
}

/// Some edge of `vs` is reported violated by `check`.
pub open spec fn some_violated<P, L, H: Fn(EdgeRule<P, L>) -> bool>(
    check: H,
    vs: Seq<Vertex<P, L>>,
) -> bool {
    exists|i: int| 0 <= i < vs.len() && #[trigger] reports(check, rule_of(vs, i), false)
}

/// One step of a sweep on edge `e`: an edge reported satisfied is left as it
/// is; an edge reported violated receives one of `fix`'s answers for its rule.
pub open spec fn step<P, L, H: Fn(EdgeRule<P, L>) -> bool, F: Fn(EdgeRule<P, L>) -> EdgeFix<P>>(
    check: H,
    fix: F,
    vs: Seq<Vertex<P, L>>,
    e: int,
    ws: Seq<Vertex<P, L>>,
) -> bool {
    ||| reports(check, rule_of(vs, e), true) && ws == vs
    ||| reports(check, rule_of(vs, e), false) && exists|f: EdgeFix<P>|
        #[trigger] call_ensures(fix, (rule_of(vs, e),), f) && ws == fixed_outline(vs, e, f)
}

/// The `k`-th edge of a forward sweep from `start`, i.e. `(start + k) mod n`.
pub open spec fn forward_edge(n: int, start: int, k: nat) -> int
    decreases k,
{
    if k == 0 {
        start
    } else {
        next_index(n, forward_edge(n, start, (k - 1) as nat))
    }
}

/// The `j`-th edge of a backward sweep from `start`, i.e. `(start - 1 - j) mod n`.
pub open spec fn backward_edge(n: int, start: int, j: nat) -> int
    decreases j,
{
    if j == 0 {
        prev_index(n, start)
    } else {
        prev_index(n, backward_edge(n, start, (j - 1) as nat))
    }
}

/// The edge visited at step `k` of a pass from `start`: the `n` edges from
/// `start` onwards, then the `n` edges from the one before `start` backwards.
pub open spec fn sweep_edge(n: int, start: int, k: int) -> int {
    if k < n {
        forward_edge(n, start, k as nat)
    } else {
        backward_edge(n, start, (k - n) as nat)
    }
}

/// Step `k` of `trace` is a sweep step on the edge a pass visits then.
pub open spec fn pass_step<
    P,
    L,
    H: Fn(EdgeRule<P, L>) -> bool,
    F: Fn(EdgeRule<P, L>) -> EdgeFix<P>,
>(check: H, fix: F, start: int, n: int, trace: Seq<Seq<Vertex<P, L>>>, k: int) -> bool {
    step(check, fix, trace[k], sweep_edge(n, start, k), trace[k + 1])
}

/// `trace` holds the outlines during one pass from `start` over `vs`: `vs`
/// itself, then the outline after each of the `2 n` steps.
pub open spec fn pass_trace<P, L, H: Fn(EdgeRule<P, L>) -> bool, F: Fn(EdgeRule<P, L>) -> EdgeFix<P>>(
    check: H,
    fix: F,
    start: int,
    vs: Seq<Vertex<P, L>>,
    trace: Seq<Seq<Vertex<P, L>>>,
) -> bool {
    let n = vs.len() as int;
    &&& trace.len() == 2 * n + 1
    &&& trace[0] == vs
    &&& forall|k: int| 0 <= k < 2 * n ==> #[trigger] pass_step(check, fix, start, n, trace, k)
}

/// `passes[p + 1]` is an outline that one pass from `start` over `passes[p]` can end with.
pub open spec fn one_pass<P, L, H: Fn(EdgeRule<P, L>) -> bool, F: Fn(EdgeRule<P, L>) -> EdgeFix<P>>(
    check: H,
    fix: F,
    start: int,
    passes: Seq<Seq<Vertex<P, L>>>,
    p: int,
) -> bool {
    exists|trace: Seq<Seq<Vertex<P, L>>>|
        #[trigger] pass_trace(check, fix, start, passes[p], trace) && trace.last() == passes[p + 1]
}

/// Resolution from `start` of the outline `vs`, answering `r`: `passes` holds
/// `vs` and the outline after each pass made. Every pass but the last ends
/// with some edge reported violated. With `r` the last pass ends with every
/// edge satisfied; without it all `MAX_RESOLVING_ITERS` passes were made and
/// the last one too ends with an edge reported violated.
pub open spec fn resolution<P, L, H: Fn(EdgeRule<P, L>) -> bool, F: Fn(EdgeRule<P, L>) -> EdgeFix<P>>(
    check: H,
    fix: F,
    start: int,
    vs: Seq<Vertex<P, L>>,
    passes: Seq<Seq<Vertex<P, L>>>,
    r: bool,
) -> bool {
    let m = passes.len() - 1;
    &&& 1 <= m <= MAX_RESOLVING_ITERS
    &&& passes[0] == vs
    &&& forall|p: int| 0 <= p < m ==> #[trigger] one_pass(check, fix, start, passes, p)
    &&& forall|p: int| 1 <= p < m ==> #[trigger] some_violated(check, passes[p])
    &&& r ==> all_satisfied(check, passes[m])
    &&& !r ==> m == MAX_RESOLVING_ITERS && some_violated(check, passes[m])
}

} // verus!
