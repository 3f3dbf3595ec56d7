use vstd::prelude::*;
use crate::vertex::{CircleArc, Vertex, VertexConstraint};

verus! {

/// The vertex after `i` on a cycle of `n` vertices, i.e. `(i + 1) mod n`.
pub open spec fn next_index(n: int, i: int) -> int {
    if i + 1 >= n {
        0
    } else {
        i + 1
    }
}

/// The vertex before `i` on a cycle of `n` vertices, i.e. `(i - 1 + n) mod n`.
pub open spec fn prev_index(n: int, i: int) -> int {
    if i <= 0 {
        n - 1
    } else {
        i - 1
    }
}

/// At most one of a curve, an arc and a shape constraint sits on an edge.
pub open spec fn single_payload<P, L>(v: Vertex<P, L>) -> bool {
    &&& (v.bezier is Some ==> v.arc is None && v.edge_c is None)
    &&& (v.arc is Some ==> v.edge_c is None)
}

/// The continuity pair that a circular arc admits at its two ends: neither
/// end is `C1`, and not both are `G1`.
pub open spec fn arc_ends_ok(a: VertexConstraint, b: VertexConstraint) -> bool {
    a != VertexConstraint::C1 && b != VertexConstraint::C1 && !(a == VertexConstraint::G1
        && b == VertexConstraint::G1)
}

/// What every vertex `i` of a valid outline satisfies.
pub open spec fn vertex_ok<P, L>(vs: Seq<Vertex<P, L>>, i: int) -> bool {
    &&& single_payload(vs[i])
    &&& vs[i].arc is Some ==> arc_ends_ok(
        vs[i].vertex_c,
        vs[next_index(vs.len() as int, i)].vertex_c,
    )
}

/// A closed outline: at least a triangle, and every vertex valid.
pub open spec fn outline_wf<P, L>(vs: Seq<Vertex<P, L>>) -> bool {
    &&& vs.len() >= 3
    &&& forall|i: int| 0 <= i < vs.len() ==> #[trigger] vertex_ok(vs, i)
}

/// `a` and `b` have the same vertices with the same kinds of edges and the
/// same constraints; only positions and control points may differ.
pub open spec fn same_structure<P, L>(a: Seq<Vertex<P, L>>, b: Seq<Vertex<P, L>>) -> bool {
    &&& a.len() == b.len()
    &&& forall|i: int| 0 <= i < a.len() ==> #[trigger] same_kind(a[i], b[i])
}

pub open spec fn same_kind<P, L>(v: Vertex<P, L>, w: Vertex<P, L>) -> bool {
    &&& (v.bezier is Some <==> w.bezier is Some)
    &&& v.arc == w.arc
    &&& v.edge_c == w.edge_c
    &&& v.vertex_c == w.vertex_c
}

pub proof fn lemma_same_structure_wf<P, L>(a: Seq<Vertex<P, L>>, b: Seq<Vertex<P, L>>)
    requires
        outline_wf(a),
        same_structure(a, b),
    ensures
        outline_wf(b),
{
    assert forall|i: int| 0 <= i < b.len() implies #[trigger] vertex_ok(b, i) by {
        assert(vertex_ok(a, i));
        assert(same_kind(a[i], b[i]));
        let j = next_index(a.len() as int, i);
        assert(same_kind(a[j], b[j]));
    }
}

pub proof fn lemma_same_structure_refl<P, L>(a: Seq<Vertex<P, L>>)
    ensures
        same_structure(a, a),
{
    assert forall|i: int| 0 <= i < a.len() implies #[trigger] same_kind(a[i], a[i]) by {}
}

pub proof fn lemma_same_structure_trans<P, L>(
    a: Seq<Vertex<P, L>>,
    b: Seq<Vertex<P, L>>,
    c: Seq<Vertex<P, L>>,
)
    requires
        same_structure(a, b),
        same_structure(b, c),
    ensures
        same_structure(a, c),
{
    assert forall|i: int| 0 <= i < a.len() implies #[trigger] same_kind(a[i], c[i]) by {
        assert(same_kind(a[i], b[i]));
        assert(same_kind(b[i], c[i]));
    }
}

/// The continuity pair an arc leaves at its ends: a start that had any
/// tangent continuity keeps `G1` and the end drops to `G0`; otherwise an end
/// that had tangent continuity keeps `G1`.
pub open spec fn arc_labels(a: VertexConstraint, b: VertexConstraint) -> (
    VertexConstraint,
    VertexConstraint,
) {
    if a != VertexConstraint::G0 {
        (VertexConstraint::G1, VertexConstraint::G0)
    } else if b != VertexConstraint::G0 {
        (VertexConstraint::G0, VertexConstraint::G1)
    } else {
        (VertexConstraint::G0, VertexConstraint::G0)
    }
}

/// Continuity `c` at vertex `v` is compatible with the arcs that start or end there.
pub open spec fn label_allowed<P, L>(vs: Seq<Vertex<P, L>>, v: int, c: VertexConstraint) -> bool {
    let n = vs.len() as int;
    &&& vs[v].arc is Some ==> arc_ends_ok(c, vs[next_index(n, v)].vertex_c)
    &&& vs[prev_index(n, v)].arc is Some ==> arc_ends_ok(vs[prev_index(n, v)].vertex_c, c)
}

/// `v` with its outgoing edge made plain: no curve, arc or shape constraint.
pub open spec fn cleared<P, L>(v: Vertex<P, L>) -> Vertex<P, L> {
    Vertex { bezier: None, arc: None, edge_c: None, ..v }
}

/// Replacing a vertex by one with a valid payload, the same continuity and
/// no arc that was not there keeps the outline valid.
pub proof fn lemma_update_wf<P, L>(vs: Seq<Vertex<P, L>>, i: int, w: Vertex<P, L>)
    requires
        outline_wf(vs),
        0 <= i < vs.len(),
        single_payload(w),
        w.vertex_c == vs[i].vertex_c,
        w.arc is Some ==> vs[i].arc is Some,
    ensures
        outline_wf(vs.update(i, w)),
{
    let ws = vs.update(i, w);
    assert forall|j: int| 0 <= j < ws.len() implies #[trigger] vertex_ok(ws, j) by {
        assert(vertex_ok(vs, j));
    }
}

/// Setting an allowed continuity keeps the outline valid.
pub proof fn lemma_label_wf<P, L>(vs: Seq<Vertex<P, L>>, i: int, c: VertexConstraint)
    requires
        outline_wf(vs),
        0 <= i < vs.len(),
        label_allowed(vs, i, c),
    ensures
        outline_wf(vs.update(i, Vertex { vertex_c: c, ..vs[i] })),
{
    let n = vs.len() as int;
    let ws = vs.update(i, Vertex { vertex_c: c, ..vs[i] });
    assert forall|j: int| 0 <= j < ws.len() implies #[trigger] vertex_ok(ws, j) by {
        assert(vertex_ok(vs, j));
        if next_index(n, j) == i && j != i {
            assert(j == prev_index(n, i));
        }
    }
}

/// Turning edge `e` into an arc, with the continuity pair of [`arc_labels`],
/// keeps the outline valid.
pub proof fn lemma_arc_wf<P, L>(vs: Seq<Vertex<P, L>>, e: int)
    requires
        outline_wf(vs),
        0 <= e < vs.len(),
    ensures
        ({
            let n = vs.len() as int;
            let nx = next_index(n, e);
            let l = arc_labels(vs[e].vertex_c, vs[nx].vertex_c);
            let vs1 = vs.update(e, Vertex { arc: Some(CircleArc), vertex_c: l.0, ..cleared(vs[e]) });
            outline_wf(vs1.update(nx, Vertex { vertex_c: l.1, ..vs1[nx] }))
        }),
{
    let n = vs.len() as int;
    let nx = next_index(n, e);
    let pv = prev_index(n, e);
    let l = arc_labels(vs[e].vertex_c, vs[nx].vertex_c);
    let vs1 = vs.update(e, Vertex { arc: Some(CircleArc), vertex_c: l.0, ..cleared(vs[e]) });
    let ws = vs1.update(nx, Vertex { vertex_c: l.1, ..vs1[nx] });
    assert(nx != e);
    assert(next_index(n, nx) != e);
    assert(pv != nx);
    assert forall|j: int| 0 <= j < ws.len() implies #[trigger] vertex_ok(ws, j) by {
        assert(vertex_ok(vs, j));
        if j == nx {
            assert(vertex_ok(vs, nx));
        } else if j == pv {
            assert(next_index(n, pv) == e);
        } else if j != e {
            assert(next_index(n, j) != e);
            assert(next_index(n, j) != nx);
        }
    }
}

/// Clearing edge `e` and inserting a plain vertex after it keeps the outline valid.
pub proof fn lemma_insert_wf<P, L>(vs: Seq<Vertex<P, L>>, e: int, w: Vertex<P, L>)
    requires
        outline_wf(vs),
        0 <= e < vs.len(),
        w.bezier is None,
        w.arc is None,
        w.edge_c is None,
    ensures
        outline_wf(
            vs.update(e, cleared(vs[e])).insert(next_index(vs.len() as int, e), w),
        ),
{
    let n = vs.len() as int;
    let k = next_index(n, e);
    let cs = vs.update(e, cleared(vs[e]));
    lemma_update_wf(vs, e, cleared(vs[e]));
    let ws = cs.insert(k, w);
    assert forall|j: int| 0 <= j < ws.len() implies #[trigger] vertex_ok(ws, j) by {
        if j < k {
            assert(vertex_ok(cs, j));
        } else if j > k {
            assert(vertex_ok(cs, j - 1));
            if j == n {
                assert(next_index(n, j - 1) == 0);
            }
        }
    }
}

/// Clearing the edge into vertex `v` and removing `v` keeps a polygon of more
/// than three vertices valid.
pub proof fn lemma_remove_wf<P, L>(vs: Seq<Vertex<P, L>>, v: int)
    requires
        outline_wf(vs),
        vs.len() > 3,
        0 <= v < vs.len(),
    ensures
        outline_wf(
            vs.update(prev_index(vs.len() as int, v), cleared(vs[prev_index(vs.len() as int, v)])).remove(v),
        ),
{
    let n = vs.len() as int;
    let pv = prev_index(n, v);
    let cs = vs.update(pv, cleared(vs[pv]));
    lemma_update_wf(vs, pv, cleared(vs[pv]));
    let ws = cs.remove(v);
    assert forall|j: int| 0 <= j < ws.len() implies #[trigger] vertex_ok(ws, j) by {
        if j < v {
            assert(vertex_ok(cs, j));
        } else {
            assert(vertex_ok(cs, j + 1));
        }
    }
}

} // verus!
