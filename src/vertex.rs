use vstd::prelude::*;

verus! {

/// Continuity required where two segments of the outline meet at a vertex.
///
/// `G0` joins positions only, `G1` also the tangent direction, and `C1` the
/// direction together with the 1:3 ratio of a Bézier handle to the straight
/// edge leading into it.
#[derive(Clone, Copy, Debug, PartialEq, Eq, Structural)]
pub enum VertexConstraint {
    G0,
    G1,
    C1,
}

impl Default for VertexConstraint {
    fn default() -> (r: Self)
        ensures
            r == VertexConstraint::C1,
    {
        VertexConstraint::C1
    }
}

/// Shape imposed on a straight edge; `L` is the type of a length.
#[derive(Clone, Copy, Debug)]
pub enum EdgeConstraint<L> {
    Vertical,
    DiagonalUp,
    DiagonalDown,
    FixedLength(L),
}

/// A cubic Bézier segment, given by its two inner control points.
#[derive(Clone, Copy, Debug)]
pub struct CubicBezier<P> {
    pub control: [P; 2],
}

/// Marks an edge that is drawn as a circular arc.
#[derive(Clone, Copy, Debug, PartialEq, Eq, Structural)]
pub struct CircleArc;

/// One corner of the outline together with the edge that leaves it.
///
/// `bezier`, `arc` and `edge_c` describe that outgoing edge; `vertex_c` is the
/// continuity required at the corner itself.
#[derive(Clone, Copy, Debug)]
pub struct Vertex<P, L> {
    pub p: P,
    pub bezier: Option<CubicBezier<P>>,
    pub arc: Option<CircleArc>,
    pub edge_c: Option<EdgeConstraint<L>>,
    pub vertex_c: VertexConstraint,
}

/// A corner at `p` with a plain straight outgoing edge and the default continuity.
pub open spec fn plain_vertex<P, L>(p: P) -> Vertex<P, L> {
    Vertex { p, bezier: None, arc: None, edge_c: None, vertex_c: VertexConstraint::C1 }
}

/// `v` moved to `q`, everything else kept.
pub open spec fn with_position<P, L>(v: Vertex<P, L>, q: P) -> Vertex<P, L> {
    Vertex { p: q, ..v }
}

/// `v` with both control points of its curve replaced (no change on a straight edge).
pub open spec fn with_controls<P, L>(v: Vertex<P, L>, c: [P; 2]) -> Vertex<P, L> {
    match v.bezier {
        Some(_) => Vertex { bezier: Some(CubicBezier { control: c }), ..v },
        None => v,
    }
}

/// `v` with control point `which` of its curve moved to `q` (no change on a straight edge).
pub open spec fn with_handle<P, L>(v: Vertex<P, L>, which: int, q: P) -> Vertex<P, L> {
    match v.bezier {
        Some(b) => with_controls(
            v,
            if which == 0 {
                [q, b.control[1]]
            } else {
                [b.control[0], q]
            },
        ),
        None => v,
    }
}

impl<P: Copy> CubicBezier<P> {
    pub fn new(control: [P; 2]) -> (r: Self)
        ensures
            r.control == control,
    {
        CubicBezier { control }
    }

    /// The first control point that `near` accepts, if any; `near` tells
    /// whether a point lies within grabbing distance of the pointer.
    pub fn nearby_control_vertex<N: Fn(P) -> bool>(&self, near: &N) -> (r: Option<usize>)
        requires
            forall|q: P| call_requires(*near, (q,)),
        ensures
            r == Some(0usize) ==> call_ensures(*near, (self.control[0],), true),
            r == Some(1usize) ==> call_ensures(*near, (self.control[0],), false)
                && call_ensures(*near, (self.control[1],), true),
            r is None ==> call_ensures(*near, (self.control[0],), false)
                && call_ensures(*near, (self.control[1],), false),
            r is Some ==> r.unwrap() < 2,
    {
        if near(self.control[0]) {
            return Some(0);
        }
        if near(self.control[1]) {
            return Some(1);
        }
        None
    }
}

impl<P: Copy, L: Copy> Vertex<P, L> {
    /// A corner at `p` with a plain straight outgoing edge and the default continuity.
    pub fn new(p: P) -> (r: Self)
        ensures
            r == plain_vertex::<P, L>(p),
    {
        Vertex { p, bezier: None, arc: None, edge_c: None, vertex_c: VertexConstraint::default() }
    }

    /// Moves control point `which` of the outgoing curve; a straight edge is left alone.
    pub fn move_bezier_control_vertex(&mut self, which: usize, new_p: P)
        requires
            which < 2,
        ensures
            *final(self) == with_handle(*old(self), which as int, new_p),
    {
        if let Some(b) = self.bezier {
            let c = if which == 0 {
                [new_p, b.control[1]]
            } else {
                [b.control[0], new_p]
            };
            self.bezier = Some(CubicBezier { control: c });
        }
    }
}

} // verus!
