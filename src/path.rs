use vstd::prelude::*;
use crate::outline::{next_index, prev_index};
use crate::vertex::{Vertex, VertexConstraint};

verus! {

/// What fixes the circle of an arc edge.
#[derive(Clone, Copy, Debug)]
pub enum ArcFrame<P> {
    /// No tangent is prescribed: the circle has the chord `from`--`to` as diameter.
    Chord { from: P, to: P },
    /// The arc leaves `at` tangent to the edge `before`--`at` and ends at `other`.
    Tangent { at: P, other: P, before: P },
}

/// The geometry of one edge, as it is drawn and hit-tested.
#[derive(Clone, Copy, Debug)]
pub enum EdgePath<P> {
    Straight { from: P, to: P },
    Bezier { from: P, to: P, control: [P; 2] },
    Arc { from: P, to: P, frame: ArcFrame<P> },
}

/// The frame of the arc from `v0` to `v1`, where `prev` comes before `v0` and
/// `next` after `v1`: a `G1` end fixes the tangent there, otherwise (and for
/// pairs an arc does not admit) the chord is the diameter.
pub open spec fn arc_frame_of<P, L>(
    v0: Vertex<P, L>,
    v1: Vertex<P, L>,
    prev: Vertex<P, L>,
    next: Vertex<P, L>,
) -> ArcFrame<P> {
    if v0.vertex_c == VertexConstraint::G1 && v1.vertex_c == VertexConstraint::G0 {
        ArcFrame::Tangent { at: v0.p, other: v1.p, before: prev.p }
    } else if v0.vertex_c == VertexConstraint::G0 && v1.vertex_c == VertexConstraint::G1 {
        ArcFrame::Tangent { at: v1.p, other: v0.p, before: next.p }
    } else {
        ArcFrame::Chord { from: v0.p, to: v1.p }
    }
}

pub fn arc_frame<P: Copy, L: Copy>(
    v0: Vertex<P, L>,
    v1: Vertex<P, L>,
    prev: Vertex<P, L>,
    next: Vertex<P, L>,
) -> (r: ArcFrame<P>)
    ensures
        r == arc_frame_of(v0, v1, prev, next),
{
    match (v0.vertex_c, v1.vertex_c) {
        (VertexConstraint::G1, VertexConstraint::G0) => ArcFrame::Tangent {
            at: v0.p,
            other: v1.p,
            before: prev.p,
        },
        (VertexConstraint::G0, VertexConstraint::G1) => ArcFrame::Tangent {
            at: v1.p,
            other: v0.p,
            before: next.p,
        },
        _ => ArcFrame::Chord { from: v0.p, to: v1.p },
    }
}

/// The geometry of edge `i` of the outline `vs`: its curve if it has one,
/// else its arc, else the straight segment.
pub open spec fn path_of<P, L>(vs: Seq<Vertex<P, L>>, i: int) -> EdgePath<P> {
    let n = vs.len() as int;
    let nx = next_index(n, i);
    match vs[i].bezier {
        Some(b) => EdgePath::Bezier { from: vs[i].p, to: vs[nx].p, control: b.control },
        None => if vs[i].arc is Some {
            EdgePath::Arc {
                from: vs[i].p,
                to: vs[nx].p,
                frame: arc_frame_of(vs[i], vs[nx], vs[prev_index(n, i)], vs[next_index(n, nx)]),
            }
        } else {
            EdgePath::Straight { from: vs[i].p, to: vs[nx].p }
        },
    }
}

} // verus!
