use vstd::prelude::*;
use crate::rules::{own_handle, DragFix, DragRule, Joint};
use crate::vertex::{EdgeConstraint, VertexConstraint};

verus! {

/// Whether joint `j` has the continuity it requires. `G0` always holds; a
/// curve meeting a straight edge is judged by `g1` or `c1` on
/// `(far, joint, control)`; two curves are judged by `colinear` or `mirrored`
/// on `(incoming, outgoing, joint)`.
pub fn check_joint<P: Copy, G, C, K, M>(
    j: Joint<P>,
    g1: &G,
    c1: &C,
    colinear: &K,
    mirrored: &M,
) -> (r: bool) where
    G: Fn(P, P, P) -> bool,
    C: Fn(P, P, P) -> bool,
    K: Fn(P, P, P) -> bool,
    M: Fn(P, P, P) -> bool,

    requires
        forall|a: P, b: P, c: P| call_requires(*g1, (a, b, c)),
        forall|a: P, b: P, c: P| call_requires(*c1, (a, b, c)),
        forall|a: P, b: P, c: P| call_requires(*colinear, (a, b, c)),
        forall|a: P, b: P, c: P| call_requires(*mirrored, (a, b, c)),
    ensures
        match j {
            Joint::Line { far, joint, control, continuity } => match continuity {
                VertexConstraint::G0 => r,
                VertexConstraint::G1 => call_ensures(*g1, (far, joint, control), r),
                VertexConstraint::C1 => call_ensures(*c1, (far, joint, control), r),
            },
            Joint::Curves { incoming, outgoing, joint, continuity } => match continuity {
                VertexConstraint::G0 => r,
                VertexConstraint::G1 => call_ensures(*colinear, (incoming, outgoing, joint), r),
                VertexConstraint::C1 => call_ensures(*mirrored, (incoming, outgoing, joint), r),
            },
        },
{
    match j {
        Joint::Line { far, joint, control, continuity } => match continuity {
            VertexConstraint::G0 => true,
            VertexConstraint::G1 => g1(far, joint, control),
            VertexConstraint::C1 => c1(far, joint, control),
        },
        Joint::Curves { incoming, outgoing, joint, continuity } => match continuity {
            VertexConstraint::G0 => true,
            VertexConstraint::G1 => colinear(incoming, outgoing, joint),
            VertexConstraint::C1 => mirrored(incoming, outgoing, joint),
        },
    }
}

/// Where the curve's own handle at joint `j` must go (`at_start`: the joint
/// is at the start of the curve). `G0` keeps the handle. Against a straight
/// edge `far`--`joint`, `G1` gives `g1(far, joint, handle)`, the handle
/// brought onto the edge's line, and `C1` gives `c1(far, joint)`, the handle
/// a third of the edge beyond `joint`. Against another curve, `G1` gives
/// `project(joint, other, handle)`, the handle brought onto the line through
/// the joint and the other handle, and `C1` gives `reflect(joint, other)`.
pub fn enforce_joint<P: Copy, G, C, K, M>(
    j: Joint<P>,
    at_start: bool,
    g1: &G,
    c1: &C,
    project: &K,
    reflect: &M,
) -> (r: P) where
    G: Fn(P, P, P) -> P,
    C: Fn(P, P) -> P,
    K: Fn(P, P, P) -> P,
    M: Fn(P, P) -> P,

    requires
        forall|a: P, b: P, c: P| call_requires(*g1, (a, b, c)),
        forall|a: P, b: P| call_requires(*c1, (a, b)),
        forall|a: P, b: P, c: P| call_requires(*project, (a, b, c)),
        forall|a: P, b: P| call_requires(*reflect, (a, b)),
    ensures
        match j {
            Joint::Line { far, joint, control, continuity } => match continuity {
                VertexConstraint::G0 => r == control,
                VertexConstraint::G1 => call_ensures(*g1, (far, joint, control), r),
                VertexConstraint::C1 => call_ensures(*c1, (far, joint), r),
            },
            Joint::Curves { incoming, outgoing, joint, continuity } => {
                let own = own_handle(j, at_start);
                let other = if at_start {
                    incoming
                } else {
                    outgoing
                };
                match continuity {
                    VertexConstraint::G0 => r == own,
                    VertexConstraint::G1 => call_ensures(*project, (joint, other, own), r),
                    VertexConstraint::C1 => call_ensures(*reflect, (joint, other), r),
                }
            },
        },
{
    match j {
        Joint::Line { far, joint, control, continuity } => match continuity {
            VertexConstraint::G0 => control,
            VertexConstraint::G1 => g1(far, joint, control),
            VertexConstraint::C1 => c1(far, joint),
        },
        Joint::Curves { incoming, outgoing, joint, continuity } => {
            let (own, other) = if at_start {
                (outgoing, incoming)
            } else {
                (incoming, outgoing)
            };
            match continuity {
                VertexConstraint::G0 => own,
                VertexConstraint::G1 => project(joint, other, own),
                VertexConstraint::C1 => reflect(joint, other),
            }
        },
    }
}

/// Where the neighbours of a dragged handle go.
///
/// Two curves meeting at the joint: at `G1` the partner handle is brought by
/// `project(joint, handle, partner)` onto the line through the joint and the
/// handle; at `C1` it becomes `reflect(joint, handle)`.
///
/// A curve meeting the straight edge `free`--`fixed`: a shape constraint on
/// that edge moves the fixed vertex first, by `vertical(handle, fixed)`,
/// `up(handle, fixed)` or `down(handle, fixed)`; with a fixed length `len` at
/// `C1` the handle itself is placed by `third(fixed, handle, len)`. Then the
/// free vertex follows: `keep_g1(fixed, free, handle)` at `G1`,
/// `keep_c1(fixed, handle)` at `C1`.
pub fn drag_answer<P: Copy, L: Copy, V, U, D, T, KG, KC, K, M>(
    rule: DragRule<P, L>,
    vertical: &V,
    up: &U,
    down: &D,
    third: &T,
    keep_g1: &KG,
    keep_c1: &KC,
    project: &K,
    reflect: &M,
) -> (r: DragFix<P>) where
    V: Fn(P, P) -> P,
    U: Fn(P, P) -> P,
    D: Fn(P, P) -> P,
    T: Fn(P, P, L) -> P,
    KG: Fn(P, P, P) -> P,
    KC: Fn(P, P) -> P,
    K: Fn(P, P, P) -> P,
    M: Fn(P, P) -> P,

    requires
        forall|a: P, b: P| call_requires(*vertical, (a, b)),
        forall|a: P, b: P| call_requires(*up, (a, b)),
        forall|a: P, b: P| call_requires(*down, (a, b)),
        forall|a: P, b: P, l: L| call_requires(*third, (a, b, l)),
        forall|a: P, b: P, c: P| call_requires(*keep_g1, (a, b, c)),
        forall|a: P, b: P| call_requires(*keep_c1, (a, b)),
        forall|a: P, b: P, c: P| call_requires(*project, (a, b, c)),
        forall|a: P, b: P| call_requires(*reflect, (a, b)),
    ensures
        match rule {
            DragRule::Alone => r is Keep,
            DragRule::Joint { continuity, joint, handle, partner } => match continuity {
                VertexConstraint::G0 => r is Keep,
                VertexConstraint::G1 => r matches DragFix::Partner(q) && call_ensures(
                    *project,
                    (joint, handle, partner),
                    q,
                ),
                VertexConstraint::C1 => r matches DragFix::Partner(q) && call_ensures(
                    *reflect,
                    (joint, handle),
                    q,
                ),
            },
            DragRule::Line { continuity, fixed, free, handle, shape } => r matches DragFix::Line {
                fixed: a,
                free: b,
                handle: h,
            } && (match shape {
                Some(EdgeConstraint::Vertical) => call_ensures(*vertical, (handle, fixed), a),
                Some(EdgeConstraint::DiagonalUp) => call_ensures(*up, (handle, fixed), a),
                Some(EdgeConstraint::DiagonalDown) => call_ensures(*down, (handle, fixed), a),
                _ => a == fixed,
            }) && (match (shape, continuity) {
                (Some(EdgeConstraint::FixedLength(len)), VertexConstraint::C1) => call_ensures(
                    *third,
                    (fixed, handle, len),
                    h,
                ),
                _ => h == handle,
            }) && (match continuity {
                VertexConstraint::G0 => b == free,
                VertexConstraint::G1 => call_ensures(*keep_g1, (a, free, handle), b),
                VertexConstraint::C1 => call_ensures(*keep_c1, (a, h), b),
            }),
        },
{
    match rule {
        DragRule::Alone => DragFix::Keep,
        DragRule::Joint { continuity, joint, handle, partner } => match continuity {
            VertexConstraint::G0 => DragFix::Keep,
            VertexConstraint::G1 => DragFix::Partner(project(joint, handle, partner)),
            VertexConstraint::C1 => DragFix::Partner(reflect(joint, handle)),
        },
        DragRule::Line { continuity, fixed, free, handle, shape } => {
            let a = match shape {
                Some(EdgeConstraint::Vertical) => vertical(handle, fixed),
                Some(EdgeConstraint::DiagonalUp) => up(handle, fixed),
                Some(EdgeConstraint::DiagonalDown) => down(handle, fixed),
                _ => fixed,
            };
            let h = match (shape, continuity) {
                (Some(EdgeConstraint::FixedLength(len)), VertexConstraint::C1) => third(
                    fixed,
                    handle,
                    len,
                ),
                _ => handle,
            };
            let b = match continuity {
                VertexConstraint::G0 => free,
                VertexConstraint::G1 => keep_g1(a, free, handle),
                VertexConstraint::C1 => keep_c1(a, h),
            };
            DragFix::Line { fixed: a, free: b, handle: h }
        },
    }
}

} // verus!
