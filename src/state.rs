use vstd::prelude::*;
use crate::vertex::{plain_vertex, Vertex};

verus! {

/// A change of editing mode.
#[derive(Clone, Copy, Debug, PartialEq, Eq, Structural)]
pub enum StateTransition {
    ToCreating,
    ToEditing,
}

/// An outline being drawn point by point, not yet closed.
#[derive(Debug)]
pub struct CreatingState<P, L> {
    pub vertices: Vec<Vertex<P, L>>,
}

impl<P: Copy, L: Copy> CreatingState<P, L> {
    pub fn new() -> (r: Self)
        ensures
            r.vertices@.len() == 0,
    {
        CreatingState { vertices: Vec::new() }
    }

    /// A click at `p`. With at least three vertices placed and the first one
    /// under the pointer (as `near` judges), the outline is closed; otherwise
    /// a vertex is added at `p`.
    pub fn handle_add_point<N: Fn(P) -> bool>(&mut self, p: P, near: &N) -> (r: Option<
        StateTransition,
    >)
        requires
            forall|q: P| call_requires(*near, (q,)),
        ensures
            r is Some ==> r == Some(StateTransition::ToEditing) && old(self).vertices@.len() >= 3
                && call_ensures(*near, (old(self).vertices@[0].p,), true) && final(self).vertices@
                == old(self).vertices@,
            r is None ==> final(self).vertices@ == old(self).vertices@.push(plain_vertex(p)) && (
            old(self).vertices@.len() >= 3 ==> call_ensures(
                *near,
                (old(self).vertices@[0].p,),
                false,
            )),
    {
        if self.vertices.len() >= 3 && near(self.vertices[0].p) {
            return Some(StateTransition::ToEditing);
        }
        self.vertices.push(Vertex::new(p));
        None
    }
}

} // verus!
