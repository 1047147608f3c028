//! The state contract and the topology contract.
//!
//! A cell's state is an opaque small unsigned integer: the only operations are
//! reading the value and constructing a state from a value. A topology owns a
//! dense node-state sequence, a map from node index to its hyperedges, and a
//! derived map from node index to the flattened list of neighbor indices.

use vstd::prelude::*;

verus! {

/// The hyperedges incident to one node: each entry is an ordered list of
/// neighbor node indices together with a rule-agnostic edge payload.
pub type HyperEdge<E> = Vec<(Vec<usize>, E)>;

/// What a cell's state is: a value that can be read as a small unsigned
/// integer and rebuilt from one, with no identity beyond that value.
pub trait Stateable: Sized + Clone + Copy + Send + Sync + Eq + core::hash::Hash {
    /// The integer value this state carries.
    spec fn spec_state(&self) -> u32;

    /// The state that carries a given integer value.
    spec fn spec_from_state(state: u32) -> Self;

    /// A state has no identity beyond its value: rebuilding a state from its
    /// own value gives the state back.
    proof fn lemma_from_state_identity(x: Self)
        ensures
            Self::spec_from_state(x.spec_state()) == x,
    ;

    fn state(&self) -> (r: u32)
        ensures
            r == self.spec_state(),
    ;

    fn set_state(&mut self, state: u32)
        ensures
            *final(self) == Self::spec_from_state(state),
    ;

    fn from_state(state: u32) -> (r: Self)
        ensures
            r == Self::spec_from_state(state),
            r.spec_state() == state,
    ;
}

/// The error a topology reports when an operation is handed a state buffer
/// whose length does not match the node count.
#[derive(Clone, Copy, Debug, PartialEq, Eq, Structural)]
pub enum TopologyError {
    LengthMismatch,
}

/// Whether a sequence of neighbor indices only points at nodes that exist.
pub open spec fn neighbors_in_range(nbrs: Seq<usize>, node_count: nat) -> bool {
    forall|j: int| 0 <= j < nbrs.len() ==> (#[trigger] nbrs[j]) < node_count
}

/// A topology: node states, hyperedges, and the derived flattened neighbor
/// map. The neighbor map is rebuilt on demand, never silently, so after an
/// edge replacement it may lag behind the edge map.
pub trait LocalHyperGraph<N, E>: Sized where N: Stateable {
    /// The dense node-state sequence.
    spec fn spec_nodes(&self) -> Seq<N>;

    /// The hyperedge map, keyed by node index.
    spec fn spec_edges(&self) -> Map<usize, HyperEdge<E>>;

    /// The derived flattened neighbor map, keyed by node index.
    spec fn spec_neighbors(&self) -> Map<usize, Vec<usize>>;

    fn nodes(&self) -> (r: &Vec<N>)
        ensures
            r@ == self.spec_nodes(),
    ;

    fn edges(&self) -> (r: &std::collections::HashMap<usize, HyperEdge<E>>)
        ensures
            r@ == self.spec_edges(),
    ;

    fn node_neighbors(&self) -> (r: &std::collections::HashMap<usize, Vec<usize>>)
        ensures
            r@ == self.spec_neighbors(),
    ;

    /// Atomically replaces the whole state sequence. The new buffer must have
    /// exactly one state per node; any other length is rejected and the
    /// topology is left untouched.
    fn update_nodes(&mut self, new_nodes: Vec<N>) -> (r: Result<(), TopologyError>)
        ensures
            new_nodes@.len() == old(self).spec_nodes().len() ==> {
                &&& r == Result::<(), TopologyError>::Ok(())
                &&& final(self).spec_nodes() == new_nodes@
            },
            new_nodes@.len() != old(self).spec_nodes().len() ==> {
                &&& r == Result::<(), TopologyError>::Err(TopologyError::LengthMismatch)
                &&& final(self).spec_nodes() == old(self).spec_nodes()
            },
            final(self).spec_edges() == old(self).spec_edges(),
            final(self).spec_neighbors() == old(self).spec_neighbors(),
    ;

    /// Atomically replaces the edge map. The derived neighbor map is *not*
    /// refreshed: callers that need it consistent must rebuild it afterward.
    fn update_edges(&mut self, new_edges: std::collections::HashMap<usize, HyperEdge<E>>)
        ensures
            final(self).spec_edges() == new_edges@,
            final(self).spec_nodes() == old(self).spec_nodes(),
            final(self).spec_neighbors() == old(self).spec_neighbors(),
    ;
}

/// Whether a topology is well formed: every node has an entry in the derived
/// neighbor map and every neighbor index points at a node that exists.
pub open spec fn graph_wf<N: Stateable, E, S: LocalHyperGraph<N, E>>(s: &S) -> bool {
    forall|i: usize|
        i < s.spec_nodes().len() ==> {
            &&& #[trigger] s.spec_neighbors().contains_key(i)
            &&& neighbors_in_range(s.spec_neighbors()[i]@, s.spec_nodes().len())
        }
}

} // verus!
