//! The update-rule contract for topology-driven evolution.

use crate::spaces::local::{HyperEdge, Stateable};
use vstd::prelude::*;

verus! {

/// A pluggable local update rule: a pure function from a cell's current
/// state and its ordered neighbor states to the next state. Purity is part
/// of the contract: the next state is the mathematical function
/// `spec_update` of those inputs alone, so one tick may run the rule for
/// different nodes concurrently and in any order.
pub trait LocalDynamic<N, E>: Sized where N: Stateable {
    /// The size of the rule's discrete state alphabet. Purely descriptive:
    /// nothing enforces that states stay below it.
    spec fn spec_states(&self) -> u32;

    /// What one update call asks of its inputs so that it cannot fail.
    spec fn update_req(&self, node: N, neighbors: Seq<N>) -> bool;

    /// The next state as a function of the current state and the ordered
    /// neighbor states. The incident hyperedges passed to `update` carry no
    /// weight for the rules of this library.
    spec fn spec_update(&self, node: N, neighbors: Seq<N>) -> N;

    fn states(&self) -> (r: u32)
        ensures
            r == self.spec_states(),
    ;

    /// One update. The neighbor ordering must match the order of the
    /// topology's flattened neighbor list.
    fn update(&self, node: &N, nodes: &[N], edges: Vec<&HyperEdge<E>>) -> (r: N)
        requires
            self.update_req(*node, nodes@),
        ensures
            r == self.spec_update(*node, nodes@),
    ;
}

} // verus!
