//! The cyclic ("rock-paper-scissors") automaton: a cell advances to the next
//! state of the cycle when enough neighbors already hold that next state.

use crate::dynamics::local::LocalDynamic;
use crate::spaces::local::{HyperEdge, Stateable};
use vstd::prelude::*;

verus! {

/// The state that follows `s` in a cycle of `states` states.
pub open spec fn cyclic_successor(states: u32, s: u32) -> int {
    (s + 1) % (states as int)
}

/// How many of the given neighbor states equal `succ`.
pub open spec fn successor_count<N: Stateable>(succ: int, neighbors: Seq<N>) -> nat
    decreases neighbors.len(),
{
    if neighbors.len() == 0 {
        0
    } else {
        successor_count(succ, neighbors.drop_last()) + if neighbors.last().spec_state() == succ {
            1nat
        } else {
            0nat
        }
    }
}

/// A cyclic automaton over `states` states: a cell steps to its successor
/// state exactly when at least `threshold` neighbors already hold it.
#[derive(Clone, Copy, Hash, Eq, PartialEq, Structural, Debug)]
pub struct CyclicAutomaton {
    states: u32,
    threshold: u32,
}

impl CyclicAutomaton {
    /// The threshold: how many successor-state neighbors force the step.
    pub closed spec fn spec_threshold(&self) -> u32 {
        self.threshold
    }

    pub fn new(states: u32, threshold: u32) -> (r: Self)
        ensures
            r.spec_states_value() == states,
            r.spec_threshold() == threshold,
    {
        CyclicAutomaton { states, threshold }
    }

    /// The size of the state alphabet.
    pub closed spec fn spec_states_value(&self) -> u32 {
        self.states
    }

    pub fn threshold(&self) -> (r: u32)
        ensures
            r == self.spec_threshold(),
    {
        self.threshold
    }
}

impl<N, E> LocalDynamic<N, E> for CyclicAutomaton where N: Stateable {
    open spec fn spec_states(&self) -> u32 {
        self.spec_states_value()
    }

    /// The cycle length must not be zero; nothing is asked of the states.
    open spec fn update_req(&self, node: N, neighbors: Seq<N>) -> bool {
        self.spec_states_value() >= 1
    }

    open spec fn spec_update(&self, node: N, neighbors: Seq<N>) -> N {
        let succ = cyclic_successor(self.spec_states_value(), node.spec_state());
        if successor_count(succ, neighbors) >= self.spec_threshold() {
            N::spec_from_state(succ as u32)
        } else {
            node
        }
    }

    fn states(&self) -> u32 {
        self.states
    }

    fn update(&self, node: &N, nodes: &[N], _edges: Vec<&HyperEdge<E>>) -> (r: N) {
        let succ64 = (node.state() as u64 + 1) % (self.states as u64);
        let succ = succ64 as u32;
        proof {
            assert(succ == cyclic_successor(self.spec_states_value(), node.spec_state()));
        }
        let ghost succ_spec = cyclic_successor(self.spec_states_value(), node.spec_state());
        let mut total: usize = 0;
        let mut k: usize = 0;
        while k < nodes.len()
            invariant
                k <= nodes@.len(),
                total <= k,
                succ == succ_spec,
                total == successor_count(succ_spec, nodes@.take(k as int)),
            decreases nodes@.len() - k,
        {
            if nodes[k].state() == succ {
                total = total + 1;
            }
            proof {
                assert(nodes@.take(k + 1 as int).drop_last() =~= nodes@.take(k as int));
                assert(nodes@.take(k + 1 as int).last() == nodes@[k as int]);
            }
            k = k + 1;
        }
        proof {
            assert(nodes@.take(nodes@.len() as int) =~= nodes@);
        }
        if total >= self.threshold as usize {
            N::from_state(succ)
        } else {
            *node
        }
    }
}

} // verus!
