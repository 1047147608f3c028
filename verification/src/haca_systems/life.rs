//! Conway's game of life as an interacting node value.

use crate::haca::local::{HyperEdge, Interaction};
use vstd::prelude::*;

verus! {

/// A life cell: dead at zero, alive at one.
#[derive(Clone, Copy, Debug, Eq, PartialEq, Hash, Structural)]
pub struct LifeState(pub u8);

impl Default for LifeState {
    fn default() -> (r: Self)
        ensures
            r == LifeState(0),
    {
        LifeState(0)
    }
}

/// How many of the given cells are alive.
pub open spec fn alive_count(nodes: Seq<LifeState>) -> nat
    decreases nodes.len(),
{
    if nodes.len() == 0 {
        0
    } else {
        alive_count(nodes.drop_last()) + if nodes.last() == LifeState(1) {
            1nat
        } else {
            0nat
        }
    }
}

impl Interaction<()> for LifeState {
    open spec fn spec_interact(&self, nodes: Seq<LifeState>) -> LifeState {
        let alive = alive_count(nodes);
        if alive == 2 {
            *self
        } else if alive == 3 {
            LifeState(1)
        } else {
            LifeState(0)
        }
    }

    fn interact(&self, nodes: &[LifeState], _edges: &HyperEdge<()>) -> (r: LifeState) {
        let mut alive: usize = 0;
        let mut k: usize = 0;
        while k < nodes.len()
            invariant
                k <= nodes@.len(),
                alive <= k,
                alive == alive_count(nodes@.take(k as int)),
            decreases nodes@.len() - k,
        {
            if nodes[k] == LifeState(1) {
                alive = alive + 1;
            }
            proof {
                assert(nodes@.take(k + 1 as int).drop_last() =~= nodes@.take(k as int));
                assert(nodes@.take(k + 1 as int).last() == nodes@[k as int]);
            }
            k = k + 1;
        }
        proof {
            assert(nodes@.take(nodes@.len() as int) =~= nodes@);
        }
        if alive == 2 {
            *self
        } else if alive == 3 {
            LifeState(1)
        } else {
            LifeState(0)
        }
    }
}

} // verus!
