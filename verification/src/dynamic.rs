//! The update rule contract for flat-buffer spaces.

use crate::space::DiscreteSpace;
use vstd::prelude::*;

verus! {

/// An update rule over a whole flat state buffer: a pure function from the
/// current buffer to the next one, preserving its length.
pub trait Dynamic<const D: usize, S: DiscreteSpace<D>>: Sized {
    /// The size of the rule's state alphabet. Purely descriptive.
    spec fn spec_states(&self) -> u32;

    /// The inputs the rule accepts.
    spec fn valid_input(&self, input: Seq<u32>) -> bool;

    /// The next buffer as a function of the current one.
    spec fn spec_update(&self, input: Seq<u32>) -> Seq<u32>;

    /// The update preserves the buffer length.
    proof fn lemma_update_len(&self, input: Seq<u32>)
        requires
            self.valid_input(input),
        ensures
            self.spec_update(input).len() == input.len(),
    ;

    fn states(&self) -> (r: u32)
        ensures
            r == self.spec_states(),
    ;

    fn update(&self, input: &Vec<u32>) -> (r: Vec<u32>)
        requires
            self.valid_input(input@),
        ensures
            r@ == self.spec_update(input@),
    ;
}

} // verus!
