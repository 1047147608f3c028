//! Elementary cellular automata: a 3-cell window, wrapped at the ends,
//! indexes into an 8-entry rule table.

use crate::dynamic::Dynamic;
use crate::space::OneDimensional;
use vstd::prelude::*;

verus! {

/// The rule-table index for cell `i`: the left, center and right states
/// packed into three bits, the ends of the line wrapping around.
pub open spec fn eca_index(input: Seq<u32>, i: int) -> int {
    let n = input.len() as int;
    let left = if i == 0 {
        input[n - 1]
    } else {
        input[i - 1]
    };
    let right = if i == n - 1 {
        input[0]
    } else {
        input[i + 1]
    };
    left * 4 + input[i] * 2 + right
}

/// The next buffer under a rule table: every cell looks its 3-cell window
/// up in the table.
pub open spec fn eca_step(rule: Seq<u32>, input: Seq<u32>) -> Seq<u32> {
    Seq::new(input.len(), |i: int| rule[eca_index(input, i)])
}

/// Whether a buffer is a usable elementary-automaton input: nonempty and
/// binary.
pub open spec fn eca_input_ok(input: Seq<u32>) -> bool {
    &&& input.len() >= 1
    &&& forall|i: int| 0 <= i < input.len() ==> (#[trigger] input[i]) < 2
}

/// An elementary cellular automaton: one of the 256 binary rules on a
/// wrapped line of cells.
#[derive(Debug, Clone)]
pub struct ElementaryCellularAutomaton<S: crate::space::DiscreteSpace<1>> {
    rule: [u32; 8],
    phantom: core::marker::PhantomData<S>,
}

impl<const X: usize> ElementaryCellularAutomaton<OneDimensional<X>> {
    /// The rule table: entry `k` is the next state of a cell whose window
    /// reads `k` in binary.
    pub closed spec fn spec_rule(&self) -> Seq<u32> {
        self.rule@
    }

    pub fn new(rule: [u32; 8]) -> (r: Self)
        ensures
            r.spec_rule() == rule@,
    {
        ElementaryCellularAutomaton { rule, phantom: core::marker::PhantomData }
    }

    /// Builds the rule table from a rule number: entry `k` is bit `k` of
    /// the number.
    pub fn new_from_number(rule: u32) -> (r: Self)
        ensures
            r.spec_rule().len() == 8,
            forall|i: int| 0 <= i < 8 ==> r.spec_rule()[i] == (rule >> i) & 1,
    {
        let mut rule_array: [u32; 8] = [0, 0, 0, 0, 0, 0, 0, 0];
        let mut i: usize = 0;
        while i < 8
            invariant
                i <= 8,
                forall|k: int| 0 <= k < i ==> rule_array@[k] == (rule >> k) & 1,
            decreases 8 - i,
        {
            rule_array[i] = (rule >> (i as u32)) & 1;
            i = i + 1;
        }
        Self::new(rule_array)
    }
}

impl<const X: usize> Dynamic<1, OneDimensional<X>> for ElementaryCellularAutomaton<
    OneDimensional<X>,
> {
    open spec fn spec_states(&self) -> u32 {
        2
    }

    open spec fn valid_input(&self, input: Seq<u32>) -> bool {
        &&& eca_input_ok(input)
        &&& self.spec_rule().len() == 8
    }

    open spec fn spec_update(&self, input: Seq<u32>) -> Seq<u32> {
        eca_step(self.spec_rule(), input)
    }

    proof fn lemma_update_len(&self, input: Seq<u32>) {
    }

    fn states(&self) -> u32 {
        2
    }

    fn update(&self, input: &Vec<u32>) -> (r: Vec<u32>) {
        let n = input.len();
        let mut output: Vec<u32> = Vec::new();
        let mut i: usize = 0;
        while i < n
            invariant
                i <= n,
                n == input@.len(),
                eca_input_ok(input@),
                self.spec_rule().len() == 8,
                output@.len() == i,
                forall|k: int|
                    0 <= k < i ==> (#[trigger] output@[k]) == eca_step(self.spec_rule(), input@)[k],
            decreases n - i,
        {
            let left = if i == 0 {
                input[n - 1]
            } else {
                input[i - 1]
            };
            let right = if i == n - 1 {
                input[0]
            } else {
                input[i + 1]
            };
            let center = input[i];
            let index = (left << 2u32) | (center << 1u32) | right;
            proof {
                assert((left << 2u32) | (center << 1u32) | right == left * 4 + center * 2
                    + right) by (bit_vector)
                    requires
                        left < 2,
                        center < 2,
                        right < 2,
                ;
                assert(index == eca_index(input@, i as int));
                assert(index < 8);
            }
            output.push(self.rule[index as usize]);
            i = i + 1;
        }
        proof {
            assert(output@ =~= eca_step(self.spec_rule(), input@));
        }
        output
    }
}

} // verus!
