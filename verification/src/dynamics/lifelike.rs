//! Life-like automata over a topology: a birth set and a survival set judge
//! the sum of the neighbor states.

use crate::dynamics::local::LocalDynamic;
use crate::spaces::local::{HyperEdge, Stateable};
use vstd::prelude::*;

verus! {

/// The sum of the given neighbor states.
pub open spec fn state_sum<N: Stateable>(neighbors: Seq<N>) -> int
    decreases neighbors.len(),
{
    if neighbors.len() == 0 {
        0
    } else {
        state_sum(neighbors.drop_last()) + neighbors.last().spec_state()
    }
}

/// Whether `v` occurs in the list.
pub open spec fn list_has(list: Seq<u32>, v: int) -> bool {
    exists|j: int| 0 <= j < list.len() && list[j] == v
}

/// Tests whether `v` occurs in the list.
pub(crate) fn slice_has_u64(list: &[u32], v: u64) -> (r: bool)
    ensures
        r == list_has(list@, v as int),
{
    let mut k: usize = 0;
    while k < list.len()
        invariant
            k <= list@.len(),
            forall|j: int| 0 <= j < k ==> list@[j] != v as int,
        decreases list@.len() - k,
    {
        if list[k] as u64 == v {
            proof {
                assert(list@[k as int] == v as int);
            }
            return true;
        }
        k = k + 1;
    }
    false
}

/// A Life-like automaton: a cell is born when the neighbor-state sum lies in
/// the birth list, survives unchanged when it lies in the survival list, and
/// dies to state zero otherwise.
#[derive(Clone, Copy, Hash, Eq, PartialEq, Debug)]
pub struct LifeLike {
    b_list: &'static [u32],
    s_list: &'static [u32],
}

impl LifeLike {
    /// The birth list.
    pub closed spec fn spec_b_list(&self) -> Seq<u32> {
        self.b_list@
    }

    /// The survival list.
    pub closed spec fn spec_s_list(&self) -> Seq<u32> {
        self.s_list@
    }

    pub fn new(b_list: &'static [u32], s_list: &'static [u32]) -> (r: Self)
        ensures
            r.spec_b_list() == b_list@,
            r.spec_s_list() == s_list@,
    {
        LifeLike { b_list, s_list }
    }
}

impl<N, E> LocalDynamic<N, E> for LifeLike where N: Stateable {
    open spec fn spec_states(&self) -> u32 {
        2
    }

    /// The neighbor count must fit in 32 bits so that the state sum fits in
    /// the 64-bit accumulator; nothing is asked of the states themselves.
    open spec fn update_req(&self, node: N, neighbors: Seq<N>) -> bool {
        neighbors.len() <= u32::MAX
    }

    open spec fn spec_update(&self, node: N, neighbors: Seq<N>) -> N {
        let total = state_sum(neighbors);
        if list_has(self.spec_b_list(), total) {
            N::spec_from_state(1)
        } else if list_has(self.spec_s_list(), total) {
            node
        } else {
            N::spec_from_state(0)
        }
    }

    fn states(&self) -> u32 {
        2
    }

    fn update(&self, node: &N, nodes: &[N], _edges: Vec<&HyperEdge<E>>) -> (r: N) {
        let mut total: u64 = 0;
        let mut k: usize = 0;
        while k < nodes.len()
            invariant
                k <= nodes@.len(),
                nodes@.len() <= u32::MAX,
                total == state_sum(nodes@.take(k as int)),
                total <= (k as int) * (u32::MAX as int),
            decreases nodes@.len() - k,
        {
            let s = nodes[k].state();
            proof {
                assert(nodes@.take(k + 1 as int).drop_last() =~= nodes@.take(k as int));
                assert(nodes@.take(k + 1 as int).last() == nodes@[k as int]);
                assert(total + s <= (k as int + 1) * (u32::MAX as int)) by (nonlinear_arith)
                    requires
                        total <= (k as int) * (u32::MAX as int),
                        s <= u32::MAX,
                ;
                assert((k as int + 1) * (u32::MAX as int) <= (u32::MAX as int) * (u32::MAX as int))
                    by (nonlinear_arith)
                    requires
                        k as int + 1 <= u32::MAX as int,
                ;
                assert((u32::MAX as int) * (u32::MAX as int) < u64::MAX as int);
            }
            total = total + s as u64;
            k = k + 1;
        }
        proof {
            assert(nodes@.take(nodes@.len() as int) =~= nodes@);
        }
        if slice_has_u64(self.b_list, total) {
            N::from_state(1)
        } else if slice_has_u64(self.s_list, total) {
            *node
        } else {
            N::from_state(0)
        }
    }
}

/// The listed counts folded into one bitmask word: bit `b` is set exactly
/// when `b` occurs in the list.
pub open spec fn count_mask(list: Seq<u32>) -> u32
    decreases list.len(),
{
    if list.len() == 0 {
        0u32
    } else {
        count_mask(list.drop_last()) | (1u32 << list.last())
    }
}

/// Folds a count list into its bitmask word.
fn mask_of_list(list: &[u32]) -> (r: u32)
    requires
        forall|i: int| 0 <= i < list@.len() ==> (#[trigger] list@[i]) < 32,
    ensures
        r == count_mask(list@),
{
    let mut acc: u32 = 0;
    let mut k: usize = 0;
    proof {
        assert(list@.take(0).len() == 0);
    }
    while k < list.len()
        invariant
            k <= list@.len(),
            forall|i: int| 0 <= i < list@.len() ==> (#[trigger] list@[i]) < 32,
            acc == count_mask(list@.take(k as int)),
        decreases list@.len() - k,
    {
        acc = acc | (1u32 << list[k]);
        proof {
            assert(list@.take(k + 1 as int).drop_last() =~= list@.take(k as int));
            assert(list@.take(k + 1 as int).last() == list@[k as int]);
        }
        k = k + 1;
    }
    proof {
        assert(list@.take(list@.len() as int) =~= list@);
    }
    acc
}

impl LifeLike {
    /// The birth list as the bitmask word the compute kernel takes.
    pub fn birth_mask(&self) -> (r: u32)
        requires
            forall|i: int|
                0 <= i < self.spec_b_list().len() ==> (#[trigger] self.spec_b_list()[i]) < 32,
        ensures
            r == count_mask(self.spec_b_list()),
    {
        proof {
            assert forall|i: int|
                0 <= i < self.b_list@.len() implies (#[trigger] self.b_list@[i]) < 32 by {
                assert(self.spec_b_list()[i] < 32);
            }
        }
        mask_of_list(self.b_list)
    }

    /// The survival list as the bitmask word the compute kernel takes.
    pub fn survival_mask(&self) -> (r: u32)
        requires
            forall|i: int|
                0 <= i < self.spec_s_list().len() ==> (#[trigger] self.spec_s_list()[i]) < 32,
        ensures
            r == count_mask(self.spec_s_list()),
    {
        proof {
            assert forall|i: int|
                0 <= i < self.s_list@.len() implies (#[trigger] self.s_list@[i]) < 32 by {
                assert(self.spec_s_list()[i] < 32);
            }
        }
        mask_of_list(self.s_list)
    }
}

} // verus!
