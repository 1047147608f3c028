//! The lattice adapter for GPU evolution: the pure parts of the compute
//! pipeline's contract. A lattice-shaped topology exposes its 2D shape and
//! an observation neighborhood; the kernel footprint crops the output, and
//! the cropped output is redistributed over the full node count by a
//! modulo wrap. Everything device-bound — buffers, bind groups, dispatch
//! and blocking readback — lives with the caller that owns the device.

use crate::haca::states_of;
use crate::spaces::basic::DiscreteState;
use crate::spaces::grid::moore_offsets;
use crate::spaces::local::Stateable;
use vstd::prelude::*;

verus! {

/// The observation neighborhood of a lattice rule: the eight Moore
/// offsets, each as a `(row offset, column offset)` pair, in the same
/// fixed order the grid builder uses.
pub fn observation_neighbors() -> (r: Vec<Vec<i32>>)
    ensures
        r@.len() == 8,
        forall|k: int|
            0 <= k < 8 ==> (#[trigger] r@[k])@ == seq![
                moore_offsets()[k].1 as i32,
                moore_offsets()[k].0 as i32,
            ],
{
    let mut r: Vec<Vec<i32>> = Vec::new();
    r.push(vec![-1, -1]);
    r.push(vec![-1, 0]);
    r.push(vec![-1, 1]);
    r.push(vec![0, -1]);
    r.push(vec![0, 1]);
    r.push(vec![1, -1]);
    r.push(vec![1, 0]);
    r.push(vec![1, 1]);
    proof {
        assert(moore_offsets()[0] == (-1int, -1int));
        assert(moore_offsets()[1] == (0int, -1int));
        assert(moore_offsets()[2] == (1int, -1int));
        assert(moore_offsets()[3] == (-1int, 0int));
        assert(moore_offsets()[4] == (1int, 0int));
        assert(moore_offsets()[5] == (-1int, 1int));
        assert(moore_offsets()[6] == (0int, 1int));
        assert(moore_offsets()[7] == (1int, 1int));
        assert forall|k: int| 0 <= k < 8 implies (#[trigger] r@[k])@ == seq![
            moore_offsets()[k].1 as i32,
            moore_offsets()[k].0 as i32,
        ] by {
            assert(r@[k]@ =~= seq![moore_offsets()[k].1 as i32, moore_offsets()[k].0 as i32]);
        }
    }
    r
}

/// The output shape of a square kernel applied to a `width` by `height`
/// image: the kernel footprint shrinks each dimension by its size less
/// one.
pub fn kernel_output_shape(width: u32, height: u32, kernel_size: u32) -> (r: (u32, u32))
    requires
        1 <= kernel_size,
        kernel_size <= width,
        kernel_size <= height,
    ensures
        r.0 == width - (kernel_size - 1),
        r.1 == height - (kernel_size - 1),
{
    let crop = kernel_size - 1;
    (width - crop, height - crop)
}

/// Flattens node states into the dense buffer handed to the device: one
/// level per node, in node order.
pub fn states_to_levels(nodes: &Vec<DiscreteState>) -> (r: Vec<u32>)
    ensures
        r@ == states_of(nodes@),
{
    let mut r: Vec<u32> = Vec::new();
    let mut i: usize = 0;
    proof {
        assert(r@ =~= states_of(nodes@.take(0)));
    }
    while i < nodes.len()
        invariant
            i <= nodes@.len(),
            r@ == states_of(nodes@.take(i as int)),
        decreases nodes@.len() - i,
    {
        r.push(nodes[i].state());
        proof {
            assert(states_of(nodes@.take(i + 1 as int)) =~= states_of(nodes@.take(i as int)).push(
                nodes@[i as int].spec_state()));
        }
        i = i + 1;
    }
    proof {
        assert(nodes@.take(nodes@.len() as int) =~= nodes@);
    }
    r
}

/// Rebuilds the full node buffer from a cropped device output: node `i`
/// takes the level at `i` modulo the output length. The kernel footprint
/// makes the output shorter than the node count, so the tail of the nodes
/// re-reads the head of the output; the wrap keeps the buffer lengths
/// consistent but does not preserve per-cell identity, and is stated here
/// exactly so that no caller mistakes it for an identity mapping.
pub fn redistribute_levels(output: &Vec<u32>, count: usize) -> (r: Vec<DiscreteState>)
    requires
        output@.len() >= 1,
    ensures
        r@.len() == count,
        forall|i: int|
            0 <= i < count ==> (#[trigger] r@[i]) == DiscreteState::spec_from_state(
                output@[i % (output@.len() as int)],
            ),
{
    let len = output.len();
    let mut r: Vec<DiscreteState> = Vec::new();
    let mut i: usize = 0;
    while i < count
        invariant
            i <= count,
            len == output@.len(),
            len >= 1,
            r@.len() == i,
            forall|k: int|
                0 <= k < i ==> (#[trigger] r@[k]) == DiscreteState::spec_from_state(
                    output@[k % (len as int)],
                ),
        decreases count - i,
    {
        let v = output[i % len];
        r.push(DiscreteState::from_state(v));
        i = i + 1;
    }
    r
}

} // verus!
