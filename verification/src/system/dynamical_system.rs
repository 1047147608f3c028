//! A dynamical system composes exactly one topology with one update rule.
//! Its synchronous step is double-buffered: every node's next state is
//! computed from the previous generation alone, in parallel, and the whole
//! state sequence is swapped in at once.

use crate::dynamics::local::LocalDynamic;
use crate::spaces::basic::copy_vec;
use crate::spaces::local::{graph_wf, LocalHyperGraph, Stateable, TopologyError};
use crate::third::pool::par_map_range;
use vstd::prelude::*;

verus! {

broadcast use vstd::std_specs::hash::group_hash_axioms;

/// The states of the given nodes, gathered in the order of the given index
/// list.
pub open spec fn neighbor_states<N>(nodes: Seq<N>, idxs: Seq<usize>) -> Seq<N> {
    idxs.map_values(|j: usize| nodes[j as int])
}

/// The next state of node `i`: the rule applied to `i`'s current state and
/// the current states of its neighbors, all read from the same generation.
pub open spec fn cell_step<S, D, N, E>(space: &S, dynamic: &D, i: int) -> N where
    S: LocalHyperGraph<N, E>,
    D: LocalDynamic<N, E>,
    N: Stateable,
 {
    dynamic.spec_update(
        space.spec_nodes()[i],
        neighbor_states(space.spec_nodes(), space.spec_neighbors()[i as usize]@),
    )
}

/// One whole synchronous generation: every node stepped against the same
/// previous generation.
pub open spec fn stepped<S, D, N, E>(space: &S, dynamic: &D) -> Seq<N> where
    S: LocalHyperGraph<N, E>,
    D: LocalDynamic<N, E>,
    N: Stateable,
 {
    Seq::new(space.spec_nodes().len(), |i: int| cell_step(space, dynamic, i))
}

/// Whether the rule's own update requirement holds at every node of the
/// topology.
pub open spec fn step_req<S, D, N, E>(space: &S, dynamic: &D) -> bool where
    S: LocalHyperGraph<N, E>,
    D: LocalDynamic<N, E>,
    N: Stateable,
 {
    forall|i: usize|
        i < space.spec_nodes().len() ==> dynamic.update_req(
            space.spec_nodes()[i as int],
            neighbor_states(space.spec_nodes(), #[trigger] space.spec_neighbors()[i]@),
        )
}

/// Computes the next state of node `i` from the current generation.
fn step_cell<S, D, N, E>(space: &S, dynamic: &D, i: usize) -> (r: N) where
    S: LocalHyperGraph<N, E>,
    D: LocalDynamic<N, E>,
    N: Stateable,

    requires
        graph_wf(space),
        i < space.spec_nodes().len(),
        step_req(space, dynamic),
    ensures
        r == cell_step(space, dynamic, i as int),
{
    let nodes_ref = space.nodes();
    let nbrs: &Vec<usize> = match space.node_neighbors().get(&i) {
        Some(v) => v,
        None => {
            proof {
                assert(space.spec_neighbors().contains_key(i));
            }
            vstd::pervasive::unreached()
        },
    };
    let mut gathered: Vec<N> = Vec::new();
    proof {
        assert(gathered@ =~= neighbor_states(nodes_ref@, nbrs@.take(0)));
    }
    let mut k: usize = 0;
    while k < nbrs.len()
        invariant
            k <= nbrs@.len(),
            gathered@ == neighbor_states(nodes_ref@, nbrs@.take(k as int)),
            crate::spaces::local::neighbors_in_range(nbrs@, nodes_ref@.len()),
        decreases nbrs@.len() - k,
    {
        let j = nbrs[k];
        gathered.push(nodes_ref[j]);
        proof {
            assert(neighbor_states(nodes_ref@, nbrs@.take(k + 1 as int)) =~= neighbor_states(
                nodes_ref@,
                nbrs@.take(k as int),
            ).push(nodes_ref@[nbrs@[k as int] as int]));
        }
        k = k + 1;
    }
    proof {
        assert(nbrs@.take(nbrs@.len() as int) =~= nbrs@);
    }
    let node = nodes_ref[i];
    dynamic.update(&node, gathered.as_slice(), Vec::new())
}

/// A dynamical system: one topology, one rule, nothing else. All evolution
/// state lives in the topology's node buffer.
pub struct DynamicalSystem<S, D, N, E> where
    S: LocalHyperGraph<N, E>,
    D: LocalDynamic<N, E>,
    N: Stateable,
 {
    _id: String,
    space: Box<S>,
    dynamic: Box<D>,
    phantom: core::marker::PhantomData<(N, E)>,
}

impl<S, D, N, E> DynamicalSystem<S, D, N, E> where
    S: LocalHyperGraph<N, E> + Send + Sync,
    D: LocalDynamic<N, E> + Send + Sync,
    N: Stateable,
 {
    /// The topology this system owns.
    pub closed spec fn spec_space(&self) -> S {
        *self.space
    }

    /// The rule this system owns.
    pub closed spec fn spec_dynamic(&self) -> D {
        *self.dynamic
    }

    /// The system's descriptive name.
    pub closed spec fn spec_id(&self) -> Seq<char> {
        self._id@
    }

    pub fn new(space: Box<S>, dynamic: Box<D>) -> (r: Self)
        ensures
            r.spec_space() == *space,
            r.spec_dynamic() == *dynamic,
            r.spec_id() == "DynamicalSystem"@,
    {
        DynamicalSystem {
            _id: "DynamicalSystem".to_owned(),
            space,
            dynamic,
            phantom: core::marker::PhantomData,
        }
    }

    /// An owned copy of all node states, for rendering or export.
    pub fn space_state(&self) -> (r: Vec<N>)
        ensures
            r@ == self.spec_space().spec_nodes(),
    {
        copy_vec((*self.space).nodes())
    }

    pub fn space(&self) -> (r: &S)
        ensures
            *r == self.spec_space(),
    {
        &self.space
    }

    pub fn dynamic(&self) -> (r: &D)
        ensures
            *r == self.spec_dynamic(),
    {
        &self.dynamic
    }

    /// The system's descriptive name.
    pub fn describe(&self) -> (r: String)
        ensures
            r@ == self.spec_id(),
    {
        self._id.clone()
    }

    pub fn set_dynamic(&mut self, dynamic: Box<D>)
        ensures
            final(self).spec_dynamic() == *dynamic,
            final(self).spec_space() == old(self).spec_space(),
            final(self).spec_id() == old(self).spec_id(),
    {
        self.dynamic = dynamic;
    }

    pub fn set_space(&mut self, space: Box<S>)
        ensures
            final(self).spec_space() == *space,
            final(self).spec_dynamic() == old(self).spec_dynamic(),
            final(self).spec_id() == old(self).spec_id(),
    {
        self.space = space;
    }

    /// Hands the whole node buffer to the given function and installs what
    /// it returns. The function must keep the buffer length unchanged.
    pub fn update_space<F: Fn(Vec<N>) -> Vec<N>>(&mut self, mutator: F)
        requires
            forall|a: Vec<N>| #[trigger] call_requires(mutator, (a,)),
            forall|a: Vec<N>, b: Vec<N>| #[trigger] call_ensures(mutator, (a,), b) ==> b@.len()
                == a@.len(),
        ensures
            exists|a: Vec<N>, b: Vec<N>|
                {
                    &&& a@ == old(self).spec_space().spec_nodes()
                    &&& #[trigger] call_ensures(mutator, (a,), b)
                    &&& final(self).spec_space().spec_nodes() == b@
                },
            final(self).spec_space().spec_edges() == old(self).spec_space().spec_edges(),
            final(self).spec_space().spec_neighbors() == old(self).spec_space().spec_neighbors(),
            final(self).spec_dynamic() == old(self).spec_dynamic(),
            final(self).spec_id() == old(self).spec_id(),
    {
        let current = copy_vec((*self.space).nodes());
        let ghost before = current;
        let new_nodes = mutator(current);
        let res = (*self.space).update_nodes(new_nodes);
        proof {
            assert(res == Result::<(), TopologyError>::Ok(()));
        }
    }

    /// Advances the system by one synchronous generation. A fresh buffer is
    /// filled in parallel, one task per node, every task reading only the
    /// previous generation; the topology's state sequence is then swapped to
    /// the new buffer at once.
    pub fn compute_sync(&mut self)
        requires
            graph_wf(&old(self).spec_space()),
            step_req(&old(self).spec_space(), &old(self).spec_dynamic()),
        ensures
            final(self).spec_space().spec_nodes() == stepped(
                &old(self).spec_space(),
                &old(self).spec_dynamic(),
            ),
            final(self).spec_space().spec_edges() == old(self).spec_space().spec_edges(),
            final(self).spec_space().spec_neighbors() == old(self).spec_space().spec_neighbors(),
            final(self).spec_dynamic() == old(self).spec_dynamic(),
            final(self).spec_id() == old(self).spec_id(),
    {
        let space_ref: &S = &self.space;
        let dynamic_ref: &D = &self.dynamic;
        let n = space_ref.nodes().len();
        let f = |i: usize| -> (r: N)
            requires
                graph_wf(space_ref),
                i < space_ref.spec_nodes().len(),
                step_req(space_ref, dynamic_ref),
            ensures
                r == cell_step(space_ref, dynamic_ref, i as int),
            { step_cell(space_ref, dynamic_ref, i) };
        let new_nodes = par_map_range(n, f);
        proof {
            assert forall|i: int| 0 <= i < n implies new_nodes@[i] == cell_step(
                space_ref,
                dynamic_ref,
                i,
            ) by {
                assert(call_ensures(f, (i as usize,), new_nodes@[i]));
            }
            assert(new_nodes@ =~= stepped(space_ref, dynamic_ref));
        }
        let res = (*self.space).update_nodes(new_nodes);
        proof {
            assert(res == Result::<(), TopologyError>::Ok(()));
        }
    }
}

/// Determinism of the synchronous step: the next generation is a function
/// of the node states, the flattened neighbor map, and the rule alone. Two
/// topologies that agree on states and neighbors step to identical state
/// sequences, whatever order the per-node tasks ran in.
pub proof fn lemma_compute_sync_deterministic<S, D, N, E>(a: S, b: S, dynamic: D) where
    S: LocalHyperGraph<N, E>,
    D: LocalDynamic<N, E>,
    N: Stateable,

    requires
        a.spec_nodes() == b.spec_nodes(),
        a.spec_neighbors() == b.spec_neighbors(),
    ensures
        stepped(&a, &dynamic) == stepped(&b, &dynamic),
{
    assert forall|i: int| 0 <= i < a.spec_nodes().len() implies cell_step::<S, D, N, E>(
        &a,
        &dynamic,
        i,
    ) == cell_step::<S, D, N, E>(&b, &dynamic, i) by {
        assert(a.spec_neighbors()[i as usize] == b.spec_neighbors()[i as usize]);
    }
    assert(stepped(&a, &dynamic) =~= stepped(&b, &dynamic));
}

/// Synchronicity: what the rule observes at node `i` during a step is the
/// pre-tick state of `i` and the pre-tick states of its neighbors, never a
/// value written within the same tick.
pub proof fn lemma_step_is_synchronous<S, D, N, E>(space: S, dynamic: D, i: int) where
    S: LocalHyperGraph<N, E>,
    D: LocalDynamic<N, E>,
    N: Stateable,

    requires
        0 <= i < space.spec_nodes().len(),
    ensures
        stepped(&space, &dynamic)[i] == dynamic.spec_update(
            space.spec_nodes()[i],
            neighbor_states(space.spec_nodes(), space.spec_neighbors()[i as usize]@),
        ),
{
}

} // verus!
