//! The heap-backed topology and the basic discrete state.

use crate::spaces::local::{
    graph_wf, HyperEdge, LocalHyperGraph, Stateable, TopologyError,
};
use crate::third::pool::par_map_range;
use crate::third::random::random_below;
use std::collections::HashMap;
use vstd::prelude::*;

verus! {

broadcast use vstd::std_specs::hash::group_hash_axioms;

/// A cell state that is nothing but a small unsigned integer.
#[derive(Clone, Copy, Debug, Hash, Eq, PartialEq, Structural)]
pub struct DiscreteState {
    state: u32,
}

impl Default for DiscreteState {
    fn default() -> (r: Self)
        ensures
            r.spec_state() == 0,
    {
        DiscreteState { state: 0 }
    }
}

impl Stateable for DiscreteState {
    closed spec fn spec_state(&self) -> u32 {
        self.state
    }

    closed spec fn spec_from_state(state: u32) -> Self {
        DiscreteState { state }
    }

    proof fn lemma_from_state_identity(x: Self) {
    }

    fn state(&self) -> u32 {
        self.state
    }

    fn set_state(&mut self, state: u32) {
        self.state = state;
    }

    fn from_state(state: u32) -> Self {
        DiscreteState { state }
    }
}

impl DiscreteState {
    /// A buffer of `size` states, each drawn independently and uniformly
    /// from `0..states`. Only the bound on every entry is promised: the
    /// draws themselves are random.
    pub fn filled_vector(size: u32, states: u32) -> (r: Vec<DiscreteState>)
        requires
            states >= 1,
        ensures
            r@.len() == size,
            forall|i: int| 0 <= i < size ==> (#[trigger] r@[i]).spec_state() < states,
    {
        let f = |_i: usize| -> (s: DiscreteState)
            ensures
                s.spec_state() < states,
            { DiscreteState::from_state(random_below(states)) };
        let r = par_map_range(size as usize, f);
        proof {
            assert forall|i: int| 0 <= i < size implies (#[trigger] r@[i]).spec_state()
                < states by {
                assert(call_ensures(f, (i as usize,), r@[i]));
            }
        }
        r
    }
}

/// Copies a buffer of plainly copyable values element by element.
pub(crate) fn copy_vec<T: Copy>(v: &Vec<T>) -> (r: Vec<T>)
    ensures
        r@ == v@,
{
    let mut r: Vec<T> = Vec::new();
    let mut i: usize = 0;
    while i < v.len()
        invariant
            i <= v.len(),
            r@ == v@.take(i as int),
        decreases v.len() - i,
    {
        r.push(v[i]);
        proof {
            assert(v@.take(i + 1 as int) =~= v@.take(i as int).push(v@[i as int]));
        }
        i = i + 1;
    }
    proof {
        assert(v@.take(v@.len() as int) =~= v@);
    }
    r
}

/// The flattened neighbor list that one node's hyperedges induce: the
/// concatenation, in order, of every hyperedge's neighbor list.
pub open spec fn flatten_hyper_edge<E>(s: Seq<(Vec<usize>, E)>) -> Seq<usize>
    decreases s.len(),
{
    if s.len() == 0 {
        Seq::empty()
    } else {
        flatten_hyper_edge(s.drop_last()) + s.last().0@
    }
}

/// The flattened neighbor list of node `i` under an edge map: empty when the
/// map has no entry for `i`.
pub open spec fn flat_edges_of<E>(edges: Map<usize, HyperEdge<E>>, i: usize) -> Seq<usize> {
    if edges.contains_key(i) {
        flatten_hyper_edge(edges[i]@)
    } else {
        Seq::empty()
    }
}

/// Whether a neighbor map holds, for every node index below `n` and no
/// other, exactly the flattened neighbor list that the edge map induces.
pub open spec fn neighbors_derived_from<E>(
    neighbors: Map<usize, Vec<usize>>,
    edges: Map<usize, HyperEdge<E>>,
    n: nat,
) -> bool {
    &&& forall|k: usize| neighbors.contains_key(k) ==> k < n
    &&& forall|i: usize|
        i < n ==> {
            &&& #[trigger] neighbors.contains_key(i)
            &&& neighbors[i]@ == flat_edges_of(edges, i)
        }
}

/// Flattens the hyperedges of node `i` into one neighbor list.
pub(crate) fn flatten_node_edges<E>(edges: &HashMap<usize, HyperEdge<E>>, i: usize) -> (r: Vec<usize>)
    ensures
        r@ == flat_edges_of(edges@, i),
{
    match edges.get(&i) {
        Some(list) => {
            let mut out: Vec<usize> = Vec::new();
            let mut k: usize = 0;
            while k < list.len()
                invariant
                    k <= list.len(),
                    out@ == flatten_hyper_edge(list@.take(k as int)),
                decreases list.len() - k,
            {
                let entry = &list[k];
                let mut m: usize = 0;
                while m < entry.0.len()
                    invariant
                        m <= entry.0.len(),
                        entry == &list@[k as int],
                        k < list.len(),
                        out@ == flatten_hyper_edge(list@.take(k as int)) + entry.0@.take(
                            m as int),
                    decreases entry.0.len() - m,
                {
                    out.push(entry.0[m]);
                    proof {
                        assert(entry.0@.take(m + 1 as int) =~= entry.0@.take(m as int).push(
                            entry.0@[m as int]));
                    }
                    m = m + 1;
                }
                proof {
                    assert(list@.take(k + 1 as int).drop_last() =~= list@.take(k as int));
                    assert(list@.take(k + 1 as int).last() == list@[k as int]);
                    assert(entry.0@.take(entry.0@.len() as int) =~= entry.0@);
                }
                k = k + 1;
            }
            proof {
                assert(list@.take(list@.len() as int) =~= list@);
            }
            out
        },
        None => {
            Vec::new()
        },
    }
}

/// A topology held on the heap: dense node states, a hyperedge map, the
/// derived flattened neighbor map, and a read-only payload such as the grid
/// dimensions.
pub struct HyperGraphHeap<N, E, P> where N: Stateable {
    nodes: Vec<N>,
    edges: HashMap<usize, HyperEdge<E>>,
    node_neighbors: HashMap<usize, Vec<usize>>,
    payload: P,
}

impl<N, E, P> HyperGraphHeap<N, E, P> where N: Stateable {
    /// The topology-level payload, fixed at construction.
    pub closed spec fn spec_payload(&self) -> P {
        self.payload
    }

    pub fn payload(&self) -> (r: &P)
        ensures
            *r == self.spec_payload(),
    {
        &self.payload
    }
}

impl<N, E, P> LocalHyperGraph<N, E> for HyperGraphHeap<N, E, P> where N: Stateable {
    closed spec fn spec_nodes(&self) -> Seq<N> {
        self.nodes@
    }

    closed spec fn spec_edges(&self) -> Map<usize, HyperEdge<E>> {
        self.edges@
    }

    closed spec fn spec_neighbors(&self) -> Map<usize, Vec<usize>> {
        self.node_neighbors@
    }

    fn nodes(&self) -> &Vec<N> {
        &self.nodes
    }

    fn edges(&self) -> &HashMap<usize, HyperEdge<E>> {
        &self.edges
    }

    fn node_neighbors(&self) -> &HashMap<usize, Vec<usize>> {
        &self.node_neighbors
    }

    fn update_nodes(&mut self, new_nodes: Vec<N>) -> Result<(), TopologyError> {
        if new_nodes.len() == self.nodes.len() {
            self.nodes = new_nodes;
            Ok(())
        } else {
            Err(TopologyError::LengthMismatch)
        }
    }

    fn update_edges(&mut self, new_edges: HashMap<usize, HyperEdge<E>>) {
        self.edges = new_edges;
    }
}

impl<N, E, P> HyperGraphHeap<N, E, P> where N: Stateable, E: Send + Sync, P: Copy {
    /// Builds a topology from explicit nodes and edges and derives the
    /// flattened neighbor map once.
    pub fn from_nodes_and_edges(
        nodes: Vec<N>,
        edges: HashMap<usize, HyperEdge<E>>,
        payload: &P,
    ) -> (r: HyperGraphHeap<N, E, P>)
        ensures
            r.spec_nodes() == nodes@,
            r.spec_edges() == edges@,
            r.spec_payload() == *payload,
            neighbors_derived_from(r.spec_neighbors(), r.spec_edges(), r.spec_nodes().len()),
    {
        let mut s = HyperGraphHeap {
            nodes,
            edges,
            node_neighbors: HashMap::new(),
            payload: *payload,
        };
        s.update_neighbors();
        s
    }

    /// Rebuilds the flattened neighbor map from the current edge map. This
    /// is the only operation that refreshes the neighbor map; replacing the
    /// edges does not do it on its own.
    pub fn update_neighbors(&mut self)
        ensures
            final(self).spec_nodes() == old(self).spec_nodes(),
            final(self).spec_edges() == old(self).spec_edges(),
            final(self).spec_payload() == old(self).spec_payload(),
            neighbors_derived_from(
                final(self).spec_neighbors(),
                final(self).spec_edges(),
                final(self).spec_nodes().len(),
            ),
    {
        let n = self.nodes.len();
        let edges_ref = &self.edges;
        let f = |i: usize| -> (r: Vec<usize>)
            ensures
                r@ == flat_edges_of(edges_ref@, i),
            { flatten_node_edges(edges_ref, i) };
        let all = par_map_range(n, f);
        proof {
            assert forall|k: int| 0 <= k < n implies (#[trigger] all@[k])@ == flat_edges_of(
                edges_ref@,
                k as usize,
            ) by {
                assert(call_ensures(f, (k as usize,), all@[k]));
            }
        }
        let mut node_neighbors: HashMap<usize, Vec<usize>> = HashMap::new();
        let mut i: usize = 0;
        while i < n
            invariant
                i <= n,
                all@.len() == n,
                forall|k: int|
                    0 <= k < n ==> (#[trigger] all@[k])@ == flat_edges_of(edges_ref@, k as usize),
                forall|k: usize| node_neighbors@.contains_key(k) ==> k < i,
                forall|k: usize|
                    k < i ==> {
                        &&& #[trigger] node_neighbors@.contains_key(k)
                        &&& node_neighbors@[k]@ == flat_edges_of(edges_ref@, k)
                    },
            decreases n - i,
        {
            let row = copy_vec(&all[i]);
            proof {
                assert(all@[i as int]@ == flat_edges_of(edges_ref@, i));
                assert(row@ == flat_edges_of(edges_ref@, i));
            }
            let ghost before = node_neighbors@;
            node_neighbors.insert(i, row);
            proof {
                assert(node_neighbors@ == before.insert(i, row));
                assert forall|k: usize| k < i + 1 implies {
                    &&& #[trigger] node_neighbors@.contains_key(k)
                    &&& node_neighbors@[k]@ == flat_edges_of(edges_ref@, k)
                } by {
                    if k < i {
                        assert(before.contains_key(k));
                        assert(node_neighbors@[k] == before[k]);
                    } else {
                        assert(node_neighbors@[k] == row);
                    }
                }
            }
            i = i + 1;
        }
        self.node_neighbors = node_neighbors;
    }
}

} // verus!
