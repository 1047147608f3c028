//! Interaction-driven hypergraphs: a fixed-size node array whose values
//! know how to interact with their neighborhood directly.

use crate::spaces::basic::{flat_edges_of, flatten_node_edges, neighbors_derived_from};
use crate::spaces::local::neighbors_in_range;
use crate::system::dynamical_system::neighbor_states;
use crate::third::pool::par_map_range;
use std::collections::HashMap;
use vstd::prelude::*;

verus! {

broadcast use vstd::std_specs::hash::group_hash_axioms;

/// The hyperedges incident to one node: each entry is an ordered list of
/// neighbor node indices together with an edge payload.
pub type HyperEdge<E> = Vec<(Vec<usize>, E)>;

/// A node value that can interact with its neighborhood: a pure function
/// from the node's own value and its neighbors' values to the next value.
pub trait Interaction<E>: Sized {
    /// The next value as a function of the current value and the ordered
    /// neighbor values. The incident hyperedges carry no weight for the
    /// node values of this library.
    spec fn spec_interact(&self, nodes: Seq<Self>) -> Self;

    /// One interaction: pure and total, safe to invoke concurrently for
    /// different nodes within one tick.
    fn interact(&self, nodes: &[Self], edges: &HyperEdge<E>) -> (r: Self)
        ensures
            r == self.spec_interact(nodes@),
    ;
}

/// The next value of node `i`: its own interaction applied to the values
/// its neighbor list points at, all read from the same generation.
pub open spec fn interact_cell<N: Interaction<E>, E>(
    nodes: Seq<N>,
    neighbors: Map<usize, Vec<usize>>,
    i: int,
) -> N {
    nodes[i].spec_interact(neighbor_states(nodes, neighbors[i as usize]@))
}

/// One whole synchronous generation of interactions.
pub open spec fn interact_stepped<N: Interaction<E>, E>(
    nodes: Seq<N>,
    neighbors: Map<usize, Vec<usize>>,
) -> Seq<N> {
    Seq::new(nodes.len(), |i: int| interact_cell(nodes, neighbors, i))
}

/// Whether a node buffer and a neighbor map form a usable topology.
pub open spec fn interaction_wf<N>(nodes: Seq<N>, neighbors: Map<usize, Vec<usize>>) -> bool {
    forall|i: usize|
        i < nodes.len() ==> {
            &&& #[trigger] neighbors.contains_key(i)
            &&& neighbors_in_range(neighbors[i]@, nodes.len())
        }
}

/// A hypergraph over a fixed-size array of interacting node values, with a
/// hyperedge map and the derived flattened neighbor map.
pub struct LocalHyperGraph<const D: usize, N, E> where N: Interaction<E> {
    nodes: Box<[N; D]>,
    edges: HashMap<usize, HyperEdge<E>>,
    node_neighbors: HashMap<usize, Vec<usize>>,
}

impl<const D: usize, N, E> LocalHyperGraph<D, N, E> where
    N: Interaction<E> + Copy + Send + Sync,
    E: Send + Sync,
 {
    /// The node values.
    pub closed spec fn spec_nodes(&self) -> Seq<N> {
        self.nodes@
    }

    /// The hyperedge map.
    pub closed spec fn spec_edges(&self) -> Map<usize, HyperEdge<E>> {
        self.edges@
    }

    /// The derived flattened neighbor map.
    pub closed spec fn spec_neighbors(&self) -> Map<usize, Vec<usize>> {
        self.node_neighbors@
    }

    /// Builds a graph from nodes and edges and derives the neighbor map
    /// once. Every node must have an edge entry.
    pub fn new(nodes: Box<[N; D]>, edges: HashMap<usize, HyperEdge<E>>) -> (r: Self)
        requires
            forall|i: usize| i < D ==> #[trigger] edges@.contains_key(i),
        ensures
            r.spec_nodes() == nodes@,
            r.spec_edges() == edges@,
            neighbors_derived_from(r.spec_neighbors(), r.spec_edges(), D as nat),
    {
        let mut s = LocalHyperGraph { nodes, edges, node_neighbors: HashMap::new() };
        s.update_neighbors();
        s
    }

    /// Rebuilds the flattened neighbor map from the current edge map.
    pub fn update_neighbors(&mut self)
        ensures
            final(self).spec_nodes() == old(self).spec_nodes(),
            final(self).spec_edges() == old(self).spec_edges(),
            neighbors_derived_from(
                final(self).spec_neighbors(),
                final(self).spec_edges(),
                D as nat,
            ),
    {
        let edges_ref = &self.edges;
        let f = |i: usize| -> (r: Vec<usize>)
            ensures
                r@ == flat_edges_of(edges_ref@, i),
            { flatten_node_edges(edges_ref, i) };
        let all = par_map_range(D, f);
        proof {
            assert forall|k: int| 0 <= k < D implies (#[trigger] all@[k])@ == flat_edges_of(
                edges_ref@,
                k as usize,
            ) by {
                assert(call_ensures(f, (k as usize,), all@[k]));
            }
        }
        let mut node_neighbors: HashMap<usize, Vec<usize>> = HashMap::new();
        let mut i: usize = 0;
        while i < D
            invariant
                i <= D,
                all@.len() == D,
                forall|k: int|
                    0 <= k < D ==> (#[trigger] all@[k])@ == flat_edges_of(edges_ref@, k as usize),
                forall|k: usize| node_neighbors@.contains_key(k) ==> k < i,
                forall|k: usize|
                    k < i ==> {
                        &&& #[trigger] node_neighbors@.contains_key(k)
                        &&& node_neighbors@[k]@ == flat_edges_of(edges_ref@, k)
                    },
            decreases D - i,
        {
            let row = crate::spaces::basic::copy_vec(&all[i]);
            proof {
                assert(all@[i as int]@ == flat_edges_of(edges_ref@, i));
                assert(row@ == flat_edges_of(edges_ref@, i));
            }
            let ghost before = node_neighbors@;
            node_neighbors.insert(i, row);
            proof {
                assert(node_neighbors@ == before.insert(i, row));
                assert forall|k: usize| k < i + 1 implies {
                    &&& #[trigger] node_neighbors@.contains_key(k)
                    &&& node_neighbors@[k]@ == flat_edges_of(edges_ref@, k)
                } by {
                    if k < i {
                        assert(before.contains_key(k));
                        assert(node_neighbors@[k] == before[k]);
                    } else {
                        assert(node_neighbors@[k] == row);
                    }
                }
            }
            i = i + 1;
        }
        proof {
            assert(forall|k: usize| node_neighbors@.contains_key(k) ==> k < D);
            assert(forall|k: usize|
                k < D ==> {
                    &&& #[trigger] node_neighbors@.contains_key(k)
                    &&& node_neighbors@[k]@ == flat_edges_of(edges_ref@, k)
                });
        }
        self.node_neighbors = node_neighbors;
        proof {
            assert(neighbors_derived_from(self.node_neighbors@, self.edges@, D as nat));
        }
    }

    /// Advances every node by one synchronous interaction: a fresh buffer
    /// is filled in parallel from the previous generation alone, then
    /// swapped in whole.
    pub fn compute_with_neighbors(&mut self)
        requires
            interaction_wf(old(self).spec_nodes(), old(self).spec_neighbors()),
        ensures
            final(self).spec_nodes() == interact_stepped(
                old(self).spec_nodes(),
                old(self).spec_neighbors(),
            ),
            final(self).spec_edges() == old(self).spec_edges(),
            final(self).spec_neighbors() == old(self).spec_neighbors(),
    {
        let nodes_ref = &self.nodes;
        let nbrs_ref = &self.node_neighbors;
        let f = |i: usize| -> (r: N)
            requires
                interaction_wf(nodes_ref@, nbrs_ref@),
                i < D,
            ensures
                r == interact_cell(nodes_ref@, nbrs_ref@, i as int),
            { interact_step_cell(nodes_ref, nbrs_ref, i) };
        let results = par_map_range(D, f);
        let ghost nodes0 = self.nodes@;
        let ghost nbrs0 = self.node_neighbors@;
        proof {
            assert forall|i: int| 0 <= i < D implies (#[trigger] results@[i]) == interact_cell(
                nodes0,
                nbrs0,
                i,
            ) by {
                assert(call_ensures(f, (i as usize,), results@[i]));
            }
        }
        let mut k: usize = 0;
        while k < D
            invariant
                k <= D,
                results@.len() == D,
                self.nodes@.len() == D,
                nodes0.len() == D,
                self.edges@ == old(self).edges@,
                self.node_neighbors@ == nbrs0,
                forall|i: int| 0 <= i < D ==> (#[trigger] results@[i]) == interact_cell(
                    nodes0,
                    nbrs0,
                    i,
                ),
                forall|i: int| 0 <= i < k ==> self.nodes@[i] == interact_cell(nodes0, nbrs0, i),
                forall|i: int| k <= i < D ==> self.nodes@[i] == nodes0[i],
            decreases D - k,
        {
            let cell = results[k];
            self.nodes[k] = cell;
            k = k + 1;
        }
        proof {
            assert(self.nodes@ =~= interact_stepped(nodes0, nbrs0));
        }
    }

    /// The node values, as the fixed-size array.
    pub fn nodes(&self) -> (r: &[N; D])
        ensures
            r@ == self.spec_nodes(),
    {
        &self.nodes
    }
}

/// Computes the next value of node `i` from the current generation.
fn interact_step_cell<const D: usize, N, E>(
    nodes: &Box<[N; D]>,
    neighbors_map: &HashMap<usize, Vec<usize>>,
    i: usize,
) -> (r: N) where N: Interaction<E> + Copy + Send + Sync
    requires
        interaction_wf(nodes@, neighbors_map@),
        i < D,
    ensures
        r == interact_cell(nodes@, neighbors_map@, i as int),
{
    let nbrs: &Vec<usize> = match neighbors_map.get(&i) {
        Some(v) => v,
        None => {
            proof {
                assert(neighbors_map@.contains_key(i));
            }
            vstd::pervasive::unreached()
        },
    };
    let mut gathered: Vec<N> = Vec::new();
    proof {
        assert(gathered@ =~= neighbor_states(nodes@, nbrs@.take(0)));
    }
    let mut k: usize = 0;
    while k < nbrs.len()
        invariant
            k <= nbrs@.len(),
            neighbors_in_range(nbrs@, nodes@.len()),
            gathered@ == neighbor_states(nodes@, nbrs@.take(k as int)),
        decreases nbrs@.len() - k,
    {
        let j = nbrs[k];
        gathered.push(nodes[j]);
        proof {
            assert(neighbor_states(nodes@, nbrs@.take(k + 1 as int)) =~= neighbor_states(
                nodes@,
                nbrs@.take(k as int),
            ).push(nodes@[nbrs@[k as int] as int]));
        }
        k = k + 1;
    }
    proof {
        assert(nbrs@.take(nbrs@.len() as int) =~= nbrs@);
    }
    let node = nodes[i];
    let empty_edge: HyperEdge<E> = Vec::new();
    node.interact(gathered.as_slice(), &empty_edge)
}

} // verus!
