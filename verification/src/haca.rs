//! The memoized evolution engine: a hypergraph of discrete states whose
//! synchronous step looks each `(state, neighbor states)` pair up in a
//! concurrent cache before invoking the rule, and records every freshly
//! computed result. Entries are never evicted: unbounded growth is an
//! accepted tradeoff of this engine.

pub mod local;

use crate::dynamics::local::LocalDynamic;
use crate::spaces::basic::{copy_vec, DiscreteState};
use crate::spaces::local::{neighbors_in_range, Stateable};
use crate::system::dynamical_system::neighbor_states;
use crate::third::memo::{memo_contents, memo_empty, memo_get, memo_insert, memo_new};
use crate::third::pool::par_map_range;
use std::collections::HashMap;
use vstd::prelude::*;

verus! {

broadcast use vstd::std_specs::hash::group_hash_axioms;

/// The states carried by a sequence of cells.
pub open spec fn states_of(nodes: Seq<DiscreteState>) -> Seq<u32> {
    nodes.map_values(|d: DiscreteState| d.spec_state())
}

/// The cells carrying a sequence of states.
pub open spec fn nodes_of(states: Seq<u32>) -> Seq<DiscreteState> {
    states.map_values(|v: u32| DiscreteState::spec_from_state(v))
}

/// Rebuilding cells from their own states gives the cells back.
pub proof fn lemma_nodes_of_states_of(nodes: Seq<DiscreteState>)
    ensures
        nodes_of(states_of(nodes)) == nodes,
{
    assert forall|j: int| 0 <= j < nodes.len() implies nodes_of(states_of(nodes))[j]
        == nodes[j] by {
        DiscreteState::lemma_from_state_identity(nodes[j]);
    }
    assert(nodes_of(states_of(nodes)) =~= nodes);
}

/// Whether a node buffer and a neighbor map form a usable topology: every
/// node has a neighbor entry and every neighbor index is a real node.
pub open spec fn haca_wf(nodes: Seq<DiscreteState>, neighbors: Map<usize, Vec<usize>>) -> bool {
    forall|i: usize|
        i < nodes.len() ==> {
            &&& #[trigger] neighbors.contains_key(i)
            &&& neighbors_in_range(neighbors[i]@, nodes.len())
        }
}

/// Whether the rule's update requirement holds at every node.
pub open spec fn haca_step_req<Dn: LocalDynamic<DiscreteState, ()>>(
    nodes: Seq<DiscreteState>,
    neighbors: Map<usize, Vec<usize>>,
    dynamic: &Dn,
) -> bool {
    forall|i: usize|
        i < nodes.len() ==> dynamic.update_req(
            nodes[i as int],
            neighbor_states(nodes, #[trigger] neighbors[i]@),
        )
}

/// The cache key of node `i`: its state and its ordered neighbor states.
pub open spec fn memo_key(
    nodes: Seq<DiscreteState>,
    neighbors: Map<usize, Vec<usize>>,
    i: int,
) -> (u32, Seq<u32>) {
    (nodes[i].spec_state(), states_of(neighbor_states(nodes, neighbors[i as usize]@)))
}

/// A cache is valid for a rule when every recorded entry is the rule's own
/// output for the key's input.
pub open spec fn memo_valid<Dn: LocalDynamic<DiscreteState, ()>>(
    memo: Map<(u32, Seq<u32>), u32>,
    dynamic: &Dn,
) -> bool {
    forall|key: (u32, Seq<u32>)| #[trigger]
        memo.contains_key(key) ==> memo[key] == dynamic.spec_update(
            DiscreteState::spec_from_state(key.0),
            nodes_of(key.1),
        ).spec_state()
}

/// Validity of the cache held in a store, stated over the store itself.
pub open spec fn memo_ref_valid<Dn: LocalDynamic<DiscreteState, ()>>(
    m: &dashmap::DashMap<(u32, Vec<u32>), u32>,
    dynamic: &Dn,
) -> bool {
    memo_valid(memo_contents(*m), dynamic)
}

/// The next state of node `i`, computed directly by the rule from the
/// previous generation.
pub open spec fn haca_cell_step<Dn: LocalDynamic<DiscreteState, ()>>(
    nodes: Seq<DiscreteState>,
    neighbors: Map<usize, Vec<usize>>,
    dynamic: &Dn,
    i: int,
) -> DiscreteState {
    dynamic.spec_update(nodes[i], neighbor_states(nodes, neighbors[i as usize]@))
}

/// One whole synchronous generation, computed directly by the rule.
pub open spec fn haca_stepped<Dn: LocalDynamic<DiscreteState, ()>>(
    nodes: Seq<DiscreteState>,
    neighbors: Map<usize, Vec<usize>>,
    dynamic: &Dn,
) -> Seq<DiscreteState> {
    Seq::new(nodes.len(), |i: int| haca_cell_step(nodes, neighbors, dynamic, i))
}

/// The next state of node `i` under cache-hit semantics: a recorded result
/// is copied out, anything else is computed by the rule.
pub open spec fn cached_cell_step<Dn: LocalDynamic<DiscreteState, ()>>(
    nodes: Seq<DiscreteState>,
    neighbors: Map<usize, Vec<usize>>,
    memo: Map<(u32, Seq<u32>), u32>,
    dynamic: &Dn,
    i: int,
) -> DiscreteState {
    let key = memo_key(nodes, neighbors, i);
    if memo.contains_key(key) {
        DiscreteState::spec_from_state(memo[key])
    } else {
        haca_cell_step(nodes, neighbors, dynamic, i)
    }
}

/// One whole synchronous generation under cache-hit semantics.
pub open spec fn cached_stepped<Dn: LocalDynamic<DiscreteState, ()>>(
    nodes: Seq<DiscreteState>,
    neighbors: Map<usize, Vec<usize>>,
    memo: Map<(u32, Seq<u32>), u32>,
    dynamic: &Dn,
) -> Seq<DiscreteState> {
    Seq::new(nodes.len(), |i: int| cached_cell_step(nodes, neighbors, memo, dynamic, i))
}

/// Cache equivalence: under any cache that is valid for the rule, serving
/// hits from the cache instead of invoking the rule changes nothing — the
/// cached step of any topology equals the uncached step. The cache is a
/// pure optimization, not an observable behavior change.
pub proof fn lemma_cache_equivalence<Dn: LocalDynamic<DiscreteState, ()>>(
    nodes: Seq<DiscreteState>,
    neighbors: Map<usize, Vec<usize>>,
    memo: Map<(u32, Seq<u32>), u32>,
    dynamic: &Dn,
)
    requires
        memo_valid(memo, dynamic),
    ensures
        cached_stepped(nodes, neighbors, memo, dynamic) == haca_stepped(
            nodes,
            neighbors,
            dynamic,
        ),
{
    assert forall|i: int| 0 <= i < nodes.len() implies cached_cell_step(
        nodes,
        neighbors,
        memo,
        dynamic,
        i,
    ) == haca_cell_step(nodes, neighbors, dynamic, i) by {
        let key = memo_key(nodes, neighbors, i);
        if memo.contains_key(key) {
            let nbrs = neighbor_states(nodes, neighbors[i as usize]@);
            lemma_nodes_of_states_of(nbrs);
            DiscreteState::lemma_from_state_identity(nodes[i]);
            DiscreteState::lemma_from_state_identity(dynamic.spec_update(nodes[i], nbrs));
        }
    }
    assert(cached_stepped(nodes, neighbors, memo, dynamic) =~= haca_stepped(
        nodes,
        neighbors,
        dynamic,
    ));
}

/// Computes node `i`'s next state, looking the cache up first. Returns the
/// next state, whether the cache missed, and the components of the cache
/// key so that a miss can be recorded afterward.
fn cached_step_cell<Dn: LocalDynamic<DiscreteState, ()>>(
    nodes: &Vec<DiscreteState>,
    neighbors_map: &HashMap<usize, Vec<usize>>,
    memo: &dashmap::DashMap<(u32, Vec<u32>), u32>,
    dynamic: &Dn,
    i: usize,
) -> (r: (DiscreteState, bool, u32, Vec<u32>))
    requires
        haca_wf(nodes@, neighbors_map@),
        i < nodes@.len(),
        haca_step_req(nodes@, neighbors_map@, dynamic),
        memo_ref_valid(memo, dynamic),
    ensures
        r.0 == haca_cell_step(nodes@, neighbors_map@, dynamic, i as int),
        r.2 == nodes@[i as int].spec_state(),
        r.3@ == states_of(neighbor_states(nodes@, neighbors_map@[i]@)),
{
    let nbrs: &Vec<usize> = match neighbors_map.get(&i) {
        Some(v) => v,
        None => {
            proof {
                assert(neighbors_map@.contains_key(i));
            }
            vstd::pervasive::unreached()
        },
    };
    let mut gathered: Vec<DiscreteState> = Vec::new();
    let mut key_states: Vec<u32> = Vec::new();
    proof {
        assert(gathered@ =~= neighbor_states(nodes@, nbrs@.take(0)));
        assert(key_states@ =~= states_of(neighbor_states(nodes@, nbrs@.take(0))));
    }
    let mut k: usize = 0;
    while k < nbrs.len()
        invariant
            k <= nbrs@.len(),
            neighbors_in_range(nbrs@, nodes@.len()),
            gathered@ == neighbor_states(nodes@, nbrs@.take(k as int)),
            key_states@ == states_of(neighbor_states(nodes@, nbrs@.take(k as int))),
        decreases nbrs@.len() - k,
    {
        let j = nbrs[k];
        let cell = nodes[j];
        gathered.push(cell);
        key_states.push(cell.state());
        proof {
            assert(neighbor_states(nodes@, nbrs@.take(k + 1 as int)) =~= neighbor_states(
                nodes@,
                nbrs@.take(k as int),
            ).push(nodes@[nbrs@[k as int] as int]));
            assert(states_of(neighbor_states(nodes@, nbrs@.take(k + 1 as int))) =~= states_of(
                neighbor_states(nodes@, nbrs@.take(k as int)),
            ).push(nodes@[nbrs@[k as int] as int].spec_state()));
        }
        k = k + 1;
    }
    proof {
        assert(nbrs@.take(nbrs@.len() as int) =~= nbrs@);
    }
    let node = nodes[i];
    let node_state = node.state();
    let looked = memo_get(memo, node_state, &key_states);
    let (result, missed): (DiscreteState, bool) = match looked {
        Some(v) => {
            proof {
                lemma_nodes_of_states_of(gathered@);
                DiscreteState::lemma_from_state_identity(node);
                DiscreteState::lemma_from_state_identity(dynamic.spec_update(node, gathered@));
            }
            (DiscreteState::from_state(v), false)
        },
        None => (dynamic.update(&node, gathered.as_slice(), Vec::new()), true),
    };
    (result, missed, node_state, key_states)
}

/// Computes node `i`'s next state directly, without any cache.
fn classic_step_cell<Dn: LocalDynamic<DiscreteState, ()>>(
    nodes: &Vec<DiscreteState>,
    neighbors_map: &HashMap<usize, Vec<usize>>,
    dynamic: &Dn,
    i: usize,
) -> (r: DiscreteState)
    requires
        haca_wf(nodes@, neighbors_map@),
        i < nodes@.len(),
        haca_step_req(nodes@, neighbors_map@, dynamic),
    ensures
        r == haca_cell_step(nodes@, neighbors_map@, dynamic, i as int),
{
    let nbrs: &Vec<usize> = match neighbors_map.get(&i) {
        Some(v) => v,
        None => {
            proof {
                assert(neighbors_map@.contains_key(i));
            }
            vstd::pervasive::unreached()
        },
    };
    let mut gathered: Vec<DiscreteState> = Vec::new();
    proof {
        assert(gathered@ =~= neighbor_states(nodes@, nbrs@.take(0)));
    }
    let mut k: usize = 0;
    while k < nbrs.len()
        invariant
            k <= nbrs@.len(),
            neighbors_in_range(nbrs@, nodes@.len()),
            gathered@ == neighbor_states(nodes@, nbrs@.take(k as int)),
        decreases nbrs@.len() - k,
    {
        let j = nbrs[k];
        gathered.push(nodes[j]);
        proof {
            assert(neighbor_states(nodes@, nbrs@.take(k + 1 as int)) =~= neighbor_states(
                nodes@,
                nbrs@.take(k as int),
            ).push(nodes@[nbrs@[k as int] as int]));
        }
        k = k + 1;
    }
    proof {
        assert(nbrs@.take(nbrs@.len() as int) =~= nbrs@);
    }
    let node = nodes[i];
    dynamic.update(&node, gathered.as_slice(), Vec::new())
}

/// A hypergraph of discrete states with a built-in memoization cache. The
/// node buffer and the neighbor map drive the evolution; the cache only
/// accelerates it.
pub struct HyperGraph {
    nodes: Vec<DiscreteState>,
    edges: Vec<Vec<usize>>,
    node_neighbors: HashMap<usize, Vec<usize>>,
    memoization: dashmap::DashMap<(u32, Vec<u32>), u32>,
}

impl HyperGraph {
    /// The dense node-state sequence.
    pub closed spec fn spec_nodes(&self) -> Seq<DiscreteState> {
        self.nodes@
    }

    /// The stored hyperedges.
    pub closed spec fn spec_edges(&self) -> Seq<Vec<usize>> {
        self.edges@
    }

    /// The flattened neighbor map.
    pub closed spec fn spec_neighbors(&self) -> Map<usize, Vec<usize>> {
        self.node_neighbors@
    }

    /// The recorded cache entries.
    pub closed spec fn spec_memo(&self) -> Map<(u32, Seq<u32>), u32> {
        memo_contents(self.memoization)
    }

    /// Whether the graph is a usable topology.
    pub open spec fn wf(&self) -> bool {
        haca_wf(self.spec_nodes(), self.spec_neighbors())
    }

    /// Builds a graph over the given nodes, edges and neighbor map, with an
    /// empty cache.
    pub fn new(
        nodes: Vec<DiscreteState>,
        edges: Vec<Vec<usize>>,
        node_neighbors: HashMap<usize, Vec<usize>>,
    ) -> (r: HyperGraph)
        ensures
            r.spec_nodes() == nodes@,
            r.spec_edges() == edges@,
            r.spec_neighbors() == node_neighbors@,
            r.spec_memo() == memo_empty(),
    {
        HyperGraph { nodes, edges, node_neighbors, memoization: memo_new() }
    }

    pub fn nodes(&self) -> (r: &Vec<DiscreteState>)
        ensures
            r@ == self.spec_nodes(),
    {
        &self.nodes
    }

    pub fn edges(&self) -> (r: &Vec<Vec<usize>>)
        ensures
            r@ == self.spec_edges(),
    {
        &self.edges
    }

    /// The flattened neighbor list of one node. The node must have an entry
    /// in the neighbor map; asking for any other index is a programmer
    /// error that this contract rules out.
    pub fn neighbors(&self, node: &usize) -> (r: Vec<usize>)
        requires
            self.spec_neighbors().contains_key(*node),
        ensures
            r@ == self.spec_neighbors()[*node]@,
    {
        match self.node_neighbors.get(node) {
            Some(v) => copy_vec(v),
            None => {
                proof {
                    assert(self.spec_neighbors().contains_key(*node));
                }
                vstd::pervasive::unreached()
            },
        }
    }

    /// Advances the graph by one synchronous generation through the cache:
    /// each node's key is looked up, hits are copied out, misses invoke the
    /// rule, and every miss is recorded afterward. With a valid cache the
    /// outcome is exactly the uncached step.
    pub fn update_nodes_by_neighborhood<Dn: LocalDynamic<DiscreteState, ()> + Send + Sync>(
        &mut self,
        update: &Dn,
    )
        requires
            old(self).wf(),
            haca_step_req(old(self).spec_nodes(), old(self).spec_neighbors(), update),
            memo_valid(old(self).spec_memo(), update),
        ensures
            final(self).spec_nodes() == haca_stepped(
                old(self).spec_nodes(),
                old(self).spec_neighbors(),
                update,
            ),
            final(self).spec_neighbors() == old(self).spec_neighbors(),
            final(self).spec_edges() == old(self).spec_edges(),
            memo_valid(final(self).spec_memo(), update),
    {
        let n = self.nodes.len();
        let nodes_ref = &self.nodes;
        let nbrs_ref = &self.node_neighbors;
        let memo_ref = &self.memoization;
        let f = |i: usize| -> (r: (DiscreteState, bool, u32, Vec<u32>))
            requires
                haca_wf(nodes_ref@, nbrs_ref@),
                i < nodes_ref@.len(),
                haca_step_req(nodes_ref@, nbrs_ref@, update),
                memo_ref_valid(memo_ref, update),
            ensures
                r.0 == haca_cell_step(nodes_ref@, nbrs_ref@, update, i as int),
                r.2 == nodes_ref@[i as int].spec_state(),
                r.3@ == states_of(neighbor_states(nodes_ref@, nbrs_ref@[i]@)),
            { cached_step_cell(nodes_ref, nbrs_ref, memo_ref, update, i) };
        let results = par_map_range(n, f);
        let ghost nodes0 = self.nodes@;
        let ghost nbrs0 = self.node_neighbors@;
        let ghost edges0 = self.edges@;
        proof {
            assert forall|i: int| 0 <= i < n implies {
                &&& (#[trigger] results@[i]).0 == haca_cell_step(nodes0, nbrs0, update, i)
                &&& results@[i].2 == nodes0[i].spec_state()
                &&& results@[i].3@ == states_of(neighbor_states(nodes0, nbrs0[i as usize]@))
            } by {
                assert(call_ensures(f, (i as usize,), results@[i]));
            }
        }
        let mut new_nodes: Vec<DiscreteState> = Vec::new();
        let mut k: usize = 0;
        while k < n
            invariant
                k <= n,
                n == nodes0.len(),
                results@.len() == n,
                new_nodes@.len() == k,
                forall|i: int|
                    0 <= i < n ==> (#[trigger] results@[i]).0 == haca_cell_step(
                        nodes0,
                        nbrs0,
                        update,
                        i,
                    ),
                forall|i: int| 0 <= i < k ==> new_nodes@[i] == haca_cell_step(
                    nodes0,
                    nbrs0,
                    update,
                    i,
                ),
            decreases n - k,
        {
            let cell = results[k].0;
            new_nodes.push(cell);
            k = k + 1;
        }
        self.nodes = new_nodes;
        proof {
            assert(self.nodes@ =~= haca_stepped(nodes0, nbrs0, update));
        }
        let mut k2: usize = 0;
        while k2 < results.len()
            invariant
                k2 <= results@.len(),
                results@.len() == nodes0.len(),
                self.nodes@ == haca_stepped(nodes0, nbrs0, update),
                self.node_neighbors@ == nbrs0,
                self.edges@ == edges0,
                memo_valid(memo_contents(self.memoization), update),
                forall|i: int|
                    0 <= i < results@.len() ==> {
                        &&& (#[trigger] results@[i]).0 == haca_cell_step(nodes0, nbrs0, update, i)
                        &&& results@[i].2 == nodes0[i].spec_state()
                        &&& results@[i].3@ == states_of(neighbor_states(nodes0, nbrs0[i as usize]@))
                    },
            decreases results@.len() - k2,
        {
            if results[k2].1 {
                let key_states = copy_vec(&results[k2].3);
                let state_key = results[k2].2;
                let value = results[k2].0.state();
                let ghost memo_before = memo_contents(self.memoization);
                memo_insert(&mut self.memoization, state_key, key_states, value);
                proof {
                    let gathered = neighbor_states(nodes0, nbrs0[k2 as usize]@);
                    let new_key = (nodes0[k2 as int].spec_state(), states_of(gathered));
                    lemma_nodes_of_states_of(gathered);
                    DiscreteState::lemma_from_state_identity(nodes0[k2 as int]);
                    assert forall|key: (u32, Seq<u32>)| #[trigger]
                        memo_contents(self.memoization).contains_key(key) implies memo_contents(
                        self.memoization,
                    )[key] == update.spec_update(
                        DiscreteState::spec_from_state(key.0),
                        nodes_of(key.1),
                    ).spec_state() by {
                        if key != new_key {
                            assert(memo_before.contains_key(key));
                        }
                    }
                }
            }
            k2 = k2 + 1;
        }
    }

    /// Advances the graph by one synchronous generation without touching
    /// the cache: every node's next state is computed by the rule directly.
    pub fn classic_update_nodes_by_neighborhood<Dn: LocalDynamic<DiscreteState, ()> + Send + Sync>(
        &mut self,
        update: &Dn,
    )
        requires
            old(self).wf(),
            haca_step_req(old(self).spec_nodes(), old(self).spec_neighbors(), update),
        ensures
            final(self).spec_nodes() == haca_stepped(
                old(self).spec_nodes(),
                old(self).spec_neighbors(),
                update,
            ),
            final(self).spec_neighbors() == old(self).spec_neighbors(),
            final(self).spec_edges() == old(self).spec_edges(),
            final(self).spec_memo() == old(self).spec_memo(),
    {
        let n = self.nodes.len();
        let nodes_ref = &self.nodes;
        let nbrs_ref = &self.node_neighbors;
        let f = |i: usize| -> (r: DiscreteState)
            requires
                haca_wf(nodes_ref@, nbrs_ref@),
                i < nodes_ref@.len(),
                haca_step_req(nodes_ref@, nbrs_ref@, update),
            ensures
                r == haca_cell_step(nodes_ref@, nbrs_ref@, update, i as int),
            { classic_step_cell(nodes_ref, nbrs_ref, update, i) };
        let new_nodes = par_map_range(n, f);
        let ghost nodes0 = self.nodes@;
        let ghost nbrs0 = self.node_neighbors@;
        proof {
            assert forall|i: int| 0 <= i < n implies (#[trigger] new_nodes@[i]) == haca_cell_step(
                nodes0,
                nbrs0,
                update,
                i,
            ) by {
                assert(call_ensures(f, (i as usize,), new_nodes@[i]));
            }
            assert(new_nodes@ =~= haca_stepped(nodes0, nbrs0, update));
        }
        self.nodes = new_nodes;
    }

    /// Runs the cached step for the given number of generations.
    pub fn run_hashlife<Dn: LocalDynamic<DiscreteState, ()> + Send + Sync>(
        &mut self,
        generations: usize,
        update: &Dn,
    )
        requires
            old(self).wf(),
            memo_valid(old(self).spec_memo(), update),
            forall|x: DiscreteState, s: Seq<DiscreteState>|
                s.len() <= u32::MAX ==> #[trigger] update.update_req(x, s),
            forall|i: usize|
                i < old(self).spec_nodes().len() ==> (#[trigger] old(self).spec_neighbors()[i]@).len()
                    <= u32::MAX,
        ensures
            final(self).spec_nodes() == haca_stepped_n(
                old(self).spec_nodes(),
                old(self).spec_neighbors(),
                update,
                generations as nat,
            ),
            final(self).spec_neighbors() == old(self).spec_neighbors(),
            final(self).spec_edges() == old(self).spec_edges(),
            memo_valid(final(self).spec_memo(), update),
    {
        let ghost nodes0 = self.nodes@;
        let ghost nbrs0 = self.node_neighbors@;
        let ghost edges0 = self.edges@;
        let mut t: usize = 0;
        while t < generations
            invariant
                t <= generations,
                self.spec_nodes() == haca_stepped_n(nodes0, nbrs0, update, t as nat),
                self.spec_nodes().len() == nodes0.len(),
                self.spec_neighbors() == nbrs0,
                self.spec_edges() == edges0,
                haca_wf(nodes0, nbrs0),
                memo_valid(self.spec_memo(), update),
                forall|x: DiscreteState, s: Seq<DiscreteState>|
                    s.len() <= u32::MAX ==> #[trigger] update.update_req(x, s),
                forall|i: usize|
                    i < nodes0.len() ==> (#[trigger] nbrs0[i]@).len() <= u32::MAX,
            decreases generations - t,
        {
            proof {
                assert(haca_wf(self.spec_nodes(), self.spec_neighbors()));
                assert forall|i: usize| i < self.spec_nodes().len() implies update.update_req(
                    self.spec_nodes()[i as int],
                    neighbor_states(self.spec_nodes(), #[trigger] self.spec_neighbors()[i]@),
                ) by {
                    assert(neighbor_states(self.spec_nodes(), self.spec_neighbors()[i]@).len()
                        == nbrs0[i]@.len());
                }
            }
            self.update_nodes_by_neighborhood(update);
            t = t + 1;
        }
    }
}

/// The node buffer after `k` cached generations: the synchronous step
/// applied `k` times over a fixed neighbor map.
pub open spec fn haca_stepped_n<Dn: LocalDynamic<DiscreteState, ()>>(
    nodes: Seq<DiscreteState>,
    neighbors: Map<usize, Vec<usize>>,
    dynamic: &Dn,
    k: nat,
) -> Seq<DiscreteState>
    decreases k,
{
    if k == 0 {
        nodes
    } else {
        haca_stepped(haca_stepped_n(nodes, neighbors, dynamic, (k - 1) as nat), neighbors, dynamic)
    }
}

} // verus!
