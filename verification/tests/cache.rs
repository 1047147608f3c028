use gpca::dynamics::cyclic::CyclicAutomaton;
use gpca::haca::HyperGraph;
use gpca::spaces::basic::{DiscreteState, HyperGraphHeap};
use gpca::spaces::local::{LocalHyperGraph, Stateable};
use std::collections::HashMap;

fn states_from(values: &[u32]) -> Vec<DiscreteState> {
    values.iter().map(|v| DiscreteState::from_state(*v)).collect()
}

fn values_of(states: &[DiscreteState]) -> Vec<u32> {
    states.iter().map(|s| s.state()).collect()
}

/// A memoized hypergraph over the 3x3 toroidal neighbor structure.
fn torus_graph(values: &[u32]) -> HyperGraph {
    let grid =
        HyperGraphHeap::<DiscreteState, (), (u32, u32)>::new_grid(&states_from(values), 3, 3, ());
    let mut neighbors: HashMap<usize, Vec<usize>> = HashMap::new();
    let mut edges: Vec<Vec<usize>> = Vec::new();
    for i in 0..9usize {
        let list = grid.node_neighbors().get(&i).unwrap().clone();
        edges.push(list.clone());
        neighbors.insert(i, list);
    }
    HyperGraph::new(states_from(values), edges, neighbors)
}

#[test]
fn cached_and_classic_steps_agree() {
    let initial = [0u32, 1, 0, 2, 0, 1, 0, 0, 2];
    let rule = CyclicAutomaton::new(3, 1);
    let mut cached = torus_graph(&initial);
    let mut classic = torus_graph(&initial);
    for _ in 0..3 {
        cached.update_nodes_by_neighborhood(&rule);
        classic.classic_update_nodes_by_neighborhood(&rule);
        assert_eq!(values_of(cached.nodes()), values_of(classic.nodes()));
    }
}

#[test]
fn cache_hits_reproduce_the_rule_output() {
    // A uniform buffer with threshold zero: every cell shares one cache
    // key, so a single tick computes the key once and serves eight hits.
    // Every cell must still advance exactly as the rule dictates.
    let rule = CyclicAutomaton::new(4, 0);
    let mut cached = torus_graph(&[0; 9]);
    cached.update_nodes_by_neighborhood(&rule);
    assert_eq!(values_of(cached.nodes()), vec![1; 9]);
    cached.update_nodes_by_neighborhood(&rule);
    assert_eq!(values_of(cached.nodes()), vec![2; 9]);
}

#[test]
fn run_hashlife_iterates_the_cached_step() {
    let initial = [0u32, 1, 0, 1, 0, 1, 0, 1, 0];
    let rule = CyclicAutomaton::new(3, 1);
    let mut iterated = torus_graph(&initial);
    let mut manual = torus_graph(&initial);
    iterated.run_hashlife(4, &rule);
    for _ in 0..4 {
        manual.update_nodes_by_neighborhood(&rule);
    }
    assert_eq!(values_of(iterated.nodes()), values_of(manual.nodes()));
}

#[test]
fn neighbors_accessor_returns_the_stored_list() {
    let g = torus_graph(&[0; 9]);
    let nbrs = g.neighbors(&0usize);
    assert_eq!(nbrs, vec![8, 6, 7, 2, 1, 5, 3, 4]);
    assert_eq!(g.edges().len(), 9);
    assert_eq!(g.nodes().len(), 9);
}
