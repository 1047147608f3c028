use gpca::spaces::basic::{DiscreteState, HyperGraphHeap};
use gpca::spaces::local::{LocalHyperGraph, Stateable, TopologyError};
use std::collections::HashMap;

fn zero_states(n: usize) -> Vec<DiscreteState> {
    let mut v = Vec::new();
    for _ in 0..n {
        v.push(DiscreteState::from_state(0));
    }
    v
}

#[test]
fn neighbor_wraparound_origin_5x4() {
    let w: u32 = 5;
    let h: u32 = 4;
    let grid = HyperGraphHeap::<DiscreteState, (), (u32, u32)>::new_grid(
        &zero_states((w * h) as usize),
        w,
        h,
        (),
    );
    let nbrs = grid.node_neighbors().get(&0usize).unwrap().clone();
    // (dx, dy) enumeration order: the far corner first, then the wrapped
    // row above, then the same row, then the row below.
    let expected: Vec<usize> = vec![19, 15, 16, 4, 1, 9, 5, 6];
    assert_eq!(nbrs, expected);
    // exactly eight distinct indices
    let mut sorted = nbrs.clone();
    sorted.sort();
    sorted.dedup();
    assert_eq!(sorted.len(), 8);
    // the three wrapped corners named by the wraparound property
    assert!(nbrs.contains(&(((h - 1) * w + (w - 1)) as usize)));
    assert!(nbrs.contains(&(((h - 1) * w) as usize)));
    assert!(nbrs.contains(&((w - 1) as usize)));
}

#[test]
fn neighbor_wraparound_origin_3x3() {
    let grid = HyperGraphHeap::<DiscreteState, (), (u32, u32)>::new_grid(
        &zero_states(9),
        3,
        3,
        (),
    );
    let nbrs = grid.node_neighbors().get(&0usize).unwrap().clone();
    assert_eq!(nbrs, vec![8, 6, 7, 2, 1, 5, 3, 4]);
    let mut sorted = nbrs.clone();
    sorted.sort();
    assert_eq!(sorted, vec![1, 2, 3, 4, 5, 6, 7, 8]);
}

#[test]
fn grid_edges_are_eight_singletons() {
    let grid = HyperGraphHeap::<DiscreteState, (), (u32, u32)>::new_grid(
        &zero_states(12),
        4,
        3,
        (),
    );
    assert_eq!(grid.edges().len(), 12);
    for i in 0..12usize {
        let entry = grid.edges().get(&i).unwrap();
        assert_eq!(entry.len(), 8);
        for (nbr_list, _payload) in entry {
            assert_eq!(nbr_list.len(), 1);
            assert!(nbr_list[0] < 12);
        }
    }
}

#[test]
fn grid_payload_holds_dimensions() {
    let grid = HyperGraphHeap::<DiscreteState, (), (u32, u32)>::new_grid(
        &zero_states(35),
        7,
        5,
        (),
    );
    assert_eq!(*grid.payload(), (7, 5));
    assert_eq!(grid.nodes().len(), 35);
}

#[test]
fn update_nodes_rejects_wrong_length() {
    let mut grid = HyperGraphHeap::<DiscreteState, (), (u32, u32)>::new_grid(
        &zero_states(9),
        3,
        3,
        (),
    );
    let r = grid.update_nodes(zero_states(8));
    assert_eq!(r, Err(TopologyError::LengthMismatch));
    assert_eq!(grid.nodes().len(), 9);

    let mut replacement = zero_states(9);
    replacement[4] = DiscreteState::from_state(2);
    let r2 = grid.update_nodes(replacement);
    assert_eq!(r2, Ok(()));
    assert_eq!(grid.nodes()[4].state(), 2);
}

#[test]
fn update_edges_does_not_refresh_neighbors() {
    let mut grid = HyperGraphHeap::<DiscreteState, (), (u32, u32)>::new_grid(
        &zero_states(9),
        3,
        3,
        (),
    );
    let before = grid.node_neighbors().clone();

    // Replace the whole edge map: every node now names only node 0.
    let mut new_edges: HashMap<usize, Vec<(Vec<usize>, ())>> = HashMap::new();
    for i in 0..9usize {
        new_edges.insert(i, vec![(vec![0usize], ())]);
    }
    grid.update_edges(new_edges);

    // The documented invariant: the flattened neighbor map still reflects
    // the old edges until the rebuild is called explicitly.
    assert_eq!(*grid.node_neighbors(), before);

    grid.update_neighbors();
    for i in 0..9usize {
        assert_eq!(grid.node_neighbors().get(&i).unwrap(), &vec![0usize]);
    }
}

#[test]
fn single_cell_grid_wraps_onto_itself() {
    // The smallest torus: every one of the eight offsets wraps back to
    // the only cell.
    let grid = HyperGraphHeap::<DiscreteState, (), (u32, u32)>::new_grid(
        &zero_states(1),
        1,
        1,
        (),
    );
    assert_eq!(grid.node_neighbors().get(&0usize).unwrap(), &vec![0usize; 8]);
}
