use gpca::ds::{DynamicalSystem, DynamicalSystemBuilder};
use gpca::dynamic::Dynamic;
use gpca::dynamics::eca::ElementaryCellularAutomaton;
use gpca::dynamics::life::LifeLikeCellularAutomaton;
use gpca::haca::local::LocalHyperGraph;
use gpca::haca_systems::life::LifeState;
use gpca::space::{
    Dimension, DiscreteSpace, OneDimensional, ThreeDimensional, TwoDimensional,
};
use gpca::spaces::basic::DiscreteState;
use gpca::spaces::lattice::{
    kernel_output_shape, observation_neighbors, redistribute_levels, states_to_levels,
};
use gpca::dynamics::lifelike::LifeLike;
use gpca::dynamics::local::LocalDynamic;
use gpca::spaces::local::Stateable;
use std::collections::HashMap;

#[test]
fn state_round_trip() {
    for s in 0..8u32 {
        assert_eq!(DiscreteState::from_state(s).state(), s);
    }
    assert_eq!(DiscreteState::from_state(u32::MAX).state(), u32::MAX);
    assert_eq!(DiscreteState::default().state(), 0);
    let mut cell = DiscreteState::from_state(3);
    cell.set_state(9);
    assert_eq!(cell.state(), 9);
}

#[test]
fn one_dimensional_space_round_trip() {
    let mut line = OneDimensional::<5>::new();
    assert_eq!(line.read_state(), vec![0; 5]);
    assert_eq!(line.size(), [5]);
    assert!(matches!(line.dim(), Dimension::One));
    line.write_state(&vec![1, 2, 3, 4, 5]);
    assert_eq!(line.read_state(), vec![1, 2, 3, 4, 5]);

    let other = OneDimensional::<3>::new_with_state(vec![7, 8, 9]);
    assert_eq!(other.read_state(), vec![7, 8, 9]);
}

#[test]
fn two_dimensional_space_round_trip() {
    let mut plane = TwoDimensional::<3, 2>::new();
    assert_eq!(plane.read_state(), vec![0; 6]);
    assert_eq!(plane.size(), [3, 2]);
    assert!(matches!(plane.dim(), Dimension::Two));
    plane.write_state(&vec![1, 0, 1, 0, 1, 0]);
    assert_eq!(plane.read_state(), vec![1, 0, 1, 0, 1, 0]);

    let random = TwoDimensional::<4, 4>::new_random(3);
    let state = random.read_state();
    assert_eq!(state.len(), 16);
    for v in state {
        assert!(v < 3);
    }
    // With one state the draw is forced to zero everywhere.
    let forced = TwoDimensional::<4, 4>::new_random(1);
    assert_eq!(forced.read_state(), vec![0; 16]);
}

#[test]
fn three_dimensional_space_round_trip() {
    let mut block = ThreeDimensional::<2, 2, 2>::new();
    assert_eq!(block.read_state(), vec![0; 8]);
    assert_eq!(block.size(), [2, 2, 2]);
    assert!(matches!(block.dim(), Dimension::Three));
    block.write_state(&vec![1, 2, 3, 4, 5, 6, 7, 8]);
    assert_eq!(block.read_state(), vec![1, 2, 3, 4, 5, 6, 7, 8]);
}

#[test]
fn eca_rule_110_step() {
    let automaton = ElementaryCellularAutomaton::<OneDimensional<7>>::new_from_number(110);
    assert_eq!(automaton.states(), 2);
    let space = OneDimensional::<7>::new_with_state(vec![0, 0, 0, 1, 0, 0, 0]);
    let mut system = DynamicalSystemBuilder::new(space, automaton).build();
    system.tick();
    assert_eq!(system.space().read_state(), vec![0, 0, 1, 1, 0, 0, 0]);
}

#[test]
fn eca_explicit_table_step() {
    // The table handed over directly: entry k is the next state for a
    // window reading k in binary.
    let table = [0, 1, 1, 1, 0, 1, 1, 0];
    let automaton = ElementaryCellularAutomaton::<OneDimensional<5>>::new(table);
    let space = OneDimensional::<5>::new_with_state(vec![1, 0, 0, 0, 0]);
    let mut system = DynamicalSystemBuilder::new(space, automaton).build();
    system.tick();
    // windows, wrapped: [0,1,0]=2->1, [1,0,0]=4->0, [0,0,0]=0->0,
    // [0,0,0]=0->0, [0,0,1]=1->1
    assert_eq!(system.space().read_state(), vec![1, 0, 0, 0, 1]);
}

#[test]
fn builder_update_state_shapes_the_buffer() {
    let automaton = ElementaryCellularAutomaton::<OneDimensional<4>>::new_from_number(0);
    let space = OneDimensional::<4>::new();
    let mut builder = DynamicalSystemBuilder::new(space, automaton);
    builder.update_state(|buffer: Vec<u32>| buffer.iter().map(|v| v + 1).collect());
    let mut system: DynamicalSystem<1, _, _> = builder.build();
    assert_eq!(system.space().read_state(), vec![1, 1, 1, 1]);
}

#[test]
fn torus_life_blinker_on_plane() {
    // A horizontal blinker on a 5x5 torus flips to vertical and back.
    let b: &'static [u32] = &[3];
    let s: &'static [u32] = &[2, 3];
    let automaton = LifeLikeCellularAutomaton::<TwoDimensional<5, 5>>::new(b, s);
    let mut initial = vec![0u32; 25];
    for x in 1..4usize {
        initial[2 * 5 + x] = 1;
    }
    let space = TwoDimensional::<5, 5>::new_with_state(initial.clone());
    let mut system = DynamicalSystemBuilder::new(space, automaton).build();
    system.tick();
    let mut vertical = vec![0u32; 25];
    for y in 1..4usize {
        vertical[y * 5 + 2] = 1;
    }
    assert_eq!(system.space().read_state(), vertical);
    system.tick();
    assert_eq!(system.space().read_state(), initial);
}

#[test]
fn interaction_life_on_full_torus() {
    // On a 3x3 torus every cell sees every other cell. Three live cells:
    // the live ones see two and survive, the dead ones see three and are
    // born. Nine live cells all see eight and die.
    let mut nodes = [LifeState(0); 9];
    nodes[0] = LifeState(1);
    nodes[1] = LifeState(1);
    nodes[2] = LifeState(1);
    let mut edges: HashMap<usize, Vec<(Vec<usize>, ())>> = HashMap::new();
    for i in 0..9usize {
        let mut others = Vec::new();
        for j in 0..9usize {
            if j != i {
                others.push(j);
            }
        }
        edges.insert(i, vec![(others, ())]);
    }
    let mut graph = LocalHyperGraph::<9, LifeState, ()>::new(Box::new(nodes), edges);
    graph.compute_with_neighbors();
    assert_eq!(*graph.nodes(), [LifeState(1); 9]);
    graph.compute_with_neighbors();
    assert_eq!(*graph.nodes(), [LifeState(0); 9]);
}

#[test]
fn lattice_observation_neighbors_are_the_moore_offsets() {
    let offsets = observation_neighbors();
    assert_eq!(offsets.len(), 8);
    let expected: Vec<Vec<i32>> = vec![
        vec![-1, -1],
        vec![-1, 0],
        vec![-1, 1],
        vec![0, -1],
        vec![0, 1],
        vec![1, -1],
        vec![1, 0],
        vec![1, 1],
    ];
    assert_eq!(offsets, expected);
}

#[test]
fn lattice_kernel_output_shape_crops() {
    assert_eq!(kernel_output_shape(10, 8, 3), (8, 6));
    assert_eq!(kernel_output_shape(16, 16, 1), (16, 16));
}

#[test]
fn lattice_levels_round_trip_and_redistribute() {
    let nodes: Vec<DiscreteState> = vec![2, 0, 1]
        .into_iter()
        .map(DiscreteState::from_state)
        .collect();
    assert_eq!(states_to_levels(&nodes), vec![2, 0, 1]);

    let cropped = vec![5u32, 6, 7];
    let rebuilt = redistribute_levels(&cropped, 7);
    let values: Vec<u32> = rebuilt.iter().map(|s| s.state()).collect();
    assert_eq!(values, vec![5, 6, 7, 5, 6, 7, 5]);
}

#[test]
fn lifelike_with_no_neighbors_judges_a_zero_sum() {
    // An empty neighborhood sums to zero: not in the birth list, not in
    // the survival list, so the cell dies.
    let rule = LifeLike::new(&[3], &[2, 3]);
    let node = DiscreteState::from_state(1);
    let next: DiscreteState =
        rule.update(&node, &[], Vec::<&gpca::spaces::local::HyperEdge<()>>::new());
    assert_eq!(next.state(), 0);

    // With zero in the survival list the cell holds on instead.
    let keeper = LifeLike::new(&[3], &[0]);
    let kept: DiscreteState =
        keeper.update(&node, &[], Vec::<&gpca::spaces::local::HyperEdge<()>>::new());
    assert_eq!(kept.state(), 1);
}
