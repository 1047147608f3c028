use gpca::dynamics::cyclic::CyclicAutomaton;
use gpca::dynamics::lifelike::LifeLike;
use gpca::spaces::basic::{DiscreteState, HyperGraphHeap};
use gpca::spaces::local::{LocalHyperGraph, Stateable};
use gpca::system::dynamical_system::DynamicalSystem;

type GridSpace = HyperGraphHeap<DiscreteState, (), (u32, u32)>;

fn states_from(values: &[u32]) -> Vec<DiscreteState> {
    values.iter().map(|v| DiscreteState::from_state(*v)).collect()
}

fn values_of(states: &[DiscreteState]) -> Vec<u32> {
    states.iter().map(|s| s.state()).collect()
}

#[test]
fn cyclic_center_advances_then_holds() {
    // A 3x3 toroidal grid, three states, threshold one. The center holds
    // state 0 and exactly one neighbor holds state 1.
    let mut initial = vec![0u32; 9];
    initial[0] = 1;
    let space = GridSpace::new_grid(&states_from(&initial), 3, 3, ());
    let dynamic = CyclicAutomaton::new(3, 1);
    let mut system = DynamicalSystem::new(Box::new(space), Box::new(dynamic));

    system.compute_sync();
    let after_one = values_of(&system.space_state());
    assert_eq!(after_one[4], 1);

    // No cell reached state 2, so on the second tick the center stays at 1.
    system.compute_sync();
    let after_two = values_of(&system.space_state());
    assert_eq!(after_two[4], 1);
}

#[test]
fn cyclic_states_and_threshold_accessors() {
    let dynamic = CyclicAutomaton::new(4, 3);
    assert_eq!(
        gpca::dynamics::local::LocalDynamic::<DiscreteState, ()>::states(&dynamic),
        4
    );
    assert_eq!(dynamic.threshold(), 3);
}

#[test]
fn glider_translates_by_one_after_four_ticks() {
    // The canonical glider on a toroidal 16x16 grid with birth [3] and
    // survival [2, 3]: after four ticks the shape reappears translated by
    // (1, 1).
    let w = 16usize;
    let glider = [(1usize, 0usize), (2, 1), (0, 2), (1, 2), (2, 2)];
    let mut initial = vec![0u32; w * w];
    for (x, y) in glider {
        initial[y * w + x] = 1;
    }
    let space = GridSpace::new_grid(&states_from(&initial), 16, 16, ());
    let dynamic = LifeLike::new(&[3], &[2, 3]);
    let mut system = DynamicalSystem::new(Box::new(space), Box::new(dynamic));

    for _ in 0..4 {
        system.compute_sync();
    }
    let after = values_of(&system.space_state());
    for y in 0..w {
        for x in 0..w {
            let tx = (x + 1) % w;
            let ty = (y + 1) % w;
            assert_eq!(after[ty * w + tx], initial[y * w + x]);
        }
    }
}

#[test]
fn compute_sync_is_deterministic() {
    let initial = DiscreteState::filled_vector(64, 3);
    let dynamic = CyclicAutomaton::new(3, 2);
    let mut a = DynamicalSystem::new(
        Box::new(GridSpace::new_grid(&initial, 8, 8, ())),
        Box::new(dynamic.clone()),
    );
    let mut b = DynamicalSystem::new(
        Box::new(GridSpace::new_grid(&initial, 8, 8, ())),
        Box::new(dynamic),
    );
    a.compute_sync();
    b.compute_sync();
    assert_eq!(values_of(&a.space_state()), values_of(&b.space_state()));
}

#[test]
fn describe_names_the_system() {
    let space = GridSpace::new_grid(&states_from(&vec![0; 9]), 3, 3, ());
    let system = DynamicalSystem::new(Box::new(space), Box::new(CyclicAutomaton::new(2, 1)));
    assert_eq!(system.describe(), "DynamicalSystem");
}

#[test]
fn update_space_replaces_the_buffer() {
    let space = GridSpace::new_grid(&states_from(&vec![0; 9]), 3, 3, ());
    let mut system = DynamicalSystem::new(Box::new(space), Box::new(CyclicAutomaton::new(3, 1)));
    system.update_space(|nodes: Vec<DiscreteState>| {
        nodes.iter().map(|_| DiscreteState::from_state(2)).collect()
    });
    assert_eq!(values_of(&system.space_state()), vec![2; 9]);
}

#[test]
fn set_space_and_set_dynamic_swap_the_parts() {
    let space = GridSpace::new_grid(&states_from(&vec![0; 9]), 3, 3, ());
    let mut system = DynamicalSystem::new(Box::new(space), Box::new(CyclicAutomaton::new(3, 1)));
    assert_eq!(system.space().nodes().len(), 9);

    let other = GridSpace::new_grid(&states_from(&vec![1; 16]), 4, 4, ());
    system.set_space(Box::new(other));
    assert_eq!(system.space_state().len(), 16);

    system.set_dynamic(Box::new(CyclicAutomaton::new(5, 2)));
    assert_eq!(system.dynamic().threshold(), 2);
}

#[test]
fn filled_vector_has_given_length_and_bounded_states() {
    let v = DiscreteState::filled_vector(100, 5);
    assert_eq!(v.len(), 100);
    for s in &v {
        assert!(s.state() < 5);
    }
    // With one state the draw is forced: every cell must be zero.
    let forced = DiscreteState::filled_vector(50, 1);
    assert_eq!(forced.len(), 50);
    for s in &forced {
        assert_eq!(s.state(), 0);
    }
}

#[test]
fn lifelike_masks_pack_the_lists() {
    let rule = LifeLike::new(&[3], &[2, 3]);
    assert_eq!(rule.birth_mask(), 0b1000);
    assert_eq!(rule.survival_mask(), 0b1100);
}
