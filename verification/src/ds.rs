//! A builder and a driver composing one flat-buffer space with one
//! whole-buffer update rule.

use crate::dynamic::Dynamic;
use crate::space::DiscreteSpace;
use vstd::pervasive::cloned;
use vstd::prelude::*;

verus! {

/// Collects a space and a rule, allows the initial state to be shaped, and
/// builds the composed system.
#[derive(Debug, Clone)]
pub struct DynamicalSystemBuilder<const D: usize, S: DiscreteSpace<D>, F: Dynamic<D, S>> {
    space: Box<S>,
    dynamic: Box<F>,
}

impl<const D: usize, S: DiscreteSpace<D>, F: Dynamic<D, S>> DynamicalSystemBuilder<D, S, F> {
    /// The collected space.
    pub closed spec fn spec_space(&self) -> S {
        *self.space
    }

    /// The collected rule.
    pub closed spec fn spec_dynamic(&self) -> F {
        *self.dynamic
    }

    pub fn new(space: S, dynamic: F) -> (r: Self)
        ensures
            r.spec_space() == space,
            r.spec_dynamic() == dynamic,
    {
        DynamicalSystemBuilder { space: Box::new(space), dynamic: Box::new(dynamic) }
    }

    /// Hands the current state buffer to the given function and installs
    /// what it returns. The function must keep the buffer length unchanged.
    pub fn update_state<M: Fn(Vec<u32>) -> Vec<u32>>(&mut self, updater: M)
        requires
            forall|a: Vec<u32>| #[trigger] call_requires(updater, (a,)),
            forall|a: Vec<u32>, b: Vec<u32>| #[trigger] call_ensures(updater, (a,), b) ==> b@.len()
                == a@.len(),
        ensures
            exists|a: Vec<u32>, b: Vec<u32>|
                {
                    &&& a@ == old(self).spec_space().spec_state()
                    &&& #[trigger] call_ensures(updater, (a,), b)
                    &&& final(self).spec_space().spec_state() == b@
                },
            final(self).spec_space().spec_size() == old(self).spec_space().spec_size(),
            final(self).spec_dynamic() == old(self).spec_dynamic(),
    {
        let current = (*self.space).read_state();
        let ghost before = current;
        let next = updater(current);
        (*self.space).write_state(&next);
    }

    /// Builds the composed system from clones of the collected parts.
    pub fn build(&self) -> (r: DynamicalSystem<D, S, F>) where S: Clone, F: Clone
        ensures
            cloned::<S>(self.spec_space(), r.spec_space()),
            cloned::<F>(self.spec_dynamic(), r.spec_dynamic()),
    {
        DynamicalSystem {
            space: Box::new((*self.space).clone()),
            dynamic: Box::new((*self.dynamic).clone()),
        }
    }
}

/// One flat-buffer space composed with one whole-buffer rule; each tick
/// replaces the space's buffer with the rule's output for it.
#[derive(Debug, Clone)]
pub struct DynamicalSystem<const D: usize, S: DiscreteSpace<D>, F: Dynamic<D, S>> {
    space: Box<S>,
    dynamic: Box<F>,
}

impl<const D: usize, S: DiscreteSpace<D>, F: Dynamic<D, S>> DynamicalSystem<D, S, F> {
    /// The owned space.
    pub closed spec fn spec_space(&self) -> S {
        *self.space
    }

    /// The owned rule.
    pub closed spec fn spec_dynamic(&self) -> F {
        *self.dynamic
    }

    pub fn space(&mut self) -> (r: &S)
        ensures
            *r == old(self).spec_space(),
            *final(self) == *old(self),
    {
        &self.space
    }

    /// Advances the system by one generation: the whole buffer is read,
    /// the rule maps it to the next buffer, and the next buffer replaces
    /// the old one.
    pub fn tick(&mut self)
        requires
            old(self).spec_dynamic().valid_input(old(self).spec_space().spec_state()),
        ensures
            final(self).spec_space().spec_state() == old(self).spec_dynamic().spec_update(
                old(self).spec_space().spec_state(),
            ),
            final(self).spec_space().spec_size() == old(self).spec_space().spec_size(),
            final(self).spec_dynamic() == old(self).spec_dynamic(),
    {
        let state = (*self.space).read_state();
        let next = (*self.dynamic).update(&state);
        proof {
            (*self.dynamic).lemma_update_len(state@);
        }
        (*self.space).write_state(&next);
    }
}

} // verus!
