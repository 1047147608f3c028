//! Flat-buffer spaces: fixed-size lattices of small integer states, read
//! and written as one row-major buffer.

use crate::spaces::basic::copy_vec;
use crate::third::random::random_below;
use vstd::prelude::*;

verus! {

/// How many dimensions a space spans.
#[derive(Debug, Clone, Copy, PartialEq, Eq, Structural)]
pub enum Dimension {
    One,
    Two,
    Three,
}

/// A discrete space: a fixed extent per dimension and one flat row-major
/// state buffer.
pub trait DiscreteSpace<const D: usize>: Sized {
    /// The flat state buffer.
    spec fn spec_state(&self) -> Seq<u32>;

    /// The extent of each dimension.
    spec fn spec_size(&self) -> Seq<usize>;

    /// The dimensionality tag.
    spec fn spec_dim(&self) -> Dimension;

    fn dim(&self) -> (r: Dimension)
        ensures
            r == self.spec_dim(),
    ;

    fn size(&self) -> (r: [usize; D])
        ensures
            r@ == self.spec_size(),
    ;

    fn read_state(&self) -> (r: Vec<u32>)
        ensures
            r@ == self.spec_state(),
    ;

    /// Replaces the whole state buffer; the new buffer must have the same
    /// length as the old one.
    fn write_state(&mut self, state: &Vec<u32>)
        requires
            state@.len() == old(self).spec_state().len(),
        ensures
            final(self).spec_state() == state@,
            final(self).spec_size() == old(self).spec_size(),
    ;
}

/// A line of `X` cells.
#[derive(Debug, Clone)]
pub struct OneDimensional<const X: usize> {
    state: Vec<u32>,
}

impl<const X: usize> OneDimensional<X> {
    /// A line of `X` cells, all in state zero.
    pub fn new() -> (r: Self)
        ensures
            r.spec_state() == Seq::new(X as nat, |i: int| 0u32),
    {
        let state = vec![0u32; X];
        proof {
            assert(state@ =~= Seq::new(X as nat, |i: int| 0u32));
        }
        OneDimensional { state }
    }

    /// A line over an explicit state buffer of length `X`.
    pub fn new_with_state(state: Vec<u32>) -> (r: Self)
        requires
            state@.len() == X,
        ensures
            r.spec_state() == state@,
    {
        OneDimensional { state }
    }
}

impl<const X: usize> DiscreteSpace<1> for OneDimensional<X> {
    closed spec fn spec_state(&self) -> Seq<u32> {
        self.state@
    }

    closed spec fn spec_size(&self) -> Seq<usize> {
        seq![X]
    }

    open spec fn spec_dim(&self) -> Dimension {
        Dimension::One
    }

    fn dim(&self) -> Dimension {
        Dimension::One
    }

    fn size(&self) -> (r: [usize; 1]) {
        let r = [X];
        proof {
            assert(r@ =~= self.spec_size());
        }
        r
    }

    fn read_state(&self) -> Vec<u32> {
        copy_vec(&self.state)
    }

    fn write_state(&mut self, state: &Vec<u32>) {
        self.state = copy_vec(state);
    }
}

/// A toroidal plane of `X` by `Y` cells.
#[derive(Debug, Clone)]
pub struct TwoDimensional<const X: usize, const Y: usize> {
    state: Vec<u32>,
}

impl<const X: usize, const Y: usize> TwoDimensional<X, Y> {
    /// A plane of `X * Y` cells, all in state zero.
    pub fn new() -> (r: Self)
        requires
            X * Y <= usize::MAX,
        ensures
            r.spec_state() == Seq::new((X * Y) as nat, |i: int| 0u32),
    {
        let state = vec![0u32; X * Y];
        proof {
            assert(state@ =~= Seq::new((X * Y) as nat, |i: int| 0u32));
        }
        TwoDimensional { state }
    }

    /// A plane of `X * Y` cells, each drawn independently from
    /// `0..states`. Only the bound on every entry is promised: the draws
    /// are random.
    pub fn new_random(states: u32) -> (r: Self)
        requires
            X * Y <= usize::MAX,
            states >= 1,
        ensures
            r.spec_state().len() == X * Y,
            forall|i: int| 0 <= i < X * Y ==> (#[trigger] r.spec_state()[i]) < states,
    {
        let n = X * Y;
        let mut state: Vec<u32> = Vec::new();
        let mut i: usize = 0;
        while i < n
            invariant
                i <= n,
                states >= 1,
                state@.len() == i,
                forall|k: int| 0 <= k < i ==> (#[trigger] state@[k]) < states,
            decreases n - i,
        {
            state.push(random_below(states));
            i = i + 1;
        }
        TwoDimensional { state }
    }

    /// A plane over an explicit row-major buffer of length `X * Y`.
    pub fn new_with_state(state: Vec<u32>) -> (r: Self)
        requires
            state@.len() == X * Y,
        ensures
            r.spec_state() == state@,
    {
        TwoDimensional { state }
    }
}

impl<const X: usize, const Y: usize> DiscreteSpace<2> for TwoDimensional<X, Y> {
    closed spec fn spec_state(&self) -> Seq<u32> {
        self.state@
    }

    closed spec fn spec_size(&self) -> Seq<usize> {
        seq![X, Y]
    }

    open spec fn spec_dim(&self) -> Dimension {
        Dimension::Two
    }

    fn dim(&self) -> Dimension {
        Dimension::Two
    }

    fn size(&self) -> (r: [usize; 2]) {
        let r = [X, Y];
        proof {
            assert(r@ =~= self.spec_size());
        }
        r
    }

    fn read_state(&self) -> Vec<u32> {
        copy_vec(&self.state)
    }

    fn write_state(&mut self, state: &Vec<u32>) {
        self.state = copy_vec(state);
    }
}

/// A block of `X` by `Y` by `Z` cells, flattened plane by plane and row by
/// row.
#[derive(Debug, Clone)]
pub struct ThreeDimensional<const X: usize, const Y: usize, const Z: usize> {
    space: Vec<u32>,
}

impl<const X: usize, const Y: usize, const Z: usize> ThreeDimensional<X, Y, Z> {
    /// A block of `X * Y * Z` cells, all in state zero.
    pub fn new() -> (r: Self)
        requires
            X * Y <= usize::MAX,
            X * Y * Z <= usize::MAX,
        ensures
            r.spec_state() == Seq::new((X * Y * Z) as nat, |i: int| 0u32),
    {
        let state = vec![0u32; X * Y * Z];
        proof {
            assert(state@ =~= Seq::new((X * Y * Z) as nat, |i: int| 0u32));
        }
        ThreeDimensional { space: state }
    }
}

impl<const X: usize, const Y: usize, const Z: usize> DiscreteSpace<3> for ThreeDimensional<
    X,
    Y,
    Z,
> {
    closed spec fn spec_state(&self) -> Seq<u32> {
        self.space@
    }

    closed spec fn spec_size(&self) -> Seq<usize> {
        seq![Z, Y, X]
    }

    open spec fn spec_dim(&self) -> Dimension {
        Dimension::Three
    }

    fn dim(&self) -> Dimension {
        Dimension::Three
    }

    fn size(&self) -> (r: [usize; 3]) {
        let r = [Z, Y, X];
        proof {
            assert(r@ =~= self.spec_size());
        }
        r
    }

    fn read_state(&self) -> Vec<u32> {
        copy_vec(&self.space)
    }

    fn write_state(&mut self, state: &Vec<u32>) {
        self.space = copy_vec(state);
    }
}

} // verus!
