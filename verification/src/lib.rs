//! A generalized cellular-automaton engine: a discrete space of cells, each
//! holding a small integer state, connected by a precomputed local-neighborhood
//! topology and evolved generation by generation under a pluggable, purely
//! functional update rule.

pub mod ds;
pub mod dynamic;
pub mod dynamics;
pub mod haca;
pub mod haca_systems;
pub mod space;
pub mod spaces;
pub mod system;
pub mod third;
