//! Topologies: the node/neighbor hypergraph representation, its state
//! contract, and the toroidal grid builder.

pub mod basic;
pub mod grid;
pub mod lattice;
pub mod local;
