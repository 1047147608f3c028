//! Example node values for the interaction-driven hypergraphs.

pub mod life;
