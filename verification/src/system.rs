//! The evolution engine: a topology and a rule composed into one system,
//! advanced generation by generation.

pub mod dynamical_system;
