//! Local update rules: the pluggable contract and its example instantiations.

pub mod cyclic;
pub mod eca;
pub mod life;
pub mod lifelike;
pub mod local;
