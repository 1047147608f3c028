//! The narrow interface to outside crates: every item here wraps a single
//! outside call and is the only place where the library leans on code that
//! is not verified.

pub mod marker;
pub mod memo;
pub mod pool;
pub mod random;
