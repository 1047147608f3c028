//! Data-parallel fan-out over a worker pool.
//!
//! Every tick of the engine maps one task per node over a fixed-size pool.
//! The single trusted entry point below hands each index to the given
//! function and collects the results in index order.

use rayon::iter::{IndexedParallelIterator, IntoParallelIterator, ParallelIterator};
use vstd::prelude::*;

verus! {

/// Relies on rayon's `into_par_iter`/`map`/`collect` over a range: the
/// parallel iterator over `0..n` is indexed, so collecting the mapped values
/// yields one result per index, in index order. The closure is applied once
/// per index; what each call may return is whatever the closure's own
/// contract allows.
#[verifier::external_body]
pub fn par_map_range<T, F>(n: usize, f: F) -> (r: Vec<T>) where
    T: Send,
    F: Fn(usize) -> T + Send + Sync,

    requires
        forall|i: usize| i < n ==> #[trigger] call_requires(f, (i,)),
    ensures
        r@.len() == n,
        forall|i: int| 0 <= i < n ==> call_ensures(f, (i as usize,), #[trigger] r@[i]),
{
    (0..n).into_par_iter().map(|i| f(i)).collect()
}

} // verus!
