//! The concurrent store behind the memoization cache.
//!
//! The cache maps a key — a cell's state together with the ordered list of
//! its neighbors' states — to the rule's output for that input. The store
//! must take concurrent lookups and inserts from the node-update workers,
//! so it is dashmap's sharded concurrent hash map, held behind the three
//! operations the cache needs.

use vstd::prelude::*;

verus! {

/// dashmap's sharded concurrent hash map, the associative store behind the
/// memoization cache.
#[verifier::external_type_specification]
#[verifier::external_body]
#[verifier::reject_recursive_types(K)]
#[verifier::reject_recursive_types(V)]
#[verifier::reject_recursive_types(S)]
pub struct ExDashMap<K, V, S>(dashmap::DashMap<K, V, S>);

/// What a memoization store holds: the finite map from each recorded key —
/// a cell state with an ordered neighbor-state list — to the recorded
/// result.
pub uninterp spec fn memo_contents(m: dashmap::DashMap<(u32, Vec<u32>), u32>) -> Map<
    (u32, Seq<u32>),
    u32,
>;

/// The contents of a store with nothing recorded yet.
pub open spec fn memo_empty() -> Map<(u32, Seq<u32>), u32> {
    Map::empty()
}

/// Relies on dashmap's `DashMap::new`: a freshly created map holds nothing.
#[verifier::external_body]
pub fn memo_new() -> (r: dashmap::DashMap<(u32, Vec<u32>), u32>)
    ensures
        memo_contents(r) == memo_empty(),
{
    dashmap::DashMap::new()
}

/// Relies on dashmap's `DashMap::get`: it returns the value recorded under
/// the given key, or nothing when the key was never recorded.
#[verifier::external_body]
pub fn memo_get(
    m: &dashmap::DashMap<(u32, Vec<u32>), u32>,
    state: u32,
    neighbors: &Vec<u32>,
) -> (r: Option<u32>)
    ensures
        match r {
            Some(v) => memo_contents(*m).contains_key((state, neighbors@)) && memo_contents(*m)[
                (state, neighbors@)
            ] == v,
            None => !memo_contents(*m).contains_key((state, neighbors@)),
        },
{
    m.get(&(state, neighbors.clone())).map(|entry| *entry.value())
}

/// Relies on dashmap's `DashMap::insert`: afterward the map holds the given
/// value under the given key and is otherwise unchanged.
#[verifier::external_body]
pub fn memo_insert(
    m: &mut dashmap::DashMap<(u32, Vec<u32>), u32>,
    state: u32,
    neighbors: Vec<u32>,
    value: u32,
)
    ensures
        memo_contents(*final(m)) == memo_contents(*old(m)).insert((state, neighbors@), value),
{
    m.insert((state, neighbors), value);
}

} // verus!
