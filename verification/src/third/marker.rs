//! Specifications for standard marker types.

use vstd::prelude::*;

verus! {

/// Relies on `PhantomData`'s `Clone`: the type has exactly one value, and
/// cloning returns it.
pub assume_specification<T: core::marker::PointeeSized>[ <core::marker::PhantomData<T> as core::clone::Clone>::clone ](
    t: &core::marker::PhantomData<T>,
) -> (r: core::marker::PhantomData<T>)
    ensures
        r == *t,
;

} // verus!
