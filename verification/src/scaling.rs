//! Helpers for scaling a drawing.

use std::cmp::Ordering;
use vstd::std_specs::cmp::PartialOrdSpec;
use vstd::prelude::*;

verus! {

/// The first value where it is less than or equal to the second, else the
/// second. Where the two cannot be compared, it is the second.
#[inline]
pub fn partial_min<T: PartialOrd>(v1: T, v2: T) -> (min: T)
    ensures
        min == v1 || min == v2,
        T::obeys_partial_cmp_spec() ==> min == if v1.partial_cmp_spec(&v2) matches Some(
            Ordering::Less
            | Ordering::Equal,
        ) {
            v1
        } else {
            v2
        },
{
    if v1 <= v2 {
        v1
    } else {
        v2
    }
}

} // verus!
