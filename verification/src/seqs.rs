//! Sequences of values and of their views.

use vstd::prelude::*;

verus! {

/// The views of a sequence of values, in place.
pub open spec fn views<T: View>(items: Seq<T>) -> Seq<T::V> {
    Seq::new(items.len(), |i: int| items[i]@)
}

} // verus!
