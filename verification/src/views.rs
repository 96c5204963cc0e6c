//! Results by what they hold.

use vstd::prelude::*;

verus! {

/// A result with its value taken by its deep view.
pub open spec fn ok_view<T: DeepView, E>(r: Result<T, E>) -> Result<T::V, E> {
    match r {
        Ok(value) => Ok(value.deep_view()),
        Err(e) => Err(e),
    }
}

} // verus!
