//! Results as specification values.

use vstd::prelude::*;

verus! {

/// A result by the views of what it holds.
pub open spec fn view_of<T: View, E: View>(result: Result<T, E>) -> Result<T::V, E::V> {
    match result {
        Ok(value) => Ok(value@),
        Err(error) => Err(error@),
    }
}

} // verus!
