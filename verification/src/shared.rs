//! Shared handles.

use std::sync::Arc;

use vstd::prelude::*;

verus! {

/// `Clone` of `std::sync::Arc`: another handle to the same value.
#[verifier::external_body]
pub(crate) fn share<T>(handle: &Arc<T>) -> (r: Arc<T>)
    ensures
        r == *handle,
{
    handle.clone()
}

} // verus!
