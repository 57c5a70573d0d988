//! Sharing of immutable payloads between the holders of a value.

use std::sync::Arc;
use vstd::prelude::*;

verus! {

/// Another handle to the allocation behind `a`, made with `Arc::clone`.
///
/// Believed, not proved: the new handle points at the same allocation, so the
/// value seen through it is the value seen through `a`.
#[verifier::external_body]
pub(crate) fn share<T: ?Sized>(a: &Arc<T>) -> (res: Arc<T>)
    ensures
        res == *a,
{
    a.clone()
}

} // verus!
