//! Sharing of read-only handles.
use vstd::prelude::*;
use std::rc::Rc;
use std::sync::Arc;

verus! {

/// `Rc::clone`: another handle to the same value.
#[verifier::external_body]
pub(crate) fn share_rc<T>(handle: &Rc<T>) -> (r: Rc<T>)
    ensures
        r == *handle,
{
    Rc::clone(handle)
}

/// `Arc::clone`: another handle to the same value.
#[verifier::external_body]
pub(crate) fn share_arc<T>(handle: &Arc<T>) -> (r: Arc<T>)
    ensures
        r == *handle,
{
    Arc::clone(handle)
}

} // verus!
