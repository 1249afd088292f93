//! The one-shot wake handle that a waiter suspends on and a matcher fires.
use std::sync::Arc;
use tokio::sync::Notify;
use vstd::prelude::*;

verus! {

/// tokio's notification primitive, carried through the registry opaquely.
#[verifier::external_type_specification]
#[verifier::external_body]
pub struct ExNotify(Notify);

/// Relies on tokio's `Notify::new`: a fresh handle with no stored permit.
#[verifier::external_body]
pub(crate) fn new_handle() -> (r: Arc<Notify>) {
    Arc::new(Notify::new())
}

/// Relies on `Arc::clone`: the copy refers to the same handle.
#[verifier::external_body]
pub(crate) fn share_handle(h: &Arc<Notify>) -> (r: Arc<Notify>)
    ensures
        r == *h,
{
    h.clone()
}

/// Relies on tokio's `Notify::notify_one`: it wakes the task waiting on the
/// handle or, when none waits yet, stores a permit so that the next wait
/// completes at once.
#[verifier::external_body]
pub(crate) fn fire(h: &Arc<Notify>) {
    h.notify_one()
}

} // verus!
