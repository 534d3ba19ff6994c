//! Handles that threads share, and the channel a worker answers on.

use vstd::prelude::*;
use std::sync::Arc;
use std::sync::mpsc::Receiver;

verus! {

/// `std::sync::mpsc::Receiver`, taken as an opaque value.
#[verifier::external_type_specification]
#[verifier::external_body]
#[verifier::reject_recursive_types(T)]
pub struct ExReceiver<T>(Receiver<T>);

/// `Arc::clone`: another handle to the same value.
#[verifier::external_body]
pub(crate) fn share<T>(a: &Arc<T>) -> (r: Arc<T>)
    ensures
        r == *a,
{
    Arc::clone(a)
}

/// `Arc::ptr_eq`: whether two handles point to one and the same value.
/// Handles that do hold equal values; handles that do not may or may not.
#[verifier::external_body]
pub(crate) fn same_allocation<T>(a: &Arc<T>, b: &Arc<T>) -> (r: bool)
    ensures
        r ==> *a == *b,
{
    Arc::ptr_eq(a, b)
}

/// `Receiver::recv`: blocks until the sender has sent a value or is gone;
/// `None` where it is gone without having sent one. Nothing is known of
/// the value but its type.
#[verifier::external_body]
pub(crate) fn receive<T>(rx: Receiver<T>) -> (r: Option<T>) {
    rx.recv().ok()
}

} // verus!
