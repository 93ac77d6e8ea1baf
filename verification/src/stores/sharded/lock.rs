//! Locks around what the threads of a program share.
use parking_lot::RwLock;
use vstd::prelude::*;

verus! {

#[verifier::external_type_specification]
#[verifier::external_body]
#[verifier::reject_recursive_types(R)]
#[verifier::reject_recursive_types(T)]
pub struct ExRwLock<R, T: ?Sized>(parking_lot::lock_api::RwLock<R, T>);

#[verifier::external_type_specification]
#[verifier::external_body]
pub struct ExRawRwLock(parking_lot::RawRwLock);

/// `parking_lot::RwLock::new`: a lock around `value` that nobody holds. What is behind a lock is
/// not part of its model, so nothing is claimed of the result.
#[verifier::external_body]
pub(crate) fn new_lock<T>(value: T) -> (lock: RwLock<T>) {
    RwLock::new(value)
}

/// `parking_lot::RwLock::read`: waits until no thread writes, and calls `f` with what is behind
/// the lock, and `a`, while none can. Claimed: `f` was called with some value, and its result is
/// returned. That call does not return if `f` itself waits for the same lock to be written.
#[verifier::external_body]
pub(crate) fn with_read<T, A, R, F: FnOnce(&T, A) -> R>(lock: &RwLock<T>, a: A, f: F) -> (r: R)
    requires
        forall|value: &T| f.requires((value, a)),
    ensures
        exists|value: &T| f.ensures((value, a), r),
{
    f(&lock.read(), a)
}

/// `parking_lot::RwLock::write`: waits until no thread holds the lock, and calls `f` with access
/// to what is behind it, and `a`, while none can. Claimed: `f` was called with some value, and its
/// result is returned. That call does not return if `f` itself waits for the same lock.
#[verifier::external_body]
pub(crate) fn with_write<T, A, R, F: FnOnce(&mut T, A) -> R>(lock: &RwLock<T>, a: A, f: F) -> (r:
    R)
    requires
        forall|value: &mut T| f.requires((value, a)),
    ensures
        exists|value: &mut T| f.ensures((value, a), r),
{
    f(&mut lock.write(), a)
}

} // verus!
