//! The synchronous bridge between the manager and deferred work.
//!
//! Every public operation of the manager is synchronous from the
//! caller's point of view; work that the backend performs lazily is
//! run to completion before the operation returns.  Inside this crate
//! that bridge is `block_on`: it takes the deferred computation as a
//! value and runs it now, on the calling thread, handing its result
//! back unchanged.  The host that owns the asynchronous backend pairs
//! this with its own executor.

use vstd::prelude::*;

verus! {

/// Runs a deferred computation to completion and returns its result.
///
/// The caller must show the computation's own precondition; everything
/// the computation promises of its result is promised of `r`.
pub fn block_on<T, F: FnOnce() -> T>(future: F) -> (r: T)
    requires
        call_requires(future, ()),
    ensures
        call_ensures(future, (), r),
{
    future()
}

} // verus!
