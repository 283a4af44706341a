//! The calls this library makes into `fastant` (clock readings) and
//! `thread-id` (thread identity). Their results depend on the clock, the
//! machine or the calling thread, so none of them is given a name.

use vstd::prelude::*;
use fastant::Anchor;
use fastant::Instant;

verus! {

#[verifier::external_type_specification]
#[verifier::external_body]
pub struct ExInstant(Instant);

#[verifier::external_type_specification]
#[verifier::external_body]
pub struct ExAnchor(Anchor);

/// Calls `fastant::Instant::now`. The result is a reading of the clock, so
/// nothing is claimed of it.
#[verifier::external_body]
pub fn instant_now() -> (now: Instant) {
    Instant::now()
}

/// Reads `fastant::Instant::ZERO`, the fixed moment the library uses for
/// "no time recorded". Nothing is claimed of the value: the instant is
/// opaque to the library.
#[verifier::external_body]
pub(crate) fn instant_zero() -> (zero: Instant) {
    Instant::ZERO
}

/// Calls `thread_id::get`, the identifier of the calling thread. It depends
/// on the thread, so nothing is claimed of it.
#[verifier::external_body]
pub(crate) fn current_thread_id() -> (id: usize) {
    thread_id::get()
}

} // verus!
