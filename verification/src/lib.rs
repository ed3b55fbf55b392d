//! Verified core of a small set of concurrency walkthroughs: what each worker
//! prints, what each sender transmits, and how shared state changes under a
//! lock. Spawning, sleeping, locking and printing are left to the caller.

use vstd::prelude::*;

pub mod counting;
pub mod messages;
pub mod shared;
pub mod text;

verus! {

/// Whether a value may move to another thread, and whether it may be reached
/// from several threads at once, is decided by the marker traits `Send` and
/// `Sync`, which the compiler gives to any type whose parts have them. Every
/// value that this crate hands out is made of integers, characters and text,
/// so all of them have both, and nothing is left to do at run time.
pub fn extensibility_concurrency_with_the_sync_and_send_traits() {
}

} // verus!
