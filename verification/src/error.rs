//! Failure conditions of mapping operations. All of them are surfaced as
//! results, never as aborts: allocator exhaustion in particular is a
//! recoverable memory-pressure event that the address-space manager must be
//! free to handle.

use vstd::prelude::*;

verus! {

/// Why a mapping operation failed.
#[derive(Clone, Copy, Debug, PartialEq, Eq)]
pub enum MemoryError {
    /// The frame allocator is exhausted. Recoverable: the caller may
    /// reclaim, evict, or fail the request.
    NoFramesAvailable,
    /// The address was not mapped by this handler. A caller contract
    /// violation, reported rather than silently accepted.
    EntryNotFound,
    /// The address is already mapped by this handler; mapping it twice is a
    /// caller bug, reported rather than silently accepted.
    AlreadyMapped,
}

} // verus!
