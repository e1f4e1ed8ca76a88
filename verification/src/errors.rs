//! The error taxonomy shared by every table operation.

use vstd::prelude::*;

verus! {

/// Why a table or allocator operation failed.
///
/// Every consistency violation and pool exhaustion is surfaced synchronously
/// to the immediate caller; nothing is retried internally.
#[derive(Clone, Copy, Debug, PartialEq, Eq, Structural)]
pub enum AuxError {
    /// A lookup, remove or unregister named a key that is not present.
    NotFound,
    /// The identical (host address, guest key) pair was registered twice in
    /// the synonym index: a caller protocol violation, fatal to the call.
    DuplicateRegistration,
    /// The allocator has no free page left; the caller must evict and
    /// recycle before retrying.
    PoolExhausted,
}

} // verus!
