//! Error kinds shared by all modules.

use vstd::prelude::*;

verus! {

/// Why an operation failed.
#[derive(Clone, Copy, Debug, PartialEq, Eq, Structural)]
pub enum AxError {
    /// A resource is already claimed by someone else.
    AddrInUse,
    /// The entity already exists.
    AlreadyExists,
    /// The internal state does not allow the operation.
    BadState,
    /// An argument is invalid.
    InvalidInput,
    /// No space is left.
    NoMemory,
    /// No such device.
    NoSuchDevice,
    /// The requested entity is not found.
    NotFound,
    /// The device or resource is busy.
    ResourceBusy,
    /// The operation is not supported.
    Unsupported,
    /// The operation has to be retried later.
    WouldBlock,
    /// Any other error, by its numeric code.
    Other(i32),
}

/// Result of a fallible operation.
pub type AxResult<T> = Result<T, AxError>;

/// All successes without a value are the same.
pub proof fn lemma_plain_success(r: AxResult<()>)
    ensures
        r is Ok ==> r == Ok::<(), AxError>(()),
{
    if r is Ok {
        assert(r->Ok_0 == ());
    }
}

} // verus!
