//! Errors of ring setup and of the buffer lifecycle.

use vstd::prelude::*;

verus! {

/// What can go wrong while setting up or driving a ring.
#[derive(Clone, Copy, Debug, PartialEq, Eq, Structural)]
pub enum RingError {
    /// Zero or degenerate sizes, rejected before the executor is involved.
    InvalidConfiguration,
    /// The operating system could not provide the shared memory.
    AllocationFailed,
    /// The executor refused the ring or area that was offered to it.
    RegistrationError,
    /// No room in the ring: back off until the executor consumes entries.
    RingFull,
    /// A completion reported a failed operation.
    OperationFailed,
    /// A lifecycle rule was broken: a double refill, a refill of memory never
    /// handed out, memory reported again before its refill, an out-of-range
    /// buffer or offset, or an unexpected completion.
    ProtocolViolation,
}

} // verus!
