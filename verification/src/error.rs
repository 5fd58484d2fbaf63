//! Typed error surface of the library.
//!
//! Host input is untrusted and never causes a panic; every failing path
//! returns [`Error`] instead.
use crate::protocol::MessageType;
use vstd::prelude::*;

verus! {

/// Convenience alias.
pub type Result<T> = core::result::Result<T, Error>;

/// Failure of a platform service the guest relies on.
#[derive(Copy, Clone, Debug, PartialEq, Eq, Structural)]
pub enum TmkError {
    /// Memory could not be allocated.
    AllocationFailed,
    /// The hypervisor is short of memory for the partition.
    InsufficientMemory,
    /// The hypervisor has no free message buffer.
    InsufficientBuffers,
    /// The hypervisor denied access.
    AccessDenied,
    /// Any other hypervisor status.
    Status(u16),
}

/// Errors that can be produced by any API of this library.
#[derive(Copy, Clone, Debug)]
pub enum Error {
    /// A wire message from the host failed to parse (bad length, unknown
    /// type when a specific type was expected, truncated body, ...).
    Parse {
        /// The message type we were trying to parse (if known).
        ty: Option<MessageType>,
        /// Human-readable reason.
        reason: &'static str,
    },
    /// The host answered with an unexpected message.
    UnexpectedMessage(MessageType),
    /// Version negotiation walked the whole ladder without agreement.
    VersionMismatch,
    /// The channel has been rescinded by the host.
    Rescinded,
    /// A ring-buffer send was attempted with insufficient space.
    RingFull,
    /// A ring-buffer receive found no data.
    RingEmpty,
    /// A completion did not arrive before the bounded retry cap.
    Timeout,
    /// The underlying hypercall failed.
    Hypercall(TmkError),
    /// A completion id was returned that we did not have outstanding.
    OrphanCompletion,
    /// A path that is not implemented.
    NotImplemented,
}

impl From<TmkError> for Error {
    fn from(value: TmkError) -> (r: Self) {
        Error::Hypercall(value)
    }
}

impl vstd::std_specs::convert::FromSpecImpl<TmkError> for Error {
    open spec fn obeys_from_spec() -> bool {
        true
    }

    open spec fn from_spec(v: TmkError) -> Self {
        Error::Hypercall(v)
    }
}

} // verus!
