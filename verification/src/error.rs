//! The socket error taxonomy, and the translation of the transport's raw
//! status codes into it.

use vstd::prelude::*;

verus! {

/// Status code the transport reports for a completed operation.
pub const STATUS_DONE: u32 = 0;

/// Status code for a non-blocking operation that could not complete yet.
pub const STATUS_NOT_READY: u32 = 1;

/// Status code for an operation that transferred only part of the data.
pub const STATUS_PARTIAL: u32 = 2;

/// Status code for a connection the remote peer has closed.
pub const STATUS_DISCONNECTED: u32 = 3;

/// Status code for any other transport failure.
pub const STATUS_ERROR: u32 = 4;

/// Errors that can occur when handling sockets (connecting, sending,
/// receiving, ...).
#[derive(Debug, Clone, Copy, PartialEq, Eq, Structural)]
pub enum Error {
    /// A non-blocking operation could not complete immediately; retry later.
    NotReady,
    /// Fewer bytes than requested were transferred; resume with the rest.
    Partial,
    /// The remote peer has cleanly closed the connection.
    Disconnected,
    /// Any other failure (invalid handle, resource exhaustion, OS error).
    OtherError,
}

/// What a known status code means as a result.
pub open spec fn status_result(code: u32) -> Result<(), Error> {
    if code == STATUS_DONE {
        Ok(())
    } else if code == STATUS_NOT_READY {
        Err(Error::NotReady)
    } else if code == STATUS_PARTIAL {
        Err(Error::Partial)
    } else if code == STATUS_DISCONNECTED {
        Err(Error::Disconnected)
    } else {
        Err(Error::OtherError)
    }
}

/// Turns a transport status code into a proper result.
///
/// A code outside the known set is a contract violation between the transport
/// and this wrapper; callers must rule it out rather than have it mapped.
pub fn code_to_err(code: u32) -> (r: Result<(), Error>)
    requires
        code <= STATUS_ERROR,
    ensures
        r == status_result(code),
{
    if code == STATUS_DONE {
        Ok(())
    } else if code == STATUS_NOT_READY {
        Err(Error::NotReady)
    } else if code == STATUS_PARTIAL {
        Err(Error::Partial)
    } else if code == STATUS_DISCONNECTED {
        Err(Error::Disconnected)
    } else {
        Err(Error::OtherError)
    }
}

} // verus!
