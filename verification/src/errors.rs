//! What can go wrong between a caller and the backend.

use vstd::prelude::*;
use vstd::string::StringExecFns;

verus! {

/// Why a caller got no answer to a request.
#[derive(Debug, Clone, Copy, PartialEq, Eq, Structural)]
pub enum FetchError {
    /// The job was submitted, but no reply ever came.
    RecvError,
    /// The job could not be handed to the multiplexer.
    SendError,
    /// A reply came, but it could not be decoded.
    DecodeError,
    /// The request could not be encoded.
    EncodeError,
}

/// The HTTP status for a failure inside the gateway.
pub const INTERNAL_SERVER_ERROR: u16 = 500;

/// The HTTP status for a reply that carries no result.
pub const NOT_FOUND: u16 = 404;

/// The HTTP status for a reply that carries a result.
pub const FOUND: u16 = 200;

impl FetchError {
    /// What a caller is told: the same for every failure.
    pub fn message(&self) -> (text: String)
        ensures
            text@ == "internal error"@,
    {
        String::from_str("internal error")
    }

    /// The HTTP status that a caller is answered with: every failure is
    /// the gateway's own.
    pub fn status_code(&self) -> (status: u16)
        ensures
            status == INTERNAL_SERVER_ERROR,
    {
        INTERNAL_SERVER_ERROR
    }
}

/// The HTTP status that answers a request: a result is passed on, a
/// reply without a result means that nothing was found, and a failure is
/// reported as the gateway's own.
pub fn reply_status(reply: Result<bool, FetchError>) -> (status: u16)
    ensures
        status == match reply {
            Ok(true) => FOUND,
            Ok(false) => NOT_FOUND,
            Err(_) => INTERNAL_SERVER_ERROR,
        },
{
    match reply {
        Ok(true) => FOUND,
        Ok(false) => NOT_FOUND,
        Err(failure) => failure.status_code(),
    }
}

} // verus!
