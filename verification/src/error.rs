//! The errors that are answered or reported.

use vstd::prelude::*;
use vstd::string::*;

verus! {

/// The error kinds that a response carries back to the client.
#[derive(Debug, Clone, Copy, PartialEq, Eq, Structural)]
pub enum ServerError {
    InternalServerError,
    PermissionDenied,
    SessionExpired,
    InvalidCredentials,
    BadRequest,
}

/// Why a frame could not be built or taken apart.
#[derive(Debug, Clone, Copy, PartialEq, Eq, Structural)]
pub enum FramingError {
    /// The payload is not UTF-8 text.
    FromUtf8Error,
    /// The payload is not the JSON text of the expected value.
    SerializationError,
    /// The length prefix is not seven decimal digits.
    ParseIntError,
    /// Prefix and payload together would exceed the largest frame.
    MaximumFrameSizeExceeded,
}

/// Why a read on a connection gave no frame.
#[derive(Debug, Clone, Copy, PartialEq, Eq, Structural)]
pub enum ConnectionError {
    /// The peer closed the connection before a frame was complete.
    ConnectionClosed,
    /// What was received is no frame.
    Framing(FramingError),
}

impl ServerError {
    /// The text shown for a server error, the same for every kind.
    pub fn to_string(&self) -> (res: String)
        ensures
            res@ == "internal Server Error"@,
    {
        String::from_str("internal Server Error")
    }
}

impl FramingError {
    /// The text shown for a framing error, the same for every kind.
    pub fn to_string(&self) -> (res: String)
        ensures
            res@ == "crittical Error while framing"@,
    {
        String::from_str("crittical Error while framing")
    }
}

} // verus!
