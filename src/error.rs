//! Error types.
use vstd::prelude::*;

use crate::k_type::KTypeCode;

verus! {

/// An error converting between stored values and typed views or native values.
#[derive(Clone, Copy, Debug, PartialEq, Eq, Structural)]
pub enum ConversionError {
    /// A downcast found a value whose tag is not the one the typed view needs.
    InvalidKCast {
        /// The tag of the value being cast.
        from: KTypeCode,
        /// The tag the typed view needs.
        to: KTypeCode,
    },
    /// A duration too long for the timespan type.
    DurationTooLong,
    /// Text that is not a valid string, or a symbol that is not known.
    InvalidString,
}

/// The error type for connecting to a remote instance.
#[derive(Clone, Copy, Debug, PartialEq, Eq, Structural)]
pub enum ConnectionError {
    /// Credentials were incorrect.
    BadCredentials,
    /// Unable to connect.
    CouldNotConnect,
    /// Timed out.
    Timeout,
}

/// The error type for query execution.
#[derive(Clone, Debug, PartialEq, Eq)]
pub enum Error {
    /// Network error reaching a remote instance.
    NetworkError,
    /// An error value returned by the query, with its message.
    QError(String),
    /// An error without a message.
    UnknownQError,
}

impl ConversionError {
    /// A short description of the error.
    pub fn message(&self) -> (r: &'static str)
        ensures
            self is InvalidKCast ==> r@ == "Invalid k object cast"@,
            self is DurationTooLong ==> r@ == "Duration too long for K timespan type"@,
            self is InvalidString ==> r@ == "Symbol not a valid Rust string"@,
    {
        match self {
            ConversionError::InvalidKCast { .. } => "Invalid k object cast",
            ConversionError::DurationTooLong => "Duration too long for K timespan type",
            ConversionError::InvalidString => "Symbol not a valid Rust string",
        }
    }
}

} // verus!
