//! Error taxonomy of the payload codec and of the surrounding API layer.

use vstd::prelude::*;
use vstd::string::StringExecFns;

verus! {

/// An error produced while generating a payment payload.
///
/// Codec errors are hard failures: payload generation aborts on the first
/// one and the caller decides how the enclosing workflow reacts.
#[derive(Clone, Copy, Debug, PartialEq, Eq, Structural)]
pub enum CodecError {
    /// Normalization could not produce a 9-digit numeric identifier.
    InvalidPhoneNumber,
    /// The amount is negative or exceeds the 8-digit minor-unit field.
    InvalidAmount,
}

impl CodecError {
    /// A human-readable description of the error.
    pub fn message(&self) -> (r: String)
        ensures
            *self == CodecError::InvalidPhoneNumber ==> r@ == "Invalid phone number format"@,
            *self == CodecError::InvalidAmount ==> r@ == "Invalid amount"@,
    {
        match self {
            CodecError::InvalidPhoneNumber => String::from_str("Invalid phone number format"),
            CodecError::InvalidAmount => String::from_str("Invalid amount"),
        }
    }
}

/// Application-level error categories, carried as plain messages.
///
/// The HTTP rendering of these categories lives with the web layer; the
/// library only fixes the classification a handler reports.
#[derive(Debug)]
pub enum ApiError {
    DatabaseError(String),
    NotFound(String),
    AuthenticationError(String),
    InternalServerError(String),
    ValidationError(String),
}

} // verus!
