//! The error kinds surfaced to callers.

use vstd::prelude::*;

verus! {

/// Authentication error: the required authentication key could not be
/// located by the credential source.
#[derive(Clone, Debug)]
pub enum AuthError {
    /// Your public key must be set.
    NoPublicKey,
}

/// Error wrapping a failed response from the Paystack API: a transport
/// failure, or a response body that cannot be read as the expected shape.
#[derive(Clone, Debug)]
pub enum ResponseError {
    /// A Paystack transport or response failure, with its description.
    PayStackError(String),
    /// A transaction could not be verified.
    TransactionVerificationError(bool),
}

impl AuthError {
    /// A short description of the error.
    pub fn describe(&self) -> (s: String)
        ensures
            s@ == "Your public key must be set"@,
    {
        String::from_str("Your public key must be set")
    }
}

impl ResponseError {
    /// A short description of the error, carrying the underlying
    /// failure's context.
    pub fn describe(&self) -> (s: String)
        ensures
            (match *self {
                ResponseError::PayStackError(m) => s@ == "Paystack Error: "@ + m@,
                ResponseError::TransactionVerificationError(b) => s@ == (if b {
                    "true"@
                } else {
                    "false"@
                }) + "; Couldn't verify transaction"@,
            }),
    {
        match self {
            ResponseError::PayStackError(m) => {
                let mut s = String::from_str("Paystack Error: ");
                s.append(m.as_str());
                s
            },
            ResponseError::TransactionVerificationError(b) => {
                let mut s = if *b {
                    String::from_str("true")
                } else {
                    String::from_str("false")
                };
                s.append("; Couldn't verify transaction");
                s
            },
        }
    }
}

} // verus!
