//! A small client library for initiating and verifying payments against the
//! Paystack HTTP API.
//!
//! The heart of the crate is the payment request builder: it accumulates the
//! required fields (amount, payer email, authentication key) and any optional
//! fields the caller sets, and renders them into a compact JSON payload in
//! which every unset optional field is fully omitted. The rendering carries a
//! full functional contract, as does the parser for the transaction
//! verification response.
//!
//! Network transport (the HTTPS POST and GET themselves) is left to the
//! binary side of an application; this crate supplies the payload, the
//! request headers and URLs, and the response parsing.

pub mod amount;
pub mod channels;
pub mod cred;
pub mod error;
pub mod initialize;
pub mod jsontext;
pub mod verify;

pub use amount::Amount;
pub use channels::{Bank, BankTransfer, Card, Eft, MobileMoney, QR, Ussd};
pub use cred::{expose_secret, SecretString};
pub use error::{AuthError, ResponseError};
pub use initialize::{Channel, Currency, Payment, PaymentBuilder};
pub use verify::{parse_verification, VerificationData, VerificationResult};
