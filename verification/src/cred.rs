//! The authentication key, held behind secrecy's `Secret` wrapper.
//!
//! Loading the key from the environment is a concern of the application
//! around this library; here the library only needs to take a wrapped key
//! and read the string inside it at the single point of use.

use vstd::prelude::*;

verus! {

/// A wrapped authentication key: secrecy's `Secret<String>`, held in a field
/// Verus does not look into. A value of it is opaque; `secret_chars` names
/// the string it holds, and the two functions below are the only ways in and
/// out.
#[verifier::external_body]
pub struct SecretString {
    inner: secrecy::Secret<String>,
}

/// The characters of the string wrapped by a secret. A secret is immutable
/// once made, so this is a function of the secret alone; `SecretString::new`
/// and `expose_secret` are the trusted items that speak of it.
pub uninterp spec fn secret_chars(secret: SecretString) -> Seq<char>;

impl SecretString {
    /// Wrap a key.
    ///
    /// Relies on secrecy's `Secret::new`, which takes ownership of the given
    /// value and holds exactly it.
    #[verifier::external_body]
    pub fn new(value: String) -> (s: SecretString)
        ensures
            secret_chars(s) == value@,
    {
        SecretString { inner: secrecy::Secret::new(value) }
    }
}

/// Helper for unmasking the `Secret` wrapper.
///
/// Relies on secrecy's `Secret::expose_secret`, which returns a reference to
/// the wrapped value, here copied out into an owned string.
#[verifier::external_body]
pub fn expose_secret(secret: SecretString) -> (r: String)
    ensures
        r@ == secret_chars(secret),
{
    secrecy::ExposeSecret::expose_secret(&secret.inner).to_owned()
}

} // verus!
