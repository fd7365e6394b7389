//! Authentication-session engine: PKCE challenges, encrypted session
//! persistence, and deep-link callback routing for an OAuth-style login
//! flow.
//!
//! - `crypto`: PKCE, constant-time comparison, key derivation, and the
//!   authenticated cipher that protects records at rest.
//! - `codec`: the canonical byte representation of a session record,
//!   with a proved decode-of-encode round trip.
//! - `session`: the data model and its views.
//! - `manager`: the session store and the command surface of the flow.
//! - `deeplink`: redirect-URL parsing, callback classification, and the
//!   scheme allow-list for opening external URLs.
//!
//! The surrounding program supplies what the engine cannot compute for
//! itself — durable storage for the key-value document, the clock, the
//! browser launcher, the OS deep-link channel, and the token exchange
//! with the identity provider — all passed in and out as plain values.
use vstd::prelude::*;

use vstd::string::StringExecFns;

pub mod codec;
pub mod crypto;
pub mod deeplink;
pub mod manager;
pub mod session;

verus! {

/// Failure taxonomy for the authentication core.
#[derive(Debug, Clone)]
pub enum AuthError {
    /// Missing or malformed authorization code or state.
    InvalidCode,
    /// Session or challenge past its expiry.
    ExpiredCode,
    /// PKCE verifier/challenge mismatch.
    PKCEFailed,
    /// Persistence read/write/serialization failure.
    StorageError(String),
    /// Key derivation or hashing failure.
    CryptoError(String),
    /// Unparseable or disallowed-scheme URL.
    InvalidUrl(String),
    /// OS-level deep-link delivery or registration failure.
    DeepLinkError(String),
}

/// The text `message` returns for each error.
pub open spec fn spec_message(e: AuthError) -> Seq<char> {
    match e {
        AuthError::InvalidCode => "Invalid authentication code"@,
        AuthError::ExpiredCode => "Authentication code expired"@,
        AuthError::PKCEFailed => "PKCE verification failed"@,
        AuthError::StorageError(s) => "Token storage error: "@ + s@,
        AuthError::CryptoError(s) => "Crypto error: "@ + s@,
        AuthError::InvalidUrl(s) => "Invalid URL: "@ + s@,
        AuthError::DeepLinkError(s) => "Deep link registration failed: "@ + s@,
    }
}

impl AuthError {
    /// A human-readable description of the failure.
    pub fn message(&self) -> (r: String)
        ensures
            r@ == spec_message(*self),
    {
        match self {
            AuthError::InvalidCode => String::from_str(
                "Invalid authentication code",
            ),
            AuthError::ExpiredCode => String::from_str(
                "Authentication code expired",
            ),
            AuthError::PKCEFailed => String::from_str(
                "PKCE verification failed",
            ),
            AuthError::StorageError(s) => {
                let mut m = String::from_str("Token storage error: ");
                m.append(s.as_str());
                m
            },
            AuthError::CryptoError(s) => {
                let mut m = String::from_str("Crypto error: ");
                m.append(s.as_str());
                m
            },
            AuthError::InvalidUrl(s) => {
                let mut m = String::from_str("Invalid URL: ");
                m.append(s.as_str());
                m
            },
            AuthError::DeepLinkError(s) => {
                let mut m = String::from_str(
                    "Deep link registration failed: ",
                );
                m.append(s.as_str());
                m
            },
        }
    }
}

} // verus!
