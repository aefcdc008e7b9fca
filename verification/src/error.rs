//! The ways in which a ceremony can fail.
//!
//! Every variant is specific, so that callers can log and audit; a route
//! layer is expected to answer the client with something generic.

use vstd::prelude::*;
use vstd::string::*;
use crate::text::{self, decimal_string, signed_decimal_string};

verus! {

#[derive(Debug)]
#[allow(inconsistent_fields)]
pub enum Error {
    /// A wire field is not base64 in the encoding asked for.
    Base64(String),
    /// `clientDataJSON` is not JSON, or lacks a required member.
    ClientData(String),
    /// `clientDataJSON.type` is that of another ceremony.
    ClientDataType { expected: &'static str, actual: String },
    /// `clientDataJSON.challenge` is not the challenge that was issued.
    ChallengeMismatch,
    /// `clientDataJSON.origin` is not exactly the configured origin.
    OriginMismatch { expected: String, actual: String },
    /// `authenticatorData.rpIdHash` is not the SHA-256 of the RP ID.
    RpIdHashMismatch,
    /// The user-present bit is clear.
    UserNotPresent,
    /// The user-verified bit is clear although it was required.
    UserNotVerified,
    /// `authenticatorData` does not parse.
    AuthData(&'static str),
    /// The attestation object, its statement or a COSE key does not parse,
    /// or the statement does not hold.
    Cbor(String),
    /// The key is for an algorithm other than ES256 and EdDSA.
    UnsupportedAlg(i64),
    /// The signature does not verify, or the credential is not the one asked for.
    BadSignature,
    /// The signature counter did not increase: the credential may be cloned.
    CounterReplay { stored: u32, new: u32 },
    /// The ceremony was started too long ago.
    CeremonyExpired { age_secs: u64, max_secs: u64 },
    /// The assertion is for another user than the ceremony.
    UserHandleMismatch,
    /// Unusable configuration input.
    Internal(&'static str),
}

/// An [`Error`] with its texts as character sequences.
pub enum ErrorView {
    Base64(Seq<char>),
    ClientData(Seq<char>),
    ClientDataType { expected: Seq<char>, actual: Seq<char> },
    ChallengeMismatch,
    OriginMismatch { expected: Seq<char>, actual: Seq<char> },
    RpIdHashMismatch,
    UserNotPresent,
    UserNotVerified,
    AuthData(Seq<char>),
    Cbor(Seq<char>),
    UnsupportedAlg(i64),
    BadSignature,
    CounterReplay { stored: u32, new: u32 },
    CeremonyExpired { age_secs: u64, max_secs: u64 },
    UserHandleMismatch,
    Internal(Seq<char>),
}

impl View for Error {
    type V = ErrorView;

    open spec fn view(&self) -> ErrorView {
        match *self {
            Error::Base64(t) => ErrorView::Base64(t@),
            Error::ClientData(t) => ErrorView::ClientData(t@),
            Error::ClientDataType { expected, actual } => ErrorView::ClientDataType {
                expected: expected@,
                actual: actual@,
            },
            Error::ChallengeMismatch => ErrorView::ChallengeMismatch,
            Error::OriginMismatch { expected, actual } => ErrorView::OriginMismatch {
                expected: expected@,
                actual: actual@,
            },
            Error::RpIdHashMismatch => ErrorView::RpIdHashMismatch,
            Error::UserNotPresent => ErrorView::UserNotPresent,
            Error::UserNotVerified => ErrorView::UserNotVerified,
            Error::AuthData(t) => ErrorView::AuthData(t@),
            Error::Cbor(t) => ErrorView::Cbor(t@),
            Error::UnsupportedAlg(alg) => ErrorView::UnsupportedAlg(alg),
            Error::BadSignature => ErrorView::BadSignature,
            Error::CounterReplay { stored, new } => ErrorView::CounterReplay { stored, new },
            Error::CeremonyExpired { age_secs, max_secs } => ErrorView::CeremonyExpired {
                age_secs,
                max_secs,
            },
            Error::UserHandleMismatch => ErrorView::UserHandleMismatch,
            Error::Internal(t) => ErrorView::Internal(t@),
        }
    }
}

impl ErrorView {
    /// The one-line description of the error.
    pub open spec fn message(self) -> Seq<char> {
        match self {
            ErrorView::Base64(t) => "invalid base64url: "@ + t,
            ErrorView::ClientData(t) => "clientDataJSON parse failed: "@ + t,
            ErrorView::ClientDataType { expected, actual } =>
                "clientDataJSON.type mismatch: expected "@ + expected + ", got "@ + actual,
            ErrorView::ChallengeMismatch => "challenge mismatch"@,
            ErrorView::OriginMismatch { expected, actual } =>
                "origin mismatch: expected "@ + expected + ", got "@ + actual,
            ErrorView::RpIdHashMismatch => "rpIdHash mismatch"@,
            ErrorView::UserNotPresent => "user-present flag not set"@,
            ErrorView::UserNotVerified => "user-verified flag not set"@,
            ErrorView::AuthData(t) => "authenticatorData parse failed: "@ + t,
            ErrorView::Cbor(t) => "CBOR decode failed: "@ + t,
            ErrorView::UnsupportedAlg(alg) => "unsupported COSE algorithm: "@ + text::signed_decimal(
                alg as int,
            ),
            ErrorView::BadSignature => "signature verification failed"@,
            ErrorView::CounterReplay { stored, new } => "counter went backwards (stored="@
                + text::decimal(stored as nat) + ", new="@ + text::decimal(new as nat)
                + "): possible cloned credential"@,
            ErrorView::CeremonyExpired { age_secs, max_secs } => "ceremony state expired ("@
                + text::decimal(age_secs as nat) + " seconds old, max "@ + text::decimal(max_secs as nat)
                + ")"@,
            ErrorView::UserHandleMismatch =>
                "user handle mismatch: assertion is for a different user than the ceremony was started for"@,
            ErrorView::Internal(t) => "internal: "@ + t,
        }
    }
}

impl Error {
    /// The one-line description of the error.
    pub fn to_string(&self) -> (r: String)
        ensures
            r@ == self@.message(),
    {
        match self {
            Error::Base64(t) => "invalid base64url: ".to_owned().concat(t.as_str()),
            Error::ClientData(t) => "clientDataJSON parse failed: ".to_owned().concat(t.as_str()),
            Error::ClientDataType { expected, actual } => {
                "clientDataJSON.type mismatch: expected ".to_owned().concat(expected).concat(
                    ", got ",
                ).concat(actual.as_str())
            },
            Error::ChallengeMismatch => "challenge mismatch".to_owned(),
            Error::OriginMismatch { expected, actual } => {
                "origin mismatch: expected ".to_owned().concat(expected.as_str()).concat(
                    ", got ",
                ).concat(actual.as_str())
            },
            Error::RpIdHashMismatch => "rpIdHash mismatch".to_owned(),
            Error::UserNotPresent => "user-present flag not set".to_owned(),
            Error::UserNotVerified => "user-verified flag not set".to_owned(),
            Error::AuthData(t) => "authenticatorData parse failed: ".to_owned().concat(t),
            Error::Cbor(t) => "CBOR decode failed: ".to_owned().concat(t.as_str()),
            Error::UnsupportedAlg(alg) => "unsupported COSE algorithm: ".to_owned().concat(
                signed_decimal_string(*alg).as_str(),
            ),
            Error::BadSignature => "signature verification failed".to_owned(),
            Error::CounterReplay { stored, new } => {
                "counter went backwards (stored=".to_owned().concat(
                    decimal_string(*stored as u128).as_str(),
                ).concat(", new=").concat(decimal_string(*new as u128).as_str()).concat(
                    "): possible cloned credential",
                )
            },
            Error::CeremonyExpired { age_secs, max_secs } => {
                "ceremony state expired (".to_owned().concat(
                    decimal_string(*age_secs as u128).as_str(),
                ).concat(" seconds old, max ").concat(decimal_string(*max_secs as u128).as_str()).concat(
                    ")",
                )
            },
            Error::UserHandleMismatch =>
                "user handle mismatch: assertion is for a different user than the ceremony was started for".to_owned(),
            Error::Internal(t) => "internal: ".to_owned().concat(t),
        }
    }
}

/// A result with the views of its value and of its error.
pub open spec fn outcome<T: View>(r: Result<T, Error>) -> Result<T::V, ErrorView> {
    match r {
        Ok(v) => Ok(v@),
        Err(e) => Err(e@),
    }
}

/// [`Error::Cbor`] with a fixed text.
pub(crate) fn cbor_error(text: &str) -> (r: Error)
    ensures
        r@ == ErrorView::Cbor(text@),
{
    Error::Cbor(text.to_owned())
}

/// [`Error::Cbor`] with a context in front of a diagnostic.
pub(crate) fn cbor_error_in(context: &str, diagnostic: &str) -> (r: Error)
    ensures
        r@ == ErrorView::Cbor(context@ + diagnostic@),
{
    Error::Cbor(context.to_owned().concat(diagnostic))
}

} // verus!
