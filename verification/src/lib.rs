//! A WebAuthn relying party, narrowed to the passkey ceremonies:
//! registration of a credential and authentication with it.
//!
//! [`Webauthn`] holds the configuration. `start_registration` and the
//! `start_authentication` methods build what the browser is given and a
//! state to keep; `finish_registration` and `finish_authentication` judge
//! the browser's answer against that state.
//!
//! The contracts state what is returned. Where a result comes from another
//! crate (a hash, a signature check, a decoded document), they speak of it by
//! name. What the clock reads and which challenge is drawn they leave open:
//! a function that reads the clock or draws a challenge states that the time
//! is one that the clock showed and the challenge one that was drawn, and one
//! that takes both as arguments does the rest.
//!
//! [`laws`] holds what follows for whole ceremonies, [`part_laws`] what each
//! part gives for its inputs, and [`client_data_laws`] what is read out of a
//! JSON text.

pub mod attestation;
pub mod auth_data;
pub mod cbor;
pub mod ceremony;
pub mod client_data;
pub mod client_data_laws;
pub mod cose;
pub mod crypto;
pub mod encoding;
pub mod error;
pub mod json;
pub mod laws;
pub mod part_laws;
pub mod text;
pub mod types;
pub mod x509;

pub use ceremony::{Attachment, Webauthn};
pub use error::Error;
pub use types::{
    AuthSuccess, AuthenticationChallenge, AuthenticationResponse, AuthenticationState,
    AuthenticatorSelection, Challenge, CosePublicKey, CredentialDescriptor, CredentialId,
    PasskeyCredential, PubKeyCredParam, RegistrationChallenge, RegistrationResponse,
    RegistrationState, RpId, RpInfo, UserInfo,
};
