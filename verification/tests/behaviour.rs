//! Whole ceremonies with a simulated authenticator: what has to hold of
//! them, and every way in which they fail.

use base64::Engine;
use base64::engine::general_purpose::{
    STANDARD as B64STD, STANDARD_NO_PAD as B64STD_NO_PAD, URL_SAFE as B64URL_PAD,
    URL_SAFE_NO_PAD as B64URL,
};
use ciborium::value::Value;
use ed25519_dalek::{Signer, SigningKey};
use passkey_auth::ceremony::{CEREMONY_MAX_AGE_SECS, check_counter};
use passkey_auth::{
    Attachment, AuthenticationResponse, AuthenticationState, Challenge, CosePublicKey,
    CredentialId, Error, PasskeyCredential, RegistrationResponse, RegistrationState, Webauthn,
};
use sha2::{Digest, Sha256};

const RP_ID: &str = "example.com";
const ORIGIN: &str = "https://example.com";

/// SHA-256 of "example.com".
const RP_ID_HASH: [u8; 32] = [
    0xa3, 0x79, 0xa6, 0xf6, 0xee, 0xaf, 0xb9, 0xa5, 0x5e, 0x37, 0x8c, 0x11, 0x80, 0x34, 0xe2, 0x75,
    0x1e, 0x68, 0x2f, 0xab, 0x9f, 0x2d, 0x30, 0xab, 0x13, 0xd2, 0x12, 0x55, 0x86, 0xce, 0x19, 0x47,
];

const UP: u8 = 0x01;
const UV: u8 = 0x04;
const AT: u8 = 0x40;
const ED: u8 = 0x80;

const START: u64 = 1_700_000_000;

fn text(s: &str) -> Value {
    Value::Text(s.to_string())
}

fn num(i: i64) -> Value {
    Value::Integer(i.into())
}

fn to_bytes(v: &Value) -> Vec<u8> {
    let mut out = Vec::new();
    ciborium::ser::into_writer(v, &mut out).unwrap();
    out
}

fn key_pair() -> SigningKey {
    SigningKey::from_bytes(&[7u8; 32])
}

fn cose_key(sk: &SigningKey) -> Vec<u8> {
    to_bytes(&Value::Map(vec![
        (num(1), num(1)),
        (num(3), num(-8)),
        (num(-1), num(6)),
        (num(-2), Value::Bytes(sk.verifying_key().to_bytes().to_vec())),
    ]))
}

fn plain_auth_data(hash: &[u8; 32], flags: u8, count: u32) -> Vec<u8> {
    let mut buf = hash.to_vec();
    buf.push(flags);
    buf.extend_from_slice(&count.to_be_bytes());
    buf
}

fn attested_auth_data(flags: u8, count: u32, id: &[u8], key: &[u8]) -> Vec<u8> {
    let mut buf = plain_auth_data(&RP_ID_HASH, flags | AT, count);
    buf.extend_from_slice(&[9u8; 16]);
    buf.extend_from_slice(&(id.len() as u16).to_be_bytes());
    buf.extend_from_slice(id);
    buf.extend_from_slice(key);
    buf
}

fn attestation_object(fmt: &str, stmt: Value, auth_data: Vec<u8>) -> Vec<u8> {
    to_bytes(&Value::Map(vec![
        (text("fmt"), text(fmt)),
        (text("attStmt"), stmt),
        (text("authData"), Value::Bytes(auth_data)),
    ]))
}

fn client_data(kind: &str, challenge: &str, origin: &str) -> Vec<u8> {
    format!(
        r#"{{"type":"{kind}","challenge":"{challenge}","origin":"{origin}","crossOrigin":false}}"#
    )
    .into_bytes()
}

fn relying_party() -> Webauthn {
    Webauthn::new(RP_ID, "Example", ORIGIN)
}

fn challenge() -> Challenge {
    Challenge((0u8..32).collect())
}

fn registration_state() -> RegistrationState {
    RegistrationState { challenge: challenge(), user_id: b"user".to_vec(), created_at: START }
}

fn registration_response(attestation: &[u8], client: &[u8]) -> RegistrationResponse {
    RegistrationResponse {
        id: B64URL.encode(b"credential"),
        transports: vec!["usb".to_string(), "nfc".to_string()],
        attestation_object: B64URL.encode(attestation),
        client_data_json: B64URL.encode(client),
    }
}

fn good_registration_client() -> Vec<u8> {
    client_data("webauthn.create", &challenge().to_b64url(), ORIGIN)
}

fn register_with(fmt: &str, stmt: Value, auth_data: Vec<u8>) -> Result<PasskeyCredential, Error> {
    let attestation = attestation_object(fmt, stmt, auth_data);
    let response = registration_response(&attestation, &good_registration_client());
    relying_party().finish_registration_at(&registration_state(), &response, START + 10)
}

fn good_auth_data() -> Vec<u8> {
    attested_auth_data(UP | UV, 3, b"credential", &cose_key(&key_pair()))
}

fn registered() -> PasskeyCredential {
    register_with("none", Value::Map(vec![]), good_auth_data()).unwrap()
}

fn authentication_state() -> AuthenticationState {
    AuthenticationState {
        challenge: challenge(),
        allow_credentials: vec![CredentialId(b"other".to_vec()), registered().id],
        created_at: START,
        user_handle: None,
    }
}

fn assertion_over(auth_data: &[u8], client: &[u8]) -> AuthenticationResponse {
    let mut msg = auth_data.to_vec();
    msg.extend_from_slice(&Sha256::digest(client));
    AuthenticationResponse {
        id: B64URL.encode(b"credential"),
        authenticator_data: B64URL.encode(auth_data),
        signature: B64URL.encode(key_pair().sign(&msg).to_bytes()),
        client_data_json: B64URL.encode(client),
        user_handle: None,
    }
}

fn good_client() -> Vec<u8> {
    client_data("webauthn.get", &challenge().to_b64url(), ORIGIN)
}

fn good_assertion() -> AuthenticationResponse {
    assertion_over(&plain_auth_data(&RP_ID_HASH, UP | UV, 4), &good_client())
}

// ---------- Registration ---------------------------------------------------

#[test]
fn registration_returns_what_the_authenticator_attested() {
    let credential = registered();
    assert_eq!(credential.id.as_bytes(), b"credential");
    assert_eq!(credential.public_key_cose.as_bytes(), cose_key(&key_pair()).as_slice());
    assert_eq!(credential.counter, 3);
    assert_eq!(credential.transports, vec!["usb".to_string(), "nfc".to_string()]);
    assert_eq!(credential.aaguid, [9u8; 16]);
}

#[test]
fn registration_needs_the_attested_credential() {
    let data = plain_auth_data(&RP_ID_HASH, UP | UV, 0);
    let err = register_with("none", Value::Map(vec![]), data).unwrap_err();
    assert!(matches!(err, Error::AuthData("registration authData missing AT flag")));
}

#[test]
fn registration_for_another_rp_id_is_refused() {
    let mut data = good_auth_data();
    data[0] ^= 1;
    let err = register_with("none", Value::Map(vec![]), data).unwrap_err();
    assert!(matches!(err, Error::RpIdHashMismatch));
}

#[test]
fn registration_without_user_is_refused() {
    let data = attested_auth_data(UV, 0, b"credential", &cose_key(&key_pair()));
    let err = register_with("none", Value::Map(vec![]), data).unwrap_err();
    assert!(matches!(err, Error::UserNotPresent));
}

#[test]
fn registration_without_verification_depends_on_the_configuration() {
    let data = attested_auth_data(UP, 0, b"credential", &cose_key(&key_pair()));
    let attestation = attestation_object("none", Value::Map(vec![]), data);
    let response = registration_response(&attestation, &good_registration_client());
    let state = registration_state();
    assert!(relying_party().finish_registration_at(&state, &response, START).is_ok());
    let err = relying_party()
        .require_user_verification(true)
        .finish_registration_at(&state, &response, START)
        .unwrap_err();
    assert!(matches!(err, Error::UserNotVerified));
}

#[test]
fn registration_of_an_rsa_key_is_refused() {
    let key = to_bytes(&Value::Map(vec![
        (num(1), num(3)),
        (num(3), num(-257)),
        (num(-1), Value::Bytes(vec![1; 256])),
        (num(-2), Value::Bytes(vec![1, 0, 1])),
    ]));
    let data = attested_auth_data(UP, 0, b"credential", &key);
    let err = register_with("none", Value::Map(vec![]), data).unwrap_err();
    assert!(matches!(err, Error::UnsupportedAlg(-257)));
}

#[test]
fn registration_with_an_assertion_answer_is_refused() {
    let attestation = attestation_object("none", Value::Map(vec![]), good_auth_data());
    let response = registration_response(&attestation, &good_client());
    let err = relying_party()
        .finish_registration_at(&registration_state(), &response, START)
        .unwrap_err();
    match err {
        Error::ClientDataType { expected, actual } => {
            assert_eq!(expected, "webauthn.create");
            assert_eq!(actual, "webauthn.get");
        }
        _ => panic!("expected a type mismatch"),
    }
}

#[test]
fn registration_under_strict_decoding_is_the_same() {
    let attestation = attestation_object("none", Value::Map(vec![]), good_auth_data());
    let response = registration_response(&attestation, &good_registration_client());
    let strict = relying_party().strict_base64(true);
    let credential = strict.finish_registration_at(&registration_state(), &response, START);
    assert_eq!(credential.unwrap().id.as_bytes(), registered().id.as_bytes());
    let padded = RegistrationResponse {
        attestation_object: B64STD.encode(&attestation),
        ..registration_response(&attestation, &good_registration_client())
    };
    assert!(
        relying_party().finish_registration_at(&registration_state(), &padded, START).is_ok()
    );
    let err = strict.finish_registration_at(&registration_state(), &padded, START).unwrap_err();
    assert!(matches!(err, Error::Base64(_)));
}

#[test]
fn strict_decoding_covers_the_registered_id() {
    let attestation = attestation_object("none", Value::Map(vec![]), good_auth_data());
    let response = RegistrationResponse {
        id: "+wECAw".to_string(),
        ..registration_response(&attestation, &good_registration_client())
    };
    let credential =
        relying_party().finish_registration_at(&registration_state(), &response, START).unwrap();
    assert_eq!(credential.id.as_bytes(), registered().id.as_bytes());
    let strict = relying_party().strict_base64(true);
    let err = strict.finish_registration_at(&registration_state(), &response, START).unwrap_err();
    assert!(matches!(err, Error::Base64(_)));
}

#[test]
fn expiry_has_a_hard_ceiling() {
    let attestation = attestation_object("none", Value::Map(vec![]), good_auth_data());
    let response = registration_response(&attestation, &good_registration_client());
    let wa = relying_party();
    let mut state = registration_state();
    let last = START + CEREMONY_MAX_AGE_SECS;
    assert!(wa.finish_registration_at(&state, &response, last).is_ok());
    assert!(wa.finish_registration_at(&state, &response, START - 50).is_ok());
    let err = wa.finish_registration_at(&state, &response, last + 1).unwrap_err();
    assert!(matches!(err, Error::CeremonyExpired { age_secs: 301, max_secs: 300 }));
    assert!(!state.is_expired_at(last, 300));
    assert!(state.is_expired_at(last + 1, 300));
    state.created_at = 0;
    assert!(wa.finish_registration_at(&state, &response, u64::MAX).is_ok());
}

// ---------- Attestation statements -----------------------------------------

fn self_attestation(alg: i64, sk: &SigningKey) -> Value {
    let mut msg = good_auth_data();
    msg.extend_from_slice(&Sha256::digest(good_registration_client()));
    Value::Map(vec![
        (text("alg"), num(alg)),
        (text("sig"), Value::Bytes(sk.sign(&msg).to_bytes().to_vec())),
    ])
}

#[test]
fn self_attestation_is_checked() {
    assert!(register_with("packed", self_attestation(-8, &key_pair()), good_auth_data()).is_ok());

    let other = SigningKey::from_bytes(&[8u8; 32]);
    let err = register_with("packed", self_attestation(-8, &other), good_auth_data()).unwrap_err();
    assert!(matches!(err, Error::BadSignature));

    let err =
        register_with("packed", self_attestation(-7, &key_pair()), good_auth_data()).unwrap_err();
    assert_eq!(
        err.to_string(),
        "CBOR decode failed: packed (self): alg mismatch (-7 vs cred -8)"
    );

    let beyond = |alg: u64| {
        let mut stmt = self_attestation(-8, &key_pair());
        if let Value::Map(entries) = &mut stmt {
            entries[0].1 = Value::Integer(alg.into());
        }
        register_with("packed", stmt, good_auth_data()).unwrap_err().to_string()
    };
    assert_eq!(
        beyond(u64::MAX - 299),
        "CBOR decode failed: packed (self): alg mismatch (-300 vs cred -8)"
    );
    assert_eq!(
        beyond(u64::MAX - 7),
        "CBOR decode failed: packed (self): alg mismatch (-8 vs cred -8)"
    );
}

#[test]
fn faulty_packed_statements_are_refused() {
    let expect = |stmt: Value, message: &str| {
        let err = register_with("packed", stmt, good_auth_data()).unwrap_err();
        assert_eq!(err.to_string(), format!("CBOR decode failed: {message}"));
    };
    let sig = (text("sig"), Value::Bytes(vec![1]));
    let alg = (text("alg"), num(-7));
    expect(num(1), "packed: attStmt not a map");
    expect(Value::Map(vec![sig.clone()]), "packed: missing alg");
    expect(Value::Map(vec![(text("alg"), text("-7")), sig.clone()]), "packed: missing alg");
    expect(Value::Map(vec![alg.clone()]), "packed: missing sig");
    expect(
        Value::Map(vec![alg.clone(), sig.clone(), (text("x5c"), num(1))]),
        "packed: x5c not an array",
    );
    expect(
        Value::Map(vec![(text("x5c"), Value::Array(vec![num(1)]))]),
        "packed: x5c entry not bytes",
    );
    expect(
        Value::Map(vec![alg.clone(), sig.clone(), (text("x5c"), Value::Array(vec![]))]),
        "packed (x5c): empty cert chain",
    );
    expect(
        Value::Map(vec![
            (text("alg"), num(-8)),
            sig.clone(),
            (text("x5c"), Value::Array(vec![Value::Bytes(vec![0])])),
        ]),
        "packed (x5c): only ES256 attestation supported, got alg -8",
    );
    let garbage = Value::Map(vec![
        alg,
        sig,
        (text("x5c"), Value::Array(vec![Value::Bytes(vec![0x30, 0x00])])),
    ]);
    let err = register_with("packed", garbage, good_auth_data()).unwrap_err();
    assert!(err.to_string().starts_with("CBOR decode failed: x509 parse: "));
}

#[test]
fn u2f_needs_an_es256_key() {
    let stmt = Value::Map(vec![(text("sig"), Value::Bytes(vec![1]))]);
    let err = register_with("fido-u2f", stmt, good_auth_data()).unwrap_err();
    assert_eq!(
        err.to_string(),
        "CBOR decode failed: fido-u2f: credential key must be ES256 / P-256"
    );
}

#[test]
fn faulty_u2f_statements_are_refused() {
    let key = to_bytes(&Value::Map(vec![
        (num(1), num(2)),
        (num(3), num(-7)),
        (num(-1), num(1)),
        (num(-2), Value::Bytes(vec![0xAA; 32])),
        (num(-3), Value::Bytes(vec![0xBB; 32])),
    ]));
    let expect = |stmt: Value, message: &str| {
        let data = attested_auth_data(UP, 0, b"credential", &key);
        let err = register_with("fido-u2f", stmt, data).unwrap_err();
        assert_eq!(err.to_string(), format!("CBOR decode failed: {message}"));
    };
    let sig = (text("sig"), Value::Bytes(vec![1]));
    expect(Value::Null, "fido-u2f: attStmt not a map");
    expect(Value::Map(vec![]), "fido-u2f: missing sig");
    expect(Value::Map(vec![sig.clone()]), "fido-u2f: missing x5c");
    expect(
        Value::Map(vec![sig.clone(), (text("x5c"), Value::Array(vec![]))]),
        "fido-u2f: empty cert chain",
    );
    expect(
        Value::Map(vec![sig.clone(), (text("x5c"), text("chain"))]),
        "fido-u2f: x5c not an array",
    );
    expect(
        Value::Map(vec![sig, (text("x5c"), Value::Array(vec![text("cert")]))]),
        "fido-u2f: x5c entry not bytes",
    );
}

#[test]
fn other_attestation_formats_are_refused_by_name() {
    let err = register_with("tpm", Value::Map(vec![]), good_auth_data()).unwrap_err();
    assert_eq!(err.to_string(), "CBOR decode failed: unsupported attestation fmt: tpm");
}

// ---------- Authentication -------------------------------------------------

fn authenticate(
    wa: &Webauthn,
    state: &AuthenticationState,
    response: &AuthenticationResponse,
) -> Result<passkey_auth::AuthSuccess, Error> {
    wa.finish_authentication_at(state, response, &registered(), START + 10)
}

#[test]
fn authentication_returns_counter_and_verification() {
    let success = authenticate(&relying_party(), &authentication_state(), &good_assertion());
    let success = success.unwrap();
    assert_eq!(success.credential_id.as_bytes(), b"credential");
    assert_eq!(success.new_counter, 4);
    assert!(success.user_verified);

    let unverified = assertion_over(&plain_auth_data(&RP_ID_HASH, UP, 4), &good_client());
    let success = authenticate(&relying_party(), &authentication_state(), &unverified).unwrap();
    assert!(!success.user_verified);
}

#[test]
fn replayed_assertion_is_refused() {
    let wa = relying_party();
    let state = authentication_state();
    let mut stored = registered();
    let first = wa.finish_authentication_at(&state, &good_assertion(), &stored, START).unwrap();
    stored.counter = first.new_counter;
    let err = wa.finish_authentication_at(&state, &good_assertion(), &stored, START).unwrap_err();
    assert!(matches!(err, Error::CounterReplay { stored: 4, new: 4 }));
}

#[test]
fn authenticator_without_counter_is_accepted_again() {
    let wa = relying_party();
    let mut stored = registered();
    stored.counter = 0;
    let response = assertion_over(&plain_auth_data(&RP_ID_HASH, UP, 0), &good_client());
    for _ in 0..2 {
        let success =
            wa.finish_authentication_at(&authentication_state(), &response, &stored, START);
        assert_eq!(success.unwrap().new_counter, 0);
    }
    assert!(check_counter(0, 0).is_ok());
    assert!(check_counter(0, 1).is_ok());
    assert!(check_counter(1, 2).is_ok());
    assert!(check_counter(1, 0).is_err());
    assert!(check_counter(2, 1).is_err());
}

#[test]
fn credential_must_be_allowed_and_stored() {
    let wa = relying_party();
    let mut state = authentication_state();
    state.allow_credentials = vec![CredentialId(b"other".to_vec())];
    let err = authenticate(&wa, &state, &good_assertion()).unwrap_err();
    assert!(matches!(err, Error::BadSignature));

    state.allow_credentials = vec![];
    assert!(authenticate(&wa, &state, &good_assertion()).is_ok());

    let other = AuthenticationResponse { id: B64URL.encode(b"other"), ..good_assertion() };
    let err = authenticate(&wa, &authentication_state(), &other).unwrap_err();
    assert!(matches!(err, Error::BadSignature));
}

#[test]
fn user_handle_is_checked_where_a_user_is_expected() {
    let wa = relying_party();
    let strict = relying_party().require_user_handle(true);
    let mut state = authentication_state();
    let with = |handle: &[u8]| AuthenticationResponse {
        user_handle: Some(B64URL.encode(handle)),
        ..good_assertion()
    };

    assert!(authenticate(&wa, &state, &with(b"anyone")).is_ok());
    assert!(authenticate(&strict, &state, &good_assertion()).is_ok());

    state.user_handle = Some(b"alice".to_vec());
    assert!(authenticate(&wa, &state, &with(b"alice")).is_ok());
    assert!(authenticate(&strict, &state, &with(b"alice")).is_ok());
    assert!(authenticate(&wa, &state, &good_assertion()).is_ok());
    let err = authenticate(&wa, &state, &with(b"mallory")).unwrap_err();
    assert!(matches!(err, Error::UserHandleMismatch));
    let err = authenticate(&strict, &state, &good_assertion()).unwrap_err();
    assert!(matches!(err, Error::UserHandleMismatch));

    let garbled =
        AuthenticationResponse { user_handle: Some("*".to_string()), ..good_assertion() };
    let err = authenticate(&wa, &state, &garbled).unwrap_err();
    assert!(matches!(err, Error::Base64(_)));
}

#[test]
fn assertion_for_another_rp_id_is_refused() {
    let response = assertion_over(&plain_auth_data(&[0u8; 32], UP, 4), &good_client());
    let err = authenticate(&relying_party(), &authentication_state(), &response).unwrap_err();
    assert!(matches!(err, Error::RpIdHashMismatch));
}

#[test]
fn assertion_without_user_is_refused() {
    let response = assertion_over(&plain_auth_data(&RP_ID_HASH, UV, 4), &good_client());
    let err = authenticate(&relying_party(), &authentication_state(), &response).unwrap_err();
    assert!(matches!(err, Error::UserNotPresent));
}

#[test]
fn signature_covers_data_and_client_data() {
    let wa = relying_party();
    let state = authentication_state();

    let other_data = AuthenticationResponse {
        authenticator_data: B64URL.encode(plain_auth_data(&RP_ID_HASH, UP | UV, 5)),
        ..good_assertion()
    };
    let err = authenticate(&wa, &state, &other_data).unwrap_err();
    assert!(matches!(err, Error::BadSignature));

    let mut client = good_client();
    client.push(b' ');
    let other_client =
        AuthenticationResponse { client_data_json: B64URL.encode(&client), ..good_assertion() };
    let err = authenticate(&wa, &state, &other_client).unwrap_err();
    assert!(matches!(err, Error::BadSignature));

    let short = AuthenticationResponse { signature: B64URL.encode([1u8; 63]), ..good_assertion() };
    let err = authenticate(&wa, &state, &short).unwrap_err();
    assert!(matches!(err, Error::BadSignature));
}

#[test]
fn broken_stored_key_is_reported() {
    let mut stored = registered();
    stored.public_key_cose = CosePublicKey(vec![0x01]);
    let err = relying_party()
        .finish_authentication_at(&authentication_state(), &good_assertion(), &stored, START)
        .unwrap_err();
    assert_eq!(err.to_string(), "CBOR decode failed: cose: top-level not a map");
}

#[test]
fn expired_authentication_is_refused_first() {
    let garbled = AuthenticationResponse { id: "*".to_string(), ..good_assertion() };
    let err = relying_party()
        .finish_authentication_at(&authentication_state(), &garbled, &registered(), START + 1000)
        .unwrap_err();
    assert!(matches!(err, Error::CeremonyExpired { age_secs: 1000, max_secs: 300 }));
    assert!(authentication_state().is_expired_at(START + 1000, 999));
    assert!(!authentication_state().is_expired_at(START + 1000, 1000));
}

#[test]
fn every_lenient_flavour_is_accepted_for_every_field() {
    let data = plain_auth_data(&RP_ID_HASH, UP | UV, 4);
    let client = good_client();
    let good = assertion_over(&data, &client);
    let signature = B64URL.decode(&good.signature).unwrap();
    for encode in [
        |b: &[u8]| B64URL_PAD.encode(b),
        |b: &[u8]| B64STD_NO_PAD.encode(b),
        |b: &[u8]| B64STD.encode(b),
    ] {
        let response = AuthenticationResponse {
            id: encode(b"credential"),
            authenticator_data: encode(&data),
            signature: encode(&signature),
            client_data_json: encode(&client),
            user_handle: None,
        };
        assert!(authenticate(&relying_party(), &authentication_state(), &response).is_ok());
    }
    let padded = AuthenticationResponse { signature: B64STD.encode(&signature), ..good };
    let strict = relying_party().strict_base64(true);
    let err = authenticate(&strict, &authentication_state(), &padded).unwrap_err();
    assert!(matches!(err, Error::Base64(_)));
    assert!(authenticate(&strict, &authentication_state(), &good_assertion()).is_ok());
}

#[test]
fn hints_do_not_decide() {
    let other = Webauthn::new(RP_ID, "Another name", ORIGIN)
        .authenticator_attachment(Attachment::CrossPlatform);
    assert!(authenticate(&other, &authentication_state(), &good_assertion()).is_ok());
}

#[test]
fn announced_extensions_must_be_cbor() {
    let mut data = plain_auth_data(&RP_ID_HASH, UP | ED, 4);
    data.extend_from_slice(&[0xa0]);
    let response = assertion_over(&data, &good_client());
    assert!(authenticate(&relying_party(), &authentication_state(), &response).is_ok());

    let mut data = plain_auth_data(&RP_ID_HASH, UP | ED, 4);
    data.extend_from_slice(&[0xff]);
    let response = assertion_over(&data, &good_client());
    let err = authenticate(&relying_party(), &authentication_state(), &response).unwrap_err();
    assert!(matches!(err, Error::AuthData("extensions CBOR parse failed")));

    let mut data = plain_auth_data(&RP_ID_HASH, UP, 4);
    data.extend_from_slice(&[0xff]);
    let response = assertion_over(&data, &good_client());
    assert!(authenticate(&relying_party(), &authentication_state(), &response).is_ok());
}
