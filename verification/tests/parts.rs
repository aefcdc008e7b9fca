//! Exact values and every error of the single parts.

use std::collections::HashMap;
use std::time::{SystemTime, UNIX_EPOCH};

use passkey_auth::attestation::{Envelope, parse_packed_att_stmt, u2f_pre_image};
use passkey_auth::auth_data::{AuthHeader, AuthenticatorData, cose_blob_length, extensions_error};
use passkey_auth::cbor::{CborValue, decode, find_label, find_name, i64_of};
use passkey_auth::client_data::{ClientData, TYPE_AUTHENTICATE, TYPE_REGISTER, parse, validate};
use passkey_auth::cose::CoseKey;
use passkey_auth::crypto::{encode_point, message, verdict, verify};
use passkey_auth::encoding::{b64url_decode, b64url_decode_strict, b64url_encode};
use passkey_auth::text::{decimal_string, hex_byte_string, signed_decimal_string};
use passkey_auth::types::stamp;
use passkey_auth::x509::{
    AttestationCert, CertificateParts, OID_EC_PUBLIC_KEY, OID_FIDO_AAGUID, OID_P256,
    parse_aaguid_octet_string,
};
use passkey_auth::{
    Attachment, Challenge, CosePublicKey, CredentialId, Error, PasskeyCredential, RpId, Webauthn,
};
use p256::ecdsa::signature::Signer;
use p256::ecdsa::{Signature, SigningKey};
use serde::de::IgnoredAny;

fn message_of<T: std::fmt::Debug>(r: Result<T, Error>) -> String {
    r.unwrap_err().to_string()
}

fn words(s: &str) -> CborValue {
    CborValue::Text(s.to_string())
}

fn pairs(entries: Vec<(CborValue, CborValue)>) -> CborValue {
    CborValue::Dict(entries)
}

// ---------- Texts ----------------------------------------------------------

#[test]
fn numerals() {
    assert_eq!(decimal_string(0), "0");
    assert_eq!(decimal_string(u64::MAX as u128), "18446744073709551615");
    assert_eq!(signed_decimal_string(-257), "-257");
    assert_eq!(signed_decimal_string(i64::MIN), "-9223372036854775808");
    assert_eq!(hex_byte_string(0x0a), "0a");
    assert_eq!(hex_byte_string(0xf3), "f3");
}

#[test]
fn error_messages() {
    let show = |e: Error| e.to_string();
    assert_eq!(show(Error::Base64("x".to_string())), "invalid base64url: x");
    assert_eq!(show(Error::ClientData("x".to_string())), "clientDataJSON parse failed: x");
    assert_eq!(
        show(Error::ClientDataType { expected: "webauthn.get", actual: "y".to_string() }),
        "clientDataJSON.type mismatch: expected webauthn.get, got y"
    );
    assert_eq!(show(Error::ChallengeMismatch), "challenge mismatch");
    assert_eq!(
        show(Error::OriginMismatch { expected: "a".to_string(), actual: "b".to_string() }),
        "origin mismatch: expected a, got b"
    );
    assert_eq!(show(Error::RpIdHashMismatch), "rpIdHash mismatch");
    assert_eq!(show(Error::UserNotPresent), "user-present flag not set");
    assert_eq!(show(Error::UserNotVerified), "user-verified flag not set");
    assert_eq!(show(Error::AuthData("x")), "authenticatorData parse failed: x");
    assert_eq!(show(Error::Cbor("x".to_string())), "CBOR decode failed: x");
    assert_eq!(show(Error::UnsupportedAlg(-257)), "unsupported COSE algorithm: -257");
    assert_eq!(show(Error::BadSignature), "signature verification failed");
    assert_eq!(
        show(Error::CounterReplay { stored: 7, new: 3 }),
        "counter went backwards (stored=7, new=3): possible cloned credential"
    );
    assert_eq!(
        show(Error::CeremonyExpired { age_secs: 301, max_secs: 300 }),
        "ceremony state expired (301 seconds old, max 300)"
    );
    assert_eq!(
        show(Error::UserHandleMismatch),
        "user handle mismatch: assertion is for a different user than the ceremony was started for"
    );
    assert_eq!(show(Error::Internal("x")), "internal: x");
}

// ---------- Base64 ---------------------------------------------------------

#[test]
fn encoding_is_url_safe_and_unpadded() {
    assert_eq!(b64url_encode(&[]), "");
    assert_eq!(b64url_encode(&[0xFB]), "-w");
    assert_eq!(b64url_encode(&[0xFB, 0xEF, 0xBE, 0xFF, 0xCC]), "----_8w");
    assert_eq!(b64url_encode(b"Man"), "TWFu");
    assert_eq!(CredentialId(b"Ma".to_vec()).to_b64url(), "TWE");
    assert_eq!(Challenge(b"M".to_vec()).to_b64url(), "TQ");
}

#[test]
fn strict_decoding_takes_one_flavour() {
    assert_eq!(b64url_decode_strict("-w").unwrap(), vec![0xFB]);
    assert_eq!(message_of(b64url_decode_strict("+w")), "invalid base64url: Invalid symbol 43, offset 0.");
    assert!(b64url_decode_strict("-w==").is_err());
    assert!(b64url_decode_strict("-x").is_err());
    assert!(b64url_decode_strict("-").is_err());
}

#[test]
fn lenient_decoding_takes_four_flavours() {
    for s in ["-w", "-w==", "+w", "+w=="] {
        assert_eq!(b64url_decode(s).unwrap(), vec![0xFB]);
        assert_eq!(CredentialId::from_b64url(s).unwrap().as_bytes(), &[0xFB]);
    }
    assert_eq!(message_of(b64url_decode("-w=")), "invalid base64url: Invalid symbol 45, offset 0.");
    assert!(b64url_decode("+-8=").is_err());
    assert!(b64url_decode("+x").is_err());
}

// ---------- RP ID ----------------------------------------------------------

#[test]
fn rp_id_is_trimmed() {
    let id = RpId::try_from_url(" \t\u{3000}example.com\u{a0}\n");
    assert_eq!(id.unwrap().as_str(), "example.com");
    let id = RpId::try_from_url("  https://Sub.Example.com/path?x#y ");
    assert_eq!(id.unwrap().as_str(), "sub.example.com");
}

#[test]
fn rp_id_comes_back_unchanged() {
    for (input, expected) in [
        (" example.com ", "example.com"),
        ("https://user:pw@EXAMPLE.com:8443/a?b#c", "example.com"),
        ("https://b\u{fc}cher.example/", "xn--bcher-kva.example"),
        ("https://0x7f.1/", "127.0.0.1"),
        ("custom://H\u{f6}st%20x:1/", "H%C3%B6st%20x"),
        ("file://server/share", "server"),
    ] {
        let id = RpId::try_from_url(input).unwrap();
        assert_eq!(id.as_str(), expected);
        assert_eq!(RpId::try_from_url(id.as_str()).unwrap().as_str(), expected);
        assert_eq!(RpId::try_from_url(input.trim()).unwrap().as_str(), expected);
    }
    assert_eq!(RpId::try_from_url("https://[::1]:80/").unwrap().as_str(), "[::1]");
    for input in ["custom://", "file:///share", "file://localhost/share"] {
        assert!(RpId::try_from_url(input).is_err());
    }
    for input in ["https://a\u{ff1a}b/", "https://a%2fb/", "custom://a b/", "https://%20/"] {
        assert!(RpId::try_from_url(input).is_err());
    }
}

#[test]
fn rp_id_faults() {
    assert_eq!(message_of(RpId::try_from_url(" \u{2003} ")), "internal: RP ID is empty");
    assert_eq!(
        message_of(RpId::try_from_url("mailto:someone@example.com")),
        "internal: URL has no host component"
    );
    let bare = "internal: RP ID is not a bare hostname (contains scheme/port/path/userinfo)";
    for s in ["exam ple.com", "exam\u{2028}ple.com", "user@host", "host/path", "host?q", "host#f"] {
        assert_eq!(message_of(RpId::try_from_url(s)), bare);
    }
    assert_eq!(message_of(RpId::from_parsed("host:80", None)), bare);
    assert_eq!(
        RpId::from_parsed("x", Some(Some("host".to_string()))).unwrap().as_str(),
        "host"
    );
}

// ---------- CBOR -----------------------------------------------------------

#[test]
fn decoding_stops_behind_the_first_item() {
    // {1: -2, "a": [h'01', true, 1.5]} and two more bytes
    let bytes = [
        0xa2, 0x01, 0x21, 0x61, 0x61, 0x83, 0x41, 0x01, 0xf5, 0xf9, 0x3e, 0x00, 0xde, 0xad,
    ];
    let (v, n) = decode(&bytes).unwrap();
    assert_eq!(n, 12);
    let entries = match v {
        CborValue::Dict(entries) => entries,
        _ => panic!("expected a map"),
    };
    assert!(matches!(find_label(&entries, 1), Some(CborValue::Integer(-2))));
    assert!(find_label(&entries, 2).is_none());
    assert!(find_name(&entries, "b").is_none());
    match find_name(&entries, "a") {
        Some(CborValue::Array(items)) => {
            assert!(matches!(&items[0], CborValue::Bytes(b) if b == &[1u8]));
            assert!(matches!(&items[1], CborValue::Bool(true)));
            assert!(matches!(&items[2], CborValue::Other));
        }
        _ => panic!("expected an array"),
    }
    assert!(decode(&[]).is_err());
}

#[test]
fn integers_beyond_64_bits_are_no_labels() {
    let entries = vec![(CborValue::Integer((1i128 << 64) - 1), CborValue::Integer(5))];
    assert!(find_label(&entries, -1).is_none());
}

// ---------- COSE keys ------------------------------------------------------

fn label(k: i128, v: CborValue) -> (CborValue, CborValue) {
    (CborValue::Integer(k), v)
}

fn integer(k: i128, v: i128) -> (CborValue, CborValue) {
    label(k, CborValue::Integer(v))
}

fn blob(k: i128, n: usize) -> (CborValue, CborValue) {
    label(k, CborValue::Bytes(vec![k as u8; n]))
}

#[test]
fn cose_key_faults() {
    let fault = |entries: Vec<(CborValue, CborValue)>, text: &str| {
        let message = message_of(CoseKey::from_value(&pairs(entries)));
        assert_eq!(message, format!("CBOR decode failed: {text}"));
    };
    assert_eq!(
        message_of(CoseKey::from_value(&CborValue::Bool(true))),
        "CBOR decode failed: cose: top-level not a map"
    );
    assert!(message_of(CoseKey::parse(&[0xff])).starts_with("CBOR decode failed: cose: "));
    fault(vec![integer(3, -7)], "cose: missing kty");
    fault(vec![label(1, words("2")), integer(3, -7)], "cose: missing kty");
    fault(vec![integer(1, 2)], "cose: missing alg");
    fault(vec![integer(1, 2), integer(3, -7)], "cose: ES256 expects crv=P-256");
    fault(vec![integer(1, 2), integer(3, -7), integer(-1, 1)], "cose: missing x");
    fault(vec![integer(1, 2), integer(3, -7), integer(-1, 1), blob(-2, 32)], "cose: missing y");
    fault(
        vec![integer(1, 2), integer(3, -7), integer(-1, 1), blob(-2, 32), blob(-3, 31)],
        "cose: P-256 coords must be 32 bytes",
    );
    fault(vec![integer(1, 1), integer(3, -8), integer(-1, 1)], "cose: EdDSA expects crv=Ed25519");
    fault(vec![integer(1, 1), integer(3, -8), integer(-1, 6)], "cose: missing x");
    fault(
        vec![integer(1, 1), integer(3, -8), integer(-1, 6), blob(-2, 33)],
        "cose: Ed25519 key must be 32 bytes",
    );
    let mixed = CoseKey::from_value(&pairs(vec![integer(1, 1), integer(3, -7)]));
    assert!(matches!(mixed, Err(Error::UnsupportedAlg(-7))));
}

#[test]
fn only_minus_seven_is_es256() {
    // The algorithm is 2^64 - 7.
    let mut cbor = vec![0xa5, 0x01, 0x02, 0x03, 0x1b];
    cbor.extend_from_slice(&[0xff, 0xff, 0xff, 0xff, 0xff, 0xff, 0xff, 0xf9]);
    cbor.extend_from_slice(&[0x20, 0x01, 0x21, 0x58, 0x20]);
    cbor.extend_from_slice(&[0xAA; 32]);
    cbor.extend_from_slice(&[0x22, 0x58, 0x20]);
    cbor.extend_from_slice(&[0xBB; 32]);
    assert!(matches!(CoseKey::parse(&cbor), Err(Error::UnsupportedAlg(-7))));
    let stmt = pairs(vec![
        (words("alg"), CborValue::Integer((1i128 << 64) - 7)),
        (words("sig"), CborValue::Bytes(vec![1])),
    ]);
    assert_eq!(parse_packed_att_stmt(&stmt).unwrap().alg, (1i128 << 64) - 7);
}

#[test]
fn algorithms_beyond_64_bits_are_reported_by_their_low_bits() {
    let key = |kty: i128, alg: i128| {
        CoseKey::from_value(&pairs(vec![
            integer(1, kty),
            integer(3, alg),
            integer(-1, 1),
            blob(-2, 32),
            blob(-3, 32),
        ]))
    };
    assert!(key(2, -7).is_ok());
    assert!(matches!(key(2, 1 << 63), Err(Error::UnsupportedAlg(i64::MIN))));
    assert!(matches!(key(2, (1 << 64) - 300), Err(Error::UnsupportedAlg(-300))));
    assert!(matches!(key(2, -(1 << 64)), Err(Error::UnsupportedAlg(0))));
    assert!(matches!(key(2, -(1 << 63) - 1), Err(Error::UnsupportedAlg(i64::MAX))));
    assert!(matches!(key(2 - (1 << 64), -7), Err(Error::UnsupportedAlg(-7))));
    for i in [0, -7, i64::MIN, i64::MAX] {
        assert_eq!(i64_of(i as i128), i);
    }
}

#[test]
fn last_cose_entry_counts_and_others_are_ignored() {
    let entries = vec![
        integer(1, 3),
        integer(3, -257),
        integer(-1, 6),
        blob(-2, 32),
        integer(1, 1),
        integer(3, -8),
        integer(77, 1),
        (words("1"), CborValue::Integer(9)),
    ];
    let key = CoseKey::from_value(&pairs(entries)).unwrap();
    assert_eq!(key.alg(), -8);
    match key {
        CoseKey::Ed25519 { key } => assert_eq!(key, [0xFE; 32]),
        _ => panic!("expected Ed25519"),
    }
}

// ---------- Authenticator data ---------------------------------------------

fn header(flags: u8) -> Vec<u8> {
    let mut b = vec![0x11; 32];
    b.push(flags);
    b.extend_from_slice(&[1, 2, 3, 4]);
    b
}

#[test]
fn auth_data_faults() {
    let fault = |b: &[u8], text: &str| {
        let message = message_of(AuthenticatorData::parse(b));
        assert_eq!(message, format!("authenticatorData parse failed: {text}"));
    };
    fault(&[0; 36], "too short (need >= 37 bytes)");
    let mut b = header(0x41);
    b.extend_from_slice(&[0; 17]);
    fault(&b, "attestedCredentialData truncated header");
    let mut b = header(0x41);
    b.extend_from_slice(&[0; 16]);
    b.extend_from_slice(&[0x04, 0x00]);
    fault(&b, "credentialIdLength > 1023");
    let mut b = header(0x41);
    b.extend_from_slice(&[0; 16]);
    b.extend_from_slice(&[0x03, 0xff]);
    b.extend_from_slice(&[0; 1022]);
    fault(&b, "credentialId truncated");
    b.push(0);
    let message = message_of(AuthenticatorData::parse(&b));
    assert!(message.starts_with("CBOR decode failed: cose key: "));
    b.extend_from_slice(&[0xa0, 0xff]);
    let data = AuthenticatorData::parse(&b).unwrap();
    assert_eq!(data.sign_count, 0x01020304);
    let attested = data.attested.unwrap();
    assert_eq!(attested.credential_id.as_bytes().len(), 1023);
    assert_eq!(attested.public_key_cose.as_bytes(), &[0xa0]);
    b[32] = 0xc1;
    fault(&b, "extensions CBOR parse failed");
    assert_eq!(
        extensions_error("").to_string(),
        "authenticatorData parse failed: extensions CBOR invalid"
    );
}

#[test]
fn header_ends_where_the_key_begins() {
    let mut b = header(0x40);
    b.extend_from_slice(&[5; 16]);
    b.extend_from_slice(&[0, 2, 8, 9, 0xa0]);
    let h = AuthHeader::read(&b).unwrap();
    assert_eq!(h.end, 57);
    let (aaguid, id) = h.attested.as_ref().unwrap();
    assert_eq!(aaguid, &[5; 16]);
    assert_eq!(id.as_bytes(), &[8, 9]);
    let (data, end) = h.complete(&b, 1);
    assert_eq!(end, 58);
    assert_eq!(data.attested.unwrap().public_key_cose.as_bytes(), &[0xa0]);
    assert_eq!(cose_blob_length(&[0x82, 0x01, 0x02, 0xff]).unwrap(), 3);
    assert!(cose_blob_length(&[]).is_err());
}

#[test]
fn what_stands_behind_the_structure_is_handed_back() {
    let mut b = header(0x40);
    b.extend_from_slice(&[5; 16]);
    b.extend_from_slice(&[0, 2, 8, 9, 0xa0]);
    let (data, rest) = AuthenticatorData::parse_with_rest(&b).unwrap();
    assert!(rest.is_empty());
    assert_eq!(data.attested.unwrap().public_key_cose.as_bytes(), &[0xa0]);
    b.extend_from_slice(&[0xff, 0xfe]);
    let (data, rest) = AuthenticatorData::parse_with_rest(&b).unwrap();
    assert_eq!(rest, &[0xff, 0xfe]);
    assert_eq!(data.attested.unwrap().public_key_cose.as_bytes(), &[0xa0]);

    let mut b = header(0x80);
    b.extend_from_slice(&[0xa1, 0x01, 0x02, 0x00]);
    let (data, rest) = AuthenticatorData::parse_with_rest(&b).unwrap();
    assert!(data.attested.is_none());
    assert_eq!(rest, &[0xa1, 0x01, 0x02, 0x00]);
    b[37] = 0xff;
    assert_eq!(
        message_of(AuthenticatorData::parse_with_rest(&b)),
        message_of(AuthenticatorData::parse(&b))
    );
}

#[test]
fn flags_are_single_bits() {
    for flags in 0..=255u8 {
        if flags & 0xc0 == 0 {
            let data = AuthenticatorData::parse(&header(flags)).unwrap();
            assert_eq!(data.user_present(), flags & 1 == 1);
            assert_eq!(data.user_verified(), flags & 4 == 4);
        }
    }
}

// ---------- Attestation objects --------------------------------------------

#[test]
fn envelope_faults() {
    let fault = |v: CborValue, text: &str| {
        assert_eq!(message_of(Envelope::from_value(v)), format!("CBOR decode failed: {text}"));
    };
    let data = || (words("authData"), CborValue::Bytes(vec![1]));
    let fmt = || (words("fmt"), words("none"));
    fault(CborValue::Array(vec![]), "attestationObject: top-level not a map");
    fault(pairs(vec![data()]), "attestationObject: missing fmt");
    fault(pairs(vec![fmt()]), "attestationObject: missing authData");
    fault(
        pairs(vec![(words("fmt"), CborValue::Integer(1)), fmt(), data()]),
        "attestationObject.fmt not text",
    );
    fault(
        pairs(vec![(words("authData"), words("x")), (words("fmt"), CborValue::Other)]),
        "attestationObject.authData not bytes",
    );
}

#[test]
fn envelope_takes_the_last_of_each_member() {
    let envelope = Envelope::from_value(pairs(vec![
        (words("fmt"), words("packed")),
        (words("authData"), CborValue::Bytes(vec![1])),
        (words("attStmt"), CborValue::Integer(1)),
        (words("extra"), CborValue::Other),
        (CborValue::Integer(1), CborValue::Other),
        (words("attStmt"), CborValue::Integer(2)),
        (words("authData"), CborValue::Bytes(vec![2, 3])),
        (words("fmt"), words("none")),
    ]))
    .unwrap();
    assert_eq!(envelope.fmt, "none");
    assert_eq!(envelope.auth_data_raw, vec![2, 3]);
    assert!(matches!(envelope.att_stmt, CborValue::Integer(2)));
    let bare = Envelope::from_value(pairs(vec![
        (words("fmt"), words("none")),
        (words("authData"), CborValue::Bytes(vec![])),
    ]));
    assert!(matches!(bare.unwrap().att_stmt, CborValue::Dict(entries) if entries.is_empty()));
}

#[test]
fn both_forms_of_an_es256_signature_are_accepted() {
    let sk = SigningKey::from_bytes(&[7u8; 32].into()).unwrap();
    let point = sk.verifying_key().to_encoded_point(false);
    let key = CoseKey::Es256 {
        x: point.as_bytes()[1..33].try_into().unwrap(),
        y: point.as_bytes()[33..65].try_into().unwrap(),
    };
    let signature: Signature = sk.sign(b"message");
    let (r, s) = signature.split_scalars();
    let other = Signature::from_scalars(r, -s).unwrap();
    assert_ne!(signature, other);
    assert!(signature.normalize_s().is_some() != other.normalize_s().is_some());
    for form in [signature, other] {
        assert!(verify(&key, b"message", form.to_der().as_bytes()).is_ok());
        assert!(matches!(
            verify(&key, b"massage", form.to_der().as_bytes()),
            Err(Error::BadSignature)
        ));
    }
}

#[test]
fn messages_are_laid_out_as_they_are_signed() {
    assert_eq!(message(&[1, 2], &[3; 32])[..3], [1, 2, 3]);
    let point = encode_point(&[5; 32], &[6; 32]);
    assert_eq!(point[0], 4);
    assert_eq!(point[1..33], [5; 32]);
    assert_eq!(point[33..], [6; 32]);
    let pre_image = u2f_pre_image(&[1; 32], &[2; 32], &[9, 8, 7], &[5; 32], &[6; 32]);
    let mut expected = vec![0u8];
    expected.extend_from_slice(&[1; 32]);
    expected.extend_from_slice(&[2; 32]);
    expected.extend_from_slice(&[9, 8, 7]);
    expected.extend_from_slice(&point);
    assert_eq!(pre_image, expected);
    assert!(verdict(true).is_ok());
    assert!(matches!(verdict(false), Err(Error::BadSignature)));
}

// ---------- Certificates ---------------------------------------------------

fn certificate() -> CertificateParts {
    let mut key = vec![0x04];
    key.extend_from_slice(&[0x22; 64]);
    CertificateParts {
        algorithm: OID_EC_PUBLIC_KEY.to_vec(),
        algorithm_text: "1.2.840.10045.2.1".to_string(),
        curve: Some(OID_P256.to_vec()),
        public_key: Some(key),
        extensions: None,
    }
}

fn aaguid_extension(value: Vec<u8>) -> (Vec<u8>, Vec<u8>) {
    (OID_FIDO_AAGUID.to_vec(), value)
}

fn aaguid_value(b: u8) -> Vec<u8> {
    let mut v = vec![0x04, 0x10];
    v.extend_from_slice(&[b; 16]);
    v
}

#[test]
fn certificate_faults() {
    let fault = |c: CertificateParts, text: &str| {
        let message = message_of(AttestationCert::from_parts(&c));
        assert_eq!(message, format!("CBOR decode failed: attestation cert: {text}"));
    };
    fault(
        CertificateParts {
            algorithm: vec![0x2a, 0x86, 0x48, 0x86, 0xf7, 0x0d, 0x01, 0x01, 0x01],
            algorithm_text: "1.2.840.113549.1.1.1".to_string(),
            ..certificate()
        },
        "non-EC public key (alg OID 1.2.840.113549.1.1.1)",
    );
    let off_curve = "EC public key not on P-256";
    fault(CertificateParts { curve: None, ..certificate() }, off_curve);
    // secp256k1
    let other = Some(vec![0x2b, 0x81, 0x04, 0x00, 0x0a]);
    fault(CertificateParts { curve: other, ..certificate() }, off_curve);
    fault(
        CertificateParts { public_key: None, ..certificate() },
        "pubkey bit-string has unused bits",
    );
    fault(
        CertificateParts { public_key: Some(vec![]), ..certificate() },
        "pubkey not SEC1-uncompressed P-256 (0 bytes, prefix 0x00)",
    );
    fault(
        CertificateParts { public_key: Some(vec![0x02; 33]), ..certificate() },
        "pubkey not SEC1-uncompressed P-256 (33 bytes, prefix 0x02)",
    );
    fault(
        CertificateParts {
            extensions: Some(vec![aaguid_extension(vec![0x04, 0x10])]),
            ..certificate()
        },
        "malformed AAGUID extension",
    );
    assert!(message_of(AttestationCert::from_der(&[])).starts_with("CBOR decode failed: x509 parse: "));
}

#[test]
fn first_aaguid_extension_counts() {
    let cert = AttestationCert::from_parts(&certificate()).unwrap();
    assert_eq!(cert.aaguid, None);
    assert_eq!(cert.p256_pubkey_sec1[0], 0x04);
    assert_eq!(cert.p256_pubkey_sec1[1..], [0x22; 64]);
    let several = CertificateParts {
        extensions: Some(vec![
            (vec![0x55, 0x1d, 0x13], vec![0x30, 0x00]),
            aaguid_extension(aaguid_value(7)),
            aaguid_extension(vec![]),
        ]),
        ..certificate()
    };
    assert_eq!(AttestationCert::from_parts(&several).unwrap().aaguid, Some([7; 16]));
    assert_eq!(parse_aaguid_octet_string(&aaguid_value(3)).unwrap(), [3; 16]);
}

// ---------- Client data ----------------------------------------------------

#[test]
fn client_data_faults() {
    let fault = |json: &str, text: &str| {
        let message = message_of(parse(json.as_bytes()));
        assert_eq!(message, format!("clientDataJSON parse failed: {text}"));
    };
    fault(r#"{"challenge":"c","origin":"o"}"#, "missing field `type` at line 1 column 30");
    fault(r#"{"type":"t","origin":"o"}"#, "missing field `challenge` at line 1 column 25");
    fault(r#"{"type":"t","challenge":"c"}"#, "missing field `origin` at line 1 column 28");
    fault(
        r#"{"type":"t","challenge":"c","origin":1}"#,
        "invalid type: integer `1`, expected a string at line 1 column 38",
    );
    fault("{\n\"type\":1}", "invalid type: integer `1`, expected a string at line 2 column 8");
    fault(
        r#"{"type":"t","type":"t","challenge":"c","origin":"o"}"#,
        "duplicate field `type` at line 1 column 18",
    );
    fault(
        r#"{"type":"t","challenge":"c","origin":"o","crossOrigin":null}"#,
        "invalid type: null, expected a boolean at line 1 column 59",
    );
    fault(
        r#"{"type":"t","challenge":"c","origin":"o","crossOrigin":true,"crossOrigin":true}"#,
        "duplicate field `crossOrigin` at line 1 column 73",
    );
    fault("1", "invalid type: integer `1`, expected struct Parsed at line 1 column 1");
    fault("true", "invalid type: boolean `true`, expected struct Parsed at line 1 column 4");
    fault(
        r#""a boolean""#,
        "invalid type: string \"a boolean\", expected struct Parsed at line 1 column 11",
    );
}

#[test]
fn client_data_frame_faults() {
    let fault = |json: &str, text: &str| {
        let message = message_of(parse(json.as_bytes()));
        assert_eq!(message, format!("clientDataJSON parse failed: {text}"));
    };
    fault("", "EOF while parsing a value at line 1 column 0");
    fault("\n ", "EOF while parsing a value at line 2 column 1");
    fault("{", "EOF while parsing an object at line 1 column 1");
    fault(r#"{"type"}"#, "expected `:` at line 1 column 8");
    fault(r#"{"type""#, "EOF while parsing an object at line 1 column 7");
    fault(r#"{"type":"t""#, "EOF while parsing an object at line 1 column 11");
    fault(r#"{"type":"t",}"#, "trailing comma at line 1 column 13");
    fault(r#"{"type":"t","#, "EOF while parsing a value at line 1 column 12");
    fault(r#"{"type":"t" 1}"#, "expected `,` or `}` at line 1 column 13");
    fault(r#"{"type":"t",1}"#, "key must be a string at line 1 column 13");
    fault("{1}", "key must be a string at line 1 column 2");
    fault(r#"{"x":}"#, "expected value at line 1 column 6");
    fault("{}x", "missing field `type` at line 1 column 2");
    fault(
        r#"{"type":"t","challenge":"c","origin":"o"} x"#,
        "trailing characters at line 1 column 43",
    );
    fault("[", "EOF while parsing a list at line 1 column 1");
    fault(
        "[]",
        "invalid length 0, expected struct Parsed with 4 elements at line 1 column 2",
    );
    fault(
        r#"["t"]"#,
        "invalid length 1, expected struct Parsed with 4 elements at line 1 column 5",
    );
    fault(
        r#"["t","c"]"#,
        "invalid length 2, expected struct Parsed with 4 elements at line 1 column 9",
    );
    fault(
        r#"["t",1,"o"]"#,
        "invalid type: integer `1`, expected a string at line 1 column 6",
    );
    fault(r#"["t""#, "EOF while parsing a list at line 1 column 4");
    fault(r#"["t" "c"]"#, "expected `,` or `]` at line 1 column 6");
    fault(r#"["t",]"#, "trailing comma at line 1 column 6");
    fault(r#"["t","c","o",false,1]"#, "trailing characters at line 1 column 20");
    fault(r#"["t","c","o",false,]"#, "trailing comma at line 1 column 20");
    fault(r#"["t","c","o",false 1]"#, "trailing characters at line 1 column 20");
    fault(r#"["t","c","o",false"#, "EOF while parsing a list at line 1 column 18");
}

#[test]
fn frame_errors_read_as_those_of_any_json_text() {
    for json in [
        "", " ", "\n\t", "{", "{ ", "{1}", "{,}", r#"{"x"}"#, r#"{"x""#, r#"{"x" "#, r#"{"x":"#,
        r#"{"x":}"#, r#"{"x":1"#, r#"{"x":1,"#, r#"{"x":1,}"#, r#"{"x":1 2}"#, r#"{"x":1,2}"#,
        r#"{"x:1}"#, r#"{"\x":1}"#, r#"{"x":[1,]}"#, r#"{"x":tru}"#, r#"{"x":01}"#, "{\"x\"\n:\n?",
        "\n{\n \"x\" : 1\n ,\n }",
    ] {
        let plain = serde_json::from_str::<HashMap<String, IgnoredAny>>(json).unwrap_err();
        let message = message_of(parse(json.as_bytes()));
        assert_eq!(message, format!("clientDataJSON parse failed: {plain}"));
    }
    for json in ["1", "-2.5", "1e999", "null", " true", "false", "\n\"x\"", "\"x", "tru", "?", "}"] {
        let plain = serde_json::from_str::<HashMap<String, IgnoredAny>>(json).unwrap_err();
        let plain = plain.to_string().replace("expected a map", "expected struct Parsed");
        let message = message_of(parse(json.as_bytes()));
        assert_eq!(message, format!("clientDataJSON parse failed: {plain}"));
    }
    for json in [
        "[", "[ ", "[,]", r#"["t""#, r#"["t" "c"]"#, r#"["t",]"#, r#"["t","#, r#"["t", "#, "[1]",
        "[\"t\",\n2]", r#"["t","c","o" 1]"#, r#"["t","c","o",]"#, r#"["t","c","o"] 1"#,
    ] {
        let plain = serde_json::from_str::<Vec<String>>(json).unwrap_err();
        let message = message_of(parse(json.as_bytes()));
        assert_eq!(message, format!("clientDataJSON parse failed: {plain}"));
    }
}

#[test]
fn unknown_client_data_members_are_not_decoded() {
    let deep = format!("{}{}", "[".repeat(500), "]".repeat(500));
    for value in ["1e999", r#""\ud800""#, "-0.5e-999", "{\"type\":\"u\"}", deep.as_str()] {
        let json = format!(r#"{{"x":{value},"type":"t","challenge":"c","origin":"o"}}"#);
        assert_eq!(parse(json.as_bytes()).unwrap().kind, "t");
    }
    let mut bytes = b"{\"x\":\"".to_vec();
    bytes.extend([0xC0, 0xFF]);
    bytes.extend(b"\",\"type\":\"t\",\"challenge\":\"c\",\"origin\":\"o\"}");
    assert_eq!(parse(&bytes).unwrap().kind, "t");
    let mut bytes = b"{\"type\":\"".to_vec();
    bytes.extend([0xC0, 0xFF]);
    bytes.extend(b"\",\"challenge\":\"c\",\"origin\":\"o\"}");
    assert!(matches!(parse(&bytes), Err(Error::ClientData(_))));
}

#[test]
fn client_data_members() {
    for json in [
        r#"{"type":"t","challenge":"c","origin":"o"}"#,
        r#" { "origin" : "o", "x" : [ {"type": 1}, null ], "challenge":"c", "type":"t" } "#,
        r#"{"type":"t","challenge":"c","origin":"o","crossOrigin":true,"x":1,"x":2}"#,
        r#"["t","c","o"]"#,
        r#"["t","c","o",false]"#,
    ] {
        let client = parse(json.as_bytes()).unwrap();
        assert_eq!(client.kind, "t");
        assert_eq!(client.challenge, "c");
        assert_eq!(client.origin, "o");
    }
}

#[test]
fn client_data_checks_in_order() {
    let client = |kind: &str, challenge: &str, origin: &str| ClientData {
        kind: kind.to_string(),
        challenge: challenge.to_string(),
        origin: origin.to_string(),
    };
    let expected = Challenge(vec![0xFB]);
    assert!(client("webauthn.get", "-w", "o").check(TYPE_AUTHENTICATE, &expected, "o", true).is_ok());
    assert!(client("webauthn.get", "+w==", "o").check(TYPE_AUTHENTICATE, &expected, "o", false).is_ok());
    let err = client("webauthn.get", "+w==", "o").check(TYPE_AUTHENTICATE, &expected, "o", true);
    assert!(matches!(err, Err(Error::Base64(_))));
    let err = client("other", "*", "p").check(TYPE_REGISTER, &expected, "o", true).unwrap_err();
    assert_eq!(
        err.to_string(),
        "clientDataJSON.type mismatch: expected webauthn.create, got other"
    );
    let err = client("webauthn.get", "-g", "p").check(TYPE_AUTHENTICATE, &expected, "o", true);
    assert!(matches!(err, Err(Error::ChallengeMismatch)));
    let err = client("webauthn.get", "-w", "p").check(TYPE_AUTHENTICATE, &expected, "o", true);
    assert_eq!(message_of(err), "origin mismatch: expected o, got p");
    let err = validate("*", TYPE_REGISTER, &expected, "o", false);
    assert!(matches!(err, Err(Error::Base64(_))));
}

// ---------- Starting a ceremony --------------------------------------------

fn stored(id: &[u8], transports: &[&str]) -> PasskeyCredential {
    PasskeyCredential {
        id: CredentialId(id.to_vec()),
        public_key_cose: CosePublicKey(vec![]),
        counter: 0,
        transports: transports.iter().map(|t| t.to_string()).collect(),
        aaguid: [0; 16],
    }
}

#[test]
fn registration_request_in_full() {
    let wa = Webauthn::new("example.com", "Example", "https://example.com")
        .require_user_verification(true)
        .authenticator_attachment(Attachment::Any);
    let (request, state) = wa.start_registration_with(
        Challenge(vec![0xFB]),
        123,
        b"Man",
        "alice",
        "Alice",
        &[CredentialId(b"M".to_vec()), CredentialId(b"Ma".to_vec())],
    );
    assert_eq!(request.challenge, "-w");
    assert_eq!(request.rp.id, "example.com");
    assert_eq!(request.rp.name, "Example");
    assert_eq!(request.user.id, "TWFu");
    assert_eq!(request.user.name, "alice");
    assert_eq!(request.user.display_name, "Alice");
    let algs: Vec<(&str, i64)> =
        request.pub_key_cred_params.iter().map(|p| (p.kind, p.alg)).collect();
    assert_eq!(algs, vec![("public-key", -7), ("public-key", -8)]);
    let excluded: Vec<&str> = request.exclude_credentials.iter().map(|d| d.id.as_str()).collect();
    assert_eq!(excluded, vec!["TQ", "TWE"]);
    assert!(request.exclude_credentials.iter().all(|d| d.kind == "public-key"));
    assert!(request.exclude_credentials.iter().all(|d| d.transports.is_empty()));
    assert_eq!(request.timeout, 60_000);
    assert_eq!(request.authenticator_selection.authenticator_attachment, None);
    assert_eq!(request.authenticator_selection.resident_key, Some("preferred"));
    assert_eq!(request.authenticator_selection.user_verification, "required");
    assert_eq!(request.attestation, "none");
    assert_eq!(state.challenge.as_bytes(), &[0xFB]);
    assert_eq!(state.user_id, b"Man");
    assert_eq!(state.created_at, 123);
}

#[test]
fn authentication_requests() {
    let wa = Webauthn::new("example.com", "Example", "https://example.com");
    let creds = [stored(b"M", &["usb"]), stored(b"Ma", &[])];
    let ids = [creds[0].id.clone(), creds[1].id.clone()];

    let (request, state) = wa.start_authentication(&ids);
    assert_eq!(request.challenge, state.challenge.to_b64url());
    assert_eq!(request.rp_id, "example.com");
    assert_eq!(request.timeout, 60_000);
    assert_eq!(request.user_verification, "preferred");
    assert_eq!(request.allow_credentials[1].id, "TWE");
    assert!(request.allow_credentials[0].transports.is_empty());
    assert_eq!(state.allow_credentials, ids.to_vec());
    assert_eq!(state.user_handle, None);

    let (request, state) = wa.start_authentication_with_creds(&creds);
    assert_eq!(request.allow_credentials[0].id, "TQ");
    assert_eq!(request.allow_credentials[0].transports, vec!["usb".to_string()]);
    assert_eq!(state.allow_credentials, ids.to_vec());
    assert_eq!(state.user_handle, None);

    let (request, state) = wa.start_authentication_for_user(b"alice", &ids);
    assert_eq!(request.allow_credentials.len(), 2);
    assert_eq!(state.user_handle, Some(b"alice".to_vec()));

    let (request, state) = wa.start_authentication_with_creds_for_user(b"alice", &creds);
    assert_eq!(request.allow_credentials[0].transports, vec!["usb".to_string()]);
    assert_eq!(state.allow_credentials, ids.to_vec());
    assert_eq!(state.user_handle, Some(b"alice".to_vec()));
    assert_eq!(wa.rp_id(), "example.com");
}

#[test]
fn ceremonies_start_now_with_a_fresh_challenge() {
    let clock = || SystemTime::now().duration_since(UNIX_EPOCH).unwrap().as_secs();
    let wa = Webauthn::new("example.com", "Example", "https://example.com");
    let before = clock();
    let (_, state) = wa.start_registration(b"u", "u", "U", &[]);
    let (_, other) = wa.start_authentication(&[]);
    let after = clock();
    assert!(before <= state.created_at && state.created_at <= after);
    assert!(before <= other.created_at && other.created_at <= after);
    assert_eq!(state.challenge.as_bytes().len(), 32);
    assert_eq!(other.challenge.as_bytes().len(), 32);
    assert_ne!(state.challenge.as_bytes(), other.challenge.as_bytes());
    assert_ne!(state.challenge.as_bytes(), &[0u8; 32]);
    assert!(!state.is_expired(60));
    assert!(!other.is_expired(60));
    assert_eq!(stamp(None), 0);
    assert_eq!(stamp(Some(7)), 7);
}
