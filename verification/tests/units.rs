//! The parts of the library one by one.

use base64::Engine;
use base64::engine::general_purpose::{
    STANDARD as B64STD, STANDARD_NO_PAD as B64STD_NO_PAD, URL_SAFE as B64URL_PAD,
    URL_SAFE_NO_PAD as B64URL,
};
use ed25519_dalek::{Signature as EdSig, Signer, SigningKey};
use p256::ecdsa::{Signature as EsSig, SigningKey as EsSigningKey};
use passkey_auth::auth_data::{AuthenticatorData, FLAG_AT};
use passkey_auth::ceremony::ALLOWED_REGISTRATION_ALGS;
use passkey_auth::client_data::{TYPE_REGISTER, validate};
use passkey_auth::cose::CoseKey;
use passkey_auth::crypto::verify;
use passkey_auth::encoding::b64url_decode;
use passkey_auth::{Attachment, Challenge, Error, RpId, Webauthn};
use rand::RngCore;

// ---------- Base64 ---------------------------------------------------------

/// 5 bytes give 7 symbols and one padding character; the bytes use the last
/// two symbols of the alphabets.
const SAMPLE: &[u8] = &[0xFB, 0xEF, 0xBE, 0xFF, 0xCC];

#[test]
fn decodes_url_safe_no_pad() {
    let encoded = B64URL.encode(SAMPLE);
    assert_eq!(b64url_decode(&encoded).unwrap(), SAMPLE);
}

#[test]
fn decodes_url_safe_with_pad() {
    let encoded = B64URL_PAD.encode(SAMPLE);
    assert!(encoded.ends_with('='));
    assert_eq!(b64url_decode(&encoded).unwrap(), SAMPLE);
}

#[test]
fn decodes_standard_no_pad() {
    let encoded = B64STD_NO_PAD.encode(SAMPLE);
    assert_eq!(b64url_decode(&encoded).unwrap(), SAMPLE);
}

#[test]
fn decodes_standard_with_pad() {
    let encoded = B64STD.encode(SAMPLE);
    assert_eq!(b64url_decode(&encoded).unwrap(), SAMPLE);
}

#[test]
fn rejects_garbage() {
    assert!(b64url_decode("!!!not-base64!!!").is_err());
}

// ---------- RP ID ----------------------------------------------------------

#[test]
fn rpid_new_stores_verbatim() {
    assert_eq!(RpId::new("example.com").as_str(), "example.com");
    assert_eq!(RpId::new("sub.example.com").as_str(), "sub.example.com");
}

#[test]
fn rpid_try_from_url_bare_domain() {
    assert_eq!(RpId::try_from_url("example.com").unwrap().as_str(), "example.com",);
}

#[test]
fn rpid_try_from_url_https_origin() {
    assert_eq!(RpId::try_from_url("https://example.com").unwrap().as_str(), "example.com",);
}

#[test]
fn rpid_try_from_url_with_port_and_path() {
    assert_eq!(
        RpId::try_from_url("https://example.com:8443/auth/start").unwrap().as_str(),
        "example.com",
    );
}

#[test]
fn rpid_try_from_url_rejects_userinfo_in_bare() {
    assert!(RpId::try_from_url("user:pass@example.com").is_err());
}

#[test]
fn rpid_try_from_url_rejects_empty() {
    assert!(RpId::try_from_url("").is_err());
    assert!(RpId::try_from_url("   ").is_err());
}

// ---------- COSE keys ------------------------------------------------------

#[test]
fn parse_es256_key() {
    // { 1: 2, 3: -7, -1: 1, -2: h'<32x>', -3: h'<32y>' }
    let mut cbor = vec![0xa5];
    cbor.extend_from_slice(&[0x01, 0x02]);
    cbor.extend_from_slice(&[0x03, 0x26]);
    cbor.extend_from_slice(&[0x20, 0x01]);
    cbor.extend_from_slice(&[0x21, 0x58, 0x20]);
    cbor.extend(std::iter::repeat_n(0xAA, 32));
    cbor.extend_from_slice(&[0x22, 0x58, 0x20]);
    cbor.extend(std::iter::repeat_n(0xBB, 32));
    let parsed = CoseKey::parse(&cbor).unwrap();
    match parsed {
        CoseKey::Es256 { x, y } => {
            assert_eq!(x, [0xAA; 32]);
            assert_eq!(y, [0xBB; 32]);
        }
        _ => panic!("expected ES256"),
    }
}

// ---------- Authenticator data ---------------------------------------------

#[test]
fn parse_minimal_auth_data() {
    let mut buf = Vec::with_capacity(37);
    buf.extend(std::iter::repeat_n(0xAB, 32));
    buf.push(0x05); // UP | UV
    buf.extend_from_slice(&42u32.to_be_bytes());
    let ad = AuthenticatorData::parse(&buf).unwrap();
    assert_eq!(ad.rp_id_hash, [0xAB; 32]);
    assert!(ad.user_present());
    assert!(ad.user_verified());
    assert_eq!(ad.sign_count, 42);
    assert!(ad.attested.is_none());
}

#[test]
fn parse_with_attested_data() {
    let mut buf = Vec::new();
    buf.extend(std::iter::repeat_n(0xAB, 32));
    buf.push(0x05 | FLAG_AT); // UP | UV | AT
    buf.extend_from_slice(&0u32.to_be_bytes());
    buf.extend(std::iter::repeat_n(0xCD, 16)); // aaguid
    buf.extend_from_slice(&3u16.to_be_bytes()); // credIdLength
    buf.extend_from_slice(&[1, 2, 3]); // credential id
    buf.extend_from_slice(&[0xa1, 0x01, 0x02]); // {1: 2}
    let ad = AuthenticatorData::parse(&buf).unwrap();
    let att = ad.attested.unwrap();
    assert_eq!(att.aaguid, [0xCD; 16]);
    assert_eq!(att.credential_id.as_bytes(), &[1, 2, 3]);
    assert_eq!(att.public_key_cose.as_bytes(), &[0xa1, 0x01, 0x02]);
}

#[test]
fn too_short_rejected() {
    assert!(AuthenticatorData::parse(&[0u8; 36]).is_err());
}

// ---------- Signatures -----------------------------------------------------

#[test]
fn ed25519_round_trip() {
    let mut seed = [0u8; 32];
    rand::thread_rng().fill_bytes(&mut seed);
    let sk = SigningKey::from_bytes(&seed);
    let vk_bytes = sk.verifying_key().to_bytes();
    let msg = b"hello passkey world";
    let sig: EdSig = sk.sign(msg);
    let key = CoseKey::Ed25519 { key: vk_bytes };
    verify(&key, msg, &sig.to_bytes()).expect("good sig must verify");

    let mut bad = sig.to_bytes();
    bad[0] ^= 0x01;
    assert!(verify(&key, msg, &bad).is_err());
}

#[test]
fn es256_round_trip() {
    let sk = EsSigningKey::random(&mut rand::thread_rng());
    let vk = sk.verifying_key();
    let pt = vk.to_encoded_point(false);
    let xs = pt.x().expect("x coord");
    let ys = pt.y().expect("y coord");
    let mut x = [0u8; 32];
    let mut y = [0u8; 32];
    x.copy_from_slice(&xs[..]);
    y.copy_from_slice(&ys[..]);

    let msg = b"hello passkey world";
    let sig: EsSig = sk.sign(msg);
    let der = sig.to_der().to_bytes().to_vec();

    let key = CoseKey::Es256 { x, y };
    verify(&key, msg, &der).expect("good sig must verify");

    let mut bad = der.clone();
    let n = bad.len();
    bad[n - 1] ^= 0x01;
    assert!(verify(&key, msg, &bad).is_err());
}

// ---------- Client data ----------------------------------------------------

fn make_cdj(kind: &str, challenge_b64: &str, origin: &str) -> String {
    let json = format!(
        r#"{{"type":"{kind}","challenge":"{challenge_b64}","origin":"{origin}","crossOrigin":false}}"#
    );
    B64URL.encode(json.as_bytes())
}

#[test]
fn happy_path_register() {
    let chal = Challenge(vec![1, 2, 3, 4]);
    let cdj = make_cdj("webauthn.create", &chal.to_b64url(), "https://example.com");
    let raw = validate(&cdj, TYPE_REGISTER, &chal, "https://example.com", false).unwrap();
    assert!(raw.starts_with(b"{\"type\":\"webauthn.create\""));
}

#[test]
fn wrong_type_rejected() {
    let chal = Challenge(vec![1, 2, 3, 4]);
    let cdj = make_cdj("webauthn.get", &chal.to_b64url(), "https://example.com");
    let err = validate(&cdj, TYPE_REGISTER, &chal, "https://example.com", false).unwrap_err();
    assert!(matches!(err, Error::ClientDataType { .. }));
}

#[test]
fn client_data_wrong_challenge_rejected() {
    let chal = Challenge(vec![1, 2, 3, 4]);
    let bad = Challenge(vec![9, 9, 9]);
    let cdj = make_cdj("webauthn.create", &bad.to_b64url(), "https://example.com");
    let err = validate(&cdj, TYPE_REGISTER, &chal, "https://example.com", false).unwrap_err();
    assert!(matches!(err, Error::ChallengeMismatch));
}

#[test]
fn client_data_wrong_origin_rejected() {
    let chal = Challenge(vec![1, 2, 3, 4]);
    let cdj = make_cdj("webauthn.create", &chal.to_b64url(), "https://evil.com");
    let err = validate(&cdj, TYPE_REGISTER, &chal, "https://example.com", false).unwrap_err();
    assert!(matches!(err, Error::OriginMismatch { .. }));
}

// ---------- Configuration --------------------------------------------------

#[test]
fn attachment_tokens() {
    assert_eq!(Attachment::Platform.as_token(), Some("platform"));
    assert_eq!(Attachment::CrossPlatform.as_token(), Some("cross-platform"),);
    assert_eq!(Attachment::Any.as_token(), None);
}

#[test]
fn advertised_algs_match_enforced_algs() {
    let wa = Webauthn::new("example.com", "Example", "https://example.com");
    let (chal, _) = wa.start_registration(b"u", "u", "U", &[]);
    let advertised: Vec<i64> = chal.pub_key_cred_params.iter().map(|p| p.alg).collect();
    assert_eq!(advertised, ALLOWED_REGISTRATION_ALGS);
}

#[test]
fn strict_base64_default_is_lenient() {
    let wa = Webauthn::new("example.com", "Example", "https://example.com");
    assert!(!wa.strict_base64);
    let wa = wa.strict_base64(true);
    assert!(wa.strict_base64);
}

#[test]
fn challenge_reflects_attachment_builder() {
    let wa_platform = Webauthn::new("example.com", "Example", "https://example.com");
    let (chal, _) = wa_platform.start_registration(b"u", "u", "U", &[]);
    assert_eq!(chal.authenticator_selection.authenticator_attachment, Some("platform"),);

    let wa_any = Webauthn::new("example.com", "Example", "https://example.com")
        .authenticator_attachment(Attachment::Any);
    let (chal, _) = wa_any.start_registration(b"u", "u", "U", &[]);
    assert_eq!(chal.authenticator_selection.authenticator_attachment, None,);

    let wa_cross = Webauthn::new("example.com", "Example", "https://example.com")
        .authenticator_attachment(Attachment::CrossPlatform);
    let (chal, _) = wa_cross.start_registration(b"u", "u", "U", &[]);
    assert_eq!(chal.authenticator_selection.authenticator_attachment, Some("cross-platform"),);
}

#[test]
fn es256_accepts_both_forms_of_s() {
    let sk = EsSigningKey::from_slice(&[3u8; 32]).unwrap();
    let pt = sk.verifying_key().to_encoded_point(false);
    let mut x = [0u8; 32];
    let mut y = [0u8; 32];
    x.copy_from_slice(&pt.x().unwrap()[..]);
    y.copy_from_slice(&pt.y().unwrap()[..]);
    let key = CoseKey::Es256 { x, y };
    let sig: EsSig = sk.sign(b"message");
    let (r, s) = sig.split_scalars();
    let other = EsSig::from_scalars(r, -s).unwrap();
    assert!(sig != other);
    assert!(verify(&key, b"message", sig.to_der().as_bytes()).is_ok());
    assert!(verify(&key, b"message", other.to_der().as_bytes()).is_ok());
    assert!(verify(&key, b"another", sig.to_der().as_bytes()).is_err());
    assert!(verify(&key, b"message", &sig.to_bytes()).is_err());
}
