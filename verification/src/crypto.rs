//! Hashing and signature verification.
//!
//! WebAuthn signs `authenticatorData || SHA-256(clientDataJSON)`. An ES256
//! signature on the wire is DER-encoded, not raw `r || s`, and both the
//! low-S and the high-S form of it are accepted. An EdDSA signature is the
//! 64 raw bytes.

use vstd::prelude::*;
use ed25519_dalek::{Signature as EdSig, Verifier, VerifyingKey as EdKey};
use p256::ecdsa::{Signature as EsSig, VerifyingKey as EsKey};
use p256::elliptic_curve::sec1::FromEncodedPoint;
use p256::{EncodedPoint, PublicKey};
use sha2::{Digest, Sha256};
use crate::cose::{CoseKey, CoseKeyView};
use crate::error::{self, Error, ErrorView};

verus! {

/// SHA-256 of a byte string.
pub uninterp spec fn sha256(data: Seq<u8>) -> Seq<u8>;

/// Whether `sig` is a DER-encoded ECDSA signature over `msg`, hashed with
/// SHA-256, under the P-256 key with the SEC1 encoding `sec1`.
pub uninterp spec fn es256_valid(sec1: Seq<u8>, msg: Seq<u8>, sig: Seq<u8>) -> bool;

/// Whether `sig` is an Ed25519 signature over `msg` under the compressed
/// public key `key`.
pub uninterp spec fn ed25519_valid(key: Seq<u8>, msg: Seq<u8>, sig: Seq<u8>) -> bool;

/// `sha2::Sha256` over the whole input at once.
#[verifier::external_body]
pub(crate) fn sha256_32(data: &[u8]) -> (r: [u8; 32])
    ensures
        r@ == sha256(data@),
{
    let mut h = Sha256::new();
    h.update(data);
    h.finalize().into()
}

/// `p256`: decodes the point with `EncodedPoint::from_bytes` and
/// `PublicKey::from_encoded_point`, the signature with `Signature::from_der`,
/// and checks it with `VerifyingKey::verify`. Whether all four succeed
/// depends on the three arguments alone. Which signatures are accepted is not
/// stated: that `(r, s)` is together with `(r, n - s)` is a fact about the
/// curve.
#[verifier::external_body]
fn check_es256(sec1: &[u8; 65], msg: &[u8], sig: &[u8]) -> (r: Option<()>)
    ensures
        r is Some == es256_valid(sec1@, msg@, sig@),
{
    let point = EncodedPoint::from_bytes(sec1).ok()?;
    let key = Option::<PublicKey>::from(PublicKey::from_encoded_point(&point))?;
    let signature = EsSig::from_der(sig).ok()?;
    EsKey::from(&key).verify(msg, &signature).ok()
}

/// `ed25519_dalek`: decodes the key with `VerifyingKey::from_bytes` and
/// checks the signature with `VerifyingKey::verify`. Whether both succeed
/// depends on the three arguments alone.
#[verifier::external_body]
fn check_ed25519(key: &[u8; 32], msg: &[u8], sig: &[u8; 64]) -> (r: Option<()>)
    ensures
        r is Some == ed25519_valid(key@, msg@, sig@),
{
    let key = EdKey::from_bytes(key).ok()?;
    key.verify(msg, &EdSig::from_bytes(sig)).ok()
}

/// The SEC1 encoding of an uncompressed point.
pub open spec fn sec1_point(x: Seq<u8>, y: Seq<u8>) -> Seq<u8> {
    seq![0x04u8] + x + y
}

/// Whether a signature over `msg` holds under a COSE key.
pub open spec fn accepts(key: CoseKeyView, msg: Seq<u8>, sig: Seq<u8>) -> bool {
    match key {
        CoseKeyView::Es256 { x, y } => es256_valid(sec1_point(x, y), msg, sig),
        CoseKeyView::Ed25519 { key } => sig.len() == 64 && ed25519_valid(key, msg, sig),
    }
}

/// What is reported of a signature: no reason is given for a bad one.
pub open spec fn verdict_on(accepted: bool) -> Result<(), ErrorView> {
    if accepted {
        Ok(())
    } else {
        Err(ErrorView::BadSignature)
    }
}

/// What is reported of a signature.
pub fn verdict(accepted: bool) -> (r: Result<(), Error>)
    ensures
        error::outcome(r) == verdict_on(accepted),
{
    if accepted {
        Ok(())
    } else {
        Err(Error::BadSignature)
    }
}

/// `0x04 || x || y`.
pub fn encode_point(x: &[u8; 32], y: &[u8; 32]) -> (r: [u8; 65])
    ensures
        r@ == sec1_point(x@, y@),
{
    let mut sec1: [u8; 65] = [0u8; 65];
    sec1[0] = 0x04;
    let mut i: usize = 0;
    while i < 32
        invariant
            i <= 32,
            sec1@[0] == 0x04,
            forall|j: int| 0 <= j < i ==> sec1@[1 + j] == x@[j] && sec1@[33 + j] == y@[j],
        decreases 32 - i,
    {
        sec1[1 + i] = x[i];
        sec1[33 + i] = y[i];
        i += 1;
    }
    assert forall|k: int| 0 <= k < 65 implies sec1@[k] == sec1_point(x@, y@)[k] by {
        if 1 <= k < 33 {
            assert(sec1@[1 + (k - 1)] == x@[k - 1]);
        } else if 33 <= k {
            assert(sec1@[33 + (k - 33)] == y@[k - 33]);
        }
    }
    assert(sec1@ =~= sec1_point(x@, y@));
    sec1
}

/// Verifies an ES256 signature under a key in SEC1 encoding.
pub fn verify_es256_sec1(sec1: &[u8; 65], msg: &[u8], sig: &[u8]) -> (r: Result<(), Error>)
    ensures
        error::outcome(r) == verdict_on(es256_valid(sec1@, msg@, sig@)),
{
    verdict(check_es256(sec1, msg, sig).is_some())
}

fn verify_es256(x: &[u8; 32], y: &[u8; 32], msg: &[u8], sig: &[u8]) -> (r: Result<(), Error>)
    ensures
        error::outcome(r) == verdict_on(es256_valid(sec1_point(x@, y@), msg@, sig@)),
{
    let sec1 = encode_point(x, y);
    verify_es256_sec1(&sec1, msg, sig)
}

fn array_64(b: &[u8]) -> (r: [u8; 64])
    requires
        b@.len() == 64,
    ensures
        r@ == b@,
{
    let mut a: [u8; 64] = [0u8; 64];
    let mut i: usize = 0;
    while i < 64
        invariant
            i <= 64,
            b@.len() == 64,
            forall|j: int| 0 <= j < i ==> a@[j] == b@[j],
        decreases 64 - i,
    {
        a[i] = b[i];
        i += 1;
    }
    assert(a@ =~= b@);
    a
}

fn verify_ed25519(key: &[u8; 32], msg: &[u8], sig: &[u8]) -> (r: Result<(), Error>)
    ensures
        error::outcome(r) == verdict_on(sig@.len() == 64 && ed25519_valid(key@, msg@, sig@)),
{
    if sig.len() != 64 {
        return Err(Error::BadSignature);
    }
    let bytes = array_64(sig);
    verdict(check_ed25519(key, msg, &bytes).is_some())
}

/// Verifies `sig` over `msg` with a COSE public key. Whatever is wrong, the
/// error is [`Error::BadSignature`].
pub fn verify(key: &CoseKey, msg: &[u8], sig: &[u8]) -> (r: Result<(), Error>)
    ensures
        error::outcome(r) == verdict_on(accepts(key@, msg@, sig@)),
        match *key {
            CoseKey::Es256 { x, y } => r is Ok <==> es256_valid(
                seq![0x04u8] + x@ + y@,
                msg@,
                sig@,
            ),
            CoseKey::Ed25519 { key: k } => r is Ok <==> sig@.len() == 64 && ed25519_valid(
                k@,
                msg@,
                sig@,
            ),
        },
{
    match key {
        CoseKey::Es256 { x, y } => verify_es256(x, y, msg, sig),
        CoseKey::Ed25519 { key } => verify_ed25519(key, msg, sig),
    }
}

/// The message that a ceremony's signature is over.
pub open spec fn signed_message(auth_data: Seq<u8>, client_data_hash: Seq<u8>) -> Seq<u8> {
    auth_data + client_data_hash
}

/// `authenticatorData || SHA-256(clientDataJSON)`.
pub fn message(auth_data: &[u8], client_data_hash: &[u8; 32]) -> (r: Vec<u8>)
    ensures
        r@ == signed_message(auth_data@, client_data_hash@),
{
    let mut msg: Vec<u8> = Vec::new();
    msg.extend_from_slice(auth_data);
    msg.extend_from_slice(client_data_hash);
    assert(msg@ =~= signed_message(auth_data@, client_data_hash@));
    msg
}

} // verus!
