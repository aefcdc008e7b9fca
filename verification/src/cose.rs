//! COSE_Key (RFC 8152), narrowed to the algorithms that passkeys use:
//! ES256 (EC2 / P-256) and EdDSA (OKP / Ed25519).
//!
//! A key is a CBOR map:
//! ```text
//!   1 (kty):       EC2=2, OKP=1
//!   3 (alg):       -7 = ES256, -8 = EdDSA
//!  -1 (crv):       P-256=1, Ed25519=6
//!  -2 (x):         bstr (32 bytes for both)
//!  -3 (y):         bstr (P-256 only)
//! ```

use vstd::prelude::*;
use vstd::string::*;
use crate::cbor::{self, CborTree, CborValue, bytes_of, decode, find_label, i64_of, integer_of};
use crate::error::{self, Error, ErrorView, cbor_error, cbor_error_in};
use crate::text::array_32;

verus! {

pub const ALG_ES256: i64 = -7;

pub const ALG_EDDSA: i64 = -8;

pub const KTY: i64 = 1;

pub const ALG: i64 = 3;

pub const CRV: i64 = -1;

pub const X: i64 = -2;

pub const Y: i64 = -3;

pub const KTY_OKP: i64 = 1;

pub const KTY_EC2: i64 = 2;

pub const CRV_P256: i64 = 1;

pub const CRV_ED25519: i64 = 6;

#[derive(Debug, Clone)]
pub enum CoseKey {
    /// ECDSA on the NIST P-256 curve with SHA-256. `x` and `y` are the
    /// coordinates of the point.
    Es256 { x: [u8; 32], y: [u8; 32] },
    /// EdDSA with Ed25519. `key` is the compressed public key.
    Ed25519 { key: [u8; 32] },
}

/// A [`CoseKey`] with its arrays as sequences.
pub enum CoseKeyView {
    Es256 { x: Seq<u8>, y: Seq<u8> },
    Ed25519 { key: Seq<u8> },
}

impl View for CoseKey {
    type V = CoseKeyView;

    open spec fn view(&self) -> CoseKeyView {
        match *self {
            CoseKey::Es256 { x, y } => CoseKeyView::Es256 { x: x@, y: y@ },
            CoseKey::Ed25519 { key } => CoseKeyView::Ed25519 { key: key@ },
        }
    }
}

impl CoseKeyView {
    /// The COSE algorithm identifier of the key.
    pub open spec fn alg(self) -> i64 {
        match self {
            CoseKeyView::Es256 { .. } => ALG_ES256,
            CoseKeyView::Ed25519 { .. } => ALG_EDDSA,
        }
    }
}

/// The key in a COSE map with these entries.
pub open spec fn key_of_entries(entries: Seq<(CborTree, CborTree)>) -> Result<
    CoseKeyView,
    ErrorView,
> {
    let kty = cbor::as_integer(cbor::at_label(entries, KTY));
    let alg = cbor::as_integer(cbor::at_label(entries, ALG));
    let crv = cbor::as_integer(cbor::at_label(entries, CRV));
    let x = cbor::as_bytes(cbor::at_label(entries, X));
    let y = cbor::as_bytes(cbor::at_label(entries, Y));
    if kty is None {
        Err(ErrorView::Cbor("cose: missing kty"@))
    } else if alg is None {
        Err(ErrorView::Cbor("cose: missing alg"@))
    } else if kty->0 == KTY_EC2 && alg->0 == ALG_ES256 {
        if crv != Some(CRV_P256 as i128) {
            Err(ErrorView::Cbor("cose: ES256 expects crv=P-256"@))
        } else if x is None {
            Err(ErrorView::Cbor("cose: missing x"@))
        } else if y is None {
            Err(ErrorView::Cbor("cose: missing y"@))
        } else if x->0.len() != 32 || y->0.len() != 32 {
            Err(ErrorView::Cbor("cose: P-256 coords must be 32 bytes"@))
        } else {
            Ok(CoseKeyView::Es256 { x: x->0, y: y->0 })
        }
    } else if kty->0 == KTY_OKP && alg->0 == ALG_EDDSA {
        if crv != Some(CRV_ED25519 as i128) {
            Err(ErrorView::Cbor("cose: EdDSA expects crv=Ed25519"@))
        } else if x is None {
            Err(ErrorView::Cbor("cose: missing x"@))
        } else if x->0.len() != 32 {
            Err(ErrorView::Cbor("cose: Ed25519 key must be 32 bytes"@))
        } else {
            Ok(CoseKeyView::Ed25519 { key: x->0 })
        }
    } else {
        Err(ErrorView::UnsupportedAlg(cbor::low_64(alg->0)))
    }
}

/// The key that a CBOR item is.
pub open spec fn key_of_tree(tree: CborTree) -> Result<CoseKeyView, ErrorView> {
    match tree {
        CborTree::Dict(entries) => key_of_entries(entries),
        _ => Err(ErrorView::Cbor("cose: top-level not a map"@)),
    }
}

/// The key whose COSE encoding stands at the start of `bytes`.
pub open spec fn key_of_bytes(bytes: Seq<u8>) -> Result<CoseKeyView, ErrorView> {
    match cbor::decoded(bytes) {
        Ok((tree, n)) => key_of_tree(tree),
        Err(t) => Err(ErrorView::Cbor("cose: "@ + t)),
    }
}

impl CoseKey {
    /// Parses a COSE_Key, as it is carried in
    /// `attestedCredentialData.credentialPublicKey` and as it is stored.
    pub fn parse(bytes: &[u8]) -> (r: Result<CoseKey, Error>)
        ensures
            error::outcome(r) == key_of_bytes(bytes@),
    {
        match decode(bytes) {
            Ok((v, _)) => CoseKey::from_value(&v),
            Err(t) => Err(cbor_error_in("cose: ", t.as_str())),
        }
    }

    /// Reads a key out of a decoded item.
    pub fn from_value(v: &CborValue) -> (r: Result<CoseKey, Error>)
        ensures
            error::outcome(r) == key_of_tree(v@),
    {
        let map = match v {
            CborValue::Dict(m) => m,
            _ => {
                return Err(cbor_error("cose: top-level not a map"));
            },
        };
        let crv = integer_of(find_label(map, CRV));
        let x = bytes_of(find_label(map, X));
        let y = bytes_of(find_label(map, Y));
        let kty: i128 = match integer_of(find_label(map, KTY)) {
            Some(k) => k,
            None => {
                return Err(cbor_error("cose: missing kty"));
            },
        };
        let alg: i128 = match integer_of(find_label(map, ALG)) {
            Some(a) => a,
            None => {
                return Err(cbor_error("cose: missing alg"));
            },
        };
        if kty == KTY_EC2 as i128 && alg == ALG_ES256 as i128 {
            CoseKey::es256(crv, x, y)
        } else if kty == KTY_OKP as i128 && alg == ALG_EDDSA as i128 {
            CoseKey::ed25519(crv, x)
        } else {
            Err(Error::UnsupportedAlg(i64_of(alg)))
        }
    }

    fn es256(crv: Option<i128>, x: Option<&[u8]>, y: Option<&[u8]>) -> (r: Result<CoseKey, Error>)
        ensures
            error::outcome(r) == (if crv != Some(CRV_P256 as i128) {
                Err(ErrorView::Cbor("cose: ES256 expects crv=P-256"@))
            } else if x is None {
                Err(ErrorView::Cbor("cose: missing x"@))
            } else if y is None {
                Err(ErrorView::Cbor("cose: missing y"@))
            } else if x->0@.len() != 32 || y->0@.len() != 32 {
                Err(ErrorView::Cbor("cose: P-256 coords must be 32 bytes"@))
            } else {
                Ok(CoseKeyView::Es256 { x: x->0@, y: y->0@ })
            }),
    {
        if crv != Some(CRV_P256 as i128) {
            return Err(cbor_error("cose: ES256 expects crv=P-256"));
        }
        let xb = match x {
            Some(b) => b,
            None => {
                return Err(cbor_error("cose: missing x"));
            },
        };
        let yb = match y {
            Some(b) => b,
            None => {
                return Err(cbor_error("cose: missing y"));
            },
        };
        if xb.len() != 32 || yb.len() != 32 {
            return Err(cbor_error("cose: P-256 coords must be 32 bytes"));
        }
        proof {
            assert(xb@.subrange(0, 32) =~= xb@);
            assert(yb@.subrange(0, 32) =~= yb@);
        }
        Ok(CoseKey::Es256 { x: array_32(xb, 0), y: array_32(yb, 0) })
    }

    fn ed25519(crv: Option<i128>, x: Option<&[u8]>) -> (r: Result<CoseKey, Error>)
        ensures
            error::outcome(r) == (if crv != Some(CRV_ED25519 as i128) {
                Err(ErrorView::Cbor("cose: EdDSA expects crv=Ed25519"@))
            } else if x is None {
                Err(ErrorView::Cbor("cose: missing x"@))
            } else if x->0@.len() != 32 {
                Err(ErrorView::Cbor("cose: Ed25519 key must be 32 bytes"@))
            } else {
                Ok(CoseKeyView::Ed25519 { key: x->0@ })
            }),
    {
        if crv != Some(CRV_ED25519 as i128) {
            return Err(cbor_error("cose: EdDSA expects crv=Ed25519"));
        }
        let xb = match x {
            Some(b) => b,
            None => {
                return Err(cbor_error("cose: missing x"));
            },
        };
        if xb.len() != 32 {
            return Err(cbor_error("cose: Ed25519 key must be 32 bytes"));
        }
        proof {
            assert(xb@.subrange(0, 32) =~= xb@);
        }
        Ok(CoseKey::Ed25519 { key: array_32(xb, 0) })
    }

    /// The COSE algorithm identifier of the key.
    pub fn alg(&self) -> (r: i64)
        ensures
            r == self@.alg(),
    {
        match self {
            CoseKey::Es256 { .. } => ALG_ES256,
            CoseKey::Ed25519 { .. } => ALG_EDDSA,
        }
    }
}

} // verus!
