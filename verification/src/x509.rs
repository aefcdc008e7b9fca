//! Attestation certificates: the public key, and the FIDO AAGUID extension.
//!
//! Chains are not validated to a root, and validity periods are not looked
//! at. Only P-256 keys are supported.

use vstd::prelude::*;
use vstd::string::*;
use x509_cert::Certificate;
use x509_cert::der::Decode;
use x509_cert::der::referenced::OwnedToRef;
use crate::error::{self, Error, ErrorView, cbor_error, cbor_error_in};
use crate::text::{self, array_16, decimal_string, hex_byte_string, same_bytes};

verus! {

/// The body of the DER encoding of id-ecPublicKey, 1.2.840.10045.2.1.
pub const OID_EC_PUBLIC_KEY: [u8; 7] = [0x2A, 0x86, 0x48, 0xCE, 0x3D, 0x02, 0x01];

/// The body of the DER encoding of the curve P-256, 1.2.840.10045.3.1.7.
pub const OID_P256: [u8; 8] = [0x2A, 0x86, 0x48, 0xCE, 0x3D, 0x03, 0x01, 0x07];

/// The body of the DER encoding of the FIDO AAGUID extension's OID,
/// 1.3.6.1.4.1.45724.1.1.4.
pub const OID_FIDO_AAGUID: [u8; 11] = [
    0x2B,
    0x06,
    0x01,
    0x04,
    0x01,
    0x82,
    0xE5,
    0x1C,
    0x01,
    0x01,
    0x04,
];

/// The fields of a certificate that matter here. Object identifiers are the
/// bodies of their DER encodings.
#[derive(Debug)]
pub struct CertificateParts {
    /// The algorithm of the subject's public key.
    pub algorithm: Vec<u8>,
    /// The same in dotted notation.
    pub algorithm_text: String,
    /// The curve of the key, if the algorithm's parameters name one by its
    /// identifier.
    pub curve: Option<Vec<u8>>,
    /// The bits of the public key, if they are whole bytes.
    pub public_key: Option<Vec<u8>>,
    /// The extensions in their order, each with its identifier and value;
    /// nothing if the certificate has no such field.
    pub extensions: Option<Vec<(Vec<u8>, Vec<u8>)>>,
}

#[verifier::ext_equal]
pub struct CertificateView {
    pub algorithm: Seq<u8>,
    pub algorithm_text: Seq<char>,
    pub curve: Option<Seq<u8>>,
    pub public_key: Option<Seq<u8>>,
    pub extensions: Option<Seq<(Seq<u8>, Seq<u8>)>>,
}

/// The views of a list of extensions.
pub open spec fn extensions_view(s: Seq<(Vec<u8>, Vec<u8>)>) -> Seq<(Seq<u8>, Seq<u8>)> {
    Seq::new(s.len(), |i: int| (s[i].0@, s[i].1@))
}

impl View for CertificateParts {
    type V = CertificateView;

    open spec fn view(&self) -> CertificateView {
        CertificateView {
            algorithm: self.algorithm@,
            algorithm_text: self.algorithm_text@,
            curve: match self.curve {
                Some(b) => Some(b@),
                None => None,
            },
            public_key: match self.public_key {
                Some(b) => Some(b@),
                None => None,
            },
            extensions: match self.extensions {
                Some(e) => Some(extensions_view(e@)),
                None => None,
            },
        }
    }
}

/// The certificate that a DER encoding holds, or the `x509_cert` crate's
/// description of why it holds none.
pub uninterp spec fn certificate(der: Seq<u8>) -> Result<CertificateView, Seq<char>>;

/// `x509_cert::Certificate::from_der`, with the fields that matter here
/// taken out of the certificate one by one.
#[verifier::external_body]
fn read_certificate(der: &[u8]) -> (r: Result<CertificateParts, String>)
    ensures
        match r {
            Ok(c) => certificate(der@) == Ok::<CertificateView, Seq<char>>(c@),
            Err(t) => certificate(der@) == Err::<CertificateView, Seq<char>>(t@),
        },
{
    let tbs = Certificate::from_der(der).map_err(|e| e.to_string())?.tbs_certificate;
    let spki = tbs.subject_public_key_info;
    Ok(CertificateParts {
        algorithm: spki.algorithm.oid.as_bytes().to_vec(),
        algorithm_text: spki.algorithm.oid.to_string(),
        curve: spki.algorithm.owned_to_ref().parameters_oid().ok().map(|o| o.as_bytes().to_vec()),
        public_key: spki.subject_public_key.as_bytes().map(|b| b.to_vec()),
        extensions: tbs.extensions.map(|list| list.iter().map(
            |e| (e.extn_id.as_bytes().to_vec(), e.extn_value.as_bytes().to_vec()),
        ).collect()),
    })
}

/// What is kept of an attestation certificate.
#[derive(Debug)]
pub struct AttestationCert {
    /// The uncompressed SEC1 encoding of the P-256 point.
    pub p256_pubkey_sec1: [u8; 65],
    /// The AAGUID in the certificate, if it names one.
    pub aaguid: Option<[u8; 16]>,
}

#[verifier::ext_equal]
pub struct AttestationCertView {
    pub p256_pubkey_sec1: Seq<u8>,
    pub aaguid: Option<Seq<u8>>,
}

impl View for AttestationCert {
    type V = AttestationCertView;

    open spec fn view(&self) -> AttestationCertView {
        AttestationCertView {
            p256_pubkey_sec1: self.p256_pubkey_sec1@,
            aaguid: match self.aaguid {
                Some(a) => Some(a@),
                None => None,
            },
        }
    }
}

/// The value of the first extension with the given identifier.
pub open spec fn first_extension(extensions: Seq<(Seq<u8>, Seq<u8>)>, oid: Seq<u8>) -> Option<
    Seq<u8>,
>
    decreases extensions.len(),
{
    if extensions.len() == 0 {
        None
    } else if extensions[0].0 == oid {
        Some(extensions[0].1)
    } else {
        first_extension(extensions.drop_first(), oid)
    }
}

/// The AAGUID in the value of the extension: an OCTET STRING of 16 bytes.
pub open spec fn aaguid_in(value: Seq<u8>) -> Result<Seq<u8>, ErrorView> {
    if value.len() != 18 || value[0] != 0x04 || value[1] != 0x10 {
        Err(ErrorView::Cbor("attestation cert: malformed AAGUID extension"@))
    } else {
        Ok(value.subrange(2, 18))
    }
}

/// The message about a public key of the wrong shape.
pub open spec fn bad_point_text(key: Seq<u8>) -> Seq<char> {
    "attestation cert: pubkey not SEC1-uncompressed P-256 ("@ + text::decimal(key.len())
        + " bytes, prefix 0x"@ + text::hex_byte(
        if key.len() > 0 {
            key[0]
        } else {
            0
        },
    ) + ")"@
}

/// What is kept of a certificate with the given fields.
pub open spec fn cert_of_parts(c: CertificateView) -> Result<AttestationCertView, ErrorView> {
    if c.algorithm != OID_EC_PUBLIC_KEY@ {
        Err(
            ErrorView::Cbor(
                "attestation cert: non-EC public key (alg OID "@ + c.algorithm_text + ")"@,
            ),
        )
    } else if c.curve != Some(OID_P256@) {
        Err(ErrorView::Cbor("attestation cert: EC public key not on P-256"@))
    } else if c.public_key is None {
        Err(ErrorView::Cbor("attestation cert: pubkey bit-string has unused bits"@))
    } else if c.public_key->0.len() != 65 || c.public_key->0[0] != 0x04 {
        Err(ErrorView::Cbor(bad_point_text(c.public_key->0)))
    } else {
        let value = match c.extensions {
            Some(list) => first_extension(list, OID_FIDO_AAGUID@),
            None => None,
        };
        match value {
            None => Ok(
                AttestationCertView { p256_pubkey_sec1: c.public_key->0, aaguid: None },
            ),
            Some(value) => match aaguid_in(value) {
                Ok(aaguid) => Ok(
                    AttestationCertView {
                        p256_pubkey_sec1: c.public_key->0,
                        aaguid: Some(aaguid),
                    },
                ),
                Err(e) => Err(e),
            },
        }
    }
}

/// What is kept of the certificate in a DER encoding.
pub open spec fn cert_of_der(der: Seq<u8>) -> Result<AttestationCertView, ErrorView> {
    match certificate(der) {
        Ok(c) => cert_of_parts(c),
        Err(t) => Err(ErrorView::Cbor("x509 parse: "@ + t)),
    }
}

fn array_65(b: &[u8]) -> (r: [u8; 65])
    requires
        b@.len() == 65,
    ensures
        r@ == b@,
{
    let mut a: [u8; 65] = [0u8; 65];
    let mut i: usize = 0;
    while i < 65
        invariant
            i <= 65,
            b@.len() == 65,
            forall|j: int| 0 <= j < i ==> a@[j] == b@[j],
        decreases 65 - i,
    {
        a[i] = b[i];
        i += 1;
    }
    assert(a@ =~= b@);
    a
}

/// Looks up the first extension with the given identifier.
pub fn find_extension<'a>(extensions: &'a Vec<(Vec<u8>, Vec<u8>)>, oid: &[u8]) -> (r: Option<
    &'a [u8],
>)
    ensures
        match r {
            Some(v) => first_extension(extensions_view(extensions@), oid@) == Some(v@),
            None => first_extension(extensions_view(extensions@), oid@) is None,
        },
{
    let ghost all = extensions_view(extensions@);
    assert(all.skip(0) =~= all);
    let n: usize = extensions.len();
    let mut i: usize = 0;
    while i < n
        invariant
            i <= n == extensions@.len(),
            all == extensions_view(extensions@),
            first_extension(all, oid@) == first_extension(all.skip(i as int), oid@),
        decreases n - i,
    {
        assert(all.skip(i as int).drop_first() =~= all.skip(i + 1));
        if same_bytes(extensions[i].0.as_slice(), oid) {
            return Some(extensions[i].1.as_slice());
        }
        i += 1;
    }
    None
}

/// Reads the AAGUID out of the value of its extension. A malformed value is
/// an error, never an absent AAGUID.
pub fn parse_aaguid_octet_string(value: &[u8]) -> (r: Result<[u8; 16], Error>)
    ensures
        error::outcome(r) == aaguid_in(value@),
{
    if value.len() != 18 || value[0] != 0x04 || value[1] != 0x10 {
        return Err(cbor_error("attestation cert: malformed AAGUID extension"));
    }
    Ok(array_16(value, 2))
}

fn bad_point(key: &[u8]) -> (r: Error)
    ensures
        r@ == ErrorView::Cbor(bad_point_text(key@)),
{
    let prefix: u8 = if key.len() > 0 {
        key[0]
    } else {
        0
    };
    Error::Cbor(
        "attestation cert: pubkey not SEC1-uncompressed P-256 (".to_owned().concat(
            decimal_string(key.len() as u128).as_str(),
        ).concat(" bytes, prefix 0x").concat(hex_byte_string(prefix).as_str()).concat(")"),
    )
}

impl AttestationCert {
    /// Parses a DER-encoded certificate.
    pub fn from_der(der: &[u8]) -> (r: Result<AttestationCert, Error>)
        ensures
            error::outcome(r) == cert_of_der(der@),
    {
        match read_certificate(der) {
            Ok(c) => AttestationCert::from_parts(&c),
            Err(t) => Err(cbor_error_in("x509 parse: ", t.as_str())),
        }
    }

    /// Takes what is needed out of a decoded certificate.
    pub fn from_parts(c: &CertificateParts) -> (r: Result<AttestationCert, Error>)
        ensures
            error::outcome(r) == cert_of_parts(c@),
    {
        if !same_bytes(c.algorithm.as_slice(), &OID_EC_PUBLIC_KEY) {
            return Err(
                Error::Cbor(
                    "attestation cert: non-EC public key (alg OID ".to_owned().concat(
                        c.algorithm_text.as_str(),
                    ).concat(")"),
                ),
            );
        }
        let on_p256 = match &c.curve {
            Some(curve) => same_bytes(curve.as_slice(), &OID_P256),
            None => false,
        };
        if !on_p256 {
            return Err(cbor_error("attestation cert: EC public key not on P-256"));
        }
        let key = match &c.public_key {
            Some(b) => b.as_slice(),
            None => {
                return Err(cbor_error("attestation cert: pubkey bit-string has unused bits"));
            },
        };
        if key.len() != 65 || key[0] != 0x04 {
            return Err(bad_point(key));
        }
        let p256_pubkey_sec1 = array_65(key);
        let value = match &c.extensions {
            Some(list) => find_extension(list, &OID_FIDO_AAGUID),
            None => None,
        };
        match value {
            None => Ok(AttestationCert { p256_pubkey_sec1, aaguid: None }),
            Some(value) => match parse_aaguid_octet_string(value) {
                Ok(aaguid) => Ok(AttestationCert { p256_pubkey_sec1, aaguid: Some(aaguid) }),
                Err(e) => Err(e),
            },
        }
    }
}

} // verus!
