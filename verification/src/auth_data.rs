//! The binary `authenticatorData` structure.
//!
//! Layout (big-endian where multi-byte):
//! ```text
//!   offset  bytes  field
//!   0       32     rpIdHash         (SHA-256 of RP ID)
//!   32      1      flags
//!   33      4      signCount        (counter)
//!   37..    var    attestedCredentialData  (only if AT bit set)
//!                    16   aaguid
//!                    2    credentialIdLength
//!                    var  credentialId
//!                    var  credentialPublicKey  (COSE_Key, CBOR)
//!   ...     var    extensions        (only if ED bit set; not used)
//! ```
//!
//! Flag bits (LSB first): bit 0 (UP) user present, bit 2 (UV) user verified,
//! bit 6 (AT) attestedCredentialData present, bit 7 (ED) extensions present.

use vstd::prelude::*;
use vstd::string::*;
use crate::cbor::{self, decode};
use crate::error::{self, Error, ErrorView, cbor_error_in};
use crate::text::{array_16, array_32, copy_bytes};
use crate::types::{CosePublicKey, CredentialId};

verus! {

pub const FLAG_UP: u8 = 0x01;

pub const FLAG_UV: u8 = 0x04;

pub const FLAG_AT: u8 = 0x40;

pub const FLAG_ED: u8 = 0x80;

/// Bit 0: the user was present.
pub open spec fn user_present(flags: u8) -> bool {
    flags % 2 == 1
}

/// Bit 2: the user was verified.
pub open spec fn user_verified(flags: u8) -> bool {
    (flags / 4) % 2 == 1
}

/// Bit 6: attested credential data follow.
pub open spec fn has_attested(flags: u8) -> bool {
    (flags / 64) % 2 == 1
}

/// Bit 7: extensions follow.
pub open spec fn has_extensions(flags: u8) -> bool {
    (flags / 128) % 2 == 1
}

/// The big-endian number in two bytes from `k`.
pub open spec fn be_u16(b: Seq<u8>, k: int) -> int {
    b[k] * 0x100 + b[k + 1]
}

/// The big-endian number in four bytes from `k`.
pub open spec fn be_u32(b: Seq<u8>, k: int) -> int {
    b[k] * 0x1000000 + b[k + 1] * 0x10000 + b[k + 2] * 0x100 + b[k + 3]
}

#[derive(Debug)]
pub struct AuthenticatorData {
    pub rp_id_hash: [u8; 32],
    pub flags: u8,
    pub sign_count: u32,
    /// There if the AT flag is set.
    pub attested: Option<AttestedCredentialData>,
}

#[derive(Debug)]
pub struct AttestedCredentialData {
    pub aaguid: [u8; 16],
    pub credential_id: CredentialId,
    pub public_key_cose: CosePublicKey,
}

#[verifier::ext_equal]
pub struct AuthenticatorDataView {
    pub rp_id_hash: Seq<u8>,
    pub flags: u8,
    pub sign_count: u32,
    pub attested: Option<AttestedCredentialDataView>,
}

#[verifier::ext_equal]
pub struct AttestedCredentialDataView {
    pub aaguid: Seq<u8>,
    pub credential_id: Seq<u8>,
    pub public_key_cose: Seq<u8>,
}

impl View for AttestedCredentialData {
    type V = AttestedCredentialDataView;

    open spec fn view(&self) -> AttestedCredentialDataView {
        AttestedCredentialDataView {
            aaguid: self.aaguid@,
            credential_id: self.credential_id@,
            public_key_cose: self.public_key_cose@,
        }
    }
}

impl View for AuthenticatorData {
    type V = AuthenticatorDataView;

    open spec fn view(&self) -> AuthenticatorDataView {
        AuthenticatorDataView {
            rp_id_hash: self.rp_id_hash@,
            flags: self.flags,
            sign_count: self.sign_count,
            attested: match self.attested {
                Some(a) => Some(a@),
                None => None,
            },
        }
    }
}

/// What stands before the public key: the fixed fields, and the AAGUID and
/// the credential ID if the AT flag is set.
#[derive(Debug)]
pub struct AuthHeader {
    pub rp_id_hash: [u8; 32],
    pub flags: u8,
    pub sign_count: u32,
    pub attested: Option<([u8; 16], CredentialId)>,
    /// How many bytes it takes up.
    pub end: usize,
}

#[verifier::ext_equal]
pub struct AuthHeaderView {
    pub rp_id_hash: Seq<u8>,
    pub flags: u8,
    pub sign_count: u32,
    pub attested: Option<(Seq<u8>, Seq<u8>)>,
    pub end: nat,
}

impl View for AuthHeader {
    type V = AuthHeaderView;

    open spec fn view(&self) -> AuthHeaderView {
        AuthHeaderView {
            rp_id_hash: self.rp_id_hash@,
            flags: self.flags,
            sign_count: self.sign_count,
            attested: match self.attested {
                Some((aaguid, id)) => Some((aaguid@, id@)),
                None => None,
            },
            end: self.end as nat,
        }
    }
}

/// The header at the start of `bytes`.
pub open spec fn header_of(bytes: Seq<u8>) -> Result<AuthHeaderView, ErrorView> {
    let n = be_u16(bytes, 53);
    if bytes.len() < 37 {
        Err(ErrorView::AuthData("too short (need >= 37 bytes)"@))
    } else if !has_attested(bytes[32]) {
        Ok(
            AuthHeaderView {
                rp_id_hash: bytes.subrange(0, 32),
                flags: bytes[32],
                sign_count: be_u32(bytes, 33) as u32,
                attested: None,
                end: 37,
            },
        )
    } else if bytes.len() < 55 {
        Err(ErrorView::AuthData("attestedCredentialData truncated header"@))
    } else if n > 1023 {
        Err(ErrorView::AuthData("credentialIdLength > 1023"@))
    } else if bytes.len() < 55 + n {
        Err(ErrorView::AuthData("credentialId truncated"@))
    } else {
        Ok(
            AuthHeaderView {
                rp_id_hash: bytes.subrange(0, 32),
                flags: bytes[32],
                sign_count: be_u32(bytes, 33) as u32,
                attested: Some((bytes.subrange(37, 53), bytes.subrange(55, 55 + n))),
                end: (55 + n) as nat,
            },
        )
    }
}

/// The whole structure, given its header and the length of the public key
/// that stands behind it.
pub open spec fn completed(h: AuthHeaderView, bytes: Seq<u8>, key_len: nat) -> (
    AuthenticatorDataView,
    nat,
) {
    let (attested, end) = match h.attested {
        Some((aaguid, id)) => (
            Some(
                AttestedCredentialDataView {
                    aaguid,
                    credential_id: id,
                    public_key_cose: bytes.subrange(h.end as int, (h.end + key_len) as int),
                },
            ),
            h.end + key_len,
        ),
        None => (None, h.end),
    };
    (
        AuthenticatorDataView {
            rp_id_hash: h.rp_id_hash,
            flags: h.flags,
            sign_count: h.sign_count,
            attested,
        },
        end,
    )
}

/// The length of the CBOR item at the start of `data`.
pub open spec fn item_length(data: Seq<u8>) -> Result<nat, ErrorView> {
    match cbor::decoded(data) {
        Ok((tree, n)) => Ok(n),
        Err(t) => Err(ErrorView::Cbor("cose key: "@ + t)),
    }
}

/// How it is reported that the extensions are not CBOR.
pub open spec fn extensions_fault(t: Seq<char>) -> ErrorView {
    if t.len() == 0 {
        ErrorView::AuthData("extensions CBOR invalid"@)
    } else {
        ErrorView::AuthData("extensions CBOR parse failed"@)
    }
}

/// Whether something that is not CBOR stands, where extensions are
/// announced, behind the first `end` bytes.
pub open spec fn bad_extensions(flags: u8, bytes: Seq<u8>, end: nat) -> bool {
    has_extensions(flags) && bytes.len() > end && cbor::decoded(
        bytes.subrange(end as int, bytes.len() as int),
    ) is Err
}

/// How many bytes the structure takes up: the header, the id and the key,
/// without extensions.
pub open spec fn structure_length(data: AuthenticatorDataView) -> nat {
    match data.attested {
        Some(attested) => 55 + attested.credential_id.len() + attested.public_key_cose.len(),
        None => 37,
    }
}

/// The authenticator data that `bytes` hold. Extensions and anything else may
/// stand behind them.
pub open spec fn parsed(bytes: Seq<u8>) -> Result<AuthenticatorDataView, ErrorView> {
    match header_of(bytes) {
        Err(e) => Err(e),
        Ok(h) => {
            let key_len = if h.attested is Some {
                item_length(bytes.subrange(h.end as int, bytes.len() as int))
            } else {
                Ok(0nat)
            };
            match key_len {
                Err(e) => Err(e),
                Ok(n) => {
                    let (data, end) = completed(h, bytes, n);
                    if bad_extensions(h.flags, bytes, end) {
                        Err(
                            extensions_fault(
                                cbor::decoded(
                                    bytes.subrange(end as int, bytes.len() as int),
                                )->Err_0,
                            ),
                        )
                    } else {
                        Ok(data)
                    }
                },
            }
        },
    }
}

fn read_u16(b: &[u8], k: usize) -> (r: usize)
    requires
        k + 2 <= b@.len(),
    ensures
        r == be_u16(b@, k as int),
{
    b[k] as usize * 0x100 + b[k + 1] as usize
}

fn read_u32(b: &[u8], k: usize) -> (r: u32)
    requires
        k + 4 <= b@.len(),
    ensures
        r == be_u32(b@, k as int),
{
    b[k] as u32 * 0x1000000 + b[k + 1] as u32 * 0x10000 + b[k + 2] as u32 * 0x100 + b[k + 3] as u32
}

impl AuthHeader {
    /// Reads the header at the start of `bytes`.
    pub fn read(bytes: &[u8]) -> (r: Result<AuthHeader, Error>)
        ensures
            error::outcome(r) == header_of(bytes@),
            r matches Ok(h) ==> h.end <= bytes@.len(),
    {
        if bytes.len() < 37 {
            return Err(Error::AuthData("too short (need >= 37 bytes)"));
        }
        let rp_id_hash = array_32(bytes, 0);
        let flags: u8 = bytes[32];
        let sign_count: u32 = read_u32(bytes, 33);
        assert((flags & 0x40 != 0) == ((flags / 64) % 2 == 1)) by (bit_vector);
        if flags & FLAG_AT == 0 {
            return Ok(AuthHeader { rp_id_hash, flags, sign_count, attested: None, end: 37 });
        }
        if bytes.len() < 55 {
            return Err(Error::AuthData("attestedCredentialData truncated header"));
        }
        let aaguid = array_16(bytes, 37);
        let cred_id_len: usize = read_u16(bytes, 53);
        if cred_id_len > 1023 {
            return Err(Error::AuthData("credentialIdLength > 1023"));
        }
        if bytes.len() < 55 + cred_id_len {
            return Err(Error::AuthData("credentialId truncated"));
        }
        let end: usize = 55 + cred_id_len;
        let credential_id = CredentialId(copy_bytes(&bytes[55..end]));
        Ok(AuthHeader { rp_id_hash, flags, sign_count, attested: Some((aaguid, credential_id)), end })
    }

    /// Completes the structure: the public key, if there is one, takes up
    /// the `key_len` bytes behind the header. Returns also where the
    /// structure ends.
    pub fn complete(self, bytes: &[u8], key_len: usize) -> (r: (AuthenticatorData, usize))
        requires
            self.end + key_len <= bytes@.len(),
        ensures
            (r.0@, r.1 as nat) == completed(self@, bytes@, key_len as nat),
    {
        let end: usize = self.end;
        let len: usize = bytes.len();
        assert(end + key_len <= len);
        match self.attested {
            Some((aaguid, credential_id)) => {
                let key_end: usize = end + key_len;
                let public_key_cose = CosePublicKey(copy_bytes(&bytes[end..key_end]));
                (
                    AuthenticatorData {
                        rp_id_hash: self.rp_id_hash,
                        flags: self.flags,
                        sign_count: self.sign_count,
                        attested: Some(
                            AttestedCredentialData { aaguid, credential_id, public_key_cose },
                        ),
                    },
                    key_end,
                )
            },
            None => (
                AuthenticatorData {
                    rp_id_hash: self.rp_id_hash,
                    flags: self.flags,
                    sign_count: self.sign_count,
                    attested: None,
                },
                end,
            ),
        }
    }
}

/// Reads a CBOR item from `data` and returns how many bytes it takes up.
pub fn cose_blob_length(data: &[u8]) -> (r: Result<usize, Error>)
    ensures
        match r {
            Ok(n) => item_length(data@) == Ok::<nat, ErrorView>(n as nat) && 0 < n
                <= data@.len(),
            Err(e) => item_length(data@) == Err::<nat, ErrorView>(e@),
        },
{
    match decode(data) {
        Ok((_, n)) => Ok(n),
        Err(t) => Err(cbor_error_in("cose key: ", t.as_str())),
    }
}

/// The error for extensions that are not CBOR, given the decoder's words.
pub fn extensions_error(t: &str) -> (r: Error)
    ensures
        r@ == extensions_fault(t@),
{
    if t.is_empty() {
        Error::AuthData("extensions CBOR invalid")
    } else {
        Error::AuthData("extensions CBOR parse failed")
    }
}

impl AuthenticatorData {
    /// Parses `authenticatorData`. Extensions are not used, but if they are
    /// announced they must be CBOR.
    pub fn parse(bytes: &[u8]) -> (r: Result<AuthenticatorData, Error>)
        ensures
            error::outcome(r) == parsed(bytes@),
            r matches Ok(data) ==> structure_length(data@) <= bytes@.len(),
    {
        match AuthenticatorData::parse_with_rest(bytes) {
            Ok((data, _)) => Ok(data),
            Err(e) => Err(e),
        }
    }

    /// Parses `authenticatorData` in the same way, and returns also the bytes
    /// that are not part of the structure: extensions and trailing data.
    pub fn parse_with_rest(bytes: &[u8]) -> (r: Result<(AuthenticatorData, &[u8]), Error>)
        ensures
            match r {
                Ok((data, rest)) => {
                    &&& parsed(bytes@) == Ok::<AuthenticatorDataView, ErrorView>(data@)
                    &&& structure_length(data@) <= bytes@.len()
                    &&& rest@ == bytes@.skip(structure_length(data@) as int)
                },
                Err(e) => parsed(bytes@) == Err::<AuthenticatorDataView, ErrorView>(e@),
            },
    {
        let header = match AuthHeader::read(bytes) {
            Ok(h) => h,
            Err(e) => {
                return Err(e);
            },
        };
        let flags: u8 = header.flags;
        let key_len: usize = if header.attested.is_some() {
            match cose_blob_length(&bytes[header.end..bytes.len()]) {
                Ok(n) => n,
                Err(e) => {
                    return Err(e);
                },
            }
        } else {
            0
        };
        let (data, end) = header.complete(bytes, key_len);
        assert((flags & 0x80 != 0) == ((flags / 128) % 2 == 1)) by (bit_vector);
        let rest = &bytes[end..bytes.len()];
        if flags & FLAG_ED != 0 && bytes.len() > end {
            if let Err(t) = decode(rest) {
                return Err(extensions_error(t.as_str()));
            }
        }
        Ok((data, rest))
    }

    pub fn user_present(&self) -> (r: bool)
        ensures
            r == user_present(self@.flags),
    {
        let flags: u8 = self.flags;
        assert((flags & 0x01 != 0) == (flags % 2 == 1)) by (bit_vector);
        flags & FLAG_UP != 0
    }

    pub fn user_verified(&self) -> (r: bool)
        ensures
            r == user_verified(self@.flags),
    {
        let flags: u8 = self.flags;
        assert((flags & 0x04 != 0) == ((flags / 4) % 2 == 1)) by (bit_vector);
        flags & FLAG_UV != 0
    }
}

} // verus!
