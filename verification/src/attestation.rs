//! `attestationObject`, which the authenticator returns at registration.
//!
//! Shape:
//! ```text
//!   { "fmt": "<format>", "attStmt": <map>, "authData": <bstr> }
//! ```
//!
//! Formats, and what is checked of their statements:
//!
//! - `none`: nothing; the public key is taken as it is.
//! - `packed` without `x5c` (self-attestation): the signature is over
//!   `authData || clientDataHash`, under the credential's own key.
//! - `packed` with `x5c`: the same message, under the key of the first
//!   certificate; an AAGUID in that certificate must be that of `authData`.
//! - `fido-u2f`: the signature is over
//!   `0x00 || rpIdHash || clientDataHash || credId || publicKey`, under the
//!   key of the first certificate.
//!
//! Any other format is refused. Certificate chains are not validated.

use vstd::prelude::*;
use vstd::string::*;
use crate::auth_data::{self, AuthenticatorData, AuthenticatorDataView};
use crate::cbor::{self, CborTree, CborValue, bytes_of, decode, find_name, i64_of, integer_of, take_name};
use crate::cose::{ALG_ES256, CoseKey, CoseKeyView};
use crate::crypto::{self, verify_es256_sec1};
use crate::error::{self, Error, ErrorView, cbor_error, cbor_error_in};
use crate::text::{self, copy_bytes, same_bytes, same_str, signed_decimal_string};
use crate::x509::{self, AttestationCert, AttestationCertView};

verus! {

/// The three members of an attestation object.
#[derive(Debug)]
pub struct Envelope {
    pub fmt: String,
    /// The statement; an empty map if there is none.
    pub att_stmt: CborValue,
    pub auth_data_raw: Vec<u8>,
}

#[verifier::ext_equal]
pub struct EnvelopeView {
    pub fmt: Seq<char>,
    pub att_stmt: CborTree,
    pub auth_data_raw: Seq<u8>,
}

impl View for Envelope {
    type V = EnvelopeView;

    open spec fn view(&self) -> EnvelopeView {
        EnvelopeView {
            fmt: self.fmt@,
            att_stmt: self.att_stmt@,
            auth_data_raw: self.auth_data_raw@,
        }
    }
}

/// An attestation object with its authenticator data parsed.
#[derive(Debug)]
pub struct ParsedAttestation {
    pub auth_data_raw: Vec<u8>,
    pub auth_data: AuthenticatorData,
    pub fmt: String,
    pub att_stmt: CborValue,
}

#[verifier::ext_equal]
pub struct ParsedAttestationView {
    pub auth_data_raw: Seq<u8>,
    pub auth_data: AuthenticatorDataView,
    pub fmt: Seq<char>,
    pub att_stmt: CborTree,
}

impl View for ParsedAttestation {
    type V = ParsedAttestationView;

    open spec fn view(&self) -> ParsedAttestationView {
        ParsedAttestationView {
            auth_data_raw: self.auth_data_raw@,
            auth_data: self.auth_data@,
            fmt: self.fmt@,
            att_stmt: self.att_stmt@,
        }
    }
}

/// What is wrong with one member of an attestation object.
pub open spec fn member_fault(entry: (CborTree, CborTree)) -> Option<ErrorView> {
    if entry.0 == CborTree::Text("fmt"@) {
        if entry.1 is Text {
            None
        } else {
            Some(ErrorView::Cbor("attestationObject.fmt not text"@))
        }
    } else if entry.0 == CborTree::Text("authData"@) {
        if entry.1 is Bytes {
            None
        } else {
            Some(ErrorView::Cbor("attestationObject.authData not bytes"@))
        }
    } else {
        None
    }
}

/// The first thing that is wrong with a member of an attestation object.
pub open spec fn first_member_fault(entries: Seq<(CborTree, CborTree)>) -> Option<ErrorView>
    decreases entries.len(),
{
    if entries.len() == 0 {
        None
    } else if member_fault(entries[0]) is Some {
        member_fault(entries[0])
    } else {
        first_member_fault(entries.drop_first())
    }
}

/// The text in an optional tree.
pub open spec fn as_text(v: Option<CborTree>) -> Option<Seq<char>> {
    match v {
        Some(CborTree::Text(t)) => Some(t),
        _ => None,
    }
}

/// The members of the attestation object that a CBOR item is.
pub open spec fn envelope_of(tree: CborTree) -> Result<EnvelopeView, ErrorView> {
    match tree {
        CborTree::Dict(entries) => {
            let fmt = as_text(cbor::at_name(entries, "fmt"@));
            let raw = cbor::as_bytes(cbor::at_name(entries, "authData"@));
            if first_member_fault(entries) is Some {
                Err(first_member_fault(entries)->0)
            } else if fmt is None {
                Err(ErrorView::Cbor("attestationObject: missing fmt"@))
            } else if raw is None {
                Err(ErrorView::Cbor("attestationObject: missing authData"@))
            } else {
                Ok(
                    EnvelopeView {
                        fmt: fmt->0,
                        att_stmt: match cbor::at_name(entries, "attStmt"@) {
                            Some(v) => v,
                            None => CborTree::Dict(Seq::empty()),
                        },
                        auth_data_raw: raw->0,
                    },
                )
            }
        },
        _ => Err(ErrorView::Cbor("attestationObject: top-level not a map"@)),
    }
}

/// The attestation object in an envelope.
pub open spec fn attestation_of(e: EnvelopeView) -> Result<ParsedAttestationView, ErrorView> {
    match auth_data::parsed(e.auth_data_raw) {
        Ok(auth_data) => Ok(
            ParsedAttestationView {
                auth_data_raw: e.auth_data_raw,
                auth_data,
                fmt: e.fmt,
                att_stmt: e.att_stmt,
            },
        ),
        Err(e) => Err(e),
    }
}

/// The attestation object at the start of `bytes`.
pub open spec fn parsed(bytes: Seq<u8>) -> Result<ParsedAttestationView, ErrorView> {
    match cbor::decoded(bytes) {
        Err(t) => Err(ErrorView::Cbor("attestationObject: "@ + t)),
        Ok((tree, n)) => match envelope_of(tree) {
            Err(e) => Err(e),
            Ok(envelope) => attestation_of(envelope),
        },
    }
}

fn check_members(map: &Vec<(CborValue, CborValue)>) -> (r: Result<(), Error>)
    ensures
        match r {
            Ok(_) => first_member_fault(cbor::pairs_of(map@)) is None,
            Err(e) => first_member_fault(cbor::pairs_of(map@)) == Some(e@),
        },
{
    let ghost all = cbor::pairs_of(map@);
    proof {
        cbor::lemma_pairs_of(map@);
        assert(all.skip(0) =~= all);
    }
    let n: usize = map.len();
    let mut i: usize = 0;
    while i < n
        invariant
            i <= n == map@.len() == all.len(),
            all == cbor::pairs_of(map@),
            first_member_fault(all) == first_member_fault(all.skip(i as int)),
        decreases n - i,
    {
        proof {
            cbor::lemma_pairs_of(map@);
            assert(all.skip(i as int)[0] == all[i as int]);
            assert(all.skip(i as int).drop_first() =~= all.skip(i + 1));
        }
        if let CborValue::Text(key) = &map[i].0 {
            if same_str(key.as_str(), "fmt") {
                match &map[i].1 {
                    CborValue::Text(_) => {},
                    _ => {
                        return Err(cbor_error("attestationObject.fmt not text"));
                    },
                }
            } else if same_str(key.as_str(), "authData") {
                match &map[i].1 {
                    CborValue::Bytes(_) => {},
                    _ => {
                        return Err(cbor_error("attestationObject.authData not bytes"));
                    },
                }
            }
        }
        i += 1;
    }
    Ok(())
}

impl Envelope {
    /// Takes the members out of a decoded attestation object.
    pub fn from_value(v: CborValue) -> (r: Result<Envelope, Error>)
        ensures
            error::outcome(r) == envelope_of(v@),
    {
        let map = match v {
            CborValue::Dict(m) => m,
            _ => {
                return Err(cbor_error("attestationObject: top-level not a map"));
            },
        };
        if let Err(e) = check_members(&map) {
            return Err(e);
        }
        let fmt = match find_name(&map, "fmt") {
            Some(CborValue::Text(t)) => t.clone(),
            _ => {
                return Err(cbor_error("attestationObject: missing fmt"));
            },
        };
        let auth_data_raw = match bytes_of(find_name(&map, "authData")) {
            Some(b) => copy_bytes(b),
            None => {
                return Err(cbor_error("attestationObject: missing authData"));
            },
        };
        let att_stmt = match take_name(map, "attStmt") {
            Some(stmt) => stmt,
            None => CborValue::Dict(Vec::new()),
        };
        Ok(Envelope { fmt, att_stmt, auth_data_raw })
    }
}

impl ParsedAttestation {
    /// Decodes the CBOR envelope and parses the binary `authData` inside.
    pub fn parse(bytes: &[u8]) -> (r: Result<ParsedAttestation, Error>)
        ensures
            error::outcome(r) == parsed(bytes@),
    {
        let v = match decode(bytes) {
            Ok((v, _)) => v,
            Err(t) => {
                return Err(cbor_error_in("attestationObject: ", t.as_str()));
            },
        };
        match Envelope::from_value(v) {
            Ok(envelope) => ParsedAttestation::from_envelope(envelope),
            Err(e) => Err(e),
        }
    }

    /// Parses the `authData` of an envelope.
    pub fn from_envelope(envelope: Envelope) -> (r: Result<ParsedAttestation, Error>)
        ensures
            error::outcome(r) == attestation_of(envelope@),
    {
        match AuthenticatorData::parse(envelope.auth_data_raw.as_slice()) {
            Ok(auth_data) => Ok(
                ParsedAttestation {
                    auth_data_raw: envelope.auth_data_raw,
                    auth_data,
                    fmt: envelope.fmt,
                    att_stmt: envelope.att_stmt,
                },
            ),
            Err(e) => Err(e),
        }
    }
}

// ---------- Statements ----------------------------------------------------

/// The formats whose statements carry a signature.
pub enum StatementFormat {
    Packed,
    FidoU2f,
}

impl StatementFormat {
    /// The message about a chain that is not an array.
    pub open spec fn not_array_text(self) -> Seq<char> {
        match self {
            StatementFormat::Packed => "packed: x5c not an array"@,
            StatementFormat::FidoU2f => "fido-u2f: x5c not an array"@,
        }
    }

    /// The message about a certificate that is not a byte string.
    pub open spec fn not_bytes_text(self) -> Seq<char> {
        match self {
            StatementFormat::Packed => "packed: x5c entry not bytes"@,
            StatementFormat::FidoU2f => "fido-u2f: x5c entry not bytes"@,
        }
    }

    fn not_array(&self) -> (r: Error)
        ensures
            r@ == ErrorView::Cbor(self.not_array_text()),
    {
        match self {
            StatementFormat::Packed => cbor_error("packed: x5c not an array"),
            StatementFormat::FidoU2f => cbor_error("fido-u2f: x5c not an array"),
        }
    }

    fn not_bytes(&self) -> (r: Error)
        ensures
            r@ == ErrorView::Cbor(self.not_bytes_text()),
    {
        match self {
            StatementFormat::Packed => cbor_error("packed: x5c entry not bytes"),
            StatementFormat::FidoU2f => cbor_error("fido-u2f: x5c entry not bytes"),
        }
    }
}

/// What is wrong with a value given for `x5c`.
pub open spec fn chain_fault(format: StatementFormat, v: CborTree) -> Option<ErrorView> {
    match v {
        CborTree::Array(certs) => if forall|i: int|
            0 <= i < certs.len() ==> (#[trigger] certs[i]) is Bytes {
            None
        } else {
            Some(ErrorView::Cbor(format.not_bytes_text()))
        },
        _ => Some(ErrorView::Cbor(format.not_array_text())),
    }
}

/// What is wrong with the first faulty `x5c` in a statement.
pub open spec fn first_chain_fault(
    format: StatementFormat,
    entries: Seq<(CborTree, CborTree)>,
) -> Option<ErrorView>
    decreases entries.len(),
{
    if entries.len() == 0 {
        None
    } else if entries[0].0 == CborTree::Text("x5c"@) && chain_fault(
        format,
        entries[0].1,
    ) is Some {
        chain_fault(format, entries[0].1)
    } else {
        first_chain_fault(format, entries.drop_first())
    }
}

/// The certificates in an optional tree.
pub open spec fn as_chain(v: Option<CborTree>) -> Option<Seq<Seq<u8>>> {
    match v {
        Some(CborTree::Array(certs)) => Some(
            Seq::new(certs.len(), |i: int| certs[i]->Bytes_0),
        ),
        _ => None,
    }
}

/// The views of a list of byte strings.
pub open spec fn chain_view(s: Seq<Vec<u8>>) -> Seq<Seq<u8>> {
    Seq::new(s.len(), |i: int| s[i]@)
}

/// The certificates in a value given for `x5c`, leaf first.
pub fn read_chain(format: &StatementFormat, v: &CborValue) -> (r: Result<Vec<Vec<u8>>, Error>)
    ensures
        match r {
            Ok(chain) => chain_fault(*format, v@) is None && as_chain(Some(v@)) == Some(
                chain_view(chain@),
            ),
            Err(e) => chain_fault(*format, v@) == Some(e@),
        },
        r matches Ok(chain) ==> v@ is Array && v@->Array_0.len() == chain@.len() && forall|i: int|
            0 <= i < chain@.len() ==> #[trigger] v@->Array_0[i] == CborTree::Bytes(chain@[i]@),
{
    let certs = match v {
        CborValue::Array(certs) => certs,
        _ => {
            return Err(format.not_array());
        },
    };
    let ghost trees = cbor::trees_of(certs@);
    proof {
        cbor::lemma_trees_of(certs@);
    }
    let mut out: Vec<Vec<u8>> = Vec::new();
    let n: usize = certs.len();
    let mut i: usize = 0;
    while i < n
        invariant
            i <= n == certs@.len() == trees.len(),
            v@ == CborTree::Array(trees),
            trees == cbor::trees_of(certs@),
            out@.len() == i,
            forall|j: int|
                0 <= j < i ==> (#[trigger] trees[j]) is Bytes && trees[j]->Bytes_0 == out@[j]@,
        decreases n - i,
    {
        proof {
            cbor::lemma_trees_of(certs@);
            assert(trees[i as int] == cbor::tree_of(certs@[i as int]));
        }
        match &certs[i] {
            CborValue::Bytes(b) => {
                out.push(copy_bytes(b.as_slice()));
            },
            _ => {
                return Err(format.not_bytes());
            },
        }
        i += 1;
    }
    assert(chain_view(out@) =~= as_chain(Some(v@))->0);
    Ok(out)
}

fn check_chains(format: &StatementFormat, map: &Vec<(CborValue, CborValue)>) -> (r: Result<
    (),
    Error,
>)
    ensures
        match r {
            Ok(_) => first_chain_fault(*format, cbor::pairs_of(map@)) is None,
            Err(e) => first_chain_fault(*format, cbor::pairs_of(map@)) == Some(e@),
        },
{
    let ghost all = cbor::pairs_of(map@);
    proof {
        cbor::lemma_pairs_of(map@);
        assert(all.skip(0) =~= all);
    }
    let n: usize = map.len();
    let mut i: usize = 0;
    while i < n
        invariant
            i <= n == map@.len() == all.len(),
            all == cbor::pairs_of(map@),
            first_chain_fault(*format, all) == first_chain_fault(*format, all.skip(i as int)),
        decreases n - i,
    {
        proof {
            cbor::lemma_pairs_of(map@);
            assert(all.skip(i as int)[0] == all[i as int]);
            assert(all.skip(i as int).drop_first() =~= all.skip(i + 1));
        }
        if let CborValue::Text(key) = &map[i].0 {
            if same_str(key.as_str(), "x5c") {
                if let Err(e) = read_chain(format, &map[i].1) {
                    return Err(e);
                }
            }
        }
        i += 1;
    }
    Ok(())
}

proof fn lemma_no_chain_fault(format: StatementFormat, entries: Seq<(CborTree, CborTree)>, i: int)
    requires
        first_chain_fault(format, entries) is None,
        0 <= i < entries.len(),
        entries[i].0 == CborTree::Text("x5c"@),
    ensures
        chain_fault(format, entries[i].1) is None,
    decreases entries.len(),
{
    if i > 0 {
        lemma_no_chain_fault(format, entries.drop_first(), i - 1);
    }
}

proof fn lemma_at_name(entries: Seq<(CborTree, CborTree)>, name: Seq<char>) -> (i: int)
    requires
        cbor::at_name(entries, name) is Some,
    ensures
        0 <= i < entries.len(),
        entries[i] == (CborTree::Text(name), cbor::at_name(entries, name)->0),
    decreases entries.len(),
{
    let k = entries.len() - 1;
    if entries[k].0 == CborTree::Text(name) {
        k
    } else {
        lemma_at_name(entries.drop_last(), name)
    }
}

/// The chain in a statement that has passed [`check_chains`].
fn find_chain(format: &StatementFormat, map: &Vec<(CborValue, CborValue)>) -> (r: Option<
    Vec<Vec<u8>>,
>)
    requires
        first_chain_fault(*format, cbor::pairs_of(map@)) is None,
    ensures
        match r {
            Some(chain) => as_chain(cbor::at_name(cbor::pairs_of(map@), "x5c"@)) == Some(
                chain_view(chain@),
            ),
            None => as_chain(cbor::at_name(cbor::pairs_of(map@), "x5c"@)) is None,
        },
{
    match find_name(map, "x5c") {
        Some(v) => match read_chain(format, v) {
            Ok(chain) => Some(chain),
            Err(_) => {
                proof {
                    let entries = cbor::pairs_of(map@);
                    let i = lemma_at_name(entries, "x5c"@);
                    lemma_no_chain_fault(*format, entries, i);
                }
                None
            },
        },
        None => None,
    }
}

// ---------- packed ---------------------------------------------------------

/// The statement of the `packed` format. Without a chain it is a
/// self-attestation.
#[derive(Debug)]
pub struct PackedAttStmt {
    pub alg: i128,
    pub sig: Vec<u8>,
    /// The certificates, leaf first.
    pub x5c: Option<Vec<Vec<u8>>>,
}

#[verifier::ext_equal]
pub struct PackedAttStmtView {
    pub alg: i128,
    pub sig: Seq<u8>,
    pub x5c: Option<Seq<Seq<u8>>>,
}

impl View for PackedAttStmt {
    type V = PackedAttStmtView;

    open spec fn view(&self) -> PackedAttStmtView {
        PackedAttStmtView {
            alg: self.alg,
            sig: self.sig@,
            x5c: match self.x5c {
                Some(chain) => Some(chain_view(chain@)),
                None => None,
            },
        }
    }
}

/// The `packed` statement that a CBOR item is.
pub open spec fn packed_statement(tree: CborTree) -> Result<PackedAttStmtView, ErrorView> {
    match tree {
        CborTree::Dict(entries) => {
            let alg = cbor::as_integer(cbor::at_name(entries, "alg"@));
            let sig = cbor::as_bytes(cbor::at_name(entries, "sig"@));
            if first_chain_fault(StatementFormat::Packed, entries) is Some {
                Err(first_chain_fault(StatementFormat::Packed, entries)->0)
            } else if alg is None {
                Err(ErrorView::Cbor("packed: missing alg"@))
            } else if sig is None {
                Err(ErrorView::Cbor("packed: missing sig"@))
            } else {
                Ok(
                    PackedAttStmtView {
                        alg: alg->0,
                        sig: sig->0,
                        x5c: as_chain(cbor::at_name(entries, "x5c"@)),
                    },
                )
            }
        },
        _ => Err(ErrorView::Cbor("packed: attStmt not a map"@)),
    }
}

/// Reads the statement of the `packed` format.
pub fn parse_packed_att_stmt(att_stmt: &CborValue) -> (r: Result<PackedAttStmt, Error>)
    ensures
        error::outcome(r) == packed_statement(att_stmt@),
{
    let map = match att_stmt {
        CborValue::Dict(m) => m,
        _ => {
            return Err(cbor_error("packed: attStmt not a map"));
        },
    };
    if let Err(e) = check_chains(&StatementFormat::Packed, map) {
        return Err(e);
    }
    let alg: i128 = match integer_of(find_name(map, "alg")) {
        Some(alg) => alg,
        None => {
            return Err(cbor_error("packed: missing alg"));
        },
    };
    let sig = match bytes_of(find_name(map, "sig")) {
        Some(b) => copy_bytes(b),
        None => {
            return Err(cbor_error("packed: missing sig"));
        },
    };
    let x5c = find_chain(&StatementFormat::Packed, map);
    Ok(PackedAttStmt { alg, sig, x5c })
}

/// Whether the AAGUID in a certificate, if it names one, is that in the
/// authenticator data, if they hold one.
pub open spec fn aaguid_agrees(
    leaf: AttestationCertView,
    auth_data: AuthenticatorDataView,
) -> bool {
    leaf.aaguid is Some && auth_data.attested is Some ==> leaf.aaguid->0
        == auth_data.attested->0.aaguid
}

/// What is made of a `packed` statement with a chain, given its leaf.
pub open spec fn packed_leaf_verdict(
    att: ParsedAttestationView,
    leaf: AttestationCertView,
    msg: Seq<u8>,
    sig: Seq<u8>,
) -> Result<(), ErrorView> {
    if !aaguid_agrees(leaf, att.auth_data) {
        Err(ErrorView::Cbor("packed (x5c): cert AAGUID does not match authData"@))
    } else {
        crypto::verdict_on(crypto::es256_valid(leaf.p256_pubkey_sec1, msg, sig))
    }
}

/// What is made of a `packed` statement over `msg`.
pub open spec fn packed_statement_verdict(
    att: ParsedAttestationView,
    stmt: PackedAttStmtView,
    key: CoseKeyView,
    msg: Seq<u8>,
) -> Result<(), ErrorView> {
    match stmt.x5c {
        None => if stmt.alg != key.alg() {
            Err(
                ErrorView::Cbor(
                    "packed (self): alg mismatch ("@ + text::signed_decimal(cbor::low_64(stmt.alg) as int)
                        + " vs cred "@ + text::signed_decimal(key.alg() as int) + ")"@,
                ),
            )
        } else {
            crypto::verdict_on(crypto::accepts(key, msg, stmt.sig))
        },
        Some(chain) => if stmt.alg != ALG_ES256 {
            Err(
                ErrorView::Cbor(
                    "packed (x5c): only ES256 attestation supported, got alg "@
                        + text::signed_decimal(cbor::low_64(stmt.alg) as int),
                ),
            )
        } else if chain.len() == 0 {
            Err(ErrorView::Cbor("packed (x5c): empty cert chain"@))
        } else {
            match x509::cert_of_der(chain[0]) {
                Err(e) => Err(e),
                Ok(leaf) => packed_leaf_verdict(att, leaf, msg, stmt.sig),
            }
        },
    }
}

/// What is made of an attestation object with a `packed` statement.
pub open spec fn packed_verdict(
    att: ParsedAttestationView,
    key: CoseKeyView,
    client_data_hash: Seq<u8>,
) -> Result<(), ErrorView> {
    match packed_statement(att.att_stmt) {
        Err(e) => Err(e),
        Ok(stmt) => packed_statement_verdict(
            att,
            stmt,
            key,
            crypto::signed_message(att.auth_data_raw, client_data_hash),
        ),
    }
}

/// Whether the AAGUID in a certificate, if it names one, is that in the
/// authenticator data, if they hold one.
pub fn same_aaguid(leaf: &AttestationCert, auth_data: &AuthenticatorData) -> (r: bool)
    ensures
        r == aaguid_agrees(leaf@, auth_data@),
{
    match (&leaf.aaguid, &auth_data.attested) {
        (Some(aaguid), Some(attested)) => same_bytes(aaguid, &attested.aaguid),
        _ => true,
    }
}

/// Checks a `packed` statement against the leaf of its chain.
pub fn verify_packed_leaf(
    att: &ParsedAttestation,
    leaf: &AttestationCert,
    msg: &[u8],
    sig: &[u8],
) -> (r: Result<(), Error>)
    ensures
        error::outcome(r) == packed_leaf_verdict(att@, leaf@, msg@, sig@),
{
    if !same_aaguid(leaf, &att.auth_data) {
        return Err(cbor_error("packed (x5c): cert AAGUID does not match authData"));
    }
    verify_es256_sec1(&leaf.p256_pubkey_sec1, msg, sig)
}

fn alg_mismatch(alg: i64, key_alg: i64) -> (r: Error)
    ensures
        r@ == ErrorView::Cbor(
            "packed (self): alg mismatch ("@ + text::signed_decimal(alg as int) + " vs cred "@
                + text::signed_decimal(key_alg as int) + ")"@,
        ),
{
    Error::Cbor(
        "packed (self): alg mismatch (".to_owned().concat(
            signed_decimal_string(alg).as_str(),
        ).concat(" vs cred ").concat(signed_decimal_string(key_alg).as_str()).concat(")"),
    )
}

/// Checks a `packed` statement over `msg`.
pub fn verify_packed_statement(
    att: &ParsedAttestation,
    stmt: &PackedAttStmt,
    cred_key: &CoseKey,
    msg: &[u8],
) -> (r: Result<(), Error>)
    ensures
        error::outcome(r) == packed_statement_verdict(att@, stmt@, cred_key@, msg@),
{
    match &stmt.x5c {
        None => {
            if stmt.alg != cred_key.alg() as i128 {
                return Err(alg_mismatch(i64_of(stmt.alg), cred_key.alg()));
            }
            crypto::verify(cred_key, msg, stmt.sig.as_slice())
        },
        Some(chain) => {
            if stmt.alg != ALG_ES256 as i128 {
                return Err(
                    cbor_error_in(
                        "packed (x5c): only ES256 attestation supported, got alg ",
                        signed_decimal_string(i64_of(stmt.alg)).as_str(),
                    ),
                );
            }
            if chain.len() == 0 {
                return Err(cbor_error("packed (x5c): empty cert chain"));
            }
            match AttestationCert::from_der(chain[0].as_slice()) {
                Err(e) => Err(e),
                Ok(leaf) => verify_packed_leaf(att, &leaf, msg, stmt.sig.as_slice()),
            }
        },
    }
}

/// Checks the statement of the `packed` format.
pub fn verify_packed(
    att: &ParsedAttestation,
    cred_key: &CoseKey,
    client_data_hash: &[u8; 32],
) -> (r: Result<(), Error>)
    ensures
        error::outcome(r) == packed_verdict(att@, cred_key@, client_data_hash@),
{
    let stmt = match parse_packed_att_stmt(&att.att_stmt) {
        Ok(stmt) => stmt,
        Err(e) => {
            return Err(e);
        },
    };
    let msg = crypto::message(att.auth_data_raw.as_slice(), client_data_hash);
    verify_packed_statement(att, &stmt, cred_key, msg.as_slice())
}

// ---------- fido-u2f -------------------------------------------------------

/// The statement of the `fido-u2f` format.
#[derive(Debug)]
pub struct U2fAttStmt {
    pub sig: Vec<u8>,
    /// The certificates, leaf first.
    pub x5c: Vec<Vec<u8>>,
}

#[verifier::ext_equal]
pub struct U2fAttStmtView {
    pub sig: Seq<u8>,
    pub x5c: Seq<Seq<u8>>,
}

impl View for U2fAttStmt {
    type V = U2fAttStmtView;

    open spec fn view(&self) -> U2fAttStmtView {
        U2fAttStmtView { sig: self.sig@, x5c: chain_view(self.x5c@) }
    }
}

/// The `fido-u2f` statement that a CBOR item is.
pub open spec fn u2f_statement(tree: CborTree) -> Result<U2fAttStmtView, ErrorView> {
    match tree {
        CborTree::Dict(entries) => {
            let sig = cbor::as_bytes(cbor::at_name(entries, "sig"@));
            let x5c = as_chain(cbor::at_name(entries, "x5c"@));
            if first_chain_fault(StatementFormat::FidoU2f, entries) is Some {
                Err(first_chain_fault(StatementFormat::FidoU2f, entries)->0)
            } else if sig is None {
                Err(ErrorView::Cbor("fido-u2f: missing sig"@))
            } else if x5c is None {
                Err(ErrorView::Cbor("fido-u2f: missing x5c"@))
            } else if x5c->0.len() == 0 {
                Err(ErrorView::Cbor("fido-u2f: empty cert chain"@))
            } else {
                Ok(U2fAttStmtView { sig: sig->0, x5c: x5c->0 })
            }
        },
        _ => Err(ErrorView::Cbor("fido-u2f: attStmt not a map"@)),
    }
}

/// Reads the statement of the `fido-u2f` format.
pub fn parse_u2f_att_stmt(att_stmt: &CborValue) -> (r: Result<U2fAttStmt, Error>)
    ensures
        error::outcome(r) == u2f_statement(att_stmt@),
{
    let map = match att_stmt {
        CborValue::Dict(m) => m,
        _ => {
            return Err(cbor_error("fido-u2f: attStmt not a map"));
        },
    };
    if let Err(e) = check_chains(&StatementFormat::FidoU2f, map) {
        return Err(e);
    }
    let sig = match bytes_of(find_name(map, "sig")) {
        Some(b) => copy_bytes(b),
        None => {
            return Err(cbor_error("fido-u2f: missing sig"));
        },
    };
    let x5c = match find_chain(&StatementFormat::FidoU2f, map) {
        Some(chain) => chain,
        None => {
            return Err(cbor_error("fido-u2f: missing x5c"));
        },
    };
    if x5c.len() == 0 {
        return Err(cbor_error("fido-u2f: empty cert chain"));
    }
    Ok(U2fAttStmt { sig, x5c })
}

/// What a U2F signature is over.
pub open spec fn u2f_message(
    rp_id_hash: Seq<u8>,
    client_data_hash: Seq<u8>,
    credential_id: Seq<u8>,
    x: Seq<u8>,
    y: Seq<u8>,
) -> Seq<u8> {
    seq![0x00u8] + rp_id_hash + client_data_hash + credential_id + crypto::sec1_point(x, y)
}

/// `0x00 || rpIdHash || clientDataHash || credId || 0x04 || x || y`.
pub fn u2f_pre_image(
    rp_id_hash: &[u8; 32],
    client_data_hash: &[u8; 32],
    credential_id: &[u8],
    x: &[u8; 32],
    y: &[u8; 32],
) -> (r: Vec<u8>)
    ensures
        r@ == u2f_message(rp_id_hash@, client_data_hash@, credential_id@, x@, y@),
{
    let mut pre_image: Vec<u8> = Vec::new();
    pre_image.push(0x00);
    pre_image.extend_from_slice(rp_id_hash);
    pre_image.extend_from_slice(client_data_hash);
    pre_image.extend_from_slice(credential_id);
    let point = crypto::encode_point(x, y);
    pre_image.extend_from_slice(&point);
    assert(pre_image@ =~= u2f_message(
        rp_id_hash@,
        client_data_hash@,
        credential_id@,
        x@,
        y@,
    ));
    pre_image
}

/// What is made of a `fido-u2f` statement, given the leaf of its chain.
pub open spec fn u2f_leaf_verdict(
    att: ParsedAttestationView,
    leaf: AttestationCertView,
    sig: Seq<u8>,
    x: Seq<u8>,
    y: Seq<u8>,
    client_data_hash: Seq<u8>,
) -> Result<(), ErrorView> {
    match att.auth_data.attested {
        None => Err(ErrorView::Cbor("fido-u2f: authData missing attestedCredentialData"@)),
        Some(attested) => crypto::verdict_on(
            crypto::es256_valid(
                leaf.p256_pubkey_sec1,
                u2f_message(
                    att.auth_data.rp_id_hash,
                    client_data_hash,
                    attested.credential_id,
                    x,
                    y,
                ),
                sig,
            ),
        ),
    }
}

/// What is made of an attestation object with a `fido-u2f` statement.
pub open spec fn u2f_verdict(
    att: ParsedAttestationView,
    key: CoseKeyView,
    client_data_hash: Seq<u8>,
) -> Result<(), ErrorView> {
    match key {
        CoseKeyView::Es256 { x, y } => match u2f_statement(att.att_stmt) {
            Err(e) => Err(e),
            Ok(stmt) => match x509::cert_of_der(stmt.x5c[0]) {
                Err(e) => Err(e),
                Ok(leaf) => u2f_leaf_verdict(att, leaf, stmt.sig, x, y, client_data_hash),
            },
        },
        _ => Err(ErrorView::Cbor("fido-u2f: credential key must be ES256 / P-256"@)),
    }
}

/// Checks a `fido-u2f` statement against the leaf of its chain.
pub fn verify_u2f_leaf(
    att: &ParsedAttestation,
    leaf: &AttestationCert,
    sig: &[u8],
    x: &[u8; 32],
    y: &[u8; 32],
    client_data_hash: &[u8; 32],
) -> (r: Result<(), Error>)
    ensures
        error::outcome(r) == u2f_leaf_verdict(att@, leaf@, sig@, x@, y@, client_data_hash@),
{
    let attested = match &att.auth_data.attested {
        Some(a) => a,
        None => {
            return Err(cbor_error("fido-u2f: authData missing attestedCredentialData"));
        },
    };
    let pre_image = u2f_pre_image(
        &att.auth_data.rp_id_hash,
        client_data_hash,
        attested.credential_id.as_bytes(),
        x,
        y,
    );
    verify_es256_sec1(&leaf.p256_pubkey_sec1, pre_image.as_slice(), sig)
}

/// Checks the statement of the `fido-u2f` format.
pub fn verify_fido_u2f(
    att: &ParsedAttestation,
    cred_key: &CoseKey,
    client_data_hash: &[u8; 32],
) -> (r: Result<(), Error>)
    ensures
        error::outcome(r) == u2f_verdict(att@, cred_key@, client_data_hash@),
{
    let (x, y) = match cred_key {
        CoseKey::Es256 { x, y } => (x, y),
        _ => {
            return Err(cbor_error("fido-u2f: credential key must be ES256 / P-256"));
        },
    };
    let stmt = match parse_u2f_att_stmt(&att.att_stmt) {
        Ok(stmt) => stmt,
        Err(e) => {
            return Err(e);
        },
    };
    match AttestationCert::from_der(stmt.x5c[0].as_slice()) {
        Err(e) => Err(e),
        Ok(leaf) => verify_u2f_leaf(att, &leaf, stmt.sig.as_slice(), x, y, client_data_hash),
    }
}

// ---------- All formats ----------------------------------------------------

/// What is made of an attestation object's statement, given the credential's
/// key and SHA-256(clientDataJSON).
pub open spec fn statement_verdict(
    att: ParsedAttestationView,
    key: CoseKeyView,
    client_data_hash: Seq<u8>,
) -> Result<(), ErrorView> {
    if att.fmt == "none"@ {
        Ok(())
    } else if att.fmt == "packed"@ {
        packed_verdict(att, key, client_data_hash)
    } else if att.fmt == "fido-u2f"@ {
        u2f_verdict(att, key, client_data_hash)
    } else {
        Err(ErrorView::Cbor("unsupported attestation fmt: "@ + att.fmt))
    }
}

impl ParsedAttestation {
    /// Verifies the attestation statement, by its format.
    pub fn verify_statement(
        &self,
        credential_key: &CoseKey,
        client_data_hash: &[u8; 32],
    ) -> (r: Result<(), Error>)
        ensures
            error::outcome(r) == statement_verdict(self@, credential_key@, client_data_hash@),
    {
        if same_str(self.fmt.as_str(), "none") {
            Ok(())
        } else if same_str(self.fmt.as_str(), "packed") {
            verify_packed(self, credential_key, client_data_hash)
        } else if same_str(self.fmt.as_str(), "fido-u2f") {
            verify_fido_u2f(self, credential_key, client_data_hash)
        } else {
            Err(cbor_error_in("unsupported attestation fmt: ", self.fmt.as_str()))
        }
    }
}

} // verus!
