//! What the parts of the library give, said of their inputs and results.
//!
//! Each proof function states one law in plain terms: of sequences, numbers,
//! literal texts, and what other crates compute. Nothing here speaks of how a
//! part goes about it.

use vstd::prelude::*;
use vstd::string::*;
use crate::attestation::{
    self, EnvelopeView, ParsedAttestation, ParsedAttestationView, StatementFormat,
};
use crate::auth_data::{self, AuthenticatorData, AuthenticatorDataView};
use crate::cbor::{self, CborTree, CborValue};
use crate::ceremony::{self, Attachment, Webauthn, WebauthnView};
use crate::client_data::{self, ClientDataView};
use crate::cose::{self, CoseKey, CoseKeyView};
use crate::crypto;
use crate::encoding::{self, Flavour};
use crate::error::{self, Error, ErrorView};
use crate::text;
use crate::types::{
    self, AuthSuccess, AuthSuccessView, AuthenticationChallenge, AuthenticationResponse,
    AuthenticationResponseView, AuthenticationState, AuthenticationStateView, Challenge,
    CosePublicKey, CredentialDescriptor, CredentialId, PasskeyCredential, PasskeyCredentialView,
    PubKeyCredParam, RegistrationChallenge, RegistrationResponse, RegistrationResponseView,
    RegistrationState, RegistrationStateView,
};
use crate::x509::{self, AttestationCert, AttestationCertView, CertificateParts, CertificateView};

verus! {

// ---------- Views ----------------------------------------------------------

/// A result stands for its value, or for its error.
pub proof fn law_outcome<T: View>(v: T, e: Error)
    ensures
        error::outcome(Ok::<T, Error>(v)) == Ok::<T::V, ErrorView>(v@),
        error::outcome(Err::<T, Error>(e)) == Err::<T::V, ErrorView>(e@),
{
}

/// Byte strings stand for their bytes, and lists of them for their elements,
/// in their order.
pub proof fn law_byte_strings(
    challenge: Challenge,
    id: CredentialId,
    key: CosePublicKey,
    ids: Seq<CredentialId>,
    chain: Seq<Vec<u8>>,
    handle: Vec<u8>,
)
    ensures
        challenge@ == challenge.0@,
        id@ == id.0@,
        key@ == key.0@,
        types::ids_view(ids).len() == ids.len(),
        forall|i: int| 0 <= i < ids.len() ==> #[trigger] types::ids_view(ids)[i] == ids[i].0@,
        attestation::chain_view(chain).len() == chain.len(),
        forall|i: int|
            0 <= i < chain.len() ==> #[trigger] attestation::chain_view(chain)[i] == chain[i]@,
        types::optional_bytes(Some(handle)) == Some(handle@),
        types::optional_bytes(None) == None::<Seq<u8>>,
{
}

/// Lists of strings stand for their elements, in their order.
pub proof fn law_strings(s: Seq<String>, t: String)
    ensures
        text::strings_view(s).len() == s.len(),
        forall|i: int| 0 <= i < s.len() ==> #[trigger] text::strings_view(s)[i] == s[i]@,
        types::optional_text(Some(t)) == Some(t@),
        types::optional_text(None) == None::<Seq<char>>,
{
}

/// What a browser posts stands for what is in its fields.
pub proof fn law_responses(r: RegistrationResponse, a: AuthenticationResponse)
    ensures
        r@.id == r.id@,
        r@.attestation_object == r.attestation_object@,
        r@.client_data_json == r.client_data_json@,
        r@.transports.len() == r.transports@.len(),
        forall|i: int|
            0 <= i < r.transports@.len() ==> #[trigger] r@.transports[i] == r.transports@[i]@,
        a@.id == a.id@,
        a@.authenticator_data == a.authenticator_data@,
        a@.signature == a.signature@,
        a@.client_data_json == a.client_data_json@,
        a@.user_handle is Some == a.user_handle is Some,
        a.user_handle matches Some(h) ==> a@.user_handle->0 == h@,
{
}

/// What is kept between start and finish stands for what is in its fields.
pub proof fn law_states(r: RegistrationState, a: AuthenticationState)
    ensures
        r@.challenge == r.challenge.0@,
        r@.user_id == r.user_id@,
        r@.created_at == r.created_at,
        a@.challenge == a.challenge.0@,
        a@.created_at == a.created_at,
        a@.allow_credentials.len() == a.allow_credentials@.len(),
        forall|i: int|
            0 <= i < a.allow_credentials@.len() ==> #[trigger] a@.allow_credentials[i]
                == a.allow_credentials@[i].0@,
        a@.user_handle is Some == a.user_handle is Some,
        a.user_handle matches Some(h) ==> a@.user_handle->0 == h@,
{
}

/// What comes out of a ceremony stands for what is in its fields.
pub proof fn law_results(c: PasskeyCredential, s: AuthSuccess, cs: Seq<PasskeyCredential>)
    ensures
        c@.id == c.id.0@,
        c@.public_key_cose == c.public_key_cose.0@,
        c@.counter == c.counter,
        c@.aaguid == c.aaguid@,
        c@.transports.len() == c.transports@.len(),
        forall|i: int|
            0 <= i < c.transports@.len() ==> #[trigger] c@.transports[i] == c.transports@[i]@,
        s@.credential_id == s.credential_id.0@,
        s@.new_counter == s.new_counter,
        s@.user_verified == s.user_verified,
        ceremony::creds_view(cs).len() == cs.len(),
        forall|i: int| 0 <= i < cs.len() ==> #[trigger] ceremony::creds_view(cs)[i] == cs[i]@,
{
}

/// What the browser is given stands for what is in its fields.
pub proof fn law_requests(
    r: RegistrationChallenge,
    a: AuthenticationChallenge,
    d: CredentialDescriptor,
    p: PubKeyCredParam,
    ds: Seq<CredentialDescriptor>,
    ps: Seq<PubKeyCredParam>,
)
    ensures
        r@.challenge == r.challenge@,
        r@.rp_id == r.rp.id@,
        r@.rp_name == r.rp.name@,
        r@.user_id == r.user.id@,
        r@.user_name == r.user.name@,
        r@.user_display_name == r.user.display_name@,
        r@.pub_key_cred_params == types::params_view(r.pub_key_cred_params@),
        r@.exclude_credentials == types::descriptors_view(r.exclude_credentials@),
        r@.timeout == r.timeout,
        r@.authenticator_attachment is Some
            == r.authenticator_selection.authenticator_attachment is Some,
        r.authenticator_selection.authenticator_attachment matches Some(t)
            ==> r@.authenticator_attachment->0 == t@,
        r@.resident_key is Some == r.authenticator_selection.resident_key is Some,
        r.authenticator_selection.resident_key matches Some(t) ==> r@.resident_key->0 == t@,
        r@.user_verification == r.authenticator_selection.user_verification@,
        r@.attestation == r.attestation@,
        a@.challenge == a.challenge@,
        a@.rp_id == a.rp_id@,
        a@.timeout == a.timeout,
        a@.allow_credentials == types::descriptors_view(a.allow_credentials@),
        a@.user_verification == a.user_verification@,
        d@.kind == d.kind@,
        d@.id == d.id@,
        d@.transports.len() == d.transports@.len(),
        forall|i: int|
            0 <= i < d.transports@.len() ==> #[trigger] d@.transports[i] == d.transports@[i]@,
        p@.kind == p.kind@,
        p@.alg == p.alg,
        types::descriptors_view(ds).len() == ds.len(),
        forall|i: int|
            0 <= i < ds.len() ==> #[trigger] types::descriptors_view(ds)[i] == ds[i]@,
        types::params_view(ps).len() == ps.len(),
        forall|i: int| 0 <= i < ps.len() ==> #[trigger] types::params_view(ps)[i] == ps[i]@,
{
}

/// A relying party stands for its settings and for how it decodes.
pub proof fn law_relying_party(wa: Webauthn)
    ensures
        wa@.strict_base64 == wa.strict_base64,
        wa@.rp_id == wa.settings@.rp_id,
        wa@.rp_name == wa.settings@.rp_name,
        wa@.origin == wa.settings@.origin,
        wa@.require_uv == wa.settings@.require_uv,
        wa@.attachment == wa.settings@.attachment,
        wa@.require_user_handle == wa.settings@.require_user_handle,
{
}

/// Parsed values stand for what is in their fields.
pub proof fn law_parsed_values(
    data: AuthenticatorData,
    key: CoseKey,
    cert: AttestationCert,
    parts: CertificateParts,
    att: ParsedAttestation,
)
    ensures
        data@.rp_id_hash == data.rp_id_hash@,
        data@.flags == data.flags,
        data@.sign_count == data.sign_count,
        data@.attested is Some == data.attested is Some,
        data.attested matches Some(a) ==> {
            &&& data@.attested->0.aaguid == a.aaguid@
            &&& data@.attested->0.credential_id == a.credential_id.0@
            &&& data@.attested->0.public_key_cose == a.public_key_cose.0@
        },
        key matches CoseKey::Es256 { x, y } ==> key@ == (CoseKeyView::Es256 { x: x@, y: y@ }),
        key matches CoseKey::Ed25519 { key: k } ==> key@ == (CoseKeyView::Ed25519 { key: k@ }),
        cert@.p256_pubkey_sec1 == cert.p256_pubkey_sec1@,
        cert@.aaguid is Some == cert.aaguid is Some,
        cert.aaguid matches Some(a) ==> cert@.aaguid->0 == a@,
        parts@.algorithm == parts.algorithm@,
        parts@.algorithm_text == parts.algorithm_text@,
        parts@.curve is Some == parts.curve is Some,
        parts.curve matches Some(b) ==> parts@.curve->0 == b@,
        parts@.public_key is Some == parts.public_key is Some,
        parts.public_key matches Some(b) ==> parts@.public_key->0 == b@,
        parts@.extensions is Some == parts.extensions is Some,
        parts.extensions matches Some(list) ==> {
            &&& parts@.extensions->0.len() == list@.len()
            &&& forall|i: int|
                0 <= i < list@.len() ==> #[trigger] parts@.extensions->0[i] == (
                    list@[i].0@,
                    list@[i].1@,
                )
        },
        att@.auth_data_raw == att.auth_data_raw@,
        att@.auth_data == att.auth_data@,
        att@.fmt == att.fmt@,
        att@.att_stmt == att.att_stmt@,
{
}

/// What is read on the way stands for what is in its fields.
pub proof fn law_intermediate_values(
    h: auth_data::AuthHeader,
    e: attestation::Envelope,
    p: attestation::PackedAttStmt,
    u: attestation::U2fAttStmt,
    c: client_data::ClientData,
    m: client_data::Members,
)
    ensures
        h@.rp_id_hash == h.rp_id_hash@,
        h@.flags == h.flags,
        h@.sign_count == h.sign_count,
        h@.end == h.end,
        h@.attested is Some == h.attested is Some,
        h.attested matches Some(a) ==> h@.attested->0 == (a.0@, a.1.0@),
        e@.fmt == e.fmt@,
        e@.att_stmt == e.att_stmt@,
        e@.auth_data_raw == e.auth_data_raw@,
        p@.alg == p.alg,
        p@.sig == p.sig@,
        p@.x5c is Some == p.x5c is Some,
        p.x5c matches Some(chain) ==> p@.x5c->0.len() == chain@.len() && forall|i: int|
            0 <= i < chain@.len() ==> #[trigger] p@.x5c->0[i] == chain@[i]@,
        u@.sig == u.sig@,
        u@.x5c.len() == u.x5c@.len(),
        forall|i: int| 0 <= i < u.x5c@.len() ==> #[trigger] u@.x5c[i] == u.x5c@[i]@,
        c@.kind == c.kind@,
        c@.challenge == c.challenge@,
        c@.origin == c.origin@,
        m@.kind is Some == m.kind is Some,
        m.kind matches Some(t) ==> m@.kind->0 == t@,
        m@.challenge is Some == m.challenge is Some,
        m.challenge matches Some(t) ==> m@.challenge->0 == t@,
        m@.origin is Some == m.origin is Some,
        m.origin matches Some(t) ==> m@.origin->0 == t@,
        m@.cross_origin == m.cross_origin,
{
}

/// What may be missing stands for nothing where it is, and for itself where it
/// is not.
pub proof fn law_options(token: &'static str, v: CborValue)
    ensures
        types::optional_token(Some(token)) == Some(token@),
        types::optional_token(None) == None::<Seq<char>>,
        cbor::optional_tree(Some(&v)) == Some(v@),
        cbor::optional_tree(None) == None::<CborTree>,
{
}

/// Extensions stand for their identifiers and values, in their order.
pub proof fn law_extensions(list: Seq<(Vec<u8>, Vec<u8>)>)
    ensures
        x509::extensions_view(list).len() == list.len(),
        forall|i: int|
            0 <= i < list.len() ==> #[trigger] x509::extensions_view(list)[i] == (
                list[i].0@,
                list[i].1@,
            ),
{
}

/// An error stands for what is in it.
pub proof fn law_errors(e: Error)
    ensures
        match e {
            Error::Base64(t) => e@ == ErrorView::Base64(t@),
            Error::ClientData(t) => e@ == ErrorView::ClientData(t@),
            Error::ClientDataType { expected, actual } => e@ == (ErrorView::ClientDataType {
                expected: expected@,
                actual: actual@,
            }),
            Error::ChallengeMismatch => e@ is ChallengeMismatch,
            Error::OriginMismatch { expected, actual } => e@ == (ErrorView::OriginMismatch {
                expected: expected@,
                actual: actual@,
            }),
            Error::RpIdHashMismatch => e@ is RpIdHashMismatch,
            Error::UserNotPresent => e@ is UserNotPresent,
            Error::UserNotVerified => e@ is UserNotVerified,
            Error::AuthData(t) => e@ == ErrorView::AuthData(t@),
            Error::Cbor(t) => e@ == ErrorView::Cbor(t@),
            Error::UnsupportedAlg(alg) => e@ == ErrorView::UnsupportedAlg(alg),
            Error::BadSignature => e@ is BadSignature,
            Error::CounterReplay { stored, new } => e@ == (ErrorView::CounterReplay {
                stored,
                new,
            }),
            Error::CeremonyExpired { age_secs, max_secs } => e@ == (ErrorView::CeremonyExpired {
                age_secs,
                max_secs,
            }),
            Error::UserHandleMismatch => e@ is UserHandleMismatch,
            Error::Internal(t) => e@ == ErrorView::Internal(t@),
        },
{
}

// ---------- Numerals -------------------------------------------------------

/// The number that a sequence of decimal digits spells.
pub open spec fn spelled(s: Seq<char>) -> int
    decreases s.len(),
{
    if s.len() == 0 {
        0
    } else {
        spelled(s.drop_last()) * 10 + (s[s.len() - 1] as int - '0' as int)
    }
}

/// The numeral of a number is made of decimal digits, spells that number, and
/// has no zero in front unless it is the numeral of 0.
pub proof fn law_decimal(n: nat)
    ensures
        text::decimal(n).len() > 0,
        forall|i: int|
            0 <= i < text::decimal(n).len() ==> '0' <= #[trigger] text::decimal(n)[i] <= '9',
        spelled(text::decimal(n)) == n,
        text::decimal(n)[0] == '0' ==> n == 0,
    decreases n,
{
    if n < 10 {
        let s = text::decimal(n);
        assert(s.drop_last() =~= Seq::<char>::empty());
        assert(spelled(s.drop_last()) == 0);
    } else {
        law_decimal(n / 10);
        let s = text::decimal(n);
        assert(s.drop_last() =~= text::decimal(n / 10));
    }
}

/// A negative number is spelled with a sign in front, any other without.
pub proof fn law_signed_decimal(n: int)
    ensures
        n >= 0 ==> text::signed_decimal(n) == text::decimal(n as nat),
        n < 0 ==> text::signed_decimal(n)[0] == '-' && text::signed_decimal(n).drop_first()
            == text::decimal((-n) as nat),
{
    if n < 0 {
        assert(text::signed_decimal(n).drop_first() =~= text::decimal((-n) as nat));
    }
}

/// A byte is spelled with two hexadecimal digits, the high one first.
pub proof fn law_hex_byte(b: u8)
    ensures
        text::hex_byte(b) == seq![
            "0123456789abcdef"@[b as int / 16],
            "0123456789abcdef"@[b as int % 16],
        ],
{
    reveal_strlit("0123456789abcdef");
    assert(text::hex_byte(b) =~= seq![
        "0123456789abcdef"@[b as int / 16],
        "0123456789abcdef"@[b as int % 16],
    ]);
}

/// The description of an error names its kind and all that is in it.
pub proof fn law_messages(t: Seq<char>, u: Seq<char>, alg: i64, m: u32, n: u32, k: u64, l: u64)
    ensures
        ErrorView::Base64(t).message() == "invalid base64url: "@ + t,
        ErrorView::ClientData(t).message() == "clientDataJSON parse failed: "@ + t,
        (ErrorView::ClientDataType { expected: t, actual: u }).message()
            == "clientDataJSON.type mismatch: expected "@ + t + ", got "@ + u,
        ErrorView::ChallengeMismatch.message() == "challenge mismatch"@,
        (ErrorView::OriginMismatch { expected: t, actual: u }).message()
            == "origin mismatch: expected "@ + t + ", got "@ + u,
        ErrorView::RpIdHashMismatch.message() == "rpIdHash mismatch"@,
        ErrorView::UserNotPresent.message() == "user-present flag not set"@,
        ErrorView::UserNotVerified.message() == "user-verified flag not set"@,
        ErrorView::AuthData(t).message() == "authenticatorData parse failed: "@ + t,
        ErrorView::Cbor(t).message() == "CBOR decode failed: "@ + t,
        ErrorView::UnsupportedAlg(alg).message() == "unsupported COSE algorithm: "@
            + text::signed_decimal(alg as int),
        ErrorView::BadSignature.message() == "signature verification failed"@,
        (ErrorView::CounterReplay { stored: m, new: n }).message()
            == "counter went backwards (stored="@ + text::decimal(m as nat) + ", new="@
            + text::decimal(n as nat) + "): possible cloned credential"@,
        (ErrorView::CeremonyExpired { age_secs: k, max_secs: l }).message()
            == "ceremony state expired ("@ + text::decimal(k as nat) + " seconds old, max "@
            + text::decimal(l as nat) + ")"@,
        ErrorView::UserHandleMismatch.message()
            == "user handle mismatch: assertion is for a different user than the ceremony was started for"@,
        ErrorView::Internal(t).message() == "internal: "@ + t,
{
}

// ---------- Base64 ---------------------------------------------------------

/// The symbols of an alphabet, in their order.
pub open spec fn alphabet(url_safe: bool) -> Seq<char> {
    if url_safe {
        "ABCDEFGHIJKLMNOPQRSTUVWXYZabcdefghijklmnopqrstuvwxyz0123456789-_"@
    } else {
        "ABCDEFGHIJKLMNOPQRSTUVWXYZabcdefghijklmnopqrstuvwxyz0123456789+/"@
    }
}

/// Six bits are written as the symbol at that place in the alphabet.
pub proof fn law_base64_symbols(f: Flavour, v: int)
    requires
        0 <= v < 64,
    ensures
        f.symbol(v) == alphabet(f is UrlNoPad || f is UrlPad)[v],
{
    reveal_strlit("ABCDEFGHIJKLMNOPQRSTUVWXYZabcdefghijklmnopqrstuvwxyz0123456789-_");
    reveal_strlit("ABCDEFGHIJKLMNOPQRSTUVWXYZabcdefghijklmnopqrstuvwxyz0123456789+/");
}

/// Three bytes are written as four symbols, which hold the same 24 bits.
pub proof fn law_base64_bits(f: Flavour, b: Seq<u8>, q: int)
    requires
        0 <= q,
        3 * q + 3 <= b.len(),
    ensures
        ({
            let s = encoding::encoded(f, b);
            exists|v0: int, v1: int, v2: int, v3: int|
                {
                    &&& 0 <= v0 < 64 && 0 <= v1 < 64 && 0 <= v2 < 64 && 0 <= v3 < 64
                    &&& s[4 * q] == #[trigger] f.symbol(v0)
                    &&& s[4 * q + 1] == #[trigger] f.symbol(v1)
                    &&& s[4 * q + 2] == #[trigger] f.symbol(v2)
                    &&& s[4 * q + 3] == #[trigger] f.symbol(v3)
                    &&& v0 * 0x40000 + v1 * 0x1000 + v2 * 0x40 + v3 == b[3 * q] * 0x10000 + b[3 * q
                        + 1] * 0x100 + b[3 * q + 2]
                }
        }),
{
    let s = encoding::encoded(f, b);
    let (v0, v1, v2, v3) = (
        encoding::sextet(b, 4 * q),
        encoding::sextet(b, 4 * q + 1),
        encoding::sextet(b, 4 * q + 2),
        encoding::sextet(b, 4 * q + 3),
    );
    assert(s[4 * q] == f.symbol(v0));
    assert(s[4 * q + 1] == f.symbol(v1));
    assert(s[4 * q + 2] == f.symbol(v2));
    assert(s[4 * q + 3] == f.symbol(v3));
}

/// A text has four characters for every three bytes, and two or three more for
/// the one or two bytes that are left over, filled up to four with `=` where
/// the flavour is padded.
pub proof fn law_base64_length(f: Flavour, b: Seq<u8>)
    ensures
        ({
            let s = encoding::encoded(f, b);
            let left = b.len() % 3;
            let bare = 4 * (b.len() / 3) + (if left == 0 {
                0
            } else {
                left + 1
            });
            &&& f is UrlNoPad || f is StandardNoPad ==> s.len() == bare
            &&& f is UrlPad || f is StandardPad ==> s.len() == 4 * ((b.len() + 2) / 3)
            &&& forall|i: int| bare <= i < s.len() ==> #[trigger] s[i] == '='
        }),
{
}

/// Strictly, a text is read as what it encodes without padding in the url-safe
/// alphabet; leniently, as what it encodes in any flavour. What it encodes in
/// none is refused in the words of the last attempt.
pub proof fn law_field_decoding(s: Seq<char>, b: Seq<u8>)
    ensures
        encoding::field_decoding(s, true) == Ok::<Seq<u8>, ErrorView>(b) <==> encoding::encoded(
            Flavour::UrlNoPad,
            b,
        ) == s,
        encoding::field_decoding(s, false) == Ok::<Seq<u8>, ErrorView>(b) <==> exists|f: Flavour|
            encoding::encoded(f, b) == s,
        encoding::field_decoding(s, true) is Err ==> encoding::field_decoding(s, true)->Err_0
            == ErrorView::Base64(encoding::url_no_pad_fault(s)),
        encoding::field_decoding(s, false) is Err ==> encoding::field_decoding(s, false)->Err_0
            == ErrorView::Base64(encoding::standard_pad_fault(s)),
        encoding::strict_decoding(s) == encoding::field_decoding(s, true),
        encoding::lenient_decoding(s) == encoding::field_decoding(s, false),
{
    crate::laws::law_strict_takes_nothing_else(s);
    crate::laws::law_lenient_takes_nothing_else(s);
    if encoding::encoded(Flavour::UrlNoPad, b) == s {
        crate::laws::law_strict_round_trip(b);
    }
    if exists|f: Flavour| encoding::encoded(f, b) == s {
        let f = choose|f: Flavour| encoding::encoded(f, b) == s;
        crate::laws::law_lenient_round_trip(f, b);
    }
}

// ---------- Signatures -----------------------------------------------------

/// A signature is over the whole message. Under an ES256 key it holds exactly
/// if `p256` accepts it under the uncompressed point with the key's
/// coordinates; under an Ed25519 key, if it has 64 bytes and `ed25519_dalek`
/// accepts it. Nothing more is said of a bad one.
pub proof fn law_signature_decides(key: CoseKeyView, msg: Seq<u8>, sig: Seq<u8>)
    ensures
        ({
            let holds = match key {
                CoseKeyView::Es256 { x, y } => crypto::es256_valid(seq![0x04u8] + x + y, msg, sig),
                CoseKeyView::Ed25519 { key: k } => sig.len() == 64 && crypto::ed25519_valid(
                    k,
                    msg,
                    sig,
                ),
            };
            &&& crypto::accepts(key, msg, sig) == holds
            &&& crypto::verdict_on(crypto::accepts(key, msg, sig)) is Ok <==> holds
            &&& !holds ==> crypto::verdict_on(crypto::accepts(key, msg, sig)) == Err::<
                (),
                ErrorView,
            >(ErrorView::BadSignature)
        }),
{
}

/// What is signed is the data, to the last byte, and then the hash.
pub proof fn law_signed_message(data: Seq<u8>, hash: Seq<u8>)
    ensures
        ({
            let msg = crypto::signed_message(data, hash);
            &&& msg.len() == data.len() + hash.len()
            &&& forall|i: int| 0 <= i < data.len() ==> #[trigger] msg[i] == data[i]
            &&& forall|i: int| 0 <= i < hash.len() ==> msg[data.len() + i] == #[trigger] hash[i]
        }),
{
}

/// A point is written as 4, its `x` and its `y`.
pub proof fn law_point(x: Seq<u8>, y: Seq<u8>)
    ensures
        ({
            let p = crypto::sec1_point(x, y);
            &&& p.len() == 1 + x.len() + y.len()
            &&& p[0] == 0x04
            &&& forall|i: int| 0 <= i < x.len() ==> p[1 + i] == #[trigger] x[i]
            &&& forall|i: int| 0 <= i < y.len() ==> p[1 + x.len() + i] == #[trigger] y[i]
        }),
{
}

/// What a U2F key signs is 0, the RP ID hash, the client data hash, the
/// credential's ID, and the uncompressed point.
pub proof fn law_u2f_message(
    rp_id_hash: Seq<u8>,
    client_data_hash: Seq<u8>,
    id: Seq<u8>,
    x: Seq<u8>,
    y: Seq<u8>,
)
    ensures
        attestation::u2f_message(rp_id_hash, client_data_hash, id, x, y) == seq![0x00u8]
            + rp_id_hash + client_data_hash + id + seq![0x04u8] + x + y,
{
    assert(attestation::u2f_message(rp_id_hash, client_data_hash, id, x, y) =~= seq![0x00u8]
        + rp_id_hash + client_data_hash + id + seq![0x04u8] + x + y);
}

// ---------- CBOR -----------------------------------------------------------

/// A decoded value stands for the item that it holds, at every level.
pub proof fn law_cbor_values(v: CborValue)
    ensures
        v matches CborValue::Integer(i) ==> v@ == CborTree::Integer(i),
        v matches CborValue::Bytes(b) ==> v@ == CborTree::Bytes(b@),
        v matches CborValue::Text(t) ==> v@ == CborTree::Text(t@),
        v matches CborValue::Bool(b) ==> v@ == CborTree::Bool(b),
        v matches CborValue::Array(a) ==> v@ is Array && v@->Array_0.len() == a@.len() && forall|
            i: int,
        |
            0 <= i < a@.len() ==> #[trigger] v@->Array_0[i] == a@[i]@,
        v matches CborValue::Dict(m) ==> v@ is Dict && v@->Dict_0.len() == m@.len() && forall|
            i: int,
        |
            0 <= i < m@.len() ==> #[trigger] v@->Dict_0[i] == (m@[i].0@, m@[i].1@),
        v is Other ==> v@ is Other,
{
    if let CborValue::Array(a) = v {
        cbor::lemma_trees_of(a@);
    }
    if let CborValue::Dict(m) = v {
        cbor::lemma_pairs_of(m@);
    }
}

/// The entries of a map stand for their items, in their order.
pub proof fn law_cbor_entries(entries: Seq<(CborValue, CborValue)>)
    ensures
        cbor::pairs_of(entries).len() == entries.len(),
        forall|i: int|
            0 <= i < entries.len() ==> #[trigger] cbor::pairs_of(entries)[i] == (
                entries[i].0@,
                entries[i].1@,
            ),
{
    cbor::lemma_pairs_of(entries);
}

/// What is decoded is what `ciborium` reads first. It takes up all that
/// `ciborium` does not leave over.
pub proof fn law_decoded(bytes: Seq<u8>)
    ensures
        match cbor::cbor_item(bytes) {
            Ok((tree, rest)) => rest <= bytes.len() ==> cbor::decoded(bytes) is Ok && cbor::decoded(
                bytes,
            )->Ok_0.0 == tree && cbor::decoded(bytes)->Ok_0.1 + rest == bytes.len(),
            Err(t) => cbor::decoded(bytes) == Err::<(CborTree, nat), Seq<char>>(t),
        },
{
}

/// Under a name stands the value of the last entry that has it.
pub proof fn law_at_name(entries: Seq<(CborTree, CborTree)>, name: Seq<char>)
    ensures
        match cbor::at_name(entries, name) {
            Some(v) => exists|i: int|
                0 <= i < entries.len() && #[trigger] entries[i] == (CborTree::Text(name), v)
                    && forall|j: int|
                    i < j < entries.len() ==> (#[trigger] entries[j]).0 != CborTree::Text(name),
            None => forall|j: int|
                0 <= j < entries.len() ==> (#[trigger] entries[j]).0 != CborTree::Text(name),
        },
    decreases entries.len(),
{
    if entries.len() > 0 {
        let k = entries.len() - 1;
        let front = entries.drop_last();
        law_at_name(front, name);
        if entries[k].0 == CborTree::Text(name) {
            assert(entries[k] == (CborTree::Text(name), entries[k].1));
        } else {
            if let Some(v) = cbor::at_name(front, name) {
                let i = choose|i: int|
                    0 <= i < front.len() && #[trigger] front[i] == (CborTree::Text(name), v)
                        && forall|j: int|
                        i < j < front.len() ==> (#[trigger] front[j]).0 != CborTree::Text(name);
                assert(entries[i] == (CborTree::Text(name), v));
                assert forall|j: int| i < j < entries.len() implies (#[trigger] entries[j]).0
                    != CborTree::Text(name) by {
                    if j < k {
                        assert(front[j] == entries[j]);
                    }
                }
            } else {
                assert forall|j: int| 0 <= j < entries.len() implies (#[trigger] entries[j]).0
                    != CborTree::Text(name) by {
                    if j < k {
                        assert(front[j] == entries[j]);
                    }
                }
            }
        }
    }
}

/// Under a label stands the value of the last entry that has it.
pub proof fn law_at_label(entries: Seq<(CborTree, CborTree)>, label: i64)
    ensures
        match cbor::at_label(entries, label) {
            Some(v) => exists|i: int|
                0 <= i < entries.len() && #[trigger] entries[i] == (
                    CborTree::Integer(label as i128),
                    v,
                ) && forall|j: int|
                    i < j < entries.len() ==> (#[trigger] entries[j]).0 != CborTree::Integer(
                        label as i128,
                    ),
            None => forall|j: int|
                0 <= j < entries.len() ==> (#[trigger] entries[j]).0 != CborTree::Integer(
                    label as i128,
                ),
        },
    decreases entries.len(),
{
    let wanted = CborTree::Integer(label as i128);
    if entries.len() > 0 {
        let k = entries.len() - 1;
        let front = entries.drop_last();
        law_at_label(front, label);
        if entries[k].0 == wanted {
            assert(entries[k] == (wanted, entries[k].1));
        } else {
            if let Some(v) = cbor::at_label(front, label) {
                let i = choose|i: int|
                    0 <= i < front.len() && #[trigger] front[i] == (wanted, v) && forall|j: int|
                        i < j < front.len() ==> (#[trigger] front[j]).0 != wanted;
                assert(entries[i] == (wanted, v));
                assert forall|j: int| i < j < entries.len() implies (#[trigger] entries[j]).0
                    != wanted by {
                    if j < k {
                        assert(front[j] == entries[j]);
                    }
                }
            } else {
                assert forall|j: int| 0 <= j < entries.len() implies (#[trigger] entries[j]).0
                    != wanted by {
                    if j < k {
                        assert(front[j] == entries[j]);
                    }
                }
            }
        }
    }
}

/// An integer, a byte string or a text is taken as it is, and nothing else is
/// taken for one. An integer of 64 bits is reported as it is; any other
/// differs from what is reported by a multiple of 2 to the 64.
pub proof fn law_cbor_kinds(v: CborTree, i: i128)
    ensures
        v matches CborTree::Integer(n) ==> cbor::as_integer(Some(v)) == Some(n),
        v !is Integer ==> cbor::as_integer(Some(v)) is None,
        cbor::as_integer(None) is None,
        v matches CborTree::Bytes(b) ==> cbor::as_bytes(Some(v)) == Some(b),
        v !is Bytes ==> cbor::as_bytes(Some(v)) is None,
        cbor::as_bytes(None) is None,
        v matches CborTree::Text(t) ==> attestation::as_text(Some(v)) == Some(t),
        v !is Text ==> attestation::as_text(Some(v)) is None,
        attestation::as_text(None) is None,
        i64::MIN <= i <= i64::MAX ==> cbor::low_64(i) == i,
        (i - cbor::low_64(i)) % 0x1_0000_0000_0000_0000 == 0,
{
}

// ---------- Keys -----------------------------------------------------------

/// A map is an ES256 key exactly if it says so: key type 2, algorithm -7,
/// curve 1, and two coordinates of 32 bytes; and an Ed25519 key exactly if it
/// says so: key type 1, algorithm -8, curve 6, and 32 bytes. The key has
/// those coordinates, or those bytes.
pub proof fn law_cose_key(entries: Seq<(CborTree, CborTree)>, x: Seq<u8>, y: Seq<u8>)
    ensures
        cose::key_of_tree(CborTree::Dict(entries)) == Ok::<CoseKeyView, ErrorView>(
            CoseKeyView::Es256 { x, y },
        ) <==> {
            &&& cbor::at_label(entries, 1) == Some(CborTree::Integer(2))
            &&& cbor::at_label(entries, 3) == Some(CborTree::Integer((-7) as i128))
            &&& cbor::at_label(entries, (-1) as i64) == Some(CborTree::Integer(1))
            &&& cbor::at_label(entries, (-2) as i64) == Some(CborTree::Bytes(x))
            &&& cbor::at_label(entries, (-3) as i64) == Some(CborTree::Bytes(y))
            &&& x.len() == 32
            &&& y.len() == 32
        },
        cose::key_of_tree(CborTree::Dict(entries)) == Ok::<CoseKeyView, ErrorView>(
            CoseKeyView::Ed25519 { key: x },
        ) <==> {
            &&& cbor::at_label(entries, 1) == Some(CborTree::Integer(1))
            &&& cbor::at_label(entries, 3) == Some(CborTree::Integer((-8) as i128))
            &&& cbor::at_label(entries, (-1) as i64) == Some(CborTree::Integer(6))
            &&& cbor::at_label(entries, (-2) as i64) == Some(CborTree::Bytes(x))
            &&& x.len() == 32
        },
{
}

/// How a map that is no key is refused.
pub proof fn law_cose_faults(entries: Seq<(CborTree, CborTree)>)
    ensures
        ({
            let r = cose::key_of_tree(CborTree::Dict(entries));
            let kty = cbor::at_label(entries, 1);
            let alg = cbor::at_label(entries, 3);
            let crv = cbor::at_label(entries, (-1) as i64);
            let x = cbor::at_label(entries, (-2) as i64);
            let y = cbor::at_label(entries, (-3) as i64);
            let es256 = kty == Some(CborTree::Integer(2)) && alg == Some(CborTree::Integer((-7) as i128));
            let eddsa = kty == Some(CborTree::Integer(1)) && alg == Some(CborTree::Integer((-8) as i128));
            let fault = |t: Seq<char>| Err::<CoseKeyView, ErrorView>(ErrorView::Cbor(t));
            let no_kty = !(kty matches Some(CborTree::Integer(_)));
            let no_alg = !(alg matches Some(CborTree::Integer(_)));
            let no_x = !(x matches Some(CborTree::Bytes(_)));
            let no_y = !(y matches Some(CborTree::Bytes(_)));
            &&& no_kty ==> r == fault("cose: missing kty"@)
            &&& !no_kty && no_alg ==> r == fault("cose: missing alg"@)
            &&& !no_kty && !no_alg && !es256 && !eddsa ==> r == Err::<CoseKeyView, ErrorView>(
                ErrorView::UnsupportedAlg(cbor::low_64(alg->0->Integer_0)),
            )
            &&& es256 && crv != Some(CborTree::Integer(1)) ==> r == fault(
                "cose: ES256 expects crv=P-256"@,
            )
            &&& es256 && crv == Some(CborTree::Integer(1)) ==> {
                &&& no_x ==> r == fault("cose: missing x"@)
                &&& !no_x && no_y ==> r == fault("cose: missing y"@)
                &&& !no_x && !no_y && (x->0->Bytes_0.len() != 32 || y->0->Bytes_0.len() != 32)
                    ==> r == fault("cose: P-256 coords must be 32 bytes"@)
            }
            &&& eddsa && crv != Some(CborTree::Integer(6)) ==> r == fault(
                "cose: EdDSA expects crv=Ed25519"@,
            )
            &&& eddsa && crv == Some(CborTree::Integer(6)) ==> {
                &&& no_x ==> r == fault("cose: missing x"@)
                &&& !no_x && x->0->Bytes_0.len() != 32 ==> r == fault(
                    "cose: Ed25519 key must be 32 bytes"@,
                )
            }
        }),
{
}

/// The key in a byte string is the first item in it, if that is a map.
pub proof fn law_stored_key(bytes: Seq<u8>)
    ensures
        match cbor::cbor_item(bytes) {
            Ok((CborTree::Dict(entries), _)) => cose::key_of_bytes(bytes) == cose::key_of_tree(
                CborTree::Dict(entries),
            ),
            Ok(_) => cose::key_of_bytes(bytes) == Err::<CoseKeyView, ErrorView>(
                ErrorView::Cbor("cose: top-level not a map"@),
            ),
            Err(t) => cose::key_of_bytes(bytes) == Err::<CoseKeyView, ErrorView>(
                ErrorView::Cbor("cose: "@ + t),
            ),
        },
{
}

/// ES256 is -7 and EdDSA is -8, to the browser and in a key.
pub proof fn law_algorithms(key: CoseKeyView)
    ensures
        key is Es256 ==> key.alg() == -7,
        key is Ed25519 ==> key.alg() == -8,
        ceremony::ALLOWED_REGISTRATION_ALGS@ == seq![(-7) as i64, (-8) as i64],
        ceremony::advertised_params().len() == 2,
        ceremony::advertised_params()[0].alg == -7,
        ceremony::advertised_params()[1].alg == -8,
        ceremony::advertised_params()[0].kind == "public-key"@,
        ceremony::advertised_params()[1].kind == "public-key"@,
{
    assert(ceremony::ALLOWED_REGISTRATION_ALGS@ =~= seq![(-7) as i64, (-8) as i64]);
}

// ---------- Authenticator data ---------------------------------------------

/// Which bit of the flags says what.
pub proof fn law_flag_bits(flags: u8)
    ensures
        auth_data::user_present(flags) == (flags & 0x01 != 0),
        auth_data::user_verified(flags) == (flags & 0x04 != 0),
        auth_data::has_attested(flags) == (flags & 0x40 != 0),
        auth_data::has_extensions(flags) == (flags & 0x80 != 0),
{
    assert((flags & 0x01 != 0) == (flags % 2 == 1)) by (bit_vector);
    assert((flags & 0x04 != 0) == ((flags / 4) % 2 == 1)) by (bit_vector);
    assert((flags & 0x40 != 0) == ((flags / 64) % 2 == 1)) by (bit_vector);
    assert((flags & 0x80 != 0) == ((flags / 128) % 2 == 1)) by (bit_vector);
}

/// Authenticator data without a credential are read as they are laid out:
/// 32 bytes of hash, one of flags, and a big-endian counter of four. What
/// stands behind must be CBOR if extensions are announced, and is left alone
/// if not.
pub proof fn law_plain_auth_data(bytes: Seq<u8>)
    requires
        bytes.len() >= 37,
        bytes[32] & 0x40 == 0,
    ensures
        ({
            let rest = bytes.skip(37);
            let fine = bytes[32] & 0x80 == 0 || rest.len() == 0 || cbor::cbor_item(rest) is Ok;
            &&& fine <==> auth_data::parsed(bytes) is Ok
            &&& fine ==> {
                let data = auth_data::parsed(bytes)->Ok_0;
                &&& data.rp_id_hash == bytes.take(32)
                &&& data.flags == bytes[32]
                &&& data.sign_count == bytes[33] * 0x1000000 + bytes[34] * 0x10000 + bytes[35]
                    * 0x100 + bytes[36]
                &&& data.attested is None
                &&& auth_data::structure_length(data) == 37
            }
        }),
{
    law_flag_bits(bytes[32]);
    assert(bytes.subrange(0, 32) =~= bytes.take(32));
    assert(bytes.subrange(37, bytes.len() as int) =~= bytes.skip(37));
}

/// Authenticator data with a credential are read as they are laid out: behind
/// the counter 16 bytes of AAGUID, a big-endian length of two, an ID of that
/// length, which is at most 1023, and a key, which is one CBOR item. What
/// stands behind the key is as in [`law_plain_auth_data`].
pub proof fn law_attested_auth_data(bytes: Seq<u8>, n: nat, tree: CborTree, rest: nat)
    requires
        bytes.len() >= 55 + n,
        bytes[32] & 0x40 != 0,
        bytes[53] * 0x100 + bytes[54] == n,
        n <= 1023,
        cbor::cbor_item(bytes.skip((55 + n) as int)) == Ok::<(CborTree, nat), Seq<char>>(
            (tree, rest),
        ),
        rest <= bytes.len() - 55 - n,
    ensures
        ({
            let end = (bytes.len() - rest) as int;
            let tail = bytes.skip(end);
            let fine = bytes[32] & 0x80 == 0 || rest == 0 || cbor::cbor_item(tail) is Ok;
            &&& fine <==> auth_data::parsed(bytes) is Ok
            &&& fine ==> {
                let data = auth_data::parsed(bytes)->Ok_0;
                &&& data.rp_id_hash == bytes.take(32)
                &&& data.flags == bytes[32]
                &&& data.sign_count == bytes[33] * 0x1000000 + bytes[34] * 0x10000 + bytes[35]
                    * 0x100 + bytes[36]
                &&& data.attested is Some
                &&& data.attested->0.aaguid == bytes.subrange(37, 53)
                &&& data.attested->0.credential_id == bytes.subrange(55, 55 + n as int)
                &&& data.attested->0.public_key_cose == bytes.subrange(55 + n as int, end)
                &&& auth_data::structure_length(data) == end
            }
        }),
{
    law_flag_bits(bytes[32]);
    let start = (55 + n) as int;
    let end = (bytes.len() - rest) as int;
    assert(bytes.subrange(0, 32) =~= bytes.take(32));
    assert(bytes.subrange(start, bytes.len() as int) =~= bytes.skip(start));
    assert(bytes.subrange(end, bytes.len() as int) =~= bytes.skip(end));
    assert(auth_data::be_u16(bytes, 53) == n);
}

/// What stands before the key is read as it is laid out, and its length is
/// how many bytes it takes up.
pub proof fn law_auth_header(bytes: Seq<u8>)
    ensures
        ({
            let r = auth_data::header_of(bytes);
            let n = bytes[53] * 0x100 + bytes[54];
            let plain = bytes.len() >= 37 && bytes[32] & 0x40 == 0;
            let full = bytes.len() >= 55 && bytes[32] & 0x40 != 0 && n <= 1023 && bytes.len() >= 55
                + n;
            &&& r is Ok <==> plain || full
            &&& r is Ok ==> {
                &&& r->Ok_0.rp_id_hash == bytes.take(32)
                &&& r->Ok_0.flags == bytes[32]
                &&& r->Ok_0.sign_count == bytes[33] * 0x1000000 + bytes[34] * 0x10000 + bytes[35]
                    * 0x100 + bytes[36]
            }
            &&& plain ==> r->Ok_0.attested is None && r->Ok_0.end == 37
            &&& full ==> r->Ok_0.attested == Some(
                (bytes.subrange(37, 53), bytes.subrange(55, 55 + n)),
            ) && r->Ok_0.end == 55 + n
        }),
{
    if bytes.len() >= 37 {
        law_flag_bits(bytes[32]);
        assert(bytes.subrange(0, 32) =~= bytes.take(32));
    }
}

/// How authenticator data are refused.
pub proof fn law_auth_data_faults(bytes: Seq<u8>)
    ensures
        ({
            let r = auth_data::parsed(bytes);
            let fault = |t: Seq<char>| Err::<AuthenticatorDataView, ErrorView>(
                ErrorView::AuthData(t),
            );
            let n = bytes[53] * 0x100 + bytes[54];
            &&& bytes.len() < 37 ==> r == fault("too short (need >= 37 bytes)"@)
            &&& bytes.len() >= 37 && bytes[32] & 0x40 != 0 ==> {
                &&& bytes.len() < 55 ==> r == fault("attestedCredentialData truncated header"@)
                &&& bytes.len() >= 55 && n > 1023 ==> r == fault("credentialIdLength > 1023"@)
                &&& bytes.len() >= 55 && n <= 1023 && bytes.len() < 55 + n ==> r == fault(
                    "credentialId truncated"@,
                )
                &&& bytes.len() >= 55 && n <= 1023 && bytes.len() >= 55 + n ==> match cbor::cbor_item(
                    bytes.skip(55 + n),
                ) {
                    Err(t) => r == Err::<AuthenticatorDataView, ErrorView>(
                        ErrorView::Cbor("cose key: "@ + t),
                    ),
                    Ok((tree, rest)) => rest <= bytes.len() - 55 - n ==> r is Err
                        ==> bad_extension_fault(bytes.skip(bytes.len() - rest), r->Err_0),
                }
            }
            &&& bytes.len() >= 37 && bytes[32] & 0x40 == 0 ==> r is Err ==> bad_extension_fault(
                bytes.skip(37),
                r->Err_0,
            )
        }),
{
    if bytes.len() >= 37 {
        law_flag_bits(bytes[32]);
        assert(bytes.subrange(37, bytes.len() as int) =~= bytes.skip(37));
        let n = bytes[53] * 0x100 + bytes[54];
        if bytes.len() >= 55 + n {
            assert(bytes.subrange(55 + n, bytes.len() as int) =~= bytes.skip(55 + n));
            if let Ok((tree, rest)) = cbor::cbor_item(bytes.skip(55 + n)) {
                if rest <= bytes.len() - 55 - n {
                    let end = bytes.len() - rest;
                    assert(bytes.subrange(end, bytes.len() as int) =~= bytes.skip(end));
                }
            }
        }
    }
}

/// Whether `e` is how it is reported that `tail` is not CBOR.
pub open spec fn bad_extension_fault(tail: Seq<u8>, e: ErrorView) -> bool {
    match cbor::cbor_item(tail) {
        Ok(_) => false,
        Err(t) => e == ErrorView::AuthData(
            if t.len() == 0 {
                "extensions CBOR invalid"@
            } else {
                "extensions CBOR parse failed"@
            },
        ),
    }
}

// ---------- Certificates ---------------------------------------------------

/// The object identifiers, byte by byte.
pub proof fn law_object_identifiers()
    ensures
        x509::OID_EC_PUBLIC_KEY@ == seq![0x2Au8, 0x86u8, 0x48u8, 0xCEu8, 0x3Du8, 0x02u8, 0x01u8],
        x509::OID_P256@ == seq![
            0x2Au8,
            0x86u8,
            0x48u8,
            0xCEu8,
            0x3Du8,
            0x03u8,
            0x01u8,
            0x07u8,
        ],
        x509::OID_FIDO_AAGUID@ == seq![
            0x2Bu8,
            0x06u8,
            0x01u8,
            0x04u8,
            0x01u8,
            0x82u8,
            0xE5u8,
            0x1Cu8,
            0x01u8,
            0x01u8,
            0x04u8,
        ],
{
    assert(x509::OID_EC_PUBLIC_KEY@ =~= seq![
        0x2Au8,
        0x86u8,
        0x48u8,
        0xCEu8,
        0x3Du8,
        0x02u8,
        0x01u8,
    ]);
    assert(x509::OID_P256@ =~= seq![
        0x2Au8,
        0x86u8,
        0x48u8,
        0xCEu8,
        0x3Du8,
        0x03u8,
        0x01u8,
        0x07u8,
    ]);
    assert(x509::OID_FIDO_AAGUID@ =~= seq![
        0x2Bu8,
        0x06u8,
        0x01u8,
        0x04u8,
        0x01u8,
        0x82u8,
        0xE5u8,
        0x1Cu8,
        0x01u8,
        0x01u8,
        0x04u8,
    ]);
}

/// The value looked up under an identifier is that of the first extension
/// that has it.
pub proof fn law_first_extension(list: Seq<(Seq<u8>, Seq<u8>)>, oid: Seq<u8>)
    ensures
        match x509::first_extension(list, oid) {
            Some(v) => exists|i: int|
                0 <= i < list.len() && #[trigger] list[i] == (oid, v) && forall|j: int|
                    0 <= j < i ==> (#[trigger] list[j]).0 != oid,
            None => forall|j: int| 0 <= j < list.len() ==> (#[trigger] list[j]).0 != oid,
        },
    decreases list.len(),
{
    if list.len() > 0 {
        let back = list.drop_first();
        if list[0].0 == oid {
            assert(list[0] == (oid, list[0].1));
        } else {
            law_first_extension(back, oid);
            if let Some(v) = x509::first_extension(back, oid) {
                let i = choose|i: int|
                    0 <= i < back.len() && #[trigger] back[i] == (oid, v) && forall|j: int|
                        0 <= j < i ==> (#[trigger] back[j]).0 != oid;
                assert(list[i + 1] == (oid, v));
                assert forall|j: int| 0 <= j < i + 1 implies (#[trigger] list[j]).0 != oid by {
                    if j > 0 {
                        assert(back[j - 1] == list[j]);
                    }
                }
            } else {
                assert forall|j: int| 0 <= j < list.len() implies (#[trigger] list[j]).0
                    != oid by {
                    if j > 0 {
                        assert(back[j - 1] == list[j]);
                    }
                }
            }
        }
    }
}

/// The value of the AAGUID extension of a certificate, if it has one.
pub open spec fn aaguid_extension(c: CertificateView) -> Option<Seq<u8>> {
    match c.extensions {
        Some(list) => x509::first_extension(list, x509::OID_FIDO_AAGUID@),
        None => None,
    }
}

/// A certificate can be used exactly if it holds an uncompressed point of 65
/// bytes on P-256 and its AAGUID extension, if it has one, is well-formed.
/// Its key is that point, and its AAGUID the 16 bytes in the extension.
pub proof fn law_certificate(c: CertificateView)
    ensures
        ({
            let value = aaguid_extension(c);
            let malformed = value is Some && (value->0.len() != 18 || value->0[0] != 0x04
                || value->0[1] != 0x10);
            let usable = {
                &&& c.algorithm == x509::OID_EC_PUBLIC_KEY@
                &&& c.curve == Some(x509::OID_P256@)
                &&& c.public_key is Some
                &&& c.public_key->0.len() == 65
                &&& c.public_key->0[0] == 0x04
                &&& !malformed
            };
            &&& x509::cert_of_parts(c) is Ok <==> usable
            &&& usable ==> {
                let cert = x509::cert_of_parts(c)->Ok_0;
                &&& cert.p256_pubkey_sec1 == c.public_key->0
                &&& cert.aaguid is Some <==> value is Some
                &&& value is Some ==> cert.aaguid->0 == value->0.skip(2)
            }
        }),
{
    let value = aaguid_extension(c);
    if value is Some && value->0.len() == 18 {
        assert(value->0.subrange(2, 18) =~= value->0.skip(2));
    }
}

/// An AAGUID is read out of an OCTET STRING of 16 bytes, and of nothing else.
pub proof fn law_aaguid_value(value: Seq<u8>)
    ensures
        x509::aaguid_in(value) is Ok <==> value.len() == 18 && value[0] == 0x04 && value[1] == 0x10,
        x509::aaguid_in(value) is Ok ==> x509::aaguid_in(value)->Ok_0 == value.skip(2),
        x509::aaguid_in(value) is Err ==> x509::aaguid_in(value)->Err_0 == ErrorView::Cbor(
            "attestation cert: malformed AAGUID extension"@,
        ),
{
    if value.len() == 18 {
        assert(value.subrange(2, 18) =~= value.skip(2));
    }
}

/// How a certificate is refused.
pub proof fn law_certificate_faults(c: CertificateView)
    ensures
        ({
            let r = x509::cert_of_parts(c);
            let fault = |t: Seq<char>| Err::<AttestationCertView, ErrorView>(ErrorView::Cbor(t));
            let ec = c.algorithm == x509::OID_EC_PUBLIC_KEY@;
            let p256 = c.curve == Some(x509::OID_P256@);
            let key = c.public_key;
            let point = key is Some && key->0.len() == 65 && key->0[0] == 0x04;
            &&& !ec ==> r == fault(
                "attestation cert: non-EC public key (alg OID "@ + c.algorithm_text + ")"@,
            )
            &&& ec && !p256 ==> r == fault("attestation cert: EC public key not on P-256"@)
            &&& ec && p256 && key is None ==> r == fault(
                "attestation cert: pubkey bit-string has unused bits"@,
            )
            &&& ec && p256 && key is Some && !point ==> r == fault(
                "attestation cert: pubkey not SEC1-uncompressed P-256 ("@ + text::decimal(
                    key->0.len(),
                ) + " bytes, prefix 0x"@ + text::hex_byte(
                    if key->0.len() > 0 {
                        key->0[0]
                    } else {
                        0
                    },
                ) + ")"@,
            )
            &&& ec && p256 && point && r is Err ==> r == fault(
                "attestation cert: malformed AAGUID extension"@,
            )
        }),
{
}

/// The certificate in a byte string is what `x509_cert` reads there.
pub proof fn law_certificate_in_der(der: Seq<u8>)
    ensures
        match x509::certificate(der) {
            Ok(c) => x509::cert_of_der(der) == x509::cert_of_parts(c),
            Err(t) => x509::cert_of_der(der) == Err::<AttestationCertView, ErrorView>(
                ErrorView::Cbor("x509 parse: "@ + t),
            ),
        },
{
}

/// An AAGUID in a certificate agrees with the authenticator data unless both
/// name one and the two differ.
pub proof fn law_aaguid_agrees(leaf: AttestationCertView, data: AuthenticatorDataView)
    ensures
        attestation::aaguid_agrees(leaf, data) <==> (match (leaf.aaguid, data.attested) {
            (Some(a), Some(attested)) => a == attested.aaguid,
            _ => true,
        }),
{
}

// ---------- Attestation objects --------------------------------------------

/// A map is an attestation object exactly if every `fmt` in it is a text,
/// every `authData` a byte string, and both are there. The last of each
/// counts, and the last `attStmt`; without one the statement is empty.
pub proof fn law_envelope(entries: Seq<(CborTree, CborTree)>)
    ensures
        ({
            let r = attestation::envelope_of(CborTree::Dict(entries));
            let fmt = cbor::at_name(entries, "fmt"@);
            let raw = cbor::at_name(entries, "authData"@);
            let stmt = cbor::at_name(entries, "attStmt"@);
            let fine = forall|i: int|
                0 <= i < entries.len() ==> {
                    &&& (#[trigger] entries[i]).0 == CborTree::Text("fmt"@) ==> entries[i].1 is Text
                    &&& entries[i].0 == CborTree::Text("authData"@) ==> entries[i].1 is Bytes
                };
            &&& r is Ok <==> fine && fmt is Some && raw is Some
            &&& r is Ok ==> {
                &&& fmt == Some(CborTree::Text(r->Ok_0.fmt))
                &&& raw == Some(CborTree::Bytes(r->Ok_0.auth_data_raw))
                &&& stmt is Some ==> r->Ok_0.att_stmt == stmt->0
                &&& stmt is None ==> r->Ok_0.att_stmt == CborTree::Dict(Seq::empty())
            }
            &&& fine && fmt is None ==> r == Err::<EnvelopeView, ErrorView>(
                ErrorView::Cbor("attestationObject: missing fmt"@),
            )
            &&& fine && fmt is Some && raw is None ==> r == Err::<EnvelopeView, ErrorView>(
                ErrorView::Cbor("attestationObject: missing authData"@),
            )
            &&& !fine ==> r == Err::<EnvelopeView, ErrorView>(
                ErrorView::Cbor("attestationObject.fmt not text"@),
            ) || r == Err::<EnvelopeView, ErrorView>(
                ErrorView::Cbor("attestationObject.authData not bytes"@),
            )
        }),
{
    reveal_strlit("fmt");
    reveal_strlit("authData");
    assert("fmt"@.len() != "authData"@.len());
    lemma_member_faults(entries);
    law_at_name(entries, "fmt"@);
    law_at_name(entries, "authData"@);
}

proof fn lemma_member_faults(entries: Seq<(CborTree, CborTree)>)
    ensures
        attestation::first_member_fault(entries) is None <==> forall|i: int|
            0 <= i < entries.len() ==> {
                &&& (#[trigger] entries[i]).0 == CborTree::Text("fmt"@) ==> entries[i].1 is Text
                &&& entries[i].0 == CborTree::Text("authData"@) ==> entries[i].1 is Bytes
            },
        attestation::first_member_fault(entries) matches Some(e) ==> e == ErrorView::Cbor(
            "attestationObject.fmt not text"@,
        ) || e == ErrorView::Cbor("attestationObject.authData not bytes"@),
    decreases entries.len(),
{
    reveal_strlit("fmt");
    reveal_strlit("authData");
    assert("fmt"@.len() != "authData"@.len());
    if entries.len() > 0 {
        let back = entries.drop_first();
        lemma_member_faults(back);
        assert forall|i: int| 0 <= i < back.len() implies #[trigger] back[i] == entries[i + 1] by {
        }
        if attestation::first_member_fault(entries) is None {
            assert forall|i: int| 0 <= i < entries.len() implies {
                &&& (#[trigger] entries[i]).0 == CborTree::Text("fmt"@) ==> entries[i].1 is Text
                &&& entries[i].0 == CborTree::Text("authData"@) ==> entries[i].1 is Bytes
            } by {
                if i > 0 {
                    assert(back[i - 1] == entries[i]);
                }
            }
        } else {
            let e = entries[0];
            if attestation::member_fault(e) is None {
                let j = choose|j: int|
                    0 <= j < back.len() && !({
                        &&& (#[trigger] back[j]).0 == CborTree::Text("fmt"@) ==> back[j].1 is Text
                        &&& back[j].0 == CborTree::Text("authData"@) ==> back[j].1 is Bytes
                    });
                assert(back[j] == entries[j + 1]);
            }
        }
    }
}

/// A faulty member is reported as what it is, the first one first.
pub proof fn law_first_faulty_member(entries: Seq<(CborTree, CborTree)>, i: int)
    requires
        0 <= i < entries.len(),
        forall|j: int|
            0 <= j < i ==> {
                &&& (#[trigger] entries[j]).0 == CborTree::Text("fmt"@) ==> entries[j].1 is Text
                &&& entries[j].0 == CborTree::Text("authData"@) ==> entries[j].1 is Bytes
            },
    ensures
        entries[i].0 == CborTree::Text("fmt"@) && entries[i].1 !is Text ==> {
            &&& attestation::first_member_fault(entries) == Some(
                ErrorView::Cbor("attestationObject.fmt not text"@),
            )
            &&& attestation::envelope_of(CborTree::Dict(entries)) == Err::<EnvelopeView, ErrorView>(
                ErrorView::Cbor("attestationObject.fmt not text"@),
            )
        },
        entries[i].0 == CborTree::Text("authData"@) && entries[i].1 !is Bytes ==> {
            &&& attestation::first_member_fault(entries) == Some(
                ErrorView::Cbor("attestationObject.authData not bytes"@),
            )
            &&& attestation::envelope_of(CborTree::Dict(entries)) == Err::<EnvelopeView, ErrorView>(
                ErrorView::Cbor("attestationObject.authData not bytes"@),
            )
        },
    decreases entries.len(),
{
    reveal_strlit("fmt");
    reveal_strlit("authData");
    assert("fmt"@.len() != "authData"@.len());
    if i > 0 {
        let back = entries.drop_first();
        assert forall|j: int| 0 <= j < i - 1 implies {
            &&& (#[trigger] back[j]).0 == CborTree::Text("fmt"@) ==> back[j].1 is Text
            &&& back[j].0 == CborTree::Text("authData"@) ==> back[j].1 is Bytes
        } by {
            assert(back[j] == entries[j + 1]);
        }
        assert(back[i - 1] == entries[i]);
        law_first_faulty_member(back, i - 1);
        assert(attestation::member_fault(entries[0]) is None);
    }
}

/// An attestation object is the first item in a byte string, with the bytes of
/// its `authData` parsed and kept as they are.
pub proof fn law_attestation_object(bytes: Seq<u8>)
    ensures
        match cbor::cbor_item(bytes) {
            Err(t) => attestation::parsed(bytes) == Err::<ParsedAttestationView, ErrorView>(
                ErrorView::Cbor("attestationObject: "@ + t),
            ),
            Ok((tree, _)) => {
                &&& tree !is Dict ==> attestation::parsed(bytes) == Err::<
                    ParsedAttestationView,
                    ErrorView,
                >(ErrorView::Cbor("attestationObject: top-level not a map"@))
                &&& match attestation::envelope_of(tree) {
                    Err(e) => attestation::parsed(bytes) == Err::<
                        ParsedAttestationView,
                        ErrorView,
                    >(e),
                    Ok(envelope) => match auth_data::parsed(envelope.auth_data_raw) {
                        Err(e) => attestation::parsed(bytes) == Err::<
                            ParsedAttestationView,
                            ErrorView,
                        >(e),
                        Ok(data) => {
                            &&& attestation::parsed(bytes) is Ok
                            &&& attestation::parsed(bytes)->Ok_0.fmt == envelope.fmt
                            &&& attestation::parsed(bytes)->Ok_0.att_stmt == envelope.att_stmt
                            &&& attestation::parsed(bytes)->Ok_0.auth_data_raw
                                == envelope.auth_data_raw
                            &&& attestation::parsed(bytes)->Ok_0.auth_data == data
                        },
                    },
                }
            },
        },
{
}

// ---------- Certificate chains in statements -------------------------------

/// Whether a value for `x5c` is an array of byte strings.
pub open spec fn is_chain(v: CborTree) -> bool {
    match v {
        CborTree::Array(certs) => forall|i: int|
            0 <= i < certs.len() ==> (#[trigger] certs[i]) is Bytes,
        _ => false,
    }
}

/// Where `x5c` is an array of byte strings, the chain read from it has the
/// same length, and each of its certificates is the byte string at the same
/// place.
pub proof fn law_chain_in_order(certs: Seq<CborTree>)
    requires
        is_chain(CborTree::Array(certs)),
    ensures
        ({
            let chain = attestation::as_chain(Some(CborTree::Array(certs)));
            &&& chain is Some
            &&& chain->0.len() == certs.len()
            &&& forall|i: int|
                0 <= i < certs.len() ==> #[trigger] certs[i] == CborTree::Bytes(chain->0[i])
        }),
        attestation::as_chain(None) is None,
{
}

/// A value for `x5c` is refused exactly if it is no array of byte strings,
/// and by its format.
pub proof fn law_chain_faults(v: CborTree)
    ensures
        is_chain(v) <==> attestation::chain_fault(StatementFormat::Packed, v) is None,
        is_chain(v) <==> attestation::chain_fault(StatementFormat::FidoU2f, v) is None,
        v !is Array ==> attestation::chain_fault(StatementFormat::Packed, v) == Some(
            ErrorView::Cbor("packed: x5c not an array"@),
        ),
        v !is Array ==> attestation::chain_fault(StatementFormat::FidoU2f, v) == Some(
            ErrorView::Cbor("fido-u2f: x5c not an array"@),
        ),
        v is Array && !is_chain(v) ==> attestation::chain_fault(StatementFormat::Packed, v) == Some(
            ErrorView::Cbor("packed: x5c entry not bytes"@),
        ),
        v is Array && !is_chain(v) ==> attestation::chain_fault(StatementFormat::FidoU2f, v)
            == Some(ErrorView::Cbor("fido-u2f: x5c entry not bytes"@)),
{
}

/// Whether every `x5c` in a statement is an array of byte strings.
pub open spec fn chains_fine(entries: Seq<(CborTree, CborTree)>) -> bool {
    forall|i: int|
        0 <= i < entries.len() && (#[trigger] entries[i]).0 == CborTree::Text("x5c"@) ==> is_chain(
            entries[i].1,
        )
}

proof fn lemma_chains_fine(format: StatementFormat, entries: Seq<(CborTree, CborTree)>)
    ensures
        attestation::first_chain_fault(format, entries) is None <==> chains_fine(entries),
    decreases entries.len(),
{
    if entries.len() > 0 {
        let back = entries.drop_first();
        lemma_chains_fine(format, back);
        law_chain_faults(entries[0].1);
        assert forall|i: int| 0 <= i < back.len() implies #[trigger] back[i] == entries[i + 1] by {
        }
        if attestation::first_chain_fault(format, entries) is None {
            assert forall|i: int|
                0 <= i < entries.len() && (#[trigger] entries[i]).0 == CborTree::Text(
                    "x5c"@,
                ) implies is_chain(entries[i].1) by {
                if i > 0 {
                    assert(back[i - 1] == entries[i]);
                }
            }
        } else if chains_fine(entries) {
            assert(is_chain(entries[0].1) || entries[0].0 != CborTree::Text("x5c"@));
            assert(!chains_fine(back));
            let j = choose|j: int|
                0 <= j < back.len() && (#[trigger] back[j]).0 == CborTree::Text("x5c"@)
                    && !is_chain(back[j].1);
            assert(back[j] == entries[j + 1]);
        }
    }
}

/// The first faulty `x5c` decides what is reported.
pub proof fn law_first_faulty_chain(
    format: StatementFormat,
    entries: Seq<(CborTree, CborTree)>,
    i: int,
)
    requires
        0 <= i < entries.len(),
        entries[i].0 == CborTree::Text("x5c"@),
        !is_chain(entries[i].1),
        forall|j: int|
            0 <= j < i && (#[trigger] entries[j]).0 == CborTree::Text("x5c"@) ==> is_chain(
                entries[j].1,
            ),
    ensures
        attestation::first_chain_fault(format, entries) == attestation::chain_fault(
            format,
            entries[i].1,
        ),
        attestation::first_chain_fault(format, entries) is Some,
    decreases entries.len(),
{
    law_chain_faults(entries[i].1);
    if i > 0 {
        law_chain_faults(entries[0].1);
        let back = entries.drop_first();
        assert forall|j: int|
            0 <= j < i - 1 && (#[trigger] back[j]).0 == CborTree::Text("x5c"@) implies is_chain(
            back[j].1,
        ) by {
            assert(back[j] == entries[j + 1]);
        }
        law_first_faulty_chain(format, back, i - 1);
    }
}

// ---------- Statements -----------------------------------------------------

/// A map is a `packed` statement exactly if every `x5c` in it is an array of
/// byte strings and it has an integer `alg` and a byte string `sig`. The
/// statement holds these, and the chain if there is one.
pub proof fn law_packed_statement(entries: Seq<(CborTree, CborTree)>)
    ensures
        ({
            let r = attestation::packed_statement(CborTree::Dict(entries));
            let alg = cbor::at_name(entries, "alg"@);
            let sig = cbor::at_name(entries, "sig"@);
            let x5c = cbor::at_name(entries, "x5c"@);
            let has_alg = alg matches Some(CborTree::Integer(_));
            let has_sig = sig matches Some(CborTree::Bytes(_));
            &&& r is Ok <==> chains_fine(entries) && has_alg && has_sig
            &&& r is Ok ==> {
                let stmt = r->Ok_0;
                &&& alg == Some(CborTree::Integer(stmt.alg))
                &&& sig == Some(CborTree::Bytes(stmt.sig))
                &&& stmt.x5c is Some <==> x5c is Some
                &&& x5c is Some ==> {
                    &&& x5c->0 is Array
                    &&& x5c->0->Array_0.len() == stmt.x5c->0.len()
                    &&& forall|i: int|
                        0 <= i < stmt.x5c->0.len() ==> #[trigger] x5c->0->Array_0[i]
                            == CborTree::Bytes(stmt.x5c->0[i])
                }
            }
            &&& chains_fine(entries) && !has_alg ==> r == Err::<
                attestation::PackedAttStmtView,
                ErrorView,
            >(ErrorView::Cbor("packed: missing alg"@))
            &&& chains_fine(entries) && has_alg && !has_sig ==> r == Err::<
                attestation::PackedAttStmtView,
                ErrorView,
            >(ErrorView::Cbor("packed: missing sig"@))
            &&& !chains_fine(entries) ==> r == Err::<attestation::PackedAttStmtView, ErrorView>(
                attestation::first_chain_fault(StatementFormat::Packed, entries)->0,
            )
        }),
{
    lemma_chains_fine(StatementFormat::Packed, entries);
    law_at_name(entries, "x5c"@);
}

/// A map is a `fido-u2f` statement exactly if every `x5c` in it is an array of
/// byte strings and it has a byte string `sig` and a chain that is not empty.
pub proof fn law_u2f_statement(entries: Seq<(CborTree, CborTree)>)
    ensures
        ({
            let r = attestation::u2f_statement(CborTree::Dict(entries));
            let sig = cbor::at_name(entries, "sig"@);
            let x5c = cbor::at_name(entries, "x5c"@);
            let has_sig = sig matches Some(CborTree::Bytes(_));
            let fault = |t: Seq<char>| Err::<attestation::U2fAttStmtView, ErrorView>(
                ErrorView::Cbor(t),
            );
            &&& r is Ok <==> chains_fine(entries) && has_sig && x5c is Some
                && x5c->0->Array_0.len() > 0
            &&& r is Ok ==> {
                let stmt = r->Ok_0;
                &&& sig == Some(CborTree::Bytes(stmt.sig))
                &&& x5c->0 is Array
                &&& x5c->0->Array_0.len() == stmt.x5c.len()
                &&& forall|i: int|
                    0 <= i < stmt.x5c.len() ==> #[trigger] x5c->0->Array_0[i] == CborTree::Bytes(
                        stmt.x5c[i],
                    )
            }
            &&& chains_fine(entries) && !has_sig ==> r == fault("fido-u2f: missing sig"@)
            &&& chains_fine(entries) && has_sig && x5c is None ==> r == fault(
                "fido-u2f: missing x5c"@,
            )
            &&& chains_fine(entries) && has_sig && x5c is Some && x5c->0->Array_0.len() == 0
                ==> r == fault("fido-u2f: empty cert chain"@)
            &&& !chains_fine(entries) ==> r == Err::<attestation::U2fAttStmtView, ErrorView>(
                attestation::first_chain_fault(StatementFormat::FidoU2f, entries)->0,
            )
        }),
{
    lemma_chains_fine(StatementFormat::FidoU2f, entries);
    law_at_name(entries, "x5c"@);
}

/// A statement that is no map is refused by its format.
pub proof fn law_statement_is_map(tree: CborTree)
    requires
        tree !is Dict,
    ensures
        attestation::packed_statement(tree) == Err::<attestation::PackedAttStmtView, ErrorView>(
            ErrorView::Cbor("packed: attStmt not a map"@),
        ),
        attestation::u2f_statement(tree) == Err::<attestation::U2fAttStmtView, ErrorView>(
            ErrorView::Cbor("fido-u2f: attStmt not a map"@),
        ),
{
}

/// What a statement without signature is taken for, by its format.
pub proof fn law_formats(att: ParsedAttestationView, key: CoseKeyView, hash: Seq<u8>)
    ensures
        att.fmt == "none"@ ==> attestation::statement_verdict(att, key, hash) is Ok,
        att.fmt != "none"@ && att.fmt != "packed"@ && att.fmt != "fido-u2f"@
            ==> attestation::statement_verdict(att, key, hash) == Err::<(), ErrorView>(
            ErrorView::Cbor("unsupported attestation fmt: "@ + att.fmt),
        ),
{
}

proof fn lemma_formats_differ()
    ensures
        "none"@ != "packed"@,
        "none"@ != "fido-u2f"@,
        "packed"@ != "fido-u2f"@,
{
    reveal_strlit("none");
    reveal_strlit("packed");
    reveal_strlit("fido-u2f");
    assert("none"@.len() == 4 && "packed"@.len() == 6 && "fido-u2f"@.len() == 8);
}

/// A `packed` statement without a chain is judged under the credential's own
/// key: the algorithm must be the key's, and the signature be over the
/// authenticator data, as they were sent, and the hash.
pub proof fn law_self_attestation_decided(
    att: ParsedAttestationView,
    entries: Seq<(CborTree, CborTree)>,
    key: CoseKeyView,
    hash: Seq<u8>,
    alg: i128,
    sig: Seq<u8>,
)
    requires
        att.fmt == "packed"@,
        att.att_stmt == CborTree::Dict(entries),
        cbor::at_name(entries, "alg"@) == Some(CborTree::Integer(alg)),
        cbor::at_name(entries, "sig"@) == Some(CborTree::Bytes(sig)),
        cbor::at_name(entries, "x5c"@) is None,
    ensures
        ({
            let r = attestation::statement_verdict(att, key, hash);
            let own: int = if key is Es256 {
                -7
            } else {
                -8
            };
            let holds = match key {
                CoseKeyView::Es256 { x, y } => crypto::es256_valid(
                    seq![0x04u8] + x + y,
                    att.auth_data_raw + hash,
                    sig,
                ),
                CoseKeyView::Ed25519 { key: k } => sig.len() == 64 && crypto::ed25519_valid(
                    k,
                    att.auth_data_raw + hash,
                    sig,
                ),
            };
            &&& alg != own ==> r == Err::<(), ErrorView>(
                ErrorView::Cbor(
                    "packed (self): alg mismatch ("@ + text::signed_decimal(
                        cbor::low_64(alg) as int,
                    ) + " vs cred "@ + text::signed_decimal(own) + ")"@,
                ),
            )
            &&& alg == own && holds ==> r == Ok::<(), ErrorView>(())
            &&& alg == own && !holds ==> r == Err::<(), ErrorView>(ErrorView::BadSignature)
        }),
{
    lemma_formats_differ();
    law_at_name(entries, "x5c"@);
    law_packed_statement(entries);
}

/// A `packed` statement with a chain is judged under the key of the first
/// certificate in the array, which must be for ES256 and for the same AAGUID;
/// the signature is over the same message.
pub proof fn law_certified_attestation_decided(
    att: ParsedAttestationView,
    entries: Seq<(CborTree, CborTree)>,
    key: CoseKeyView,
    hash: Seq<u8>,
    alg: i128,
    sig: Seq<u8>,
    certs: Seq<CborTree>,
)
    requires
        att.fmt == "packed"@,
        att.att_stmt == CborTree::Dict(entries),
        chains_fine(entries),
        cbor::at_name(entries, "alg"@) == Some(CborTree::Integer(alg)),
        cbor::at_name(entries, "sig"@) == Some(CborTree::Bytes(sig)),
        cbor::at_name(entries, "x5c"@) == Some(CborTree::Array(certs)),
    ensures
        ({
            let r = attestation::statement_verdict(att, key, hash);
            let leaf = x509::cert_of_der(certs[0]->Bytes_0);
            let foreign = leaf->Ok_0.aaguid is Some && att.auth_data.attested is Some
                && leaf->Ok_0.aaguid->0 != att.auth_data.attested->0.aaguid;
            let holds = crypto::es256_valid(
                leaf->Ok_0.p256_pubkey_sec1,
                att.auth_data_raw + hash,
                sig,
            );
            &&& alg != -7 ==> r == Err::<(), ErrorView>(
                ErrorView::Cbor(
                    "packed (x5c): only ES256 attestation supported, got alg "@
                        + text::signed_decimal(cbor::low_64(alg) as int),
                ),
            )
            &&& alg == -7 && certs.len() == 0 ==> r == Err::<(), ErrorView>(
                ErrorView::Cbor("packed (x5c): empty cert chain"@),
            )
            &&& alg == -7 && certs.len() > 0 && leaf is Err ==> r == Err::<(), ErrorView>(
                leaf->Err_0,
            )
            &&& alg == -7 && certs.len() > 0 && leaf is Ok && foreign ==> r == Err::<
                (),
                ErrorView,
            >(ErrorView::Cbor("packed (x5c): cert AAGUID does not match authData"@))
            &&& alg == -7 && certs.len() > 0 && leaf is Ok && !foreign ==> r == (if holds {
                Ok::<(), ErrorView>(())
            } else {
                Err::<(), ErrorView>(ErrorView::BadSignature)
            })
        }),
{
    lemma_formats_differ();
    law_packed_statement(entries);
    let stmt = attestation::packed_statement(CborTree::Dict(entries))->Ok_0;
    if certs.len() > 0 {
        assert(certs[0] == CborTree::Bytes(stmt.x5c->0[0]));
    }
}

/// A `fido-u2f` statement is judged under the key of the first certificate in
/// the array; the signature is over the U2F message. Only a credential with
/// an ES256 key can have one.
pub proof fn law_u2f_attestation_decided(
    att: ParsedAttestationView,
    entries: Seq<(CborTree, CborTree)>,
    key: CoseKeyView,
    hash: Seq<u8>,
    sig: Seq<u8>,
    certs: Seq<CborTree>,
)
    requires
        att.fmt == "fido-u2f"@,
        att.att_stmt == CborTree::Dict(entries),
        chains_fine(entries),
        cbor::at_name(entries, "sig"@) == Some(CborTree::Bytes(sig)),
        cbor::at_name(entries, "x5c"@) == Some(CborTree::Array(certs)),
        certs.len() > 0,
    ensures
        ({
            let r = attestation::statement_verdict(att, key, hash);
            let leaf = x509::cert_of_der(certs[0]->Bytes_0);
            let holds = crypto::es256_valid(
                leaf->Ok_0.p256_pubkey_sec1,
                seq![0x00u8] + att.auth_data.rp_id_hash + hash
                    + att.auth_data.attested->0.credential_id + seq![0x04u8] + key->x + key->y,
                sig,
            );
            &&& key !is Es256 ==> r == Err::<(), ErrorView>(
                ErrorView::Cbor("fido-u2f: credential key must be ES256 / P-256"@),
            )
            &&& key is Es256 && leaf is Err ==> r == Err::<(), ErrorView>(leaf->Err_0)
            &&& key is Es256 && leaf is Ok && att.auth_data.attested is None ==> r == Err::<
                (),
                ErrorView,
            >(ErrorView::Cbor("fido-u2f: authData missing attestedCredentialData"@))
            &&& key is Es256 && leaf is Ok && att.auth_data.attested is Some ==> r == (if holds {
                Ok::<(), ErrorView>(())
            } else {
                Err::<(), ErrorView>(ErrorView::BadSignature)
            })
        }),
{
    lemma_formats_differ();
    law_u2f_statement(entries);
    let stmt = attestation::u2f_statement(CborTree::Dict(entries))->Ok_0;
    assert(certs[0] == CborTree::Bytes(stmt.x5c[0]));
    if let CoseKeyView::Es256 { x, y } = key {
        law_u2f_message(
            att.auth_data.rp_id_hash,
            hash,
            att.auth_data.attested->0.credential_id,
            x,
            y,
        );
    }
}

/// What is wrong with the form of a statement is what is reported of it.
pub proof fn law_broken_statement_refused(
    att: ParsedAttestationView,
    key: CoseKeyView,
    hash: Seq<u8>,
)
    ensures
        att.fmt == "packed"@ && attestation::packed_statement(att.att_stmt) is Err
            ==> attestation::statement_verdict(att, key, hash) == Err::<(), ErrorView>(
            attestation::packed_statement(att.att_stmt)->Err_0,
        ),
        att.fmt == "fido-u2f"@ && key is Es256 && attestation::u2f_statement(att.att_stmt) is Err
            ==> attestation::statement_verdict(att, key, hash) == Err::<(), ErrorView>(
            attestation::u2f_statement(att.att_stmt)->Err_0,
        ),
{
    lemma_formats_differ();
}

// ---------- Starting -------------------------------------------------------

/// What the browser is told of user verification: `required` if the relying
/// party requires it, and `preferred` if not. It is said of the request's own
/// field, at registration and at authentication.
pub proof fn law_requested_verification(
    wa: WebauthnView,
    challenge: Seq<u8>,
    user_id: Seq<u8>,
    name: Seq<char>,
    display_name: Seq<char>,
    existing: Seq<Seq<u8>>,
    descriptors: Seq<types::CredentialDescriptorView>,
)
    ensures
        ({
            let r = ceremony::registration_request(
                wa,
                challenge,
                user_id,
                name,
                display_name,
                existing,
            );
            let a = ceremony::authentication_request(wa, challenge, descriptors);
            &&& wa.require_uv ==> r.user_verification == "required"@ && a.user_verification
                == "required"@
            &&& !wa.require_uv ==> r.user_verification == "preferred"@ && a.user_verification
                == "preferred"@
        }),
{
}

/// The other fields of the request to create a credential.
pub proof fn law_registration_request(
    wa: WebauthnView,
    challenge: Seq<u8>,
    user_id: Seq<u8>,
    name: Seq<char>,
    display_name: Seq<char>,
    existing: Seq<Seq<u8>>,
)
    ensures
        ({
            let r = ceremony::registration_request(
                wa,
                challenge,
                user_id,
                name,
                display_name,
                existing,
            );
            &&& r.challenge == encoding::encoded(Flavour::UrlNoPad, challenge)
            &&& r.rp_id == wa.rp_id
            &&& r.rp_name == wa.rp_name
            &&& r.user_id == encoding::encoded(Flavour::UrlNoPad, user_id)
            &&& r.user_name == name
            &&& r.user_display_name == display_name
            &&& r.pub_key_cred_params.len() == 2
            &&& r.pub_key_cred_params[0].kind == "public-key"@ && r.pub_key_cred_params[0].alg == -7
            &&& r.pub_key_cred_params[1].kind == "public-key"@ && r.pub_key_cred_params[1].alg == -8
            &&& r.timeout == 60_000
            &&& r.authenticator_attachment == (match wa.attachment {
                Attachment::Platform => Some("platform"@),
                Attachment::CrossPlatform => Some("cross-platform"@),
                Attachment::Any => None,
            })
            &&& r.resident_key == Some("preferred"@)
            &&& r.attestation == "none"@
            &&& r.exclude_credentials.len() == existing.len()
            &&& forall|i: int|
                0 <= i < existing.len() ==> {
                    &&& (#[trigger] r.exclude_credentials[i]).kind == "public-key"@
                    &&& r.exclude_credentials[i].id == encoding::encoded(
                        Flavour::UrlNoPad,
                        existing[i],
                    )
                    &&& r.exclude_credentials[i].transports.len() == 0
                }
        }),
{
}

/// The other fields of the request to make an assertion.
pub proof fn law_authentication_request(
    wa: WebauthnView,
    challenge: Seq<u8>,
    descriptors: Seq<types::CredentialDescriptorView>,
)
    ensures
        ({
            let a = ceremony::authentication_request(wa, challenge, descriptors);
            &&& a.challenge == encoding::encoded(Flavour::UrlNoPad, challenge)
            &&& a.rp_id == wa.rp_id
            &&& a.timeout == 60_000
            &&& a.allow_credentials == descriptors
        }),
{
}

/// A credential is described by its ID in base64url, and by its transports
/// where they are stored.
pub proof fn law_descriptors(ids: Seq<Seq<u8>>, creds: Seq<PasskeyCredentialView>)
    ensures
        ceremony::bare_descriptors(ids).len() == ids.len(),
        forall|i: int|
            0 <= i < ids.len() ==> {
                &&& (#[trigger] ceremony::bare_descriptors(ids)[i]).kind == "public-key"@
                &&& ceremony::bare_descriptors(ids)[i].id == encoding::encoded(
                    Flavour::UrlNoPad,
                    ids[i],
                )
                &&& ceremony::bare_descriptors(ids)[i].transports.len() == 0
            },
        ceremony::full_descriptors(creds).len() == creds.len(),
        forall|i: int|
            0 <= i < creds.len() ==> {
                &&& (#[trigger] ceremony::full_descriptors(creds)[i]).kind == "public-key"@
                &&& ceremony::full_descriptors(creds)[i].id == encoding::encoded(
                    Flavour::UrlNoPad,
                    creds[i].id,
                )
                &&& ceremony::full_descriptors(creds)[i].transports == creds[i].transports
            },
        ceremony::ids_of(creds).len() == creds.len(),
        forall|i: int| 0 <= i < creds.len() ==> #[trigger] ceremony::ids_of(creds)[i] == creds[i].id,
{
}

/// The token for each class of authenticator.
pub proof fn law_attachment_tokens()
    ensures
        Attachment::Platform.token() == Some("platform"@),
        Attachment::CrossPlatform.token() == Some("cross-platform"@),
        Attachment::Any.token() == None::<Seq<char>>,
{
}

// ---------- Checks ---------------------------------------------------------

/// A ceremony with a known start is expired exactly if more than 300 seconds
/// have passed since; it is then reported how many. One with a start of 0
/// never is, nor is one that seems to start later.
pub proof fn law_age(created_at: u64, now: u64)
    ensures
        ceremony::age_verdict(created_at, now) is Err <==> created_at != 0 && now - created_at
            > 300,
        created_at != 0 && now - created_at > 300 ==> ceremony::age_verdict(created_at, now)
            == Err::<(), ErrorView>(
            ErrorView::CeremonyExpired { age_secs: (now - created_at) as u64, max_secs: 300 },
        ),
        now >= created_at ==> types::age_at(created_at, now) == now - created_at,
        now < created_at ==> types::age_at(created_at, now) == 0,
{
}

/// Authenticator data must be for this RP and of a present user, and of a
/// verified one if that is required; the first thing missing is reported.
pub proof fn law_auth_data_checks(
    data: AuthenticatorDataView,
    rp_id_hash: Seq<u8>,
    require_uv: bool,
)
    ensures
        ({
            let r = ceremony::auth_data_verdict(data, rp_id_hash, require_uv);
            let present = data.flags & 0x01 != 0;
            let verified = data.flags & 0x04 != 0;
            &&& r is Ok <==> data.rp_id_hash == rp_id_hash && present && (require_uv ==> verified)
            &&& data.rp_id_hash != rp_id_hash ==> r == Err::<(), ErrorView>(
                ErrorView::RpIdHashMismatch,
            )
            &&& data.rp_id_hash == rp_id_hash && !present ==> r == Err::<(), ErrorView>(
                ErrorView::UserNotPresent,
            )
            &&& data.rp_id_hash == rp_id_hash && present && require_uv && !verified ==> r == Err::<
                (),
                ErrorView,
            >(ErrorView::UserNotVerified)
        }),
{
    law_flag_bits(data.flags);
}

/// The hash for an RP ID is SHA-256 of its UTF-8.
pub proof fn law_rp_id_hash(rp_id: Seq<char>)
    ensures
        ceremony::rp_id_hash(rp_id) == crypto::sha256(vstd::utf8::encode_utf8(rp_id)),
{
}

/// A counter is accepted exactly if it is larger than the stored one, or both
/// are 0; any other is reported with both.
pub proof fn law_counter(stored: u32, new: u32)
    ensures
        ceremony::counter_verdict(stored, new) is Ok <==> stored < new || (stored == 0 && new == 0),
        ceremony::counter_verdict(stored, new) is Err ==> ceremony::counter_verdict(stored, new)
            == Err::<(), ErrorView>(ErrorView::CounterReplay { stored, new }),
{
}

/// The credential must be the stored one, and among those allowed if any are
/// named.
pub proof fn law_credential_id(id: Seq<u8>, allowed: Seq<Seq<u8>>, stored_id: Seq<u8>)
    ensures
        ceremony::id_verdict(id, allowed, stored_id) is Ok <==> id == stored_id && (allowed.len()
            == 0 || exists|i: int| 0 <= i < allowed.len() && #[trigger] allowed[i] == id),
        ceremony::id_verdict(id, allowed, stored_id) is Err ==> ceremony::id_verdict(
            id,
            allowed,
            stored_id,
        ) == Err::<(), ErrorView>(ErrorView::BadSignature),
{
}

/// Where a user is expected, a user handle must be theirs, and must be there
/// if that is required; where none is, anything passes.
pub proof fn law_user_handle(
    expected: Option<Seq<u8>>,
    got: Option<Seq<char>>,
    strict: bool,
    require: bool,
)
    ensures
        ({
            let r = ceremony::user_handle_verdict(expected, got, strict, require);
            match (expected, got) {
                (None, _) => r is Ok,
                (Some(_), None) => r == (if require {
                    Err::<(), ErrorView>(ErrorView::UserHandleMismatch)
                } else {
                    Ok::<(), ErrorView>(())
                }),
                (Some(user), Some(text)) => match encoding::field_decoding(text, strict) {
                    Err(e) => r == Err::<(), ErrorView>(e),
                    Ok(handle) => r == (if handle == user {
                        Ok::<(), ErrorView>(())
                    } else {
                        Err::<(), ErrorView>(ErrorView::UserHandleMismatch)
                    }),
                },
            }
        }),
{
}

/// The ID in the answer to a registration is only held against its encoding,
/// and only under strict decoding.
pub proof fn law_registration_id(id: Seq<char>, strict: bool)
    ensures
        ceremony::id_encoding_verdict(id, strict) is Ok <==> (strict ==> exists|b: Seq<u8>|
            encoding::encoded(Flavour::UrlNoPad, b) == id),
        ceremony::id_encoding_verdict(id, strict) is Err ==> ceremony::id_encoding_verdict(
            id,
            strict,
        ) == Err::<(), ErrorView>(ErrorView::Base64(encoding::url_no_pad_fault(id))),
{
    crate::laws::law_strict_takes_nothing_else(id);
    if exists|b: Seq<u8>| encoding::encoded(Flavour::UrlNoPad, b) == id {
        let b = choose|b: Seq<u8>| encoding::encoded(Flavour::UrlNoPad, b) == id;
        crate::laws::law_strict_round_trip(b);
    }
}

// ---------- Finishing ------------------------------------------------------

/// What a registration comes to, step by step: the first thing that is wrong
/// is reported, and if nothing is, the credential is the one in the
/// authenticator data.
pub proof fn law_registration_decided(
    wa: WebauthnView,
    state: RegistrationStateView,
    response: RegistrationResponseView,
    now: u64,
)
    ensures
        ({
            let r = ceremony::registration_outcome(wa, state, response, now);
            let strict = wa.strict_base64;
            let refused = |e: ErrorView| Err::<PasskeyCredentialView, ErrorView>(e);
            let expired = state.created_at != 0 && now - state.created_at > 300;
            let id = encoding::field_decoding(response.id, true);
            let client = client_data::validated(
                response.client_data_json,
                "webauthn.create"@,
                state.challenge,
                wa.origin,
                strict,
            );
            let bytes = encoding::field_decoding(response.attestation_object, strict);
            let att = attestation::parsed(bytes->Ok_0);
            let data = att->Ok_0.auth_data;
            let attested = data.attested->0;
            let key = cose::key_of_bytes(attested.public_key_cose);
            let statement = attestation::statement_verdict(
                att->Ok_0,
                key->Ok_0,
                crypto::sha256(client->Ok_0),
            );
            if expired {
                r == refused(
                    ErrorView::CeremonyExpired {
                        age_secs: (now - state.created_at) as u64,
                        max_secs: 300,
                    },
                )
            } else if strict && id is Err {
                r == refused(id->Err_0)
            } else if client is Err {
                r == refused(client->Err_0)
            } else if bytes is Err {
                r == refused(bytes->Err_0)
            } else if att is Err {
                r == refused(att->Err_0)
            } else if data.rp_id_hash != crypto::sha256(vstd::utf8::encode_utf8(wa.rp_id)) {
                r == refused(ErrorView::RpIdHashMismatch)
            } else if data.flags & 0x01 == 0 {
                r == refused(ErrorView::UserNotPresent)
            } else if wa.require_uv && data.flags & 0x04 == 0 {
                r == refused(ErrorView::UserNotVerified)
            } else if data.attested is None {
                r == refused(ErrorView::AuthData("registration authData missing AT flag"@))
            } else if key is Err {
                r == refused(key->Err_0)
            } else if statement is Err {
                r == refused(statement->Err_0)
            } else {
                r == Ok::<PasskeyCredentialView, ErrorView>(
                    PasskeyCredentialView {
                        id: attested.credential_id,
                        public_key_cose: attested.public_key_cose,
                        counter: data.sign_count,
                        transports: response.transports,
                        aaguid: attested.aaguid,
                    },
                )
            }
        }),
{
    let bytes = encoding::field_decoding(response.attestation_object, wa.strict_base64)->Ok_0;
    let att = attestation::parsed(bytes)->Ok_0;
    law_flag_bits(att.auth_data.flags);
    let key = cose::key_of_bytes(att.auth_data.attested->0.public_key_cose)->Ok_0;
    law_algorithms(key);
    assert(seq![(-7) as i64, (-8) as i64][0] == -7);
    assert(seq![(-7) as i64, (-8) as i64][1] == -8);
}

/// What an authentication comes to, step by step: the first thing that is
/// wrong is reported. The signature must be the stored key's, over the
/// authenticator data as they were sent and the hash of the client data.
pub proof fn law_authentication_decided(
    wa: WebauthnView,
    state: AuthenticationStateView,
    response: AuthenticationResponseView,
    stored: PasskeyCredentialView,
    now: u64,
)
    ensures
        ({
            let r = ceremony::authentication_outcome(wa, state, response, stored, now);
            let strict = wa.strict_base64;
            let refused = |e: ErrorView| Err::<AuthSuccessView, ErrorView>(e);
            let expired = state.created_at != 0 && now - state.created_at > 300;
            let id = encoding::field_decoding(response.id, strict);
            let allowed = state.allow_credentials.len() == 0 || exists|i: int|
                0 <= i < state.allow_credentials.len() && #[trigger] state.allow_credentials[i]
                    == id->Ok_0;
            let user_known = state.user_handle is Some;
            let handle = encoding::field_decoding(response.user_handle->0, strict);
            let client = client_data::validated(
                response.client_data_json,
                "webauthn.get"@,
                state.challenge,
                wa.origin,
                strict,
            );
            let bytes = encoding::field_decoding(response.authenticator_data, strict);
            let data = auth_data::parsed(bytes->Ok_0);
            let key = cose::key_of_bytes(stored.public_key_cose);
            let sig = encoding::field_decoding(response.signature, strict);
            let msg = bytes->Ok_0 + crypto::sha256(client->Ok_0);
            let signed = match key->Ok_0 {
                CoseKeyView::Es256 { x, y } => crypto::es256_valid(
                    seq![0x04u8] + x + y,
                    msg,
                    sig->Ok_0,
                ),
                CoseKeyView::Ed25519 { key: k } => sig->Ok_0.len() == 64 && crypto::ed25519_valid(
                    k,
                    msg,
                    sig->Ok_0,
                ),
            };
            let count = data->Ok_0.sign_count;
            if expired {
                r == refused(
                    ErrorView::CeremonyExpired {
                        age_secs: (now - state.created_at) as u64,
                        max_secs: 300,
                    },
                )
            } else if id is Err {
                r == refused(id->Err_0)
            } else if !allowed || id->Ok_0 != stored.id {
                r == refused(ErrorView::BadSignature)
            } else if user_known && response.user_handle is None && wa.require_user_handle {
                r == refused(ErrorView::UserHandleMismatch)
            } else if user_known && response.user_handle is Some && handle is Err {
                r == refused(handle->Err_0)
            } else if user_known && response.user_handle is Some && handle->Ok_0
                != state.user_handle->0 {
                r == refused(ErrorView::UserHandleMismatch)
            } else if client is Err {
                r == refused(client->Err_0)
            } else if bytes is Err {
                r == refused(bytes->Err_0)
            } else if data is Err {
                r == refused(data->Err_0)
            } else if data->Ok_0.rp_id_hash != crypto::sha256(vstd::utf8::encode_utf8(wa.rp_id)) {
                r == refused(ErrorView::RpIdHashMismatch)
            } else if data->Ok_0.flags & 0x01 == 0 {
                r == refused(ErrorView::UserNotPresent)
            } else if wa.require_uv && data->Ok_0.flags & 0x04 == 0 {
                r == refused(ErrorView::UserNotVerified)
            } else if key is Err {
                r == refused(key->Err_0)
            } else if sig is Err {
                r == refused(sig->Err_0)
            } else if !signed {
                r == refused(ErrorView::BadSignature)
            } else if !(stored.counter < count || (stored.counter == 0 && count == 0)) {
                r == refused(ErrorView::CounterReplay { stored: stored.counter, new: count })
            } else {
                r == Ok::<AuthSuccessView, ErrorView>(
                    AuthSuccessView {
                        credential_id: stored.id,
                        new_counter: count,
                        user_verified: data->Ok_0.flags & 0x04 != 0,
                    },
                )
            }
        }),
{
    let bytes = encoding::field_decoding(response.authenticator_data, wa.strict_base64)->Ok_0;
    law_flag_bits(auth_data::parsed(bytes)->Ok_0.flags);
}

/// Client data are accepted exactly if they hold the expected type, challenge
/// and origin; the first that differs is reported, with what was found. What
/// is returned are the bytes that the field encodes.
pub proof fn law_client_data_decided(
    field: Seq<char>,
    registration: bool,
    challenge: Seq<u8>,
    origin: Seq<char>,
    strict: bool,
)
    ensures
        ({
            let kind = if registration {
                "webauthn.create"@
            } else {
                "webauthn.get"@
            };
            let r = client_data::validated(field, kind, challenge, origin, strict);
            let refused = |e: ErrorView| Err::<Seq<u8>, ErrorView>(e);
            let raw = encoding::field_decoding(field, strict);
            let client = client_data::parsed(raw->Ok_0);
            let got = encoding::field_decoding(client->Ok_0.challenge, strict);
            if raw is Err {
                r == refused(raw->Err_0)
            } else if client is Err {
                r == refused(client->Err_0)
            } else if client->Ok_0.kind != kind {
                r == refused(
                    ErrorView::ClientDataType { expected: kind, actual: client->Ok_0.kind },
                )
            } else if got is Err {
                r == refused(got->Err_0)
            } else if got->Ok_0 != challenge {
                r == refused(ErrorView::ChallengeMismatch)
            } else if client->Ok_0.origin != origin {
                r == refused(
                    ErrorView::OriginMismatch { expected: origin, actual: client->Ok_0.origin },
                )
            } else {
                r == raw
            }
        }),
        client_data::TYPE_REGISTER@ == "webauthn.create"@,
        client_data::TYPE_AUTHENTICATE@ == "webauthn.get"@,
{
    reveal_strlit("webauthn.create");
    reveal_strlit("webauthn.get");
    assert("webauthn.create"@.len() != "webauthn.get"@.len());
}

/// The check of client data that were read says the same.
pub proof fn law_client_data_check(
    client: ClientDataView,
    registration: bool,
    challenge: Seq<u8>,
    origin: Seq<char>,
    strict: bool,
)
    ensures
        ({
            let kind = if registration {
                "webauthn.create"@
            } else {
                "webauthn.get"@
            };
            let r = client_data::checked(client, kind, challenge, origin, strict);
            let refused = |e: ErrorView| Err::<(), ErrorView>(e);
            let got = encoding::field_decoding(client.challenge, strict);
            if client.kind != kind {
                r == refused(ErrorView::ClientDataType { expected: kind, actual: client.kind })
            } else if got is Err {
                r == refused(got->Err_0)
            } else if got->Ok_0 != challenge {
                r == refused(ErrorView::ChallengeMismatch)
            } else if client.origin != origin {
                r == refused(ErrorView::OriginMismatch { expected: origin, actual: client.origin })
            } else {
                r == Ok::<(), ErrorView>(())
            }
        }),
{
    reveal_strlit("webauthn.create");
    reveal_strlit("webauthn.get");
    assert("webauthn.create"@.len() != "webauthn.get"@.len());
}

// ---------- RP IDs ---------------------------------------------------------

/// White space, character by character.
pub proof fn law_white_space(c: char)
    ensures
        types::white_space(c) <==> (0x9 <= c as u32 <= 0xd || c as u32 == 0x20 || c as u32 == 0x85
            || c as u32 == 0xa0 || c as u32 == 0x1680 || 0x2000 <= c as u32 <= 0x200a
            || 0x2028 <= c as u32 <= 0x2029 || c as u32 == 0x202f || c as u32 == 0x205f || c as u32
            == 0x3000),
{
}

/// Trimming takes white space off both ends and nothing else: what is left is
/// the part of the text between, and begins and ends with no white space.
pub proof fn law_trimming(s: Seq<char>) -> (at: (int, int))
    ensures
        0 <= at.0 <= at.1 <= s.len(),
        types::trimmed(s) == s.subrange(at.0, at.1),
        forall|i: int| 0 <= i < at.0 ==> types::white_space(#[trigger] s[i]),
        forall|i: int| at.1 <= i < s.len() ==> types::white_space(#[trigger] s[i]),
        at.0 < at.1 ==> !types::white_space(s[at.0]) && !types::white_space(s[at.1 - 1]),
    decreases s.len(),
{
    if s.len() > 0 && types::white_space(s[0]) {
        let back = s.drop_first();
        let (a, b) = law_trimming(back);
        assert(back.subrange(a, b) =~= s.subrange(a + 1, b + 1));
        assert forall|i: int| 0 <= i < a + 1 implies types::white_space(#[trigger] s[i]) by {
            if i > 0 {
                assert(back[i - 1] == s[i]);
            }
        }
        assert forall|i: int| b + 1 <= i < s.len() implies types::white_space(
            #[trigger] s[i],
        ) by {
            assert(back[i - 1] == s[i]);
        }
        (a + 1, b + 1)
    } else if s.len() > 0 && types::white_space(s[s.len() - 1]) {
        let front = s.drop_last();
        let (a, b) = law_trimming(front);
        assert(front.subrange(a, b) =~= s.subrange(a, b));
        assert forall|i: int| b <= i < s.len() implies types::white_space(#[trigger] s[i]) by {
            if i < s.len() - 1 {
                assert(front[i] == s[i]);
            }
        }
        assert forall|i: int| 0 <= i < a implies types::white_space(#[trigger] s[i]) by {
            assert(front[i] == s[i]);
        }
        (a, b)
    } else {
        assert(s.subrange(0, s.len() as int) =~= s);
        (0, s.len() as int)
    }
}

/// The RP ID in a text: the host, if the text is a URL; the text itself, if it
/// is no URL and could be a host name. White space around it does not count.
pub proof fn law_rp_id(input: Seq<char>)
    ensures
        ({
            let s = types::trimmed(input);
            let r = types::rp_id_of(input);
            let is_url = (exists|i: int| 0 <= i < s.len() && #[trigger] s[i] == ':')
                && types::url_host(s) is Some;
            let foreign = exists|i: int|
                0 <= i < s.len() && (types::white_space(#[trigger] s[i]) || s[i] == '@' || s[i]
                    == ':' || s[i] == '/' || s[i] == '?' || s[i] == '#');
            let refused = |t: Seq<char>| Err::<Seq<char>, ErrorView>(ErrorView::Internal(t));
            if s.len() == 0 {
                r == refused("RP ID is empty"@)
            } else if is_url {
                match types::url_host(s)->0 {
                    Some(host) => r == Ok::<Seq<char>, ErrorView>(host),
                    None => r == refused("URL has no host component"@),
                }
            } else if foreign {
                r == refused(
                    "RP ID is not a bare hostname (contains scheme/port/path/userinfo)"@,
                )
            } else {
                r == Ok::<Seq<char>, ErrorView>(s)
            }
        }),
{
    let s = types::trimmed(input);
    if exists|i: int|
        0 <= i < s.len() && (types::white_space(#[trigger] s[i]) || s[i] == '@' || s[i] == ':'
            || s[i] == '/' || s[i] == '?' || s[i] == '#') {
        let i = choose|i: int|
            0 <= i < s.len() && (types::white_space(#[trigger] s[i]) || s[i] == '@' || s[i] == ':'
                || s[i] == '/' || s[i] == '?' || s[i] == '#');
        assert(types::not_in_host(s[i]));
    }
    if s.contains(':') {
        let i = choose|i: int| 0 <= i < s.len() && s[i] == ':';
        assert(s[i] == ':');
    }
}

/// The same, given what the `url` crate made of a trimmed text.
pub proof fn law_rp_id_given_host(s: Seq<char>, host: Option<Option<Seq<char>>>)
    requires
        s.len() > 0,
    ensures
        host matches Some(Some(h)) ==> types::rp_id_in(s, host) == Ok::<Seq<char>, ErrorView>(h),
        host matches Some(None) ==> types::rp_id_in(s, host) == Err::<Seq<char>, ErrorView>(
            ErrorView::Internal("URL has no host component"@),
        ),
        host is None ==> (types::rp_id_in(s, host) == Ok::<Seq<char>, ErrorView>(s) <==> forall|
            i: int,
        |
            0 <= i < s.len() ==> !(types::white_space(#[trigger] s[i]) || s[i] == '@' || s[i] == ':'
                || s[i] == '/' || s[i] == '?' || s[i] == '#')),
        host is None && types::rp_id_in(s, host) is Err ==> types::rp_id_in(s, host) == Err::<
            Seq<char>,
            ErrorView,
        >(
            ErrorView::Internal(
                "RP ID is not a bare hostname (contains scheme/port/path/userinfo)"@,
            ),
        ),
        types::rp_id_in(Seq::empty(), host) == Err::<Seq<char>, ErrorView>(
            ErrorView::Internal("RP ID is empty"@),
        ),
{
    if exists|i: int| 0 <= i < s.len() && types::not_in_host(#[trigger] s[i]) {
        let i = choose|i: int| 0 <= i < s.len() && types::not_in_host(#[trigger] s[i]);
        assert(types::not_in_host(s[i]));
    } else {
        assert forall|i: int| 0 <= i < s.len() implies !(types::white_space(#[trigger] s[i])
            || s[i] == '@' || s[i] == ':' || s[i] == '/' || s[i] == '?' || s[i] == '#') by {
            assert(!types::not_in_host(s[i]));
        }
    }
}

} // verus!
