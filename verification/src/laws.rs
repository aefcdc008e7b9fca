//! What holds of the library as a whole.
//!
//! Each proof function states one law over the spec functions that the
//! contracts of the executable functions use.

use vstd::prelude::*;
use vstd::string::*;
use crate::attestation::{self, ParsedAttestationView};
use crate::auth_data::{self, AuthenticatorDataView};
use crate::cbor::{self, CborTree};
use crate::ceremony::{self, ALLOWED_REGISTRATION_ALGS, WebauthnView};
use crate::client_data::{self, ClientDataView, TYPE_AUTHENTICATE, TYPE_REGISTER};
use crate::cose::{self, ALG_ES256, CoseKeyView};
use crate::crypto;
use crate::encoding::{self, Flavour};
use crate::error::ErrorView;
use crate::json;
use crate::types::{
    self, AuthSuccessView, AuthenticationResponseView, AuthenticationStateView,
    PasskeyCredentialView, RegistrationResponseView, RegistrationStateView,
};
use crate::x509::{self, AttestationCertView, CertificateView};

verus! {

// ---------- Base64 ---------------------------------------------------------

/// The lenient decoder gives back what was encoded, in all four flavours.
pub proof fn law_lenient_round_trip(f: Flavour, b: Seq<u8>)
    ensures
        encoding::lenient_decoding(encoding::encoded(f, b)) == Ok::<Seq<u8>, ErrorView>(b),
{
    let s = encoding::encoded(f, b);
    encoding::lemma_decoded_as(f, b);
    law_one_reading(Flavour::UrlNoPad, s, f, b);
    law_one_reading(Flavour::UrlPad, s, f, b);
    law_one_reading(Flavour::StandardNoPad, s, f, b);
    law_one_reading(Flavour::StandardPad, s, f, b);
}

/// A text that decodes in two flavours decodes to the same bytes in both.
pub proof fn law_one_reading(f: Flavour, s: Seq<char>, g: Flavour, b: Seq<u8>)
    requires
        encoding::encoded(g, b) == s,
    ensures
        encoding::decoded_as(f, s) matches Some(c) ==> c == b,
{
    if let Some(c) = encoding::decoded_as(f, s) {
        assert(encoding::encoded(f, c) == s);
        encoding::lemma_encoded_injective(f, c, g, b);
    }
}

/// The strict decoder gives back what was encoded without padding in the
/// url-safe alphabet.
pub proof fn law_strict_round_trip(b: Seq<u8>)
    ensures
        encoding::strict_decoding(encoding::encoded(Flavour::UrlNoPad, b)) == Ok::<
            Seq<u8>,
            ErrorView,
        >(b),
{
    encoding::lemma_decoded_as(Flavour::UrlNoPad, b);
}

/// The strict decoder takes no other text: whatever it accepts is the
/// url-safe encoding, without padding, of what it returns, and what it
/// refuses is reported as bad base64.
pub proof fn law_strict_takes_nothing_else(s: Seq<char>)
    ensures
        match encoding::strict_decoding(s) {
            Ok(b) => encoding::encoded(Flavour::UrlNoPad, b) == s,
            Err(e) => e is Base64 && forall|b: Seq<u8>|
                encoding::encoded(Flavour::UrlNoPad, b) != s,
        },
{
}

/// The lenient decoder takes no text that is not base64 in one of the four
/// flavours.
pub proof fn law_lenient_takes_nothing_else(s: Seq<char>)
    ensures
        match encoding::lenient_decoding(s) {
            Ok(b) => exists|f: Flavour| encoding::encoded(f, b) == s,
            Err(e) => e is Base64 && forall|f: Flavour, b: Seq<u8>|
                encoding::encoded(f, b) != s,
        },
{
    if let Ok(b) = encoding::lenient_decoding(s) {
        assert(encoding::encoded(Flavour::UrlNoPad, b) == s || encoding::encoded(
            Flavour::UrlPad,
            b,
        ) == s || encoding::encoded(Flavour::StandardNoPad, b) == s || encoding::encoded(
            Flavour::StandardPad,
            b,
        ) == s);
    } else {
        assert forall|f: Flavour, b: Seq<u8>| encoding::encoded(f, b) != s by {
            if encoding::encoded(f, b) == s {
                encoding::lemma_decoded_as(f, b);
            }
        }
    }
}

/// What the strict decoder accepts, the lenient one reads the same way.
pub proof fn law_strict_within_lenient(s: Seq<char>)
    requires
        encoding::strict_decoding(s) is Ok,
    ensures
        encoding::lenient_decoding(s) == encoding::strict_decoding(s),
{
}

// ---------- Starting a ceremony --------------------------------------------

/// The challenge that the browser is sent is the one in the state, in either
/// decoding mode; and so is the user handle, and so are the IDs of the
/// credentials that are excluded.
pub proof fn law_registration_request_decodes(
    wa: WebauthnView,
    challenge: Seq<u8>,
    user_id: Seq<u8>,
    name: Seq<char>,
    display_name: Seq<char>,
    existing: Seq<Seq<u8>>,
    strict: bool,
)
    ensures
        ({
            let request = ceremony::registration_request(
                wa,
                challenge,
                user_id,
                name,
                display_name,
                existing,
            );
            &&& encoding::field_decoding(request.challenge, strict) == Ok::<Seq<u8>, ErrorView>(
                challenge,
            )
            &&& encoding::field_decoding(request.user_id, strict) == Ok::<Seq<u8>, ErrorView>(
                user_id,
            )
            &&& request.exclude_credentials.len() == existing.len()
            &&& forall|i: int|
                0 <= i < existing.len() ==> encoding::field_decoding(
                    #[trigger] request.exclude_credentials[i].id,
                    strict,
                ) == Ok::<Seq<u8>, ErrorView>(existing[i])
        }),
{
    lemma_field_round_trip(challenge, strict);
    lemma_field_round_trip(user_id, strict);
    assert forall|i: int| 0 <= i < existing.len() implies encoding::field_decoding(
        #[trigger] ceremony::bare_descriptors(existing)[i].id,
        strict,
    ) == Ok::<Seq<u8>, ErrorView>(existing[i]) by {
        lemma_field_round_trip(existing[i], strict);
    }
}

proof fn lemma_field_round_trip(b: Seq<u8>, strict: bool)
    ensures
        encoding::field_decoding(encoding::encoded(Flavour::UrlNoPad, b), strict) == Ok::<
            Seq<u8>,
            ErrorView,
        >(b),
{
    law_lenient_round_trip(Flavour::UrlNoPad, b);
    law_strict_round_trip(b);
}

/// The credentials that the browser is allowed to use are those in the
/// state, in the same order, whether or not their transports are named.
pub proof fn law_authentication_request_decodes(
    wa: WebauthnView,
    challenge: Seq<u8>,
    creds: Seq<PasskeyCredentialView>,
    strict: bool,
)
    ensures
        ({
            let ids = ceremony::ids_of(creds);
            let full = ceremony::authentication_request(
                wa,
                challenge,
                ceremony::full_descriptors(creds),
            );
            let bare = ceremony::authentication_request(
                wa,
                challenge,
                ceremony::bare_descriptors(ids),
            );
            &&& encoding::field_decoding(full.challenge, strict) == Ok::<Seq<u8>, ErrorView>(
                challenge,
            )
            &&& bare.challenge == full.challenge
            &&& full.allow_credentials.len() == bare.allow_credentials.len() == ids.len()
            &&& forall|i: int|
                #![trigger ids[i]]
                0 <= i < ids.len() ==> {
                    &&& encoding::field_decoding(full.allow_credentials[i].id, strict) == Ok::<
                        Seq<u8>,
                        ErrorView,
                    >(ids[i])
                    &&& bare.allow_credentials[i].id == full.allow_credentials[i].id
                }
        }),
{
    lemma_field_round_trip(challenge, strict);
    let ids = ceremony::ids_of(creds);
    assert forall|i: int| 0 <= i < ids.len() implies encoding::field_decoding(
        #[trigger] ceremony::full_descriptors(creds)[i].id,
        strict,
    ) == Ok::<Seq<u8>, ErrorView>(ids[i]) by {
        lemma_field_round_trip(ids[i], strict);
    }
}

/// The browser is told to require user verification exactly if the relying
/// party enforces it.
pub proof fn law_user_verification_token(wa: WebauthnView)
    ensures
        (wa.uv_token() == "required"@) == wa.require_uv,
        (wa.uv_token() == "preferred"@) == !wa.require_uv,
{
    reveal_strlit("required");
    reveal_strlit("preferred");
    assert("required"@.len() != "preferred"@.len());
}

// ---------- Client data ----------------------------------------------------

/// A browser that echoes the type, the challenge and the origin as it should
/// passes the check, in either decoding mode.
pub proof fn law_honest_client_data(
    kind: Seq<char>,
    challenge: Seq<u8>,
    origin: Seq<char>,
    strict: bool,
)
    ensures
        client_data::checked(
            ClientDataView {
                kind,
                challenge: encoding::encoded(Flavour::UrlNoPad, challenge),
                origin,
            },
            kind,
            challenge,
            origin,
            strict,
        ) == Ok::<(), ErrorView>(()),
{
    lemma_field_round_trip(challenge, strict);
}

/// Client data that are accepted hold the expected type, challenge and
/// origin, and what is returned is what the field encodes.
pub proof fn law_client_data_sound(
    encoded: Seq<char>,
    kind: Seq<char>,
    challenge: Seq<u8>,
    origin: Seq<char>,
    strict: bool,
)
    requires
        client_data::validated(encoded, kind, challenge, origin, strict) is Ok,
    ensures
        ({
            let raw = client_data::validated(encoded, kind, challenge, origin, strict)->Ok_0;
            &&& encoding::field_decoding(encoded, strict) == Ok::<Seq<u8>, ErrorView>(raw)
            &&& client_data::parsed(raw) is Ok
            &&& client_data::parsed(raw)->Ok_0.kind == kind
            &&& encoding::field_decoding(client_data::parsed(raw)->Ok_0.challenge, strict) == Ok::<
                Seq<u8>,
                ErrorView,
            >(challenge)
            &&& client_data::parsed(raw)->Ok_0.origin == origin
        }),
{
}

/// Client data that answer one challenge are refused for any other.
pub proof fn law_client_data_bound_to_challenge(
    encoded: Seq<char>,
    kind: Seq<char>,
    challenge: Seq<u8>,
    other: Seq<u8>,
    origin: Seq<char>,
    strict: bool,
)
    requires
        client_data::validated(encoded, kind, challenge, origin, strict) is Ok,
        other != challenge,
    ensures
        client_data::validated(encoded, kind, other, origin, strict) == Err::<Seq<u8>, ErrorView>(
            ErrorView::ChallengeMismatch,
        ),
{
}

/// Client data from one origin are refused for any other.
pub proof fn law_client_data_bound_to_origin(
    encoded: Seq<char>,
    kind: Seq<char>,
    challenge: Seq<u8>,
    origin: Seq<char>,
    other: Seq<char>,
    strict: bool,
)
    requires
        client_data::validated(encoded, kind, challenge, origin, strict) is Ok,
        other != origin,
    ensures
        client_data::validated(encoded, kind, challenge, other, strict) == Err::<
            Seq<u8>,
            ErrorView,
        >(ErrorView::OriginMismatch { expected: other, actual: origin }),
{
}

/// Client data of a registration are never taken for those of an
/// authentication, nor the other way round.
pub proof fn law_client_data_bound_to_ceremony(
    encoded: Seq<char>,
    challenge: Seq<u8>,
    other_challenge: Seq<u8>,
    origin: Seq<char>,
    strict: bool,
)
    ensures
        client_data::validated(encoded, TYPE_REGISTER@, challenge, origin, strict) is Ok
            ==> client_data::validated(
            encoded,
            TYPE_AUTHENTICATE@,
            other_challenge,
            origin,
            strict,
        ) == Err::<Seq<u8>, ErrorView>(
            ErrorView::ClientDataType { expected: "webauthn.get"@, actual: "webauthn.create"@ },
        ),
        client_data::validated(encoded, TYPE_AUTHENTICATE@, challenge, origin, strict) is Ok
            ==> client_data::validated(
            encoded,
            TYPE_REGISTER@,
            other_challenge,
            origin,
            strict,
        ) == Err::<Seq<u8>, ErrorView>(
            ErrorView::ClientDataType { expected: "webauthn.create"@, actual: "webauthn.get"@ },
        ),
{
    lemma_ceremony_types_differ();
}

proof fn lemma_ceremony_types_differ()
    ensures
        TYPE_REGISTER@ != TYPE_AUTHENTICATE@,
        TYPE_REGISTER@ == "webauthn.create"@,
        TYPE_AUTHENTICATE@ == "webauthn.get"@,
{
    reveal_strlit("webauthn.create");
    reveal_strlit("webauthn.get");
    assert("webauthn.create"@.len() != "webauthn.get"@.len());
}

/// What is accepted under strict decoding is accepted, with the same result,
/// under lenient decoding.
pub proof fn law_client_data_strict_within_lenient(
    encoded: Seq<char>,
    kind: Seq<char>,
    challenge: Seq<u8>,
    origin: Seq<char>,
)
    requires
        client_data::validated(encoded, kind, challenge, origin, true) is Ok,
    ensures
        client_data::validated(encoded, kind, challenge, origin, false)
            == client_data::validated(encoded, kind, challenge, origin, true),
{
}

// ---------- Age ------------------------------------------------------------

/// A ceremony older than the ceiling is refused as expired, whatever the
/// answer to it; one of unknown age never is.
pub proof fn law_expired_ceremony_refused(
    wa: WebauthnView,
    registration: RegistrationStateView,
    registration_response: RegistrationResponseView,
    authentication: AuthenticationStateView,
    authentication_response: AuthenticationResponseView,
    stored: PasskeyCredentialView,
    now: u64,
)
    ensures
        registration.created_at != 0 && now > registration.created_at + 300
            ==> ceremony::registration_outcome(
            wa,
            registration,
            registration_response,
            now,
        ) == Err::<PasskeyCredentialView, ErrorView>(
            ErrorView::CeremonyExpired {
                age_secs: (now - registration.created_at) as u64,
                max_secs: 300,
            },
        ),
        authentication.created_at != 0 && now > authentication.created_at + 300
            ==> ceremony::authentication_outcome(
            wa,
            authentication,
            authentication_response,
            stored,
            now,
        ) == Err::<AuthSuccessView, ErrorView>(
            ErrorView::CeremonyExpired {
                age_secs: (now - authentication.created_at) as u64,
                max_secs: 300,
            },
        ),
{
}

/// Within the ceiling, and always for a ceremony of unknown age, the outcome
/// does not depend on the time.
pub proof fn law_time_matters_only_for_expiry(
    wa: WebauthnView,
    registration: RegistrationStateView,
    registration_response: RegistrationResponseView,
    authentication: AuthenticationStateView,
    authentication_response: AuthenticationResponseView,
    stored: PasskeyCredentialView,
    now: u64,
    later: u64,
)
    ensures
        registration.created_at == 0 || (now <= registration.created_at + 300
            && later <= registration.created_at + 300)
            ==> ceremony::registration_outcome(wa, registration, registration_response, now)
            == ceremony::registration_outcome(wa, registration, registration_response, later),
        authentication.created_at == 0 || (now <= authentication.created_at
            + 300 && later <= authentication.created_at + 300)
            ==> ceremony::authentication_outcome(
            wa,
            authentication,
            authentication_response,
            stored,
            now,
        ) == ceremony::authentication_outcome(
            wa,
            authentication,
            authentication_response,
            stored,
            later,
        ),
{
}

/// A ceremony with a known start is refused for its age exactly if its state
/// counts as expired at the ceiling.
pub proof fn law_expiry_helper_agrees(created_at: u64, now: u64)
    requires
        created_at != 0,
    ensures
        ceremony::age_verdict(created_at, now) is Err <==> types::age_at(created_at, now)
            > 300,
{
}

// ---------- Registration ---------------------------------------------------

/// A credential comes out of a registration only if everything about the
/// answer is right, and it is the credential in the authenticator data:
///
/// - the ceremony is not expired;
/// - under strict decoding, the ID in the answer is strictly encoded, too;
/// - the client data are those of a registration, with the challenge that
///   was issued and the configured origin;
/// - the authenticator data are for this RP ID, the user was present, and
///   verified if that is required;
/// - the key is of an advertised algorithm;
/// - the attestation statement holds over the data and the client data.
pub proof fn law_registration_sound(
    wa: WebauthnView,
    state: RegistrationStateView,
    response: RegistrationResponseView,
    now: u64,
)
    requires
        ceremony::registration_outcome(wa, state, response, now) is Ok,
    ensures
        ({
            let credential = ceremony::registration_outcome(wa, state, response, now)->Ok_0;
            let raw = encoding::field_decoding(response.client_data_json, wa.strict_base64)->Ok_0;
            let client = client_data::parsed(raw)->Ok_0;
            let att = attestation::parsed(
                encoding::field_decoding(response.attestation_object, wa.strict_base64)->Ok_0,
            )->Ok_0;
            let attested = att.auth_data.attested->0;
            let key = cose::key_of_bytes(attested.public_key_cose)->Ok_0;
            &&& state.created_at != 0 ==> now <= state.created_at + 300
            &&& wa.strict_base64 ==> encoding::strict_decoding(response.id) is Ok
            &&& encoding::field_decoding(response.client_data_json, wa.strict_base64) is Ok
            &&& client_data::parsed(raw) is Ok
            &&& client.kind == "webauthn.create"@
            &&& encoding::field_decoding(client.challenge, wa.strict_base64) == Ok::<
                Seq<u8>,
                ErrorView,
            >(state.challenge)
            &&& client.origin == wa.origin
            &&& encoding::field_decoding(response.attestation_object, wa.strict_base64) is Ok
            &&& attestation::parsed(
                encoding::field_decoding(response.attestation_object, wa.strict_base64)->Ok_0,
            ) is Ok
            &&& att.auth_data.rp_id_hash == crypto::sha256(vstd::utf8::encode_utf8(wa.rp_id))
            &&& att.auth_data.flags & 0x01 != 0
            &&& wa.require_uv ==> (att.auth_data.flags & 0x04 != 0)
            &&& att.auth_data.attested is Some
            &&& cose::key_of_bytes(attested.public_key_cose) is Ok
            &&& ALLOWED_REGISTRATION_ALGS@.contains(key.alg())
            &&& attestation::statement_verdict(att, key, crypto::sha256(raw)) == Ok::<
                (),
                ErrorView,
            >(())
            &&& credential.id == attested.credential_id
            &&& credential.public_key_cose == attested.public_key_cose
            &&& credential.aaguid == attested.aaguid
            &&& credential.counter == att.auth_data.sign_count
            &&& credential.transports == response.transports
        }),
{
    crate::part_laws::law_registration_decided(wa, state, response, now);
    crate::part_laws::law_client_data_decided(
        response.client_data_json,
        true,
        state.challenge,
        wa.origin,
        wa.strict_base64,
    );
    let bytes = encoding::field_decoding(response.attestation_object, wa.strict_base64)->Ok_0;
    let att = attestation::parsed(bytes)->Ok_0;
    law_every_key_is_advertised(
        cose::key_of_bytes(att.auth_data.attested->0.public_key_cose)->Ok_0,
    );
}

/// A registration in which everything is right succeeds. `raw`, `client`,
/// `bytes`, `att` and `key` are what the answer holds.
pub proof fn law_registration_owed(
    wa: WebauthnView,
    state: RegistrationStateView,
    response: RegistrationResponseView,
    now: u64,
    raw: Seq<u8>,
    client: ClientDataView,
    bytes: Seq<u8>,
    att: ParsedAttestationView,
    key: CoseKeyView,
)
    requires
        state.created_at == 0 || now <= state.created_at + 300,
        wa.strict_base64 ==> encoding::strict_decoding(response.id) is Ok,
        encoding::field_decoding(response.client_data_json, wa.strict_base64) == Ok::<
            Seq<u8>,
            ErrorView,
        >(raw),
        client_data::parsed(raw) == Ok::<ClientDataView, ErrorView>(client),
        client.kind == "webauthn.create"@,
        encoding::field_decoding(client.challenge, wa.strict_base64) == Ok::<Seq<u8>, ErrorView>(
            state.challenge,
        ),
        client.origin == wa.origin,
        encoding::field_decoding(response.attestation_object, wa.strict_base64) == Ok::<
            Seq<u8>,
            ErrorView,
        >(bytes),
        attestation::parsed(bytes) == Ok::<ParsedAttestationView, ErrorView>(att),
        att.auth_data.rp_id_hash == crypto::sha256(vstd::utf8::encode_utf8(wa.rp_id)),
        att.auth_data.flags & 0x01 != 0,
        wa.require_uv ==> (att.auth_data.flags & 0x04 != 0),
        att.auth_data.attested is Some,
        cose::key_of_bytes(att.auth_data.attested->0.public_key_cose) == Ok::<
            CoseKeyView,
            ErrorView,
        >(key),
        attestation::statement_verdict(att, key, crypto::sha256(raw)) is Ok,
    ensures
        ceremony::registration_outcome(wa, state, response, now) == Ok::<
            PasskeyCredentialView,
            ErrorView,
        >(
            PasskeyCredentialView {
                id: att.auth_data.attested->0.credential_id,
                public_key_cose: att.auth_data.attested->0.public_key_cose,
                counter: att.auth_data.sign_count,
                transports: response.transports,
                aaguid: att.auth_data.attested->0.aaguid,
            },
        ),
{
    crate::part_laws::law_registration_decided(wa, state, response, now);
    crate::part_laws::law_client_data_decided(
        response.client_data_json,
        true,
        state.challenge,
        wa.origin,
        wa.strict_base64,
    );
}

/// Every algorithm that a key can have is an advertised one, so that what is
/// offered to the browser is what is accepted from it.
pub proof fn law_every_key_is_advertised(key: CoseKeyView)
    ensures
        ALLOWED_REGISTRATION_ALGS@.contains(key.alg()),
        exists|i: int|
            0 <= i < ceremony::advertised_params().len()
                && #[trigger] ceremony::advertised_params()[i].alg == key.alg(),
{
    let algs = ALLOWED_REGISTRATION_ALGS@;
    assert(algs[0] == cose::ALG_ES256 && algs[1] == cose::ALG_EDDSA);
    let i: int = if key.alg() == cose::ALG_ES256 {
        0
    } else {
        1
    };
    assert(algs[i] == key.alg());
    assert(ceremony::advertised_params()[i].alg == key.alg());
}

/// Under strict decoding an answer whose ID is not base64url without padding
/// is refused as bad base64, however good the rest is.
pub proof fn law_strict_registration_id(
    wa: WebauthnView,
    state: RegistrationStateView,
    response: RegistrationResponseView,
    now: u64,
)
    requires
        wa.strict_base64,
        ceremony::age_verdict(state.created_at, now) is Ok,
        forall|b: Seq<u8>| encoding::encoded(Flavour::UrlNoPad, b) != response.id,
    ensures
        ceremony::registration_outcome(wa, state, response, now) == Err::<
            PasskeyCredentialView,
            ErrorView,
        >(ErrorView::Base64(encoding::url_no_pad_fault(response.id))),
{
}

/// What is registered is fit to be stored and used: the ID is no longer than
/// WebAuthn allows, the AAGUID has 16 bytes, and the key parses again when an
/// assertion is checked, with an advertised algorithm.
pub proof fn law_registered_credential_is_usable(
    wa: WebauthnView,
    state: RegistrationStateView,
    response: RegistrationResponseView,
    now: u64,
)
    requires
        ceremony::registration_outcome(wa, state, response, now) is Ok,
    ensures
        ({
            let credential = ceremony::registration_outcome(wa, state, response, now)->Ok_0;
            &&& credential.id.len() <= 1023
            &&& credential.aaguid.len() == 16
            &&& cose::key_of_bytes(credential.public_key_cose) is Ok
            &&& ALLOWED_REGISTRATION_ALGS@.contains(
                cose::key_of_bytes(credential.public_key_cose)->Ok_0.alg(),
            )
        }),
{
}

/// A registration that passes with user verification required also passes,
/// with the same credential, without; and one that passes under strict
/// decoding passes under lenient decoding.
pub proof fn law_registration_tightening(
    wa: WebauthnView,
    state: RegistrationStateView,
    response: RegistrationResponseView,
    now: u64,
)
    ensures
        ({
            let tight = WebauthnView { require_uv: true, ..wa };
            let loose = WebauthnView { require_uv: false, ..wa };
            ceremony::registration_outcome(tight, state, response, now) is Ok
                ==> ceremony::registration_outcome(loose, state, response, now)
                == ceremony::registration_outcome(tight, state, response, now)
        }),
        ({
            let tight = WebauthnView { strict_base64: true, ..wa };
            let loose = WebauthnView { strict_base64: false, ..wa };
            ceremony::registration_outcome(tight, state, response, now) is Ok
                ==> ceremony::registration_outcome(loose, state, response, now)
                == ceremony::registration_outcome(tight, state, response, now)
        }),
{
    let tight = WebauthnView { strict_base64: true, ..wa };
    if ceremony::registration_outcome(tight, state, response, now) is Ok {
        law_client_data_strict_within_lenient(
            response.client_data_json,
            TYPE_REGISTER@,
            state.challenge,
            wa.origin,
        );
    }
}

/// The name of the relying party and the class of authenticator it asks for
/// play no part when a ceremony is finished; nor, at registration, does the
/// demand for user handles.
pub proof fn law_hints_do_not_decide(
    wa: WebauthnView,
    other: WebauthnView,
    registration: RegistrationStateView,
    registration_response: RegistrationResponseView,
    authentication: AuthenticationStateView,
    authentication_response: AuthenticationResponseView,
    stored: PasskeyCredentialView,
    now: u64,
)
    requires
        wa.rp_id == other.rp_id,
        wa.origin == other.origin,
        wa.require_uv == other.require_uv,
        wa.strict_base64 == other.strict_base64,
    ensures
        ceremony::registration_outcome(wa, registration, registration_response, now)
            == ceremony::registration_outcome(other, registration, registration_response, now),
        wa.require_user_handle == other.require_user_handle ==> ceremony::authentication_outcome(
            wa,
            authentication,
            authentication_response,
            stored,
            now,
        ) == ceremony::authentication_outcome(
            other,
            authentication,
            authentication_response,
            stored,
            now,
        ),
{
}

// ---------- Attestation ----------------------------------------------------

/// The statement of the format `none` is not looked at.
pub proof fn law_none_attestation_accepted(
    att: ParsedAttestationView,
    key: CoseKeyView,
    client_data_hash: Seq<u8>,
)
    requires
        att.fmt == "none"@,
    ensures
        attestation::statement_verdict(att, key, client_data_hash) == Ok::<(), ErrorView>(()),
{
}

/// Any format other than the three supported ones is refused by name.
pub proof fn law_other_attestation_refused(
    att: ParsedAttestationView,
    key: CoseKeyView,
    client_data_hash: Seq<u8>,
)
    requires
        att.fmt != "none"@,
        att.fmt != "packed"@,
        att.fmt != "fido-u2f"@,
    ensures
        attestation::statement_verdict(att, key, client_data_hash) == Err::<(), ErrorView>(
            ErrorView::Cbor("unsupported attestation fmt: "@ + att.fmt),
        ),
{
}

/// A self-attestation holds exactly if it names the algorithm of the
/// credential's key and that key signed the data and the client data.
pub proof fn law_self_attestation(
    att: ParsedAttestationView,
    stmt: attestation::PackedAttStmtView,
    key: CoseKeyView,
    client_data_hash: Seq<u8>,
)
    requires
        att.fmt == "packed"@,
        attestation::packed_statement(att.att_stmt) == Ok::<
            attestation::PackedAttStmtView,
            ErrorView,
        >(stmt),
        stmt.x5c is None,
    ensures
        attestation::statement_verdict(att, key, client_data_hash) is Ok <==> stmt.alg == key.alg()
            && (match key {
                CoseKeyView::Es256 { x, y } => crypto::es256_valid(
                    seq![0x04u8] + x + y,
                    att.auth_data_raw + client_data_hash,
                    stmt.sig,
                ),
                CoseKeyView::Ed25519 { key: k } => stmt.sig.len() == 64 && crypto::ed25519_valid(
                    k,
                    att.auth_data_raw + client_data_hash,
                    stmt.sig,
                ),
            }),
{
    lemma_formats_differ();
}

/// A `packed` statement with certificates holds exactly if it is for ES256,
/// the first certificate can be used, an AAGUID in that certificate is that
/// of the authenticator data, and the certificate's key signed the data and
/// the client data.
pub proof fn law_certified_attestation(
    att: ParsedAttestationView,
    stmt: attestation::PackedAttStmtView,
    key: CoseKeyView,
    client_data_hash: Seq<u8>,
)
    requires
        att.fmt == "packed"@,
        attestation::packed_statement(att.att_stmt) == Ok::<
            attestation::PackedAttStmtView,
            ErrorView,
        >(stmt),
        stmt.x5c is Some,
    ensures
        attestation::statement_verdict(att, key, client_data_hash) is Ok <==> {
            let leaf = x509::cert_of_der(stmt.x5c->0[0]);
            &&& stmt.alg == ALG_ES256
            &&& stmt.x5c->0.len() > 0
            &&& leaf is Ok
            &&& attestation::aaguid_agrees(leaf->Ok_0, att.auth_data)
            &&& crypto::es256_valid(
                leaf->Ok_0.p256_pubkey_sec1,
                att.auth_data_raw + client_data_hash,
                stmt.sig,
            )
        },
{
    lemma_formats_differ();
}

/// A certificate that names an AAGUID other than that of the authenticator
/// data is refused, however good the signature is.
pub proof fn law_foreign_aaguid_refused(
    att: ParsedAttestationView,
    leaf: AttestationCertView,
    msg: Seq<u8>,
    sig: Seq<u8>,
)
    requires
        leaf.aaguid is Some,
        att.auth_data.attested is Some,
        leaf.aaguid->0 != att.auth_data.attested->0.aaguid,
    ensures
        attestation::packed_leaf_verdict(att, leaf, msg, sig) == Err::<(), ErrorView>(
            ErrorView::Cbor("packed (x5c): cert AAGUID does not match authData"@),
        ),
{
}

/// A certificate whose AAGUID extension is malformed is refused. It never
/// passes for one without the extension: a certificate with the extension
/// that is accepted names the AAGUID in it.
pub proof fn law_malformed_aaguid_refused(c: CertificateView)
    requires
        c.extensions is Some,
        x509::first_extension(c.extensions->0, x509::OID_FIDO_AAGUID@) is Some,
    ensures
        ({
            let value = x509::first_extension(c.extensions->0, x509::OID_FIDO_AAGUID@)->0;
            let malformed = value.len() != 18 || value[0] != 0x04 || value[1] != 0x10;
            &&& malformed ==> x509::cert_of_parts(c) is Err
            &&& x509::cert_of_parts(c) is Ok ==> x509::cert_of_parts(c)->Ok_0.aaguid == Some(
                value.subrange(2, 18),
            )
        }),
{
}

/// A U2F statement holds exactly if the credential's key is an ES256 key,
/// the statement and its first certificate can be used, and the
/// certificate's key signed the U2F message, which binds the RP ID, the
/// client data, the credential's ID and its key together.
pub proof fn law_u2f_attestation(
    att: ParsedAttestationView,
    key: CoseKeyView,
    client_data_hash: Seq<u8>,
)
    requires
        att.fmt == "fido-u2f"@,
    ensures
        attestation::statement_verdict(att, key, client_data_hash) is Ok <==> {
            let stmt = attestation::u2f_statement(att.att_stmt);
            let leaf = x509::cert_of_der(stmt->Ok_0.x5c[0]);
            &&& key is Es256
            &&& stmt is Ok
            &&& leaf is Ok
            &&& att.auth_data.attested is Some
            &&& crypto::es256_valid(
                leaf->Ok_0.p256_pubkey_sec1,
                seq![0x00u8] + att.auth_data.rp_id_hash + client_data_hash
                    + att.auth_data.attested->0.credential_id + (seq![0x04u8] + key->x + key->y),
                stmt->Ok_0.sig,
            )
        },
{
    lemma_formats_differ();
}

proof fn lemma_formats_differ()
    ensures
        "none"@ != "packed"@,
        "none"@ != "fido-u2f"@,
        "packed"@ != "fido-u2f"@,
{
    reveal_strlit("none");
    reveal_strlit("packed");
    reveal_strlit("fido-u2f");
    assert("none"@.len() == 4 && "packed"@.len() == 6 && "fido-u2f"@.len() == 8);
}

// ---------- Authentication -------------------------------------------------

/// An authentication succeeds only if everything about the assertion is
/// right:
///
/// - the ceremony is not expired;
/// - the credential is the stored one, and among those that were allowed if
///   any were named;
/// - a user handle is that of the expected user, if there is one, and it is
///   there if that is required;
/// - the client data are those of an authentication, with the challenge that
///   was issued and the configured origin;
/// - the authenticator data are for this RP ID, the user was present, and
///   verified if that is required;
/// - the stored key signed the data and the hash of the client data;
/// - the counter increased, or is 0 on both sides.
pub proof fn law_authentication_sound(
    wa: WebauthnView,
    state: AuthenticationStateView,
    response: AuthenticationResponseView,
    stored: PasskeyCredentialView,
    now: u64,
)
    requires
        ceremony::authentication_outcome(wa, state, response, stored, now) is Ok,
    ensures
        ({
            let success = ceremony::authentication_outcome(wa, state, response, stored, now)->Ok_0;
            let raw = encoding::field_decoding(response.client_data_json, wa.strict_base64)->Ok_0;
            let client = client_data::parsed(raw)->Ok_0;
            let bytes = encoding::field_decoding(
                response.authenticator_data,
                wa.strict_base64,
            )->Ok_0;
            let data = auth_data::parsed(bytes)->Ok_0;
            let key = cose::key_of_bytes(stored.public_key_cose)->Ok_0;
            let sig = encoding::field_decoding(response.signature, wa.strict_base64)->Ok_0;
            &&& state.created_at != 0 ==> now <= state.created_at + 300
            &&& encoding::field_decoding(response.id, wa.strict_base64) == Ok::<
                Seq<u8>,
                ErrorView,
            >(stored.id)
            &&& state.allow_credentials.len() != 0 ==> state.allow_credentials.contains(stored.id)
            &&& state.user_handle is Some && response.user_handle is Some
                ==> encoding::field_decoding(response.user_handle->0, wa.strict_base64) == Ok::<
                Seq<u8>,
                ErrorView,
            >(state.user_handle->0)
            &&& state.user_handle is Some && wa.require_user_handle ==> response.user_handle is Some
            &&& encoding::field_decoding(response.client_data_json, wa.strict_base64) is Ok
            &&& client_data::parsed(raw) is Ok
            &&& client.kind == "webauthn.get"@
            &&& encoding::field_decoding(client.challenge, wa.strict_base64) == Ok::<
                Seq<u8>,
                ErrorView,
            >(state.challenge)
            &&& client.origin == wa.origin
            &&& encoding::field_decoding(response.authenticator_data, wa.strict_base64) is Ok
            &&& auth_data::parsed(bytes) is Ok
            &&& data.rp_id_hash == crypto::sha256(vstd::utf8::encode_utf8(wa.rp_id))
            &&& data.flags & 0x01 != 0
            &&& wa.require_uv ==> (data.flags & 0x04 != 0)
            &&& cose::key_of_bytes(stored.public_key_cose) is Ok
            &&& encoding::field_decoding(response.signature, wa.strict_base64) is Ok
            &&& (match key {
                CoseKeyView::Es256 { x, y } => crypto::es256_valid(
                    seq![0x04u8] + x + y,
                    bytes + crypto::sha256(raw),
                    sig,
                ),
                CoseKeyView::Ed25519 { key: k } => sig.len() == 64 && crypto::ed25519_valid(
                    k,
                    bytes + crypto::sha256(raw),
                    sig,
                ),
            })
            &&& data.sign_count > stored.counter || (data.sign_count == 0 && stored.counter == 0)
            &&& success.credential_id == stored.id
            &&& success.new_counter == data.sign_count
            &&& success.user_verified == (data.flags & 0x04 != 0)
        }),
{
    crate::part_laws::law_authentication_decided(wa, state, response, stored, now);
    crate::part_laws::law_client_data_decided(
        response.client_data_json,
        false,
        state.challenge,
        wa.origin,
        wa.strict_base64,
    );
}

/// An authentication in which everything is right succeeds. `raw`, `client`,
/// `bytes`, `data`, `key` and `sig` are what the answer and the stored
/// credential hold.
pub proof fn law_authentication_owed(
    wa: WebauthnView,
    state: AuthenticationStateView,
    response: AuthenticationResponseView,
    stored: PasskeyCredentialView,
    now: u64,
    raw: Seq<u8>,
    client: ClientDataView,
    bytes: Seq<u8>,
    data: AuthenticatorDataView,
    key: CoseKeyView,
    sig: Seq<u8>,
)
    requires
        state.created_at == 0 || now <= state.created_at + 300,
        encoding::field_decoding(response.id, wa.strict_base64) == Ok::<Seq<u8>, ErrorView>(
            stored.id,
        ),
        state.allow_credentials.len() == 0 || state.allow_credentials.contains(stored.id),
        state.user_handle is None || (match response.user_handle {
            Some(handle) => encoding::field_decoding(handle, wa.strict_base64) == Ok::<
                Seq<u8>,
                ErrorView,
            >(state.user_handle->0),
            None => !wa.require_user_handle,
        }),
        encoding::field_decoding(response.client_data_json, wa.strict_base64) == Ok::<
            Seq<u8>,
            ErrorView,
        >(raw),
        client_data::parsed(raw) == Ok::<ClientDataView, ErrorView>(client),
        client.kind == "webauthn.get"@,
        encoding::field_decoding(client.challenge, wa.strict_base64) == Ok::<Seq<u8>, ErrorView>(
            state.challenge,
        ),
        client.origin == wa.origin,
        encoding::field_decoding(response.authenticator_data, wa.strict_base64) == Ok::<
            Seq<u8>,
            ErrorView,
        >(bytes),
        auth_data::parsed(bytes) == Ok::<AuthenticatorDataView, ErrorView>(data),
        data.rp_id_hash == crypto::sha256(vstd::utf8::encode_utf8(wa.rp_id)),
        data.flags & 0x01 != 0,
        wa.require_uv ==> (data.flags & 0x04 != 0),
        cose::key_of_bytes(stored.public_key_cose) == Ok::<CoseKeyView, ErrorView>(key),
        encoding::field_decoding(response.signature, wa.strict_base64) == Ok::<
            Seq<u8>,
            ErrorView,
        >(sig),
        (match key {
                CoseKeyView::Es256 { x, y } => crypto::es256_valid(
                    seq![0x04u8] + x + y,
                    bytes + crypto::sha256(raw),
                    sig,
                ),
                CoseKeyView::Ed25519 { key: k } => sig.len() == 64 && crypto::ed25519_valid(
                    k,
                    bytes + crypto::sha256(raw),
                    sig,
                ),
            }),
        data.sign_count > stored.counter || (data.sign_count == 0 && stored.counter == 0),
    ensures
        ceremony::authentication_outcome(wa, state, response, stored, now) == Ok::<
            AuthSuccessView,
            ErrorView,
        >(
            AuthSuccessView {
                credential_id: stored.id,
                new_counter: data.sign_count,
                user_verified: (data.flags & 0x04 != 0),
            },
        ),
{
    crate::part_laws::law_authentication_decided(wa, state, response, stored, now);
    crate::part_laws::law_client_data_decided(
        response.client_data_json,
        false,
        state.challenge,
        wa.origin,
        wa.strict_base64,
    );
}

/// Once the stored counter is updated after a success, the same assertion is
/// not accepted again, at any time, unless the authenticator keeps no
/// counter.
pub proof fn law_replay_refused(
    wa: WebauthnView,
    state: AuthenticationStateView,
    response: AuthenticationResponseView,
    stored: PasskeyCredentialView,
    now: u64,
    later: u64,
)
    requires
        ceremony::authentication_outcome(wa, state, response, stored, now) is Ok,
        ceremony::authentication_outcome(wa, state, response, stored, now)->Ok_0.new_counter != 0,
    ensures
        ({
            let count = ceremony::authentication_outcome(
                wa,
                state,
                response,
                stored,
                now,
            )->Ok_0.new_counter;
            let updated = PasskeyCredentialView { counter: count, ..stored };
            let again = ceremony::authentication_outcome(wa, state, response, updated, later);
            &&& again is Err
            &&& ceremony::age_verdict(state.created_at, later) is Ok ==> again == Err::<
                AuthSuccessView,
                ErrorView,
            >(ErrorView::CounterReplay { stored: count, new: count })
        }),
{
}

/// The counter that a success hands out is larger than the stored one, or
/// both are 0. So a chain of successes, each with the counter of the one
/// before, never goes back.
pub proof fn law_counter_increases(
    wa: WebauthnView,
    state: AuthenticationStateView,
    response: AuthenticationResponseView,
    stored: PasskeyCredentialView,
    now: u64,
)
    requires
        ceremony::authentication_outcome(wa, state, response, stored, now) is Ok,
    ensures
        ({
            let count = ceremony::authentication_outcome(
                wa,
                state,
                response,
                stored,
                now,
            )->Ok_0.new_counter;
            stored.counter < count || (stored.counter == 0 && count == 0)
        }),
{
}

/// A credential that was not allowed, or is not the stored one, is refused
/// before anything of the assertion is looked at.
pub proof fn law_foreign_credential_refused(
    wa: WebauthnView,
    state: AuthenticationStateView,
    response: AuthenticationResponseView,
    stored: PasskeyCredentialView,
    now: u64,
    id: Seq<u8>,
)
    requires
        ceremony::age_verdict(state.created_at, now) is Ok,
        encoding::field_decoding(response.id, wa.strict_base64) == Ok::<Seq<u8>, ErrorView>(id),
        id != stored.id || (state.allow_credentials.len() != 0
            && !state.allow_credentials.contains(id)),
    ensures
        ceremony::authentication_outcome(wa, state, response, stored, now) == Err::<
            AuthSuccessView,
            ErrorView,
        >(ErrorView::BadSignature),
{
}

/// Where a user is expected, an assertion for another user is refused, and
/// so is one without a user handle if handles are required.
pub proof fn law_foreign_user_refused(
    wa: WebauthnView,
    state: AuthenticationStateView,
    response: AuthenticationResponseView,
    stored: PasskeyCredentialView,
    now: u64,
)
    requires
        ceremony::age_verdict(state.created_at, now) is Ok,
        encoding::field_decoding(response.id, wa.strict_base64) == Ok::<Seq<u8>, ErrorView>(
            stored.id,
        ),
        state.allow_credentials.len() == 0 || state.allow_credentials.contains(stored.id),
        state.user_handle is Some,
        match response.user_handle {
            Some(handle) => encoding::field_decoding(handle, wa.strict_base64) is Ok
                && encoding::field_decoding(handle, wa.strict_base64)->Ok_0
                != state.user_handle->0,
            None => wa.require_user_handle,
        },
    ensures
        ceremony::authentication_outcome(wa, state, response, stored, now) == Err::<
            AuthSuccessView,
            ErrorView,
        >(ErrorView::UserHandleMismatch),
{
}

/// Where no user is expected, neither the user handle nor the demand for one
/// makes a difference.
pub proof fn law_user_handle_unchecked_without_user(
    wa: WebauthnView,
    state: AuthenticationStateView,
    response: AuthenticationResponseView,
    handle: Option<Seq<char>>,
    require: bool,
    stored: PasskeyCredentialView,
    now: u64,
)
    requires
        state.user_handle is None,
    ensures
        ceremony::authentication_outcome(
            WebauthnView { require_user_handle: require, ..wa },
            state,
            AuthenticationResponseView { user_handle: handle, ..response },
            stored,
            now,
        ) == ceremony::authentication_outcome(wa, state, response, stored, now),
{
}

/// An authentication that passes with user verification required, under
/// strict decoding, or with user handles required, also passes without that,
/// with the same outcome.
pub proof fn law_authentication_tightening(
    wa: WebauthnView,
    state: AuthenticationStateView,
    response: AuthenticationResponseView,
    stored: PasskeyCredentialView,
    now: u64,
)
    ensures
        ({
            let tight = WebauthnView { require_uv: true, ..wa };
            let loose = WebauthnView { require_uv: false, ..wa };
            ceremony::authentication_outcome(tight, state, response, stored, now) is Ok
                ==> ceremony::authentication_outcome(loose, state, response, stored, now)
                == ceremony::authentication_outcome(tight, state, response, stored, now)
        }),
        ({
            let tight = WebauthnView { strict_base64: true, ..wa };
            let loose = WebauthnView { strict_base64: false, ..wa };
            ceremony::authentication_outcome(tight, state, response, stored, now) is Ok
                ==> ceremony::authentication_outcome(loose, state, response, stored, now)
                == ceremony::authentication_outcome(tight, state, response, stored, now)
        }),
        ({
            let tight = WebauthnView { require_user_handle: true, ..wa };
            let loose = WebauthnView { require_user_handle: false, ..wa };
            ceremony::authentication_outcome(tight, state, response, stored, now) is Ok
                ==> ceremony::authentication_outcome(loose, state, response, stored, now)
                == ceremony::authentication_outcome(tight, state, response, stored, now)
        }),
{
    let tight = WebauthnView { strict_base64: true, ..wa };
    if ceremony::authentication_outcome(tight, state, response, stored, now) is Ok {
        law_client_data_strict_within_lenient(
            response.client_data_json,
            TYPE_AUTHENTICATE@,
            state.challenge,
            wa.origin,
        );
    }
}

/// Under user verification an assertion or attestation without the flag is
/// refused as such, once it is known to be for this RP and of a present user.
pub proof fn law_unverified_user_refused(data: AuthenticatorDataView, rp_id_hash: Seq<u8>)
    requires
        data.rp_id_hash == rp_id_hash,
        data.flags & 0x01 != 0,
        data.flags & 0x04 == 0,
    ensures
        ceremony::auth_data_verdict(data, rp_id_hash, true) == Err::<(), ErrorView>(
            ErrorView::UserNotVerified,
        ),
        ceremony::auth_data_verdict(data, rp_id_hash, false) == Ok::<(), ErrorView>(()),
{
    crate::part_laws::law_flag_bits(data.flags);
}

/// The key that was registered is the one that decides on every later
/// assertion, whatever the configuration is by then.
pub proof fn law_registered_key_decides(
    wa: WebauthnView,
    state: RegistrationStateView,
    response: RegistrationResponseView,
    now: u64,
    later: WebauthnView,
    signature: Seq<char>,
    sig: Seq<u8>,
    msg: Seq<u8>,
)
    requires
        ceremony::registration_outcome(wa, state, response, now) is Ok,
        encoding::field_decoding(signature, later.strict_base64) == Ok::<Seq<u8>, ErrorView>(sig),
    ensures
        ({
            let credential = ceremony::registration_outcome(wa, state, response, now)->Ok_0;
            let key = cose::key_of_bytes(credential.public_key_cose)->Ok_0;
            ceremony::signature_verdict(later, credential.public_key_cose, signature, msg)
                == (if (match key {
                CoseKeyView::Es256 { x, y } => crypto::es256_valid(
                    seq![0x04u8] + x + y,
                    msg,
                    sig,
                ),
                CoseKeyView::Ed25519 { key: k } => sig.len() == 64 && crypto::ed25519_valid(
                    k,
                    msg,
                    sig,
                ),
            }) {
                Ok::<(), ErrorView>(())
            } else {
                Err::<(), ErrorView>(ErrorView::BadSignature)
            })
        }),
{
}

// ---------- Keys -----------------------------------------------------------

/// The coordinates of a key that parses have 32 bytes each.
pub proof fn law_key_shape(bytes: Seq<u8>)
    requires
        cose::key_of_bytes(bytes) is Ok,
    ensures
        match cose::key_of_bytes(bytes)->Ok_0 {
            CoseKeyView::Es256 { x, y } => x.len() == 32 && y.len() == 32,
            CoseKeyView::Ed25519 { key } => key.len() == 32,
        },
{
}

/// A key for any algorithm other than ES256 and EdDSA, such as RS256, is
/// refused by that algorithm. Integers of 64 bits are reported as they are.
pub proof fn law_other_algorithms_refused(entries: Seq<(CborTree, CborTree)>)
    requires
        cbor::as_integer(cbor::at_label(entries, cose::KTY)) is Some,
        cbor::as_integer(cbor::at_label(entries, cose::ALG)) is Some,
        cbor::as_integer(cbor::at_label(entries, cose::ALG))->0 != cose::ALG_ES256,
        cbor::as_integer(cbor::at_label(entries, cose::ALG))->0 != cose::ALG_EDDSA,
    ensures
        cose::key_of_entries(entries) == Err::<CoseKeyView, ErrorView>(
            ErrorView::UnsupportedAlg(
                cbor::low_64(cbor::as_integer(cbor::at_label(entries, cose::ALG))->0),
            ),
        ),
        forall|i: i128| i64::MIN <= i <= i64::MAX ==> #[trigger] cbor::low_64(i) == i,
{
}

/// Entries of a COSE key with labels that are not known, or with keys that
/// are not integers, make no difference.
pub proof fn law_unknown_key_parameters_ignored(
    entries: Seq<(CborTree, CborTree)>,
    entry: (CborTree, CborTree),
)
    requires
        entry.0 matches CborTree::Integer(i) ==> {
            &&& i != cose::KTY
            &&& i != cose::ALG
            &&& i != cose::CRV
            &&& i != cose::X
            &&& i != cose::Y
        },
    ensures
        cose::key_of_entries(entries.push(entry)) == cose::key_of_entries(entries),
{
    assert(entries.push(entry).drop_last() =~= entries);
}

// ---------- Authenticator data ---------------------------------------------

/// Authenticator data without attested credential data are read as they are
/// laid out: hash, flags, big-endian counter. What stands behind is left
/// alone unless extensions are announced.
pub proof fn law_auth_data_layout(hash: Seq<u8>, flags: u8, count: Seq<u8>, rest: Seq<u8>)
    requires
        hash.len() == 32,
        count.len() == 4,
        flags & 0x40 == 0,
        rest.len() == 0 || flags & 0x80 == 0,
    ensures
        auth_data::parsed(hash + seq![flags] + count + rest) == Ok::<
            AuthenticatorDataView,
            ErrorView,
        >(
            AuthenticatorDataView {
                rp_id_hash: hash,
                flags,
                sign_count: (count[0] * 0x1000000 + count[1] * 0x10000 + count[2] * 0x100 + count[3]) as u32,
                attested: None,
            },
        ),
{
    crate::part_laws::law_flag_bits(flags);
    let bytes = hash + seq![flags] + count + rest;
    assert(bytes.subrange(0, 32) =~= hash);
    assert(bytes[32] == flags);
    assert(auth_data::be_u32(bytes, 33) == auth_data::be_u32(count, 0));
}

/// The header of authenticator data with attested credential data is read as
/// it is laid out: hash, flags, counter, AAGUID, big-endian length of the
/// credential ID, and the ID, of at most 1023 bytes. The public key begins
/// right behind.
pub proof fn law_attested_header_layout(
    hash: Seq<u8>,
    flags: u8,
    count: Seq<u8>,
    aaguid: Seq<u8>,
    length: Seq<u8>,
    id: Seq<u8>,
    rest: Seq<u8>,
)
    requires
        hash.len() == 32,
        count.len() == 4,
        flags & 0x40 != 0,
        aaguid.len() == 16,
        length.len() == 2,
        length[0] * 0x100 + length[1] == id.len(),
        id.len() <= 1023,
    ensures
        auth_data::header_of(hash + seq![flags] + count + aaguid + length + id + rest) == Ok::<
            auth_data::AuthHeaderView,
            ErrorView,
        >(
            auth_data::AuthHeaderView {
                rp_id_hash: hash,
                flags,
                sign_count: (count[0] * 0x1000000 + count[1] * 0x10000 + count[2] * 0x100 + count[3]) as u32,
                attested: Some((aaguid, id)),
                end: 55 + id.len(),
            },
        ),
{
    crate::part_laws::law_flag_bits(flags);
    let bytes = hash + seq![flags] + count + aaguid + length + id + rest;
    assert(bytes.subrange(0, 32) =~= hash);
    assert(bytes[32] == flags);
    assert(auth_data::be_u32(bytes, 33) == auth_data::be_u32(count, 0));
    assert(bytes.subrange(37, 53) =~= aaguid);
    assert(auth_data::be_u16(bytes, 53) == auth_data::be_u16(length, 0));
    assert(bytes.subrange(55, (55 + id.len()) as int) =~= id);
}

// ---------- Tolerance for what is not known --------------------------------

/// Members of an attestation object that are not known make no difference.
pub proof fn law_unknown_attestation_members_ignored(
    entries: Seq<(CborTree, CborTree)>,
    entry: (CborTree, CborTree),
)
    requires
        entry.0 != CborTree::Text("fmt"@),
        entry.0 != CborTree::Text("attStmt"@),
        entry.0 != CborTree::Text("authData"@),
    ensures
        attestation::envelope_of(CborTree::Dict(entries.push(entry))) == attestation::envelope_of(
            CborTree::Dict(entries),
        ),
{
    assert(entries.push(entry).drop_last() =~= entries);
    lemma_member_fault_push(entries, entry);
}

proof fn lemma_member_fault_push(
    entries: Seq<(CborTree, CborTree)>,
    entry: (CborTree, CborTree),
)
    requires
        attestation::member_fault(entry) is None,
    ensures
        attestation::first_member_fault(entries.push(entry)) == attestation::first_member_fault(
            entries,
        ),
    decreases entries.len(),
{
    let longer = entries.push(entry);
    if entries.len() == 0 {
        assert(longer.drop_first() =~= Seq::<(CborTree, CborTree)>::empty());
        assert(attestation::first_member_fault(longer.drop_first()) is None);
    } else {
        assert(longer.drop_first() =~= entries.drop_first().push(entry));
        lemma_member_fault_push(entries.drop_first(), entry);
    }
}

/// Members of the client data that are not known are skipped, whatever they
/// hold: of such a member it matters only where it ends.
pub proof fn law_unknown_client_data_members_skipped(
    raw: Seq<u8>,
    i: nat,
    name: Seq<char>,
    m: client_data::MembersView,
)
    requires
        name != "type"@,
        name != "challenge"@,
        name != "origin"@,
        name != "crossOrigin"@,
    ensures
        client_data::value_of(raw, i, name, m) == (match json::value_end(raw, i) {
            Ok(end) => Ok::<(client_data::MembersView, nat), ErrorView>((m, end)),
            Err(e) => Err::<(client_data::MembersView, nat), ErrorView>(e),
        }),
        !m.has(name),
{
}

/// A member that is known is taken once: where it comes again, the text is
/// refused.
pub proof fn law_repeated_client_data_members_refused(
    raw: Seq<u8>,
    i: nat,
    m: client_data::MembersView,
)
    requires
        json::string_at(raw, i) is Ok,
        m.has(json::string_at(raw, i)->Ok_0.0),
    ensures
        client_data::member_at(raw, i, m) is Err,
        client_data::member_at(raw, i, m)->Err_0 is ClientData,
{
}

// ---------- RP ID ----------------------------------------------------------

/// An RP ID that comes from a text that is no URL is that text without the
/// white space around it; it is not empty, and nothing in it can belong to a
/// URL, a port, a path or user information. It comes back unchanged from a
/// second pass.
pub proof fn law_bare_rp_id(input: Seq<char>)
    requires
        types::host_in(types::trimmed(input)) is None,
        types::rp_id_of(input) is Ok,
    ensures
        ({
            let id = types::rp_id_of(input)->Ok_0;
            &&& id == types::trimmed(input)
            &&& types::bare_host(id)
            &&& types::rp_id_of(id) == Ok::<Seq<char>, ErrorView>(id)
        }),
{
    types::lemma_bare_host_stays(types::rp_id_of(input)->Ok_0);
}

/// A bare host name is its own RP ID. So whatever [`types::RpId::try_from_url`]
/// returns, other than an IPv6 address in brackets, it returns again.
pub proof fn law_rp_id_stays(id: Seq<char>)
    requires
        types::bare_host(id),
    ensures
        types::rp_id_of(id) == Ok::<Seq<char>, ErrorView>(id),
{
    types::lemma_bare_host_stays(id);
}

/// White space around a text makes no difference to the RP ID in it.
pub proof fn law_rp_id_of_trimmed(input: Seq<char>)
    ensures
        types::rp_id_of(types::trimmed(input)) == types::rp_id_of(input),
{
    law_trimmed(input);
}

/// An RP ID that comes from a URL is the URL's host; a URL without a host is
/// refused.
pub proof fn law_rp_id_of_url(input: Seq<char>)
    requires
        types::host_in(types::trimmed(input)) is Some,
    ensures
        types::rp_id_of(input) == (match types::url_host(types::trimmed(input))->0 {
            Some(host) => Ok::<Seq<char>, ErrorView>(host),
            None => Err::<Seq<char>, ErrorView>(
                ErrorView::Internal("URL has no host component"@),
            ),
        }),
{
}

/// Trimming leaves no white space at either end, and does nothing to a text
/// that has none there.
pub proof fn law_trimmed(s: Seq<char>)
    ensures
        types::trimmed(s).len() > 0 ==> !types::white_space(types::trimmed(s)[0])
            && !types::white_space(types::trimmed(s)[types::trimmed(s).len() - 1]),
        types::trimmed(types::trimmed(s)) == types::trimmed(s),
    decreases s.len(),
{
    if s.len() > 0 && types::white_space(s[0]) {
        law_trimmed(s.drop_first());
    } else if s.len() > 0 && types::white_space(s[s.len() - 1]) {
        law_trimmed(s.drop_last());
    }
}

} // verus!
