//! The two ceremonies: registration and authentication.

use vstd::prelude::*;
use vstd::string::*;
use crate::attestation::{self, ParsedAttestation, ParsedAttestationView};
use crate::auth_data::{self, AuthenticatorData, AuthenticatorDataView};
use crate::client_data::{self, TYPE_AUTHENTICATE, TYPE_REGISTER};
use crate::cose::{self, ALG_EDDSA, ALG_ES256, CoseKey};
use crate::crypto::{self, sha256_32};
use crate::encoding::{self, Flavour, b64url_decode_strict, b64url_encode, decode_field};
use crate::error::{self, Error, ErrorView};
use crate::text::{self, copy_bytes, copy_strings, same_bytes};
use crate::types::{
    self, AuthSuccess, AuthSuccessView, AuthenticationChallenge, AuthenticationChallengeView,
    AuthenticationResponse, AuthenticationResponseView, AuthenticationState,
    AuthenticationStateView, AuthenticatorSelection, Challenge, CosePublicKey,
    CredentialDescriptor, CredentialDescriptorView, CredentialId, PasskeyCredential,
    PasskeyCredentialView, PubKeyCredParam, PubKeyCredParamView, RegistrationChallenge,
    RegistrationChallengeView, RegistrationResponse, RegistrationResponseView, RegistrationState,
    RegistrationStateView, RpId, RpInfo, UserInfo, now_secs,
};

verus! {

/// How long the browser is asked to wait, in milliseconds.
pub const CEREMONY_TIMEOUT_MS: u32 = 60_000;

/// The algorithms that a credential may have, the most preferred first. The
/// same list is advertised to the browser and enforced on its answer.
pub const ALLOWED_REGISTRATION_ALGS: [i64; 2] = [ALG_ES256, ALG_EDDSA];

/// How old a ceremony may be when it is finished, in seconds.
pub const CEREMONY_MAX_AGE_SECS: u64 = 300;

/// The class of authenticator to ask for at registration.
#[derive(Debug, Clone, Copy, PartialEq, Eq)]
pub enum Attachment {
    /// Built-in authenticators. The default.
    Platform,
    /// Roaming authenticators, such as USB keys.
    CrossPlatform,
    /// No preference.
    Any,
}

impl Attachment {
    /// The token for a class; none stands for no preference.
    pub open spec fn token(self) -> Option<Seq<char>> {
        match self {
            Attachment::Platform => Some("platform"@),
            Attachment::CrossPlatform => Some("cross-platform"@),
            Attachment::Any => None,
        }
    }

    /// The token on the wire, or `None` to leave the field out.
    pub fn as_token(self) -> (r: Option<&'static str>)
        ensures
            types::optional_token(r) == self.token(),
    {
        match self {
            Attachment::Platform => Some("platform"),
            Attachment::CrossPlatform => Some("cross-platform"),
            Attachment::Any => None,
        }
    }
}

/// What a relying party is made with, besides how it decodes.
#[derive(Debug, Clone)]
pub struct Settings {
    rp_id: RpId,
    rp_name: String,
    origin: String,
    /// Whether a ceremony fails unless the user was verified.
    require_uv: bool,
    attachment: Attachment,
    /// Whether an assertion for a known user must carry a user handle.
    require_user_handle: bool,
}

#[verifier::ext_equal]
pub struct SettingsView {
    pub rp_id: Seq<char>,
    pub rp_name: Seq<char>,
    pub origin: Seq<char>,
    pub require_uv: bool,
    pub attachment: Attachment,
    pub require_user_handle: bool,
}

impl View for Settings {
    type V = SettingsView;

    closed spec fn view(&self) -> SettingsView {
        SettingsView {
            rp_id: self.rp_id@,
            rp_name: self.rp_name@,
            origin: self.origin@,
            require_uv: self.require_uv,
            attachment: self.attachment,
            require_user_handle: self.require_user_handle,
        }
    }
}

/// The relying party. Made once and used for every ceremony.
#[derive(Debug, Clone)]
pub struct Webauthn {
    pub settings: Settings,
    /// Whether wire fields must be base64url without padding.
    pub strict_base64: bool,
}

#[verifier::ext_equal]
pub struct WebauthnView {
    pub rp_id: Seq<char>,
    pub rp_name: Seq<char>,
    pub origin: Seq<char>,
    pub require_uv: bool,
    pub attachment: Attachment,
    pub strict_base64: bool,
    pub require_user_handle: bool,
}

impl View for Webauthn {
    type V = WebauthnView;

    open spec fn view(&self) -> WebauthnView {
        WebauthnView {
            rp_id: self.settings@.rp_id,
            rp_name: self.settings@.rp_name,
            origin: self.settings@.origin,
            require_uv: self.settings@.require_uv,
            attachment: self.settings@.attachment,
            strict_base64: self.strict_base64,
            require_user_handle: self.settings@.require_user_handle,
        }
    }
}

impl WebauthnView {
    /// The user verification that the browser is asked for.
    pub open spec fn uv_token(self) -> Seq<char> {
        if self.require_uv {
            "required"@
        } else {
            "preferred"@
        }
    }
}

impl Webauthn {
    /// A relying party with the bare domain `rp_id`, stored verbatim, and
    /// the origin that browsers put into `clientDataJSON`. User verification
    /// is not required, decoding is lenient, and platform authenticators are
    /// asked for.
    ///
    /// An `rp_id` with `/` or `:` in it is an origin or a URL, given by
    /// mistake, and is left out. Nothing tests for it: unverified code that
    /// passes one gets challenges that no browser will answer. Use
    /// [`RpId::try_from_url`] to get the domain out of a URL.
    pub fn new(rp_id: &str, rp_name: &str, origin: &str) -> (r: Webauthn)
        requires
            forall|i: int|
                0 <= i < rp_id@.len() ==> (#[trigger] rp_id@[i]) != '/' && rp_id@[i] != ':',
        ensures
            r@ == (WebauthnView {
                rp_id: rp_id@,
                rp_name: rp_name@,
                origin: origin@,
                require_uv: false,
                attachment: Attachment::Platform,
                strict_base64: false,
                require_user_handle: false,
            }),
            !r.strict_base64,
    {
        let settings = Settings {
            rp_id: RpId::new(rp_id),
            rp_name: rp_name.to_owned(),
            origin: origin.to_owned(),
            require_uv: false,
            attachment: Attachment::Platform,
            require_user_handle: false,
        };
        Webauthn { settings, strict_base64: false }
    }

    /// Whether wire fields must be base64url without padding.
    #[must_use]
    pub fn strict_base64(self, strict: bool) -> (r: Webauthn)
        ensures
            r@ == (WebauthnView { strict_base64: strict, ..self@ }),
            r.strict_base64 == strict,
    {
        Webauthn { strict_base64: strict, ..self }
    }

    /// Whether an assertion for a user known beforehand must carry that
    /// user's handle, instead of merely not carrying another one.
    #[must_use]
    pub fn require_user_handle(self, require: bool) -> (r: Webauthn)
        ensures
            r@ == (WebauthnView { require_user_handle: require, ..self@ }),
    {
        let settings = Settings { require_user_handle: require, ..self.settings };
        Webauthn { settings, strict_base64: self.strict_base64 }
    }

    /// Whether a ceremony fails unless the user was verified. The browser is
    /// then asked to require it, too.
    #[must_use]
    pub fn require_user_verification(self, require: bool) -> (r: Webauthn)
        ensures
            r@ == (WebauthnView { require_uv: require, ..self@ }),
    {
        let settings = Settings { require_uv: require, ..self.settings };
        Webauthn { settings, strict_base64: self.strict_base64 }
    }

    /// The class of authenticator to ask for at registration.
    #[must_use]
    pub fn authenticator_attachment(self, attachment: Attachment) -> (r: Webauthn)
        ensures
            r@ == (WebauthnView { attachment, ..self@ }),
    {
        let settings = Settings { attachment, ..self.settings };
        Webauthn { settings, strict_base64: self.strict_base64 }
    }

    pub fn rp_id(&self) -> (r: &str)
        ensures
            r@ == self@.rp_id,
    {
        self.settings.rp_id.as_str()
    }

    fn decode_b64(&self, s: &str) -> (r: Result<Vec<u8>, Error>)
        ensures
            error::outcome(r) == encoding::field_decoding(s@, self@.strict_base64),
    {
        decode_field(s, self.strict_base64)
    }

    /// The user verification that the browser is asked for.
    fn uv_token(&self) -> (r: &'static str)
        ensures
            r@ == self@.uv_token(),
    {
        if self.settings.require_uv {
            "required"
        } else {
            "preferred"
        }
    }
}

// ---------- Starting -------------------------------------------------------

/// The descriptors of credentials of which only the IDs are known.
pub open spec fn bare_descriptors(ids: Seq<Seq<u8>>) -> Seq<CredentialDescriptorView> {
    Seq::new(
        ids.len(),
        |i: int|
            CredentialDescriptorView {
                kind: "public-key"@,
                id: encoding::encoded(Flavour::UrlNoPad, ids[i]),
                transports: Seq::empty(),
            },
    )
}

/// The descriptors of stored credentials, with their transports.
pub open spec fn full_descriptors(creds: Seq<PasskeyCredentialView>) -> Seq<
    CredentialDescriptorView,
> {
    Seq::new(
        creds.len(),
        |i: int|
            CredentialDescriptorView {
                kind: "public-key"@,
                id: encoding::encoded(Flavour::UrlNoPad, creds[i].id),
                transports: creds[i].transports,
            },
    )
}

/// The views of a sequence of stored credentials.
pub open spec fn creds_view(s: Seq<PasskeyCredential>) -> Seq<PasskeyCredentialView> {
    Seq::new(s.len(), |i: int| s[i]@)
}

/// The IDs of stored credentials.
pub open spec fn ids_of(creds: Seq<PasskeyCredentialView>) -> Seq<Seq<u8>> {
    Seq::new(creds.len(), |i: int| creds[i].id)
}

/// The credential parameters that are advertised.
pub open spec fn advertised_params() -> Seq<PubKeyCredParamView> {
    Seq::new(
        ALLOWED_REGISTRATION_ALGS@.len(),
        |i: int| PubKeyCredParamView { kind: "public-key"@, alg: ALLOWED_REGISTRATION_ALGS@[i] },
    )
}

/// What the browser is given to create a credential.
pub open spec fn registration_request(
    wa: WebauthnView,
    challenge: Seq<u8>,
    user_id: Seq<u8>,
    user_name: Seq<char>,
    user_display_name: Seq<char>,
    existing: Seq<Seq<u8>>,
) -> RegistrationChallengeView {
    RegistrationChallengeView {
        challenge: encoding::encoded(Flavour::UrlNoPad, challenge),
        rp_id: wa.rp_id,
        rp_name: wa.rp_name,
        user_id: encoding::encoded(Flavour::UrlNoPad, user_id),
        user_name,
        user_display_name,
        pub_key_cred_params: advertised_params(),
        exclude_credentials: bare_descriptors(existing),
        timeout: CEREMONY_TIMEOUT_MS,
        authenticator_attachment: wa.attachment.token(),
        resident_key: Some("preferred"@),
        user_verification: wa.uv_token(),
        attestation: "none"@,
    }
}

/// What the browser is given to make an assertion.
pub open spec fn authentication_request(
    wa: WebauthnView,
    challenge: Seq<u8>,
    descriptors: Seq<CredentialDescriptorView>,
) -> AuthenticationChallengeView {
    AuthenticationChallengeView {
        challenge: encoding::encoded(Flavour::UrlNoPad, challenge),
        rp_id: wa.rp_id,
        timeout: CEREMONY_TIMEOUT_MS,
        allow_credentials: descriptors,
        user_verification: wa.uv_token(),
    }
}

/// Describes credentials of which only the IDs are known.
pub fn describe_ids(ids: &[CredentialId]) -> (r: Vec<CredentialDescriptor>)
    ensures
        types::descriptors_view(r@) == bare_descriptors(types::ids_view(ids@)),
{
    let mut out: Vec<CredentialDescriptor> = Vec::new();
    let n: usize = ids.len();
    let mut i: usize = 0;
    while i < n
        invariant
            i <= n == ids@.len(),
            out@.len() == i,
            forall|j: int|
                0 <= j < i ==> (#[trigger] out@[j])@ == bare_descriptors(types::ids_view(ids@))[j],
        decreases n - i,
    {
        let d = CredentialDescriptor {
            kind: "public-key",
            id: ids[i].to_b64url(),
            transports: Vec::new(),
        };
        assert(d@.transports =~= Seq::<Seq<char>>::empty());
        out.push(d);
        i += 1;
    }
    assert(types::descriptors_view(out@) =~= bare_descriptors(types::ids_view(ids@)));
    out
}

/// Describes stored credentials, with their transports.
pub fn describe_creds(creds: &[PasskeyCredential]) -> (r: Vec<CredentialDescriptor>)
    ensures
        types::descriptors_view(r@) == full_descriptors(creds_view(creds@)),
{
    let mut out: Vec<CredentialDescriptor> = Vec::new();
    let n: usize = creds.len();
    let mut i: usize = 0;
    while i < n
        invariant
            i <= n == creds@.len(),
            out@.len() == i,
            forall|j: int|
                0 <= j < i ==> (#[trigger] out@[j])@ == full_descriptors(creds_view(creds@))[j],
        decreases n - i,
    {
        out.push(
            CredentialDescriptor {
                kind: "public-key",
                id: creds[i].id.to_b64url(),
                transports: copy_strings(&creds[i].transports),
            },
        );
        i += 1;
    }
    assert(types::descriptors_view(out@) =~= full_descriptors(creds_view(creds@)));
    out
}

/// A copy of a list of IDs.
pub fn copy_ids(ids: &[CredentialId]) -> (r: Vec<CredentialId>)
    ensures
        types::ids_view(r@) == types::ids_view(ids@),
{
    let mut out: Vec<CredentialId> = Vec::new();
    let n: usize = ids.len();
    let mut i: usize = 0;
    while i < n
        invariant
            i <= n == ids@.len(),
            out@.len() == i,
            forall|j: int| 0 <= j < i ==> (#[trigger] out@[j])@ == ids@[j]@,
        decreases n - i,
    {
        out.push(ids[i].copy());
        i += 1;
    }
    assert(types::ids_view(out@) =~= types::ids_view(ids@));
    out
}

/// The IDs of stored credentials.
pub fn collect_ids(creds: &[PasskeyCredential]) -> (r: Vec<CredentialId>)
    ensures
        types::ids_view(r@) == ids_of(creds_view(creds@)),
{
    let mut out: Vec<CredentialId> = Vec::new();
    let n: usize = creds.len();
    let mut i: usize = 0;
    while i < n
        invariant
            i <= n == creds@.len(),
            out@.len() == i,
            forall|j: int| 0 <= j < i ==> (#[trigger] out@[j])@ == creds@[j].id@,
        decreases n - i,
    {
        out.push(creds[i].id.copy());
        i += 1;
    }
    assert(types::ids_view(out@) =~= ids_of(creds_view(creds@)));
    out
}

fn advertise() -> (r: Vec<PubKeyCredParam>)
    ensures
        types::params_view(r@) == advertised_params(),
{
    let algs = ALLOWED_REGISTRATION_ALGS;
    let mut out: Vec<PubKeyCredParam> = Vec::new();
    let mut i: usize = 0;
    while i < 2
        invariant
            i <= 2,
            algs@ == ALLOWED_REGISTRATION_ALGS@,
            out@.len() == i,
            forall|j: int| 0 <= j < i ==> (#[trigger] out@[j])@ == advertised_params()[j],
        decreases 2 - i,
    {
        out.push(PubKeyCredParam { kind: "public-key", alg: algs[i] });
        i += 1;
    }
    assert(types::params_view(out@) =~= advertised_params());
    out
}

impl Webauthn {
    /// Builds what is given to `navigator.credentials.create()`, and the
    /// state to hand back to [`Webauthn::finish_registration`]. Which
    /// challenge is drawn and which time the clock shows is left open;
    /// [`Webauthn::start_registration_with`] takes both.
    pub fn start_registration(
        &self,
        user_id: &[u8],
        user_name: &str,
        user_display_name: &str,
        existing: &[CredentialId],
    ) -> (r: (RegistrationChallenge, RegistrationState))
        ensures
            r.0@ == registration_request(
                self@,
                r.1@.challenge,
                user_id@,
                user_name@,
                user_display_name@,
                types::ids_view(existing@),
            ),
            r.1@.challenge.len() == 32,
            types::drawn(r.1@.challenge),
            types::clock_shows(r.1@.created_at),
            r.1@.user_id == user_id@,
    {
        self.start_registration_with(
            Challenge::random(),
            now_secs(),
            user_id,
            user_name,
            user_display_name,
            existing,
        )
    }

    /// [`Webauthn::start_registration`] with a given challenge and time.
    pub fn start_registration_with(
        &self,
        challenge: Challenge,
        now: u64,
        user_id: &[u8],
        user_name: &str,
        user_display_name: &str,
        existing: &[CredentialId],
    ) -> (r: (RegistrationChallenge, RegistrationState))
        ensures
            r.0@ == registration_request(
                self@,
                challenge@,
                user_id@,
                user_name@,
                user_display_name@,
                types::ids_view(existing@),
            ),
            r.1@ == (RegistrationStateView {
                challenge: challenge@,
                user_id: user_id@,
                created_at: now,
            }),
            r.0.rp.id@ == self@.rp_id,
            r.0.authenticator_selection.user_verification@ == (if self@.require_uv {
                "required"@
            } else {
                "preferred"@
            }),
    {
        let chal = RegistrationChallenge {
            challenge: challenge.to_b64url(),
            rp: RpInfo {
                id: self.settings.rp_id.as_str().to_owned(),
                name: self.settings.rp_name.clone(),
            },
            user: UserInfo {
                id: b64url_encode(user_id),
                name: user_name.to_owned(),
                display_name: user_display_name.to_owned(),
            },
            pub_key_cred_params: advertise(),
            exclude_credentials: describe_ids(existing),
            timeout: CEREMONY_TIMEOUT_MS,
            authenticator_selection: AuthenticatorSelection {
                authenticator_attachment: self.settings.attachment.as_token(),
                resident_key: Some("preferred"),
                user_verification: self.uv_token(),
            },
            attestation: "none",
        };
        let state = RegistrationState {
            challenge,
            user_id: copy_bytes(user_id),
            created_at: now,
        };
        (chal, state)
    }

    /// Builds what is given to `navigator.credentials.get()`, and the state
    /// to hand back to [`Webauthn::finish_authentication`]. With an empty
    /// list any discoverable credential will do. Which challenge is drawn and
    /// which time the clock shows is left open;
    /// [`Webauthn::start_authentication_with`] takes both.
    pub fn start_authentication(&self, allow_credentials: &[CredentialId]) -> (r: (
        AuthenticationChallenge,
        AuthenticationState,
    ))
        ensures
            r.0@ == authentication_request(
                self@,
                r.1@.challenge,
                bare_descriptors(types::ids_view(allow_credentials@)),
            ),
            r.1@.challenge.len() == 32,
            types::drawn(r.1@.challenge),
            types::clock_shows(r.1@.created_at),
            r.1@.allow_credentials == types::ids_view(allow_credentials@),
            r.1@.user_handle is None,
    {
        self.build_auth_challenge(
            copy_ids(allow_credentials),
            describe_ids(allow_credentials),
            None,
        )
    }

    /// Like [`Webauthn::start_authentication`], with the transports of each
    /// stored credential as hints. Challenge and time are left open there,
    /// too.
    pub fn start_authentication_with_creds(&self, allow_credentials: &[PasskeyCredential]) -> (r: (
        AuthenticationChallenge,
        AuthenticationState,
    ))
        ensures
            r.0@ == authentication_request(
                self@,
                r.1@.challenge,
                full_descriptors(creds_view(allow_credentials@)),
            ),
            r.1@.challenge.len() == 32,
            types::drawn(r.1@.challenge),
            types::clock_shows(r.1@.created_at),
            r.1@.allow_credentials == ids_of(creds_view(allow_credentials@)),
            r.1@.user_handle is None,
    {
        self.build_auth_challenge(
            collect_ids(allow_credentials),
            describe_creds(allow_credentials),
            None,
        )
    }

    /// Like [`Webauthn::start_authentication`], for a user that is known
    /// beforehand: a user handle in the assertion must be theirs. Challenge
    /// and time are left open there, too.
    pub fn start_authentication_for_user(
        &self,
        user_handle: &[u8],
        allow_credentials: &[CredentialId],
    ) -> (r: (AuthenticationChallenge, AuthenticationState))
        ensures
            r.0@ == authentication_request(
                self@,
                r.1@.challenge,
                bare_descriptors(types::ids_view(allow_credentials@)),
            ),
            r.1@.challenge.len() == 32,
            types::drawn(r.1@.challenge),
            types::clock_shows(r.1@.created_at),
            r.1@.allow_credentials == types::ids_view(allow_credentials@),
            r.1@.user_handle == Some(user_handle@),
    {
        self.build_auth_challenge(
            copy_ids(allow_credentials),
            describe_ids(allow_credentials),
            Some(copy_bytes(user_handle)),
        )
    }

    /// Like [`Webauthn::start_authentication_with_creds`], for a user that
    /// is known beforehand. Challenge and time are left open there, too.
    pub fn start_authentication_with_creds_for_user(
        &self,
        user_handle: &[u8],
        allow_credentials: &[PasskeyCredential],
    ) -> (r: (AuthenticationChallenge, AuthenticationState))
        ensures
            r.0@ == authentication_request(
                self@,
                r.1@.challenge,
                full_descriptors(creds_view(allow_credentials@)),
            ),
            r.1@.challenge.len() == 32,
            types::drawn(r.1@.challenge),
            types::clock_shows(r.1@.created_at),
            r.1@.allow_credentials == ids_of(creds_view(allow_credentials@)),
            r.1@.user_handle == Some(user_handle@),
    {
        self.build_auth_challenge(
            collect_ids(allow_credentials),
            describe_creds(allow_credentials),
            Some(copy_bytes(user_handle)),
        )
    }

    fn build_auth_challenge(
        &self,
        ids: Vec<CredentialId>,
        descriptors: Vec<CredentialDescriptor>,
        user_handle: Option<Vec<u8>>,
    ) -> (r: (AuthenticationChallenge, AuthenticationState))
        ensures
            r.0@ == authentication_request(
                self@,
                r.1@.challenge,
                types::descriptors_view(descriptors@),
            ),
            r.1@.challenge.len() == 32,
            types::drawn(r.1@.challenge),
            types::clock_shows(r.1@.created_at),
            r.1@.allow_credentials == types::ids_view(ids@),
            r.1@.user_handle == types::optional_bytes(user_handle),
    {
        self.start_authentication_with(
            Challenge::random(),
            now_secs(),
            ids,
            descriptors,
            user_handle,
        )
    }

    /// Starts an authentication with a given challenge and time, from
    /// descriptors that are already built.
    pub fn start_authentication_with(
        &self,
        challenge: Challenge,
        now: u64,
        ids: Vec<CredentialId>,
        descriptors: Vec<CredentialDescriptor>,
        user_handle: Option<Vec<u8>>,
    ) -> (r: (AuthenticationChallenge, AuthenticationState))
        ensures
            r.0@ == authentication_request(
                self@,
                challenge@,
                types::descriptors_view(descriptors@),
            ),
            r.1@ == (AuthenticationStateView {
                challenge: challenge@,
                allow_credentials: types::ids_view(ids@),
                created_at: now,
                user_handle: types::optional_bytes(user_handle),
            }),
            r.0.rp_id@ == self@.rp_id,
            r.0.user_verification@ == (if self@.require_uv {
                "required"@
            } else {
                "preferred"@
            }),
    {
        let chal = AuthenticationChallenge {
            challenge: challenge.to_b64url(),
            rp_id: self.settings.rp_id.as_str().to_owned(),
            timeout: CEREMONY_TIMEOUT_MS,
            allow_credentials: descriptors,
            user_verification: self.uv_token(),
        };
        let state = AuthenticationState {
            challenge,
            allow_credentials: ids,
            created_at: now,
            user_handle,
        };
        (chal, state)
    }
}

// ---------- Finishing ------------------------------------------------------

/// What is made of a ceremony's age. A start time of 0 means that it is not
/// known, and is let pass.
pub open spec fn age_verdict(created_at: u64, now: u64) -> Result<(), ErrorView> {
    let age = types::age_at(created_at, now);
    if created_at != 0 && age > CEREMONY_MAX_AGE_SECS {
        Err(ErrorView::CeremonyExpired { age_secs: age, max_secs: CEREMONY_MAX_AGE_SECS })
    } else {
        Ok(())
    }
}

/// What is made of the RP ID hash and the flags of authenticator data.
pub open spec fn auth_data_verdict(
    data: AuthenticatorDataView,
    rp_id_hash: Seq<u8>,
    require_uv: bool,
) -> Result<(), ErrorView> {
    if data.rp_id_hash != rp_id_hash {
        Err(ErrorView::RpIdHashMismatch)
    } else if !auth_data::user_present(data.flags) {
        Err(ErrorView::UserNotPresent)
    } else if require_uv && !auth_data::user_verified(data.flags) {
        Err(ErrorView::UserNotVerified)
    } else {
        Ok(())
    }
}

/// The hash that authenticators put in for an RP ID.
pub open spec fn rp_id_hash(rp_id: Seq<char>) -> Seq<u8> {
    crypto::sha256(vstd::utf8::encode_utf8(rp_id))
}

/// Rejects a ceremony that is too old at `now`.
pub fn check_not_expired_at(created_at: u64, now: u64) -> (r: Result<(), Error>)
    ensures
        error::outcome(r) == age_verdict(created_at, now),
{
    if created_at == 0 {
        return Ok(());
    }
    let age: u64 = now.saturating_sub(created_at);
    if age > CEREMONY_MAX_AGE_SECS {
        return Err(Error::CeremonyExpired { age_secs: age, max_secs: CEREMONY_MAX_AGE_SECS });
    }
    Ok(())
}

/// Checks the RP ID hash and the flags of authenticator data.
pub fn check_auth_data(data: &AuthenticatorData, rp_id_hash: &[u8; 32], require_uv: bool) -> (r:
    Result<(), Error>)
    ensures
        error::outcome(r) == auth_data_verdict(data@, rp_id_hash@, require_uv),
{
    if !same_bytes(&data.rp_id_hash, rp_id_hash) {
        return Err(Error::RpIdHashMismatch);
    }
    if !data.user_present() {
        return Err(Error::UserNotPresent);
    }
    if require_uv && !data.user_verified() {
        return Err(Error::UserNotVerified);
    }
    Ok(())
}

/// Whether an algorithm is among those advertised.
pub fn is_allowed_alg(alg: i64) -> (r: bool)
    ensures
        r == ALLOWED_REGISTRATION_ALGS@.contains(alg),
{
    let algs = ALLOWED_REGISTRATION_ALGS;
    let mut i: usize = 0;
    while i < 2
        invariant
            i <= 2,
            algs@ == ALLOWED_REGISTRATION_ALGS@,
            forall|j: int| 0 <= j < i ==> algs@[j] != alg,
        decreases 2 - i,
    {
        if algs[i] == alg {
            assert(algs@.contains(alg));
            return true;
        }
        i += 1;
    }
    false
}

/// What is made of a new credential's key and attestation statement.
pub open spec fn key_verdict(
    att: ParsedAttestationView,
    public_key_cose: Seq<u8>,
    client_data_hash: Seq<u8>,
) -> Result<(), ErrorView> {
    match cose::key_of_bytes(public_key_cose) {
        Err(e) => Err(e),
        Ok(key) => if !ALLOWED_REGISTRATION_ALGS@.contains(key.alg()) {
            Err(ErrorView::UnsupportedAlg(key.alg()))
        } else {
            attestation::statement_verdict(att, key, client_data_hash)
        },
    }
}

/// The credential in an attestation object, or what is wrong with it.
pub open spec fn credential_of(
    wa: WebauthnView,
    att: ParsedAttestationView,
    client_data_hash: Seq<u8>,
    transports: Seq<Seq<char>>,
) -> Result<PasskeyCredentialView, ErrorView> {
    match auth_data_verdict(att.auth_data, rp_id_hash(wa.rp_id), wa.require_uv) {
        Err(e) => Err(e),
        Ok(_) => match att.auth_data.attested {
            None => Err(ErrorView::AuthData("registration authData missing AT flag"@)),
            Some(attested) => match key_verdict(
                att,
                attested.public_key_cose,
                client_data_hash,
            ) {
                Err(e) => Err(e),
                Ok(_) => Ok(
                    PasskeyCredentialView {
                        id: attested.credential_id,
                        public_key_cose: attested.public_key_cose,
                        counter: att.auth_data.sign_count,
                        transports,
                        aaguid: attested.aaguid,
                    },
                ),
            },
        },
    }
}

/// What is made of the ID in the answer to a registration: under strict
/// decoding it must be base64url without padding. The credential's own ID is
/// the one in the authenticator data.
pub open spec fn id_encoding_verdict(id: Seq<char>, strict: bool) -> Result<(), ErrorView> {
    if strict {
        match encoding::strict_decoding(id) {
            Ok(_) => Ok(()),
            Err(e) => Err(e),
        }
    } else {
        Ok(())
    }
}

/// Checks how the ID in the answer to a registration is encoded.
pub fn check_id_encoding(id: &str, strict: bool) -> (r: Result<(), Error>)
    ensures
        error::outcome(r) == id_encoding_verdict(id@, strict),
{
    if strict {
        if let Err(e) = b64url_decode_strict(id) {
            return Err(e);
        }
    }
    Ok(())
}

/// The outcome of a registration that is finished at `now`.
pub open spec fn registration_outcome(
    wa: WebauthnView,
    state: RegistrationStateView,
    response: RegistrationResponseView,
    now: u64,
) -> Result<PasskeyCredentialView, ErrorView> {
    match age_verdict(state.created_at, now) {
        Err(e) => Err(e),
        Ok(_) => match id_encoding_verdict(response.id, wa.strict_base64) {
            Err(e) => Err(e),
            Ok(_) => match client_data::validated(
                response.client_data_json,
                TYPE_REGISTER@,
                state.challenge,
                wa.origin,
                wa.strict_base64,
            ) {
                Err(e) => Err(e),
                Ok(raw) => match encoding::field_decoding(
                    response.attestation_object,
                    wa.strict_base64,
                ) {
                    Err(e) => Err(e),
                    Ok(bytes) => match attestation::parsed(bytes) {
                        Err(e) => Err(e),
                        Ok(att) => credential_of(
                            wa,
                            att,
                            crypto::sha256(raw),
                            response.transports,
                        ),
                    },
                },
            },
        },
    }
}

fn check_key(att: &ParsedAttestation, public_key_cose: &[u8], client_data_hash: &[u8; 32]) -> (r:
    Result<(), Error>)
    ensures
        error::outcome(r) == key_verdict(att@, public_key_cose@, client_data_hash@),
{
    match CoseKey::parse(public_key_cose) {
        Err(e) => Err(e),
        Ok(key) => {
            if !is_allowed_alg(key.alg()) {
                return Err(Error::UnsupportedAlg(key.alg()));
            }
            att.verify_statement(&key, client_data_hash)
        },
    }
}

impl Webauthn {
    fn own_rp_id_hash(&self) -> (r: [u8; 32])
        ensures
            r@ == rp_id_hash(self@.rp_id),
    {
        sha256_32(self.settings.rp_id.as_str().as_bytes())
    }

    /// Checks an attestation object and takes the credential out of it.
    pub fn accept_attestation(
        &self,
        att: &ParsedAttestation,
        client_data_hash: &[u8; 32],
        transports: &Vec<String>,
    ) -> (r: Result<PasskeyCredential, Error>)
        ensures
            error::outcome(r) == credential_of(
                self@,
                att@,
                client_data_hash@,
                text::strings_view(transports@),
            ),
    {
        let want_rp_hash = self.own_rp_id_hash();
        if let Err(e) = check_auth_data(&att.auth_data, &want_rp_hash, self.settings.require_uv) {
            return Err(e);
        }
        let attested = match &att.auth_data.attested {
            Some(a) => a,
            None => {
                return Err(Error::AuthData("registration authData missing AT flag"));
            },
        };
        let public_key_cose = attested.public_key_cose.as_bytes();
        if let Err(e) = check_key(att, public_key_cose, client_data_hash) {
            return Err(e);
        }
        Ok(
            PasskeyCredential {
                id: attested.credential_id.copy(),
                public_key_cose: CosePublicKey(copy_bytes(public_key_cose)),
                counter: att.auth_data.sign_count,
                transports: copy_strings(transports),
                aaguid: attested.aaguid,
            },
        )
    }

    /// [`Webauthn::finish_registration`] at a given time.
    pub fn finish_registration_at(
        &self,
        state: &RegistrationState,
        response: &RegistrationResponse,
        now: u64,
    ) -> (r: Result<PasskeyCredential, Error>)
        ensures
            error::outcome(r) == registration_outcome(self@, state@, response@, now),
    {
        if let Err(e) = check_not_expired_at(state.created_at, now) {
            return Err(e);
        }
        if let Err(e) = check_id_encoding(response.id.as_str(), self.strict_base64) {
            return Err(e);
        }
        let raw = match client_data::validate(
            response.client_data_json.as_str(),
            TYPE_REGISTER,
            &state.challenge,
            self.settings.origin.as_str(),
            self.strict_base64,
        ) {
            Ok(raw) => raw,
            Err(e) => {
                return Err(e);
            },
        };
        let client_data_hash = sha256_32(raw.as_slice());
        let bytes = match self.decode_b64(response.attestation_object.as_str()) {
            Ok(bytes) => bytes,
            Err(e) => {
                return Err(e);
            },
        };
        match ParsedAttestation::parse(bytes.as_slice()) {
            Ok(att) => self.accept_attestation(&att, &client_data_hash, &response.transports),
            Err(e) => Err(e),
        }
    }

    /// Verifies the answer to a registration. On success returns the
    /// credential to store. The ceremony's age is judged at a time that the
    /// system clock showed. Which one is left open;
    /// [`Webauthn::finish_registration_at`] takes it.
    pub fn finish_registration(
        &self,
        state: &RegistrationState,
        response: &RegistrationResponse,
    ) -> (r: Result<PasskeyCredential, Error>)
        ensures
            exists|now: u64|
                types::clock_shows(now) && error::outcome(r) == #[trigger] registration_outcome(
                    self@,
                    state@,
                    response@,
                    now,
                ),
    {
        self.finish_registration_at(state, response, now_secs())
    }
}

/// What is made of the ID of the credential that an assertion is for: it must
/// be one of those allowed, if any are named, and the stored one.
pub open spec fn id_verdict(
    id: Seq<u8>,
    allowed: Seq<Seq<u8>>,
    stored_id: Seq<u8>,
) -> Result<(), ErrorView> {
    if allowed.len() != 0 && !allowed.contains(id) {
        Err(ErrorView::BadSignature)
    } else if id != stored_id {
        Err(ErrorView::BadSignature)
    } else {
        Ok(())
    }
}

/// What is made of the user handle in an assertion.
///
/// Where no user is expected, nothing is asked of it. Where one is, a handle
/// that is there must be theirs, and `require` says whether it must be there.
pub open spec fn user_handle_verdict(
    expected: Option<Seq<u8>>,
    got: Option<Seq<char>>,
    strict: bool,
    require: bool,
) -> Result<(), ErrorView> {
    match expected {
        None => Ok(()),
        Some(expected) => match got {
            None => if require {
                Err(ErrorView::UserHandleMismatch)
            } else {
                Ok(())
            },
            Some(got) => match encoding::field_decoding(got, strict) {
                Err(e) => Err(e),
                Ok(got) => if got != expected {
                    Err(ErrorView::UserHandleMismatch)
                } else {
                    Ok(())
                },
            },
        },
    }
}

/// What is made of the signature counter: it must increase, unless it is 0
/// on both sides.
pub open spec fn counter_verdict(stored: u32, new: u32) -> Result<(), ErrorView> {
    if (new != 0 || stored != 0) && new <= stored {
        Err(ErrorView::CounterReplay { stored, new })
    } else {
        Ok(())
    }
}

/// What is made of an assertion's signature.
pub open spec fn signature_verdict(
    wa: WebauthnView,
    public_key_cose: Seq<u8>,
    signature: Seq<char>,
    msg: Seq<u8>,
) -> Result<(), ErrorView> {
    match cose::key_of_bytes(public_key_cose) {
        Err(e) => Err(e),
        Ok(key) => match encoding::field_decoding(signature, wa.strict_base64) {
            Err(e) => Err(e),
            Ok(sig) => crypto::verdict_on(crypto::accepts(key, msg, sig)),
        },
    }
}

/// The outcome for authenticator data `data`, given as `bytes`.
pub open spec fn assertion_outcome(
    wa: WebauthnView,
    bytes: Seq<u8>,
    data: AuthenticatorDataView,
    client_data_hash: Seq<u8>,
    signature: Seq<char>,
    stored: PasskeyCredentialView,
) -> Result<AuthSuccessView, ErrorView> {
    match auth_data_verdict(data, rp_id_hash(wa.rp_id), wa.require_uv) {
        Err(e) => Err(e),
        Ok(_) => match signature_verdict(
            wa,
            stored.public_key_cose,
            signature,
            crypto::signed_message(bytes, client_data_hash),
        ) {
            Err(e) => Err(e),
            Ok(_) => match counter_verdict(stored.counter, data.sign_count) {
                Err(e) => Err(e),
                Ok(_) => Ok(
                    AuthSuccessView {
                        credential_id: stored.id,
                        new_counter: data.sign_count,
                        user_verified: auth_data::user_verified(data.flags),
                    },
                ),
            },
        },
    }
}

/// What is made of whom an assertion is for: the credential and the user.
pub open spec fn subject_verdict(
    wa: WebauthnView,
    state: AuthenticationStateView,
    response: AuthenticationResponseView,
    stored_id: Seq<u8>,
) -> Result<(), ErrorView> {
    match encoding::field_decoding(response.id, wa.strict_base64) {
        Err(e) => Err(e),
        Ok(id) => match id_verdict(id, state.allow_credentials, stored_id) {
            Err(e) => Err(e),
            Ok(_) => user_handle_verdict(
                state.user_handle,
                response.user_handle,
                wa.strict_base64,
                wa.require_user_handle,
            ),
        },
    }
}

/// The outcome of an authentication that is finished at `now`.
pub open spec fn authentication_outcome(
    wa: WebauthnView,
    state: AuthenticationStateView,
    response: AuthenticationResponseView,
    stored: PasskeyCredentialView,
    now: u64,
) -> Result<AuthSuccessView, ErrorView> {
    match age_verdict(state.created_at, now) {
        Err(e) => Err(e),
        Ok(_) => match subject_verdict(wa, state, response, stored.id) {
            Err(e) => Err(e),
            Ok(_) => match client_data::validated(
                response.client_data_json,
                TYPE_AUTHENTICATE@,
                state.challenge,
                wa.origin,
                wa.strict_base64,
            ) {
                Err(e) => Err(e),
                Ok(raw) => match encoding::field_decoding(
                    response.authenticator_data,
                    wa.strict_base64,
                ) {
                    Err(e) => Err(e),
                    Ok(bytes) => match auth_data::parsed(bytes) {
                        Err(e) => Err(e),
                        Ok(data) => assertion_outcome(
                            wa,
                            bytes,
                            data,
                            crypto::sha256(raw),
                            response.signature,
                            stored,
                        ),
                    },
                },
            },
        },
    }
}

fn contains_id(ids: &Vec<CredentialId>, id: &[u8]) -> (r: bool)
    ensures
        r == types::ids_view(ids@).contains(id@),
{
    let ghost all = types::ids_view(ids@);
    let n: usize = ids.len();
    let mut i: usize = 0;
    while i < n
        invariant
            i <= n == ids@.len(),
            all == types::ids_view(ids@),
            forall|j: int| 0 <= j < i ==> all[j] != id@,
        decreases n - i,
    {
        if same_bytes(ids[i].as_bytes(), id) {
            assert(all[i as int] == id@);
            return true;
        }
        i += 1;
    }
    false
}

/// Checks the ID of the credential that an assertion is for.
pub fn check_credential_id(id: &[u8], allowed: &Vec<CredentialId>, stored_id: &CredentialId) -> (r:
    Result<(), Error>)
    ensures
        error::outcome(r) == id_verdict(id@, types::ids_view(allowed@), stored_id@),
{
    if allowed.len() != 0 && !contains_id(allowed, id) {
        return Err(Error::BadSignature);
    }
    if !same_bytes(id, stored_id.as_bytes()) {
        return Err(Error::BadSignature);
    }
    Ok(())
}

/// Checks the user handle in an assertion.
pub fn check_user_handle(
    expected: &Option<Vec<u8>>,
    got: &Option<String>,
    strict: bool,
    require: bool,
) -> (r: Result<(), Error>)
    ensures
        error::outcome(r) == user_handle_verdict(
            types::optional_bytes(*expected),
            types::optional_text(*got),
            strict,
            require,
        ),
{
    let expected = match expected {
        Some(b) => b,
        None => {
            return Ok(());
        },
    };
    match got {
        None => {
            if require {
                return Err(Error::UserHandleMismatch);
            }
            Ok(())
        },
        Some(got) => match decode_field(got.as_str(), strict) {
            Err(e) => Err(e),
            Ok(got) => {
                if !same_bytes(got.as_slice(), expected.as_slice()) {
                    return Err(Error::UserHandleMismatch);
                }
                Ok(())
            },
        },
    }
}

/// Checks the signature counter.
pub fn check_counter(stored: u32, new: u32) -> (r: Result<(), Error>)
    ensures
        error::outcome(r) == counter_verdict(stored, new),
{
    let either_nonzero = new != 0 || stored != 0;
    if either_nonzero && new <= stored {
        return Err(Error::CounterReplay { stored, new });
    }
    Ok(())
}

impl Webauthn {
    fn check_signature(&self, public_key_cose: &[u8], signature: &str, msg: &[u8]) -> (r: Result<
        (),
        Error,
    >)
        ensures
            error::outcome(r) == signature_verdict(self@, public_key_cose@, signature@, msg@),
    {
        let key = match CoseKey::parse(public_key_cose) {
            Ok(key) => key,
            Err(e) => {
                return Err(e);
            },
        };
        match self.decode_b64(signature) {
            Ok(sig) => crypto::verify(&key, msg, sig.as_slice()),
            Err(e) => Err(e),
        }
    }

    fn check_subject(
        &self,
        state: &AuthenticationState,
        response: &AuthenticationResponse,
        stored_id: &CredentialId,
    ) -> (r: Result<(), Error>)
        ensures
            error::outcome(r) == subject_verdict(self@, state@, response@, stored_id@),
    {
        let id = match self.decode_b64(response.id.as_str()) {
            Ok(id) => id,
            Err(e) => {
                return Err(e);
            },
        };
        if let Err(e) = check_credential_id(id.as_slice(), &state.allow_credentials, stored_id) {
            return Err(e);
        }
        check_user_handle(
            &state.user_handle,
            &response.user_handle,
            self.strict_base64,
            self.settings.require_user_handle,
        )
    }

    /// Checks parsed authenticator data, the signature over them, and the
    /// counter in them. `bytes` are the data as they were signed.
    pub fn accept_assertion(
        &self,
        bytes: &[u8],
        data: &AuthenticatorData,
        client_data_hash: &[u8; 32],
        signature: &str,
        stored: &PasskeyCredential,
    ) -> (r: Result<AuthSuccess, Error>)
        ensures
            error::outcome(r) == assertion_outcome(
                self@,
                bytes@,
                data@,
                client_data_hash@,
                signature@,
                stored@,
            ),
    {
        let want_rp_hash = self.own_rp_id_hash();
        if let Err(e) = check_auth_data(data, &want_rp_hash, self.settings.require_uv) {
            return Err(e);
        }
        let msg = crypto::message(bytes, client_data_hash);
        if let Err(e) = self.check_signature(
            stored.public_key_cose.as_bytes(),
            signature,
            msg.as_slice(),
        ) {
            return Err(e);
        }
        if let Err(e) = check_counter(stored.counter, data.sign_count) {
            return Err(e);
        }
        Ok(
            AuthSuccess {
                credential_id: stored.id.copy(),
                new_counter: data.sign_count,
                user_verified: data.user_verified(),
            },
        )
    }

    /// [`Webauthn::finish_authentication`] at a given time.
    pub fn finish_authentication_at(
        &self,
        state: &AuthenticationState,
        response: &AuthenticationResponse,
        stored: &PasskeyCredential,
        now: u64,
    ) -> (r: Result<AuthSuccess, Error>)
        ensures
            error::outcome(r) == authentication_outcome(self@, state@, response@, stored@, now),
    {
        if let Err(e) = check_not_expired_at(state.created_at, now) {
            return Err(e);
        }
        if let Err(e) = self.check_subject(state, response, &stored.id) {
            return Err(e);
        }
        let raw = match client_data::validate(
            response.client_data_json.as_str(),
            TYPE_AUTHENTICATE,
            &state.challenge,
            self.settings.origin.as_str(),
            self.strict_base64,
        ) {
            Ok(raw) => raw,
            Err(e) => {
                return Err(e);
            },
        };
        let client_data_hash = sha256_32(raw.as_slice());
        let bytes = match self.decode_b64(response.authenticator_data.as_str()) {
            Ok(bytes) => bytes,
            Err(e) => {
                return Err(e);
            },
        };
        match AuthenticatorData::parse(bytes.as_slice()) {
            Ok(data) => self.accept_assertion(
                bytes.as_slice(),
                &data,
                &client_data_hash,
                response.signature.as_str(),
                stored,
            ),
            Err(e) => Err(e),
        }
    }

    /// Verifies an assertion. `stored` is the credential that was looked up
    /// by `response.id`. The ceremony's age is judged at a time that the
    /// system clock showed. Which one is left open;
    /// [`Webauthn::finish_authentication_at`] takes it.
    ///
    /// The caller must make sure that `stored` belongs to the user who is
    /// signing in: look it up among that user's credentials, not among all.
    pub fn finish_authentication(
        &self,
        state: &AuthenticationState,
        response: &AuthenticationResponse,
        stored: &PasskeyCredential,
    ) -> (r: Result<AuthSuccess, Error>)
        ensures
            exists|now: u64|
                types::clock_shows(now) && error::outcome(r) == #[trigger] authentication_outcome(
                    self@,
                    state@,
                    response@,
                    stored@,
                    now,
                ),
    {
        self.finish_authentication_at(state, response, stored, now_secs())
    }
}

} // verus!
