//! The types of the two ceremonies: what goes over the wire, what is kept
//! between start and finish, and what comes out.
//!
//! All byte strings on the wire are base64url texts.

use vstd::prelude::*;
use vstd::string::*;
use rand::RngCore;
use crate::encoding::{self, Flavour, b64url_decode, b64url_encode};
use crate::error::{self, Error, ErrorView};
use crate::text;

verus! {

/// Random bytes that the browser has signed, to prove freshness.
#[derive(Debug, Clone, PartialEq, Eq)]
pub struct Challenge(pub Vec<u8>);

/// Authenticator-assigned credential ID: opaque bytes, at most 1023 of them.
#[derive(Debug, Clone, PartialEq, Eq, Hash)]
pub struct CredentialId(pub Vec<u8>);

/// COSE_Key-encoded public key, exactly as carried in
/// `attestedCredentialData.credentialPublicKey`.
#[derive(Debug, Clone, PartialEq, Eq)]
pub struct CosePublicKey(pub Vec<u8>);

/// Relying-party identifier: a domain, without scheme and port.
#[derive(Debug, Clone)]
pub struct RpId(pub(crate) String);

impl View for Challenge {
    type V = Seq<u8>;

    open spec fn view(&self) -> Seq<u8> {
        self.0@
    }
}

impl View for CredentialId {
    type V = Seq<u8>;

    open spec fn view(&self) -> Seq<u8> {
        self.0@
    }
}

impl View for CosePublicKey {
    type V = Seq<u8>;

    open spec fn view(&self) -> Seq<u8> {
        self.0@
    }
}

impl View for RpId {
    type V = Seq<char>;

    closed spec fn view(&self) -> Seq<char> {
        self.0@
    }
}

/// The views of a sequence of credential IDs.
pub open spec fn ids_view(s: Seq<CredentialId>) -> Seq<Seq<u8>> {
    Seq::new(s.len(), |i: int| s[i]@)
}

/// `rand::thread_rng().fill_bytes` on 32 bytes. Nothing is known of them.
#[verifier::external_body]
pub(crate) fn random_32() -> [u8; 32] {
    let mut buf = [0u8; 32];
    rand::thread_rng().fill_bytes(&mut buf);
    buf
}

/// Calls `f`, and keeps that what came back is what it returned.
fn outcome_of<T, F: Fn() -> T>(f: F) -> (r: T)
    requires
        f.requires(()),
    ensures
        f.ensures((), r),
{
    f()
}

/// Whether these bytes were drawn from the thread's cryptographic generator.
pub closed spec fn drawn(b: Seq<u8>) -> bool {
    exists|a: [u8; 32]| #[trigger] call_ensures(random_32, (), a) && b == a@
}

/// Bytes count as drawn only if a call of the generator returned them.
pub(crate) proof fn law_drawn(b: Seq<u8>)
    ensures
        drawn(b) ==> exists|a: [u8; 32]| #[trigger] call_ensures(random_32, (), a) && b == a@,
        drawn(b) ==> b.len() == 32,
{
}

impl Challenge {
    /// A fresh challenge from the thread's cryptographic generator: what the
    /// generator returned, and nothing else.
    #[must_use]
    pub fn random() -> (r: Challenge)
        ensures
            r@.len() == 32,
            drawn(r@),
    {
        let buf = outcome_of(random_32);
        Challenge(text::copy_bytes(&buf))
    }

    #[must_use]
    pub fn as_bytes(&self) -> (r: &[u8])
        ensures
            r@ == self@,
    {
        self.0.as_slice()
    }

    /// The challenge as base64url without padding.
    #[must_use]
    pub fn to_b64url(&self) -> (r: String)
        ensures
            r@ == encoding::encoded(Flavour::UrlNoPad, self@),
    {
        b64url_encode(self.0.as_slice())
    }
}

impl CredentialId {
    #[must_use]
    pub fn as_bytes(&self) -> (r: &[u8])
        ensures
            r@ == self@,
    {
        self.0.as_slice()
    }

    /// The ID as base64url without padding.
    #[must_use]
    pub fn to_b64url(&self) -> (r: String)
        ensures
            r@ == encoding::encoded(Flavour::UrlNoPad, self@),
    {
        b64url_encode(self.0.as_slice())
    }

    /// Decodes an ID, leniently.
    pub fn from_b64url(s: &str) -> (r: Result<CredentialId, Error>)
        ensures
            error::outcome(r) == encoding::lenient_decoding(s@),
    {
        match b64url_decode(s) {
            Ok(b) => Ok(CredentialId(b)),
            Err(e) => Err(e),
        }
    }

    /// A copy of the ID.
    pub fn copy(&self) -> (r: CredentialId)
        ensures
            r@ == self@,
    {
        CredentialId(text::copy_bytes(self.0.as_slice()))
    }
}

impl CosePublicKey {
    #[must_use]
    pub fn as_bytes(&self) -> (r: &[u8])
        ensures
            r@ == self@,
    {
        self.0.as_slice()
    }
}

/// Whether a character has the Unicode property White_Space.
pub open spec fn white_space(c: char) -> bool {
    ||| '\u{9}' <= c <= '\u{d}'
    ||| c == ' '
    ||| c == '\u{85}'
    ||| c == '\u{a0}'
    ||| c == '\u{1680}'
    ||| '\u{2000}' <= c <= '\u{200a}'
    ||| '\u{2028}' <= c <= '\u{2029}'
    ||| c == '\u{202f}'
    ||| c == '\u{205f}'
    ||| c == '\u{3000}'
}

/// A text without its leading and trailing white space.
pub open spec fn trimmed(s: Seq<char>) -> Seq<char>
    decreases s.len(),
{
    if s.len() > 0 && white_space(s[0]) {
        trimmed(s.drop_first())
    } else if s.len() > 0 && white_space(s[s.len() - 1]) {
        trimmed(s.drop_last())
    } else {
        s
    }
}

/// `str::trim`: removes leading and trailing white space.
pub assume_specification<'a>[ str::trim ](s: &'a str) -> (r: &'a str)
    ensures
        r@ == trimmed(s@),
;

/// `char::is_whitespace`: the Unicode property White_Space.
pub assume_specification[ char::is_whitespace ](c: char) -> (r: bool)
    ensures
        r == white_space(c),
;

/// What the `url` crate makes of a text: nothing, if it is no absolute URL;
/// else the URL's host, if it has one.
pub uninterp spec fn url_host(s: Seq<char>) -> Option<Option<Seq<char>>>;

/// The view of an optional string.
pub open spec fn optional_text(s: Option<String>) -> Option<Seq<char>> {
    match s {
        Some(s) => Some(s@),
        None => None,
    }
}

/// Whether a character cannot stand in a bare host name.
pub open spec fn not_in_host(c: char) -> bool {
    white_space(c) || c == '@' || c == ':' || c == '/' || c == '?' || c == '#'
}

/// Whether a text is not empty and holds nothing but what can stand in a bare
/// host name.
pub open spec fn bare_host(s: Seq<char>) -> bool {
    s.len() > 0 && forall|i: int| 0 <= i < s.len() ==> !not_in_host(#[trigger] s[i])
}

/// `url::Url::parse`, then `Url::host_str` on the URL: the host of an
/// absolute URL, in the form that the `url` crate gives it.
///
/// Without a colon there is no scheme, and so no absolute URL. A host is
/// never empty. It is an IPv6 address in brackets, an IPv4 address, a domain
/// in ASCII that has passed the crate's list of forbidden characters, or, for
/// a scheme that the crate does not know, a text that has passed a like list,
/// with controls and what is not ASCII percent-encoded.
#[verifier::external_body]
fn parse_url_host(s: &str) -> (r: Option<Option<String>>)
    ensures
        match r {
            Some(host) => url_host(s@) == Some(optional_text(host)),
            None => url_host(s@) is None,
        },
        r is Some ==> s@.contains(':'),
        r matches Some(Some(h)) ==> h@.len() > 0 && (h@[0] == '[' || bare_host(h@)),
{
    match url::Url::parse(s) {
        Ok(u) => Some(u.host_str().map(|h| h.to_owned())),
        Err(_) => None,
    }
}

/// What the `url` crate makes of a text. A text without a colon is no URL.
pub open spec fn host_in(s: Seq<char>) -> Option<Option<Seq<char>>> {
    if s.contains(':') {
        url_host(s)
    } else {
        None
    }
}

/// The RP ID in a trimmed text, given what the `url` crate makes of it.
pub open spec fn rp_id_in(s: Seq<char>, host: Option<Option<Seq<char>>>) -> Result<
    Seq<char>,
    ErrorView,
> {
    if s.len() == 0 {
        Err(ErrorView::Internal("RP ID is empty"@))
    } else if let Some(h) = host {
        match h {
            Some(h) => Ok(h),
            None => Err(ErrorView::Internal("URL has no host component"@)),
        }
    } else if exists|i: int| 0 <= i < s.len() && not_in_host(#[trigger] s[i]) {
        Err(
            ErrorView::Internal(
                "RP ID is not a bare hostname (contains scheme/port/path/userinfo)"@,
            ),
        )
    } else {
        Ok(s)
    }
}

/// The RP ID in a text that may be a bare domain, an origin or a URL.
pub open spec fn rp_id_of(input: Seq<char>) -> Result<Seq<char>, ErrorView> {
    rp_id_in(trimmed(input), host_in(trimmed(input)))
}

/// A bare host name is the RP ID in itself.
pub proof fn lemma_bare_host_stays(s: Seq<char>)
    requires
        bare_host(s),
    ensures
        rp_id_of(s) == Ok::<Seq<char>, ErrorView>(s),
{
    assert(!not_in_host(s[0]));
    assert(!not_in_host(s[s.len() - 1]));
    assert(trimmed(s) == s);
    if s.contains(':') {
        let i = choose|i: int| 0 <= i < s.len() && s[i] == ':';
        assert(!not_in_host(s[i]));
    }
}

fn has_foreign_char(s: &str) -> (r: bool)
    ensures
        r == exists|i: int| 0 <= i < s@.len() && not_in_host(#[trigger] s@[i]),
{
    let mut found = false;
    for c in it: s.chars()
        invariant
            it.seq() == s@,
            found == exists|i: int| 0 <= i < it.index() && not_in_host(#[trigger] s@[i]),
    {
        if c.is_whitespace() || c == '@' || c == ':' || c == '/' || c == '?' || c == '#' {
            found = true;
        }
    }
    found
}

impl RpId {
    /// Takes a string that already is a bare RP ID, verbatim.
    pub fn new(rp_id: &str) -> (r: RpId)
        ensures
            r@ == rp_id@,
    {
        RpId(rp_id.to_owned())
    }

    /// Extracts an RP ID from a bare domain, an origin or a URL. Fails if
    /// the input is neither a URL with a host nor a plausible host name.
    ///
    /// What comes out is a bare host name, which comes back unchanged from a
    /// second pass, or a URL's IPv6 address in brackets.
    pub fn try_from_url(input: &str) -> (r: Result<RpId, Error>)
        ensures
            error::outcome(r) == rp_id_of(input@),
            r matches Ok(id) ==> id@.len() > 0 && (id@[0] == '[' || bare_host(id@)),
            r matches Ok(id) ==> id@[0] != '[' ==> rp_id_of(id@) == Ok::<Seq<char>, ErrorView>(
                id@,
            ),
    {
        let trimmed = input.trim();
        let host = parse_url_host(trimmed);
        let r = RpId::from_parsed(trimmed, host);
        proof {
            if let Ok(id) = &r {
                if bare_host(id@) {
                    lemma_bare_host_stays(id@);
                }
            }
        }
        r
    }

    /// [`RpId::try_from_url`] on a trimmed text, given the outcome of
    /// parsing it as a URL.
    pub fn from_parsed(trimmed: &str, host: Option<Option<String>>) -> (r: Result<RpId, Error>)
        ensures
            error::outcome(r) == rp_id_in(
                trimmed@,
                match host {
                    Some(h) => Some(optional_text(h)),
                    None => None,
                },
            ),
    {
        if trimmed.is_empty() {
            return Err(Error::Internal("RP ID is empty"));
        }
        match host {
            Some(Some(h)) => {
                return Ok(RpId(h));
            },
            Some(None) => {
                return Err(Error::Internal("URL has no host component"));
            },
            None => {},
        }
        if has_foreign_char(trimmed) {
            return Err(
                Error::Internal(
                    "RP ID is not a bare hostname (contains scheme/port/path/userinfo)",
                ),
            );
        }
        Ok(RpId(trimmed.to_owned()))
    }

    #[must_use]
    pub fn as_str(&self) -> (r: &str)
        ensures
            r@ == self@,
    {
        self.0.as_str()
    }
}

// ---------- What the client posts ----------------------------------------

/// Body posted by the client to finish a registration.
#[derive(Debug)]
pub struct RegistrationResponse {
    /// The raw credential ID, base64url.
    pub id: String,
    /// The transports of the authenticator; may be empty.
    pub transports: Vec<String>,
    /// The attestation object (CBOR), base64url.
    pub attestation_object: String,
    /// The clientDataJSON (UTF-8 JSON), base64url.
    pub client_data_json: String,
}

/// Body posted by the client to finish an authentication.
#[derive(Debug)]
pub struct AuthenticationResponse {
    /// The raw credential ID, base64url.
    pub id: String,
    /// The raw authenticator data, base64url.
    pub authenticator_data: String,
    /// The signature over `authenticatorData || SHA-256(clientDataJSON)`,
    /// base64url.
    pub signature: String,
    /// The clientDataJSON (UTF-8 JSON), base64url.
    pub client_data_json: String,
    /// The user handle, base64url; only there for discoverable credentials.
    pub user_handle: Option<String>,
}

#[verifier::ext_equal]
pub struct RegistrationResponseView {
    pub id: Seq<char>,
    pub transports: Seq<Seq<char>>,
    pub attestation_object: Seq<char>,
    pub client_data_json: Seq<char>,
}

#[verifier::ext_equal]
pub struct AuthenticationResponseView {
    pub id: Seq<char>,
    pub authenticator_data: Seq<char>,
    pub signature: Seq<char>,
    pub client_data_json: Seq<char>,
    pub user_handle: Option<Seq<char>>,
}

impl View for RegistrationResponse {
    type V = RegistrationResponseView;

    open spec fn view(&self) -> RegistrationResponseView {
        RegistrationResponseView {
            id: self.id@,
            transports: text::strings_view(self.transports@),
            attestation_object: self.attestation_object@,
            client_data_json: self.client_data_json@,
        }
    }
}

impl View for AuthenticationResponse {
    type V = AuthenticationResponseView;

    open spec fn view(&self) -> AuthenticationResponseView {
        AuthenticationResponseView {
            id: self.id@,
            authenticator_data: self.authenticator_data@,
            signature: self.signature@,
            client_data_json: self.client_data_json@,
            user_handle: optional_text(self.user_handle),
        }
    }
}

// ---------- What the client is sent --------------------------------------

/// What `navigator.credentials.create()` is given.
#[derive(Debug)]
pub struct RegistrationChallenge {
    /// The challenge, base64url.
    pub challenge: String,
    pub rp: RpInfo,
    pub user: UserInfo,
    pub pub_key_cred_params: Vec<PubKeyCredParam>,
    /// Credentials that the user already has.
    pub exclude_credentials: Vec<CredentialDescriptor>,
    /// In milliseconds.
    pub timeout: u32,
    pub authenticator_selection: AuthenticatorSelection,
    pub attestation: &'static str,
}

#[derive(Debug)]
pub struct RpInfo {
    pub id: String,
    pub name: String,
}

#[derive(Debug)]
pub struct UserInfo {
    /// The user handle, base64url.
    pub id: String,
    pub name: String,
    pub display_name: String,
}

#[derive(Debug)]
pub struct PubKeyCredParam {
    pub kind: &'static str,
    pub alg: i64,
}

#[derive(Debug)]
pub struct CredentialDescriptor {
    pub kind: &'static str,
    /// The credential ID, base64url.
    pub id: String,
    pub transports: Vec<String>,
}

#[derive(Debug, Clone)]
pub struct AuthenticatorSelection {
    /// The class of authenticator asked for, if any.
    pub authenticator_attachment: Option<&'static str>,
    pub resident_key: Option<&'static str>,
    pub user_verification: &'static str,
}

/// What `navigator.credentials.get()` is given.
#[derive(Debug)]
pub struct AuthenticationChallenge {
    /// The challenge, base64url.
    pub challenge: String,
    pub rp_id: String,
    /// In milliseconds.
    pub timeout: u32,
    pub allow_credentials: Vec<CredentialDescriptor>,
    pub user_verification: &'static str,
}

#[verifier::ext_equal]
pub struct RegistrationChallengeView {
    pub challenge: Seq<char>,
    pub rp_id: Seq<char>,
    pub rp_name: Seq<char>,
    pub user_id: Seq<char>,
    pub user_name: Seq<char>,
    pub user_display_name: Seq<char>,
    pub pub_key_cred_params: Seq<PubKeyCredParamView>,
    pub exclude_credentials: Seq<CredentialDescriptorView>,
    pub timeout: u32,
    pub authenticator_attachment: Option<Seq<char>>,
    pub resident_key: Option<Seq<char>>,
    pub user_verification: Seq<char>,
    pub attestation: Seq<char>,
}

#[verifier::ext_equal]
pub struct PubKeyCredParamView {
    pub kind: Seq<char>,
    pub alg: i64,
}

#[verifier::ext_equal]
pub struct CredentialDescriptorView {
    pub kind: Seq<char>,
    pub id: Seq<char>,
    pub transports: Seq<Seq<char>>,
}

#[verifier::ext_equal]
pub struct AuthenticationChallengeView {
    pub challenge: Seq<char>,
    pub rp_id: Seq<char>,
    pub timeout: u32,
    pub allow_credentials: Seq<CredentialDescriptorView>,
    pub user_verification: Seq<char>,
}

/// The view of an optional fixed text.
pub open spec fn optional_token(s: Option<&'static str>) -> Option<Seq<char>> {
    match s {
        Some(s) => Some(s@),
        None => None,
    }
}

impl View for PubKeyCredParam {
    type V = PubKeyCredParamView;

    open spec fn view(&self) -> PubKeyCredParamView {
        PubKeyCredParamView { kind: self.kind@, alg: self.alg }
    }
}

impl View for CredentialDescriptor {
    type V = CredentialDescriptorView;

    open spec fn view(&self) -> CredentialDescriptorView {
        CredentialDescriptorView {
            kind: self.kind@,
            id: self.id@,
            transports: text::strings_view(self.transports@),
        }
    }
}

/// The views of a sequence of descriptors.
pub open spec fn descriptors_view(s: Seq<CredentialDescriptor>) -> Seq<CredentialDescriptorView> {
    Seq::new(s.len(), |i: int| s[i]@)
}

/// The views of a sequence of credential parameters.
pub open spec fn params_view(s: Seq<PubKeyCredParam>) -> Seq<PubKeyCredParamView> {
    Seq::new(s.len(), |i: int| s[i]@)
}

impl View for RegistrationChallenge {
    type V = RegistrationChallengeView;

    open spec fn view(&self) -> RegistrationChallengeView {
        RegistrationChallengeView {
            challenge: self.challenge@,
            rp_id: self.rp.id@,
            rp_name: self.rp.name@,
            user_id: self.user.id@,
            user_name: self.user.name@,
            user_display_name: self.user.display_name@,
            pub_key_cred_params: params_view(self.pub_key_cred_params@),
            exclude_credentials: descriptors_view(self.exclude_credentials@),
            timeout: self.timeout,
            authenticator_attachment: optional_token(
                self.authenticator_selection.authenticator_attachment,
            ),
            resident_key: optional_token(self.authenticator_selection.resident_key),
            user_verification: self.authenticator_selection.user_verification@,
            attestation: self.attestation@,
        }
    }
}

impl View for AuthenticationChallenge {
    type V = AuthenticationChallengeView;

    open spec fn view(&self) -> AuthenticationChallengeView {
        AuthenticationChallengeView {
            challenge: self.challenge@,
            rp_id: self.rp_id@,
            timeout: self.timeout,
            allow_credentials: descriptors_view(self.allow_credentials@),
            user_verification: self.user_verification@,
        }
    }
}

// ---------- What is kept between start and finish ------------------------

/// What the caller keeps between `start_registration` and
/// `finish_registration`, out of the client's sight.
#[derive(Debug, Clone)]
pub struct RegistrationState {
    pub challenge: Challenge,
    pub user_id: Vec<u8>,
    /// When the ceremony was started, in Unix seconds; 0 if unknown.
    pub created_at: u64,
}

/// What the caller keeps between `start_authentication` and
/// `finish_authentication`, out of the client's sight.
#[derive(Debug, Clone)]
pub struct AuthenticationState {
    pub challenge: Challenge,
    /// The credentials that the browser may use; any, if empty.
    pub allow_credentials: Vec<CredentialId>,
    /// When the ceremony was started, in Unix seconds; 0 if unknown.
    pub created_at: u64,
    /// The user that is expected to sign in, if known beforehand.
    pub user_handle: Option<Vec<u8>>,
}

#[verifier::ext_equal]
pub struct RegistrationStateView {
    pub challenge: Seq<u8>,
    pub user_id: Seq<u8>,
    pub created_at: u64,
}

#[verifier::ext_equal]
pub struct AuthenticationStateView {
    pub challenge: Seq<u8>,
    pub allow_credentials: Seq<Seq<u8>>,
    pub created_at: u64,
    pub user_handle: Option<Seq<u8>>,
}

/// The view of an optional byte string.
pub open spec fn optional_bytes(b: Option<Vec<u8>>) -> Option<Seq<u8>> {
    match b {
        Some(b) => Some(b@),
        None => None,
    }
}

impl View for RegistrationState {
    type V = RegistrationStateView;

    open spec fn view(&self) -> RegistrationStateView {
        RegistrationStateView {
            challenge: self.challenge@,
            user_id: self.user_id@,
            created_at: self.created_at,
        }
    }
}

impl View for AuthenticationState {
    type V = AuthenticationStateView;

    open spec fn view(&self) -> AuthenticationStateView {
        AuthenticationStateView {
            challenge: self.challenge@,
            allow_credentials: ids_view(self.allow_credentials@),
            created_at: self.created_at,
            user_handle: optional_bytes(self.user_handle),
        }
    }
}

/// How many seconds have passed from `created_at` to `now`; none, if the
/// clock went backwards.
pub open spec fn age_at(created_at: u64, now: u64) -> u64 {
    if now >= created_at {
        (now - created_at) as u64
    } else {
        0
    }
}

/// `std::time::SystemTime::now`, in whole seconds after `UNIX_EPOCH`, or
/// nothing if the clock shows a time before it. Nothing is known of it.
#[verifier::external_body]
pub(crate) fn unix_time() -> Option<u64> {
    let since_epoch = std::time::SystemTime::now().duration_since(std::time::UNIX_EPOCH);
    since_epoch.ok().map(|d| d.as_secs())
}

/// A clock reading as a time stamp: a clock before the epoch counts as 0.
pub fn stamp(clock: Option<u64>) -> (r: u64)
    ensures
        r == (match clock {
            Some(t) => t,
            None => 0,
        }),
{
    match clock {
        Some(t) => t,
        None => 0,
    }
}

/// Whether the system clock showed this time: a reading of it was that many
/// seconds after the epoch, or before the epoch, which counts as 0.
pub closed spec fn clock_shows(now: u64) -> bool {
    exists|clock: Option<u64>|
        #[trigger] call_ensures(unix_time, (), clock) && (clock == Some(now) || (clock is None
            && now == 0))
}

/// A time counts as shown only if a reading of the clock returned it.
pub(crate) proof fn law_clock_shows(now: u64)
    ensures
        clock_shows(now) ==> exists|clock: Option<u64>| #[trigger]
            call_ensures(unix_time, (), clock) && (clock == Some(now) || (clock is None && now
                == 0)),
{
}

/// The current Unix time in seconds: what a reading of the system clock gave.
/// Which time that is, is left open.
pub(crate) fn now_secs() -> (r: u64)
    ensures
        clock_shows(r),
{
    stamp(outcome_of(unix_time))
}

impl RegistrationState {
    /// Whether more than `max_age_secs` seconds have passed from the start
    /// of the ceremony to `now`.
    #[must_use]
    pub fn is_expired_at(&self, now: u64, max_age_secs: u64) -> (r: bool)
        ensures
            r == (age_at(self.created_at, now) > max_age_secs),
    {
        now.saturating_sub(self.created_at) > max_age_secs
    }

    /// Whether more than `max_age_secs` seconds have passed since the
    /// ceremony was started, by the system clock. Which time it shows is left
    /// open.
    #[must_use]
    pub fn is_expired(&self, max_age_secs: u64) -> (r: bool)
        ensures
            exists|now: u64|
                clock_shows(now) && r == (#[trigger] age_at(self.created_at, now) > max_age_secs),
    {
        self.is_expired_at(now_secs(), max_age_secs)
    }
}

impl AuthenticationState {
    /// Whether more than `max_age_secs` seconds have passed from the start
    /// of the ceremony to `now`.
    #[must_use]
    pub fn is_expired_at(&self, now: u64, max_age_secs: u64) -> (r: bool)
        ensures
            r == (age_at(self.created_at, now) > max_age_secs),
    {
        now.saturating_sub(self.created_at) > max_age_secs
    }

    /// Whether more than `max_age_secs` seconds have passed since the
    /// ceremony was started, by the system clock. Which time it shows is left
    /// open.
    #[must_use]
    pub fn is_expired(&self, max_age_secs: u64) -> (r: bool)
        ensures
            exists|now: u64|
                clock_shows(now) && r == (#[trigger] age_at(self.created_at, now) > max_age_secs),
    {
        self.is_expired_at(now_secs(), max_age_secs)
    }
}

// ---------- What comes out ------------------------------------------------

/// What the caller stores after a registration, one per credential.
#[derive(Debug, Clone)]
pub struct PasskeyCredential {
    pub id: CredentialId,
    pub public_key_cose: CosePublicKey,
    pub counter: u32,
    pub transports: Vec<String>,
    /// The authenticator's AAGUID. Not held against any metadata.
    pub aaguid: [u8; 16],
}

/// The outcome of an authentication. The caller updates the stored
/// credential's `counter` to `new_counter`.
#[derive(Debug, Clone)]
pub struct AuthSuccess {
    pub credential_id: CredentialId,
    pub new_counter: u32,
    pub user_verified: bool,
}

#[verifier::ext_equal]
pub struct PasskeyCredentialView {
    pub id: Seq<u8>,
    pub public_key_cose: Seq<u8>,
    pub counter: u32,
    pub transports: Seq<Seq<char>>,
    pub aaguid: Seq<u8>,
}

#[verifier::ext_equal]
pub struct AuthSuccessView {
    pub credential_id: Seq<u8>,
    pub new_counter: u32,
    pub user_verified: bool,
}

impl View for PasskeyCredential {
    type V = PasskeyCredentialView;

    open spec fn view(&self) -> PasskeyCredentialView {
        PasskeyCredentialView {
            id: self.id@,
            public_key_cose: self.public_key_cose@,
            counter: self.counter,
            transports: text::strings_view(self.transports@),
            aaguid: self.aaguid@,
        }
    }
}

impl View for AuthSuccess {
    type V = AuthSuccessView;

    open spec fn view(&self) -> AuthSuccessView {
        AuthSuccessView {
            credential_id: self.credential_id@,
            new_counter: self.new_counter,
            user_verified: self.user_verified,
        }
    }
}

} // verus!
