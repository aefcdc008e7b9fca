//! `clientDataJSON`.
//!
//! ```text
//! {
//!   "type":      "webauthn.create" | "webauthn.get",
//!   "challenge": "<base64url>",
//!   "origin":    "https://example.com",
//!   "crossOrigin": false,
//!   ...
//! }
//! ```
//! The four members above are read; each may stand there once, and only
//! `crossOrigin` may be left out. Any other member is skipped, whatever it
//! holds. In place of the object an array may hold the four values in their
//! order. Strings, booleans and values to skip are `serde_json`'s; the frame
//! around them is read here.
//!
//! Type, challenge and origin are checked, and the raw bytes are handed on:
//! what is signed is the hash of those exact bytes.

use vstd::prelude::*;
use vstd::string::*;
use crate::encoding::{self, decode_field};
use crate::error::{self, Error, ErrorView};
use crate::json::{self, error_at, error_to, read_bool_at, read_string_at, skip_space, skip_value_at};
use crate::text::{same_bytes, same_str};
use crate::types::{self, Challenge};

verus! {

/// `clientDataJSON.type` of a registration.
pub const TYPE_REGISTER: &'static str = "webauthn.create";

/// `clientDataJSON.type` of an authentication.
pub const TYPE_AUTHENTICATE: &'static str = "webauthn.get";

/// The members that are checked.
#[derive(Debug)]
pub struct ClientData {
    pub kind: String,
    pub challenge: String,
    pub origin: String,
}

#[verifier::ext_equal]
pub struct ClientDataView {
    pub kind: Seq<char>,
    pub challenge: Seq<char>,
    pub origin: Seq<char>,
}

impl View for ClientData {
    type V = ClientDataView;

    open spec fn view(&self) -> ClientDataView {
        ClientDataView { kind: self.kind@, challenge: self.challenge@, origin: self.origin@ }
    }
}

/// The members read so far.
#[derive(Debug)]
pub struct Members {
    pub kind: Option<String>,
    pub challenge: Option<String>,
    pub origin: Option<String>,
    pub cross_origin: Option<bool>,
}

#[verifier::ext_equal]
pub struct MembersView {
    pub kind: Option<Seq<char>>,
    pub challenge: Option<Seq<char>>,
    pub origin: Option<Seq<char>>,
    pub cross_origin: Option<bool>,
}

impl View for Members {
    type V = MembersView;

    open spec fn view(&self) -> MembersView {
        MembersView {
            kind: types::optional_text(self.kind),
            challenge: types::optional_text(self.challenge),
            origin: types::optional_text(self.origin),
            cross_origin: self.cross_origin,
        }
    }
}

/// Whether a name is that of a member that holds a string.
pub open spec fn names_string(name: Seq<char>) -> bool {
    name == "type"@ || name == "challenge"@ || name == "origin"@
}

impl MembersView {
    /// Nothing read.
    pub open spec fn none() -> MembersView {
        MembersView { kind: None, challenge: None, origin: None, cross_origin: None }
    }

    /// Whether a member with this name has been read.
    pub open spec fn has(self, name: Seq<char>) -> bool {
        ||| name == "type"@ && self.kind is Some
        ||| name == "challenge"@ && self.challenge is Some
        ||| name == "origin"@ && self.origin is Some
        ||| name == "crossOrigin"@ && self.cross_origin is Some
    }

    /// These and one more that holds a string.
    pub open spec fn with_string(self, name: Seq<char>, t: Seq<char>) -> MembersView {
        if name == "type"@ {
            MembersView { kind: Some(t), ..self }
        } else if name == "challenge"@ {
            MembersView { challenge: Some(t), ..self }
        } else {
            MembersView { origin: Some(t), ..self }
        }
    }

    /// The client data with these members, if none is missing. `end` is
    /// where the object ends.
    pub open spec fn complete(self, raw: Seq<u8>, end: nat) -> Result<ClientDataView, ErrorView> {
        if self.kind is None {
            Err(json::located("missing field `type`"@, raw, end))
        } else if self.challenge is None {
            Err(json::located("missing field `challenge`"@, raw, end))
        } else if self.origin is None {
            Err(json::located("missing field `origin`"@, raw, end))
        } else {
            Ok(
                ClientDataView {
                    kind: self.kind->0,
                    challenge: self.challenge->0,
                    origin: self.origin->0,
                },
            )
        }
    }
}

impl Members {
    /// Nothing read.
    pub fn none() -> (r: Members)
        ensures
            r@ == MembersView::none(),
    {
        Members { kind: None, challenge: None, origin: None, cross_origin: None }
    }

    /// Whether a member with this name has been read.
    pub fn has(&self, name: &str) -> (r: bool)
        ensures
            r == self@.has(name@),
    {
        (same_str(name, "type") && self.kind.is_some()) || (same_str(name, "challenge")
            && self.challenge.is_some()) || (same_str(name, "origin") && self.origin.is_some())
            || (same_str(name, "crossOrigin") && self.cross_origin.is_some())
    }

    /// These and one more that holds a string.
    pub fn with_string(self, name: &str, t: String) -> (r: Members)
        ensures
            r@ == self@.with_string(name@, t@),
    {
        if same_str(name, "type") {
            Members { kind: Some(t), ..self }
        } else if same_str(name, "challenge") {
            Members { challenge: Some(t), ..self }
        } else {
            Members { origin: Some(t), ..self }
        }
    }

    /// The client data with these members, if none is missing.
    pub fn complete(self, raw: &[u8], end: usize) -> (r: Result<ClientData, Error>)
        requires
            end <= raw@.len(),
        ensures
            error::outcome(r) == self@.complete(raw@, end as nat),
    {
        let kind = match self.kind {
            Some(t) => t,
            None => {
                return Err(error_to("missing field `type`", raw, end));
            },
        };
        let challenge = match self.challenge {
            Some(t) => t,
            None => {
                return Err(error_to("missing field `challenge`", raw, end));
            },
        };
        let origin = match self.origin {
            Some(t) => t,
            None => {
                return Err(error_to("missing field `origin`", raw, end));
            },
        };
        Ok(ClientData { kind, challenge, origin })
    }
}

// ---------- Objects --------------------------------------------------------

/// The place behind an object that is broken off at `i`.
pub open spec fn object_end(raw: Seq<u8>, i: nat) -> nat {
    let p = json::after_space(raw, i);
    if p < raw.len() && raw[p as int] == 0x7d {
        p + 1
    } else {
        p
    }
}

/// The members with the value at `i` put in under `name`, and where the value
/// ends. A value under a name that is not known is skipped.
pub open spec fn value_of(raw: Seq<u8>, i: nat, name: Seq<char>, m: MembersView) -> Result<
    (MembersView, nat),
    ErrorView,
> {
    if names_string(name) {
        match json::string_at(raw, i) {
            Ok((t, end)) => Ok((m.with_string(name, t), end)),
            Err(e) => Err(e),
        }
    } else if name == "crossOrigin"@ {
        match json::bool_at(raw, i) {
            Ok((b, end)) => Ok((MembersView { cross_origin: Some(b), ..m }, end)),
            Err(e) => Err(e),
        }
    } else {
        match json::value_end(raw, i) {
            Ok(end) => Ok((m, end)),
            Err(e) => Err(e),
        }
    }
}

/// The members with the one whose name stands at `i`, and where it ends.
pub open spec fn member_at(raw: Seq<u8>, i: nat, m: MembersView) -> Result<
    (MembersView, nat),
    ErrorView,
> {
    match json::string_at(raw, i) {
        Err(e) => Err(e),
        Ok((name, end)) => {
            let k = json::after_space(raw, end);
            if m.has(name) {
                Err(json::located("duplicate field `"@ + name + "`"@, raw, object_end(raw, end)))
            } else if k >= raw.len() {
                Err(json::located_at("EOF while parsing an object"@, raw, k))
            } else if raw[k as int] != 0x3a {
                Err(json::located_at("expected `:`"@, raw, k))
            } else {
                value_of(raw, k + 1, name, m)
            }
        },
    }
}

/// Where the name of the next member stands, or nothing at the end of the
/// object.
pub open spec fn next_name(raw: Seq<u8>, i: nat, first: bool) -> Result<Option<nat>, ErrorView> {
    let p = json::after_space(raw, i);
    let q = json::after_space(raw, p + 1);
    if p >= raw.len() {
        Err(json::located_at("EOF while parsing an object"@, raw, p))
    } else if raw[p as int] == 0x7d {
        Ok(None)
    } else if first {
        if raw[p as int] == 0x22 {
            Ok(Some(p))
        } else {
            Err(json::located_at("key must be a string"@, raw, p))
        }
    } else if raw[p as int] != 0x2c {
        Err(json::located_at("expected `,` or `}`"@, raw, p))
    } else if q >= raw.len() {
        Err(json::located_at("EOF while parsing a value"@, raw, q))
    } else if raw[q as int] == 0x22 {
        Ok(Some(q))
    } else if raw[q as int] == 0x7d {
        Err(json::located_at("trailing comma"@, raw, q))
    } else {
        Err(json::located_at("key must be a string"@, raw, q))
    }
}

/// The members of an object from `i` on, added to `m`, and where the object
/// ends.
pub open spec fn object_from(raw: Seq<u8>, i: nat, first: bool, m: MembersView) -> Result<
    (MembersView, nat),
    ErrorView,
>
    decreases
            if i <= raw.len() {
                raw.len() + 1 - i
            } else {
                0
            },
{
    match next_name(raw, i, first) {
        Err(e) => Err(e),
        Ok(None) => Ok((m, json::after_space(raw, i) + 1)),
        Ok(Some(q)) => {
            proof {
                lemma_member_moves_on(raw, i, first, m);
            }
            match member_at(raw, q, m) {
                Err(e) => Err(e),
                Ok((n, end)) => object_from(raw, end, false, n),
            }
        },
    }
}

/// A member ends behind the place where the search for it began.
pub proof fn lemma_member_moves_on(raw: Seq<u8>, i: nat, first: bool, m: MembersView)
    ensures
        next_name(raw, i, first) matches Ok(Some(q)) ==> i <= q && i <= raw.len() && (member_at(
            raw,
            q,
            m,
        ) matches Ok((n, end)) ==> i < end),
{
    json::lemma_space_moves_on(raw, i);
    json::lemma_space_moves_on(raw, json::after_space(raw, i) + 1);
    if let Ok(Some(q)) = next_name(raw, i, first) {
        if let Ok((name, end)) = json::string_at(raw, q) {
            json::lemma_space_moves_on(raw, end);
        }
    }
}

fn read_value(raw: &[u8], i: usize, name: &str, m: Members) -> (r: Result<(Members, usize), Error>)
    requires
        i <= raw@.len(),
    ensures
        match r {
            Ok((n, end)) => value_of(raw@, i as nat, name@, m@) == Ok::<
                (MembersView, nat),
                ErrorView,
            >((n@, end as nat)) && i < end <= raw@.len(),
            Err(e) => value_of(raw@, i as nat, name@, m@) == Err::<(MembersView, nat), ErrorView>(
                e@,
            ),
        },
{
    if same_str(name, "type") || same_str(name, "challenge") || same_str(name, "origin") {
        match read_string_at(raw, i) {
            Ok((t, end)) => Ok((m.with_string(name, t), end)),
            Err(e) => Err(e),
        }
    } else if same_str(name, "crossOrigin") {
        match read_bool_at(raw, i) {
            Ok((b, end)) => Ok((Members { cross_origin: Some(b), ..m }, end)),
            Err(e) => Err(e),
        }
    } else {
        match skip_value_at(raw, i) {
            Ok(end) => Ok((m, end)),
            Err(e) => Err(e),
        }
    }
}

fn duplicate_error(name: &str, raw: &[u8], i: usize) -> (r: Error)
    requires
        i <= raw@.len(),
    ensures
        r@ == json::located("duplicate field `"@ + name@ + "`"@, raw@, object_end(raw@, i as nat)),
{
    let p: usize = skip_space(raw, i);
    let end: usize = if p < raw.len() && raw[p] == 0x7d {
        p + 1
    } else {
        p
    };
    error_to("duplicate field `".to_owned().concat(name).concat("`").as_str(), raw, end)
}

fn read_member(raw: &[u8], i: usize, m: Members) -> (r: Result<(Members, usize), Error>)
    requires
        i <= raw@.len(),
    ensures
        match r {
            Ok((n, end)) => member_at(raw@, i as nat, m@) == Ok::<(MembersView, nat), ErrorView>(
                (n@, end as nat),
            ) && i < end <= raw@.len(),
            Err(e) => member_at(raw@, i as nat, m@) == Err::<(MembersView, nat), ErrorView>(e@),
        },
{
    let (name, end) = match read_string_at(raw, i) {
        Ok(v) => v,
        Err(e) => {
            return Err(e);
        },
    };
    if m.has(name.as_str()) {
        return Err(duplicate_error(name.as_str(), raw, end));
    }
    let k: usize = skip_space(raw, end);
    if k >= raw.len() {
        return Err(error_at("EOF while parsing an object", raw, k));
    }
    if raw[k] != 0x3a {
        return Err(error_at("expected `:`", raw, k));
    }
    read_value(raw, k + 1, name.as_str(), m)
}

/// Finds the name of the next member of an object.
pub fn find_next_name(raw: &[u8], i: usize, first: bool) -> (r: Result<Option<usize>, Error>)
    requires
        i <= raw@.len(),
    ensures
        match r {
            Ok(Some(q)) => next_name(raw@, i as nat, first) == Ok::<Option<nat>, ErrorView>(
                Some(q as nat),
            ) && i <= q < raw@.len(),
            Ok(None) => next_name(raw@, i as nat, first) == Ok::<Option<nat>, ErrorView>(None)
                && json::after_space(raw@, i as nat) < raw@.len() <= usize::MAX,
            Err(e) => next_name(raw@, i as nat, first) == Err::<Option<nat>, ErrorView>(e@),
        },
{
    let p: usize = skip_space(raw, i);
    if p >= raw.len() {
        return Err(error_at("EOF while parsing an object", raw, p));
    }
    if raw[p] == 0x7d {
        return Ok(None);
    }
    if first {
        if raw[p] == 0x22 {
            return Ok(Some(p));
        }
        return Err(error_at("key must be a string", raw, p));
    }
    if raw[p] != 0x2c {
        return Err(error_at("expected `,` or `}`", raw, p));
    }
    let q: usize = skip_space(raw, p + 1);
    if q >= raw.len() {
        return Err(error_at("EOF while parsing a value", raw, q));
    }
    if raw[q] == 0x22 {
        return Ok(Some(q));
    }
    if raw[q] == 0x7d {
        return Err(error_at("trailing comma", raw, q));
    }
    Err(error_at("key must be a string", raw, q))
}

fn read_object(raw: &[u8], start: usize) -> (r: Result<(Members, usize), Error>)
    requires
        start <= raw@.len(),
    ensures
        match r {
            Ok((m, end)) => object_from(raw@, start as nat, true, MembersView::none()) == Ok::<
                (MembersView, nat),
                ErrorView,
            >((m@, end as nat)) && end <= raw@.len(),
            Err(e) => object_from(raw@, start as nat, true, MembersView::none()) == Err::<
                (MembersView, nat),
                ErrorView,
            >(e@),
        },
{
    let mut m = Members::none();
    let mut i: usize = start;
    let mut first = true;
    loop
        invariant
            i <= raw@.len(),
            object_from(raw@, start as nat, true, MembersView::none()) == object_from(
                raw@,
                i as nat,
                first,
                m@,
            ),
        decreases raw@.len() - i,
    {
        match find_next_name(raw, i, first) {
            Err(e) => {
                return Err(e);
            },
            Ok(None) => {
                let p: usize = skip_space(raw, i);
                return Ok((m, p + 1));
            },
            Ok(Some(q)) => match read_member(raw, q, m) {
                Err(e) => {
                    return Err(e);
                },
                Ok((n, end)) => {
                    m = n;
                    i = end;
                    first = false;
                },
            },
        }
    }
}

// ---------- Arrays ---------------------------------------------------------

/// Where the next value of an array stands, or nothing at its end.
pub open spec fn next_item(raw: Seq<u8>, i: nat, first: bool) -> Result<Option<nat>, ErrorView> {
    let p = json::after_space(raw, i);
    let q = json::after_space(raw, p + 1);
    if p >= raw.len() {
        Err(json::located_at("EOF while parsing a list"@, raw, p))
    } else if raw[p as int] == 0x5d {
        Ok(None)
    } else if first {
        Ok(Some(p))
    } else if raw[p as int] != 0x2c {
        Err(json::located_at("expected `,` or `]`"@, raw, p))
    } else if q >= raw.len() {
        Err(json::located_at("EOF while parsing a value"@, raw, q))
    } else if raw[q as int] == 0x5d {
        Err(json::located_at("trailing comma"@, raw, q))
    } else {
        Ok(Some(q))
    }
}

/// The string that is the next value of an array, behind `count` others.
pub open spec fn string_item(raw: Seq<u8>, i: nat, first: bool, count: Seq<char>) -> Result<
    (Seq<char>, nat),
    ErrorView,
> {
    match next_item(raw, i, first) {
        Err(e) => Err(e),
        Ok(None) => Err(
            json::located(
                "invalid length "@ + count + ", expected struct Parsed with 4 elements"@,
                raw,
                json::after_space(raw, i) + 1,
            ),
        ),
        Ok(Some(q)) => json::string_at(raw, q),
    }
}

/// Where the last value of the array, a boolean, ends; it may be left out.
pub open spec fn bool_item(raw: Seq<u8>, i: nat) -> Result<nat, ErrorView> {
    match next_item(raw, i, false) {
        Err(e) => Err(e),
        Ok(None) => Ok(i),
        Ok(Some(q)) => match json::bool_at(raw, q) {
            Ok((b, end)) => Ok(end),
            Err(e) => Err(e),
        },
    }
}

/// Where an array ends that has no more values at `i`.
pub open spec fn array_end(raw: Seq<u8>, i: nat) -> Result<nat, ErrorView> {
    let p = json::after_space(raw, i);
    let q = json::after_space(raw, p + 1);
    if p >= raw.len() {
        Err(json::located_at("EOF while parsing a list"@, raw, p))
    } else if raw[p as int] == 0x5d {
        Ok(p + 1)
    } else if raw[p as int] != 0x2c {
        Err(json::located_at("trailing characters"@, raw, p))
    } else if q < raw.len() && raw[q as int] == 0x5d {
        Err(json::located_at("trailing comma"@, raw, q))
    } else {
        Err(json::located_at("trailing characters"@, raw, q))
    }
}

/// The client data in an array that begins before `i`, and where it ends.
pub open spec fn array_from(raw: Seq<u8>, i: nat) -> Result<(ClientDataView, nat), ErrorView> {
    match string_item(raw, i, true, "0"@) {
        Err(e) => Err(e),
        Ok((kind, j)) => match string_item(raw, j, false, "1"@) {
            Err(e) => Err(e),
            Ok((challenge, k)) => match string_item(raw, k, false, "2"@) {
                Err(e) => Err(e),
                Ok((origin, l)) => match bool_item(raw, l) {
                    Err(e) => Err(e),
                    Ok(n) => match array_end(raw, n) {
                        Err(e) => Err(e),
                        Ok(end) => Ok((ClientDataView { kind, challenge, origin }, end)),
                    },
                },
            },
        },
    }
}

/// Finds the next value of an array.
pub fn find_next_item(raw: &[u8], i: usize, first: bool) -> (r: Result<Option<usize>, Error>)
    requires
        i <= raw@.len(),
    ensures
        match r {
            Ok(Some(q)) => next_item(raw@, i as nat, first) == Ok::<Option<nat>, ErrorView>(
                Some(q as nat),
            ) && q < raw@.len(),
            Ok(None) => next_item(raw@, i as nat, first) == Ok::<Option<nat>, ErrorView>(None)
                && json::after_space(raw@, i as nat) < raw@.len() <= usize::MAX,
            Err(e) => next_item(raw@, i as nat, first) == Err::<Option<nat>, ErrorView>(e@),
        },
{
    let p: usize = skip_space(raw, i);
    if p >= raw.len() {
        return Err(error_at("EOF while parsing a list", raw, p));
    }
    if raw[p] == 0x5d {
        return Ok(None);
    }
    if first {
        return Ok(Some(p));
    }
    if raw[p] != 0x2c {
        return Err(error_at("expected `,` or `]`", raw, p));
    }
    let q: usize = skip_space(raw, p + 1);
    if q >= raw.len() {
        return Err(error_at("EOF while parsing a value", raw, q));
    }
    if raw[q] == 0x5d {
        return Err(error_at("trailing comma", raw, q));
    }
    Ok(Some(q))
}

fn read_string_item(raw: &[u8], i: usize, first: bool, count: &str) -> (r: Result<
    (String, usize),
    Error,
>)
    requires
        i <= raw@.len(),
    ensures
        match r {
            Ok((t, end)) => string_item(raw@, i as nat, first, count@) == Ok::<
                (Seq<char>, nat),
                ErrorView,
            >((t@, end as nat)) && end <= raw@.len(),
            Err(e) => string_item(raw@, i as nat, first, count@) == Err::<
                (Seq<char>, nat),
                ErrorView,
            >(e@),
        },
{
    match find_next_item(raw, i, first) {
        Err(e) => Err(e),
        Ok(None) => {
            let p: usize = skip_space(raw, i);
            Err(
                error_to(
                    "invalid length ".to_owned().concat(count).concat(
                        ", expected struct Parsed with 4 elements",
                    ).as_str(),
                    raw,
                    p + 1,
                ),
            )
        },
        Ok(Some(q)) => read_string_at(raw, q),
    }
}

fn read_bool_item(raw: &[u8], i: usize) -> (r: Result<usize, Error>)
    requires
        i <= raw@.len(),
    ensures
        match r {
            Ok(end) => bool_item(raw@, i as nat) == Ok::<nat, ErrorView>(end as nat) && end
                <= raw@.len(),
            Err(e) => bool_item(raw@, i as nat) == Err::<nat, ErrorView>(e@),
        },
{
    match find_next_item(raw, i, false) {
        Err(e) => Err(e),
        Ok(None) => Ok(i),
        Ok(Some(q)) => match read_bool_at(raw, q) {
            Ok((_, end)) => Ok(end),
            Err(e) => Err(e),
        },
    }
}

/// Finds the end of an array that has no more values at `i`.
pub fn find_array_end(raw: &[u8], i: usize) -> (r: Result<usize, Error>)
    requires
        i <= raw@.len(),
    ensures
        match r {
            Ok(end) => array_end(raw@, i as nat) == Ok::<nat, ErrorView>(end as nat) && end
                <= raw@.len(),
            Err(e) => array_end(raw@, i as nat) == Err::<nat, ErrorView>(e@),
        },
{
    let p: usize = skip_space(raw, i);
    if p >= raw.len() {
        return Err(error_at("EOF while parsing a list", raw, p));
    }
    if raw[p] == 0x5d {
        return Ok(p + 1);
    }
    if raw[p] != 0x2c {
        return Err(error_at("trailing characters", raw, p));
    }
    let q: usize = skip_space(raw, p + 1);
    if q < raw.len() && raw[q] == 0x5d {
        return Err(error_at("trailing comma", raw, q));
    }
    Err(error_at("trailing characters", raw, q))
}

fn read_array(raw: &[u8], i: usize) -> (r: Result<(ClientData, usize), Error>)
    requires
        i <= raw@.len(),
    ensures
        match r {
            Ok((p, end)) => array_from(raw@, i as nat) == Ok::<(ClientDataView, nat), ErrorView>(
                (p@, end as nat),
            ) && end <= raw@.len(),
            Err(e) => array_from(raw@, i as nat) == Err::<(ClientDataView, nat), ErrorView>(e@),
        },
{
    let (kind, j) = match read_string_item(raw, i, true, "0") {
        Ok(v) => v,
        Err(e) => {
            return Err(e);
        },
    };
    let (challenge, k) = match read_string_item(raw, j, false, "1") {
        Ok(v) => v,
        Err(e) => {
            return Err(e);
        },
    };
    let (origin, l) = match read_string_item(raw, k, false, "2") {
        Ok(v) => v,
        Err(e) => {
            return Err(e);
        },
    };
    let n: usize = match read_bool_item(raw, l) {
        Ok(v) => v,
        Err(e) => {
            return Err(e);
        },
    };
    match find_array_end(raw, n) {
        Ok(end) => Ok((ClientData { kind, challenge, origin }, end)),
        Err(e) => Err(e),
    }
}

// ---------- Whole texts ----------------------------------------------------

/// Where `part` stands last in `t`, at `k` or before; -1 where it does not.
pub open spec fn last_place(t: Seq<char>, part: Seq<char>, k: int) -> int
    decreases k + 1,
{
    if k < 0 {
        -1
    } else if k + part.len() <= t.len() && t.subrange(k, k + part.len()) == part {
        k
    } else {
        last_place(t, part, k - 1)
    }
}

/// An error that names `part` as what was expected, with the client data
/// named in its place.
pub open spec fn expecting_client_data(t: Seq<char>, part: Seq<char>) -> Seq<char> {
    let k = last_place(t, part, t.len() as int);
    if k < 0 {
        t
    } else {
        t.subrange(0, k) + "struct Parsed"@ + t.subrange(k + part.len(), t.len() as int)
    }
}

/// The error about a value at `p` that is neither an object nor an array. It
/// is the one that comes where a string is asked for at `t` or `f`, and a
/// boolean anywhere else, but for what was expected.
pub open spec fn wrong_kind(raw: Seq<u8>, p: nat) -> ErrorView {
    let (r, part) = if raw[p as int] == 0x74 || raw[p as int] == 0x66 {
        (error_of(json::string_at(raw, p)), "a string"@)
    } else {
        (error_of(json::bool_at(raw, p)), "a boolean"@)
    };
    match r {
        Some(ErrorView::ClientData(t)) => ErrorView::ClientData(expecting_client_data(t, part)),
        _ => json::located_at("expected value"@, raw, p),
    }
}

/// The error of a result.
pub open spec fn error_of<T>(r: Result<T, ErrorView>) -> Option<ErrorView> {
    match r {
        Ok(_) => None,
        Err(e) => Some(e),
    }
}

fn name_client_data(t: &str, part: &str) -> (r: String)
    ensures
        r@ == expecting_client_data(t@, part@),
{
    let n: usize = t.unicode_len();
    let m: usize = part.unicode_len();
    let mut k: usize = n;
    loop
        invariant
            k <= n == t@.len(),
            m == part@.len(),
            last_place(t@, part@, n as int) == last_place(t@, part@, k as int),
        decreases k,
    {
        if m <= n - k && same_str(t.substring_char(k, k + m), part) {
            return t.substring_char(0, k).to_owned().concat("struct Parsed").concat(
                t.substring_char(k + m, n),
            );
        }
        if k == 0 {
            assert(last_place(t@, part@, -1) == -1);
            return t.to_owned();
        }
        k -= 1;
    }
}

fn kind_error(raw: &[u8], p: usize) -> (r: Error)
    requires
        p < raw@.len(),
    ensures
        r@ == wrong_kind(raw@, p as nat),
{
    if raw[p] == 0x74 || raw[p] == 0x66 {
        match read_string_at(raw, p) {
            Err(Error::ClientData(t)) => Error::ClientData(
                name_client_data(t.as_str(), "a string"),
            ),
            _ => error_at("expected value", raw, p),
        }
    } else {
        match read_bool_at(raw, p) {
            Err(Error::ClientData(t)) => Error::ClientData(
                name_client_data(t.as_str(), "a boolean"),
            ),
            _ => error_at("expected value", raw, p),
        }
    }
}

/// The client data in the object or array at the start of `raw`, and where it
/// ends.
pub open spec fn document(raw: Seq<u8>) -> Result<(ClientDataView, nat), ErrorView> {
    let p = json::after_space(raw, 0);
    if p >= raw.len() {
        Err(json::located_at("EOF while parsing a value"@, raw, p))
    } else if raw[p as int] == 0x7b {
        match object_from(raw, p + 1, true, MembersView::none()) {
            Err(e) => Err(e),
            Ok((m, end)) => match m.complete(raw, end) {
                Ok(p) => Ok((p, end)),
                Err(e) => Err(e),
            },
        }
    } else if raw[p as int] == 0x5b {
        array_from(raw, p + 1)
    } else {
        Err(wrong_kind(raw, p))
    }
}

/// The client data in the JSON text `raw`. Only white space may stand behind
/// them.
pub open spec fn parsed(raw: Seq<u8>) -> Result<ClientDataView, ErrorView> {
    match document(raw) {
        Err(e) => Err(e),
        Ok((p, end)) => {
            let t = json::after_space(raw, end);
            if t < raw.len() {
                Err(json::located_at("trailing characters"@, raw, t))
            } else {
                Ok(p)
            }
        },
    }
}

fn read_document(raw: &[u8]) -> (r: Result<(ClientData, usize), Error>)
    ensures
        match r {
            Ok((p, end)) => document(raw@) == Ok::<(ClientDataView, nat), ErrorView>(
                (p@, end as nat),
            ) && end <= raw@.len(),
            Err(e) => document(raw@) == Err::<(ClientDataView, nat), ErrorView>(e@),
        },
{
    let p: usize = skip_space(raw, 0);
    if p >= raw.len() {
        return Err(error_at("EOF while parsing a value", raw, p));
    }
    if raw[p] == 0x7b {
        match read_object(raw, p + 1) {
            Err(e) => Err(e),
            Ok((m, end)) => match m.complete(raw, end) {
                Ok(p) => Ok((p, end)),
                Err(e) => Err(e),
            },
        }
    } else if raw[p] == 0x5b {
        read_array(raw, p + 1)
    } else {
        Err(kind_error(raw, p))
    }
}

/// Parses the JSON text `raw`.
pub fn parse(raw: &[u8]) -> (r: Result<ClientData, Error>)
    ensures
        error::outcome(r) == parsed(raw@),
{
    let (p, end) = match read_document(raw) {
        Ok(v) => v,
        Err(e) => {
            return Err(e);
        },
    };
    let t: usize = skip_space(raw, end);
    if t < raw.len() {
        return Err(error_at("trailing characters", raw, t));
    }
    Ok(p)
}


/// What is made of the members, given what is expected of them.
pub open spec fn checked(
    p: ClientDataView,
    expected_type: Seq<char>,
    expected_challenge: Seq<u8>,
    expected_origin: Seq<char>,
    strict: bool,
) -> Result<(), ErrorView> {
    if p.kind != expected_type {
        Err(
            ErrorView::ClientDataType {
                expected: if expected_type == TYPE_REGISTER@ {
                    "webauthn.create"@
                } else {
                    "webauthn.get"@
                },
                actual: p.kind,
            },
        )
    } else {
        match encoding::field_decoding(p.challenge, strict) {
            Err(e) => Err(e),
            Ok(challenge) => if challenge != expected_challenge {
                Err(ErrorView::ChallengeMismatch)
            } else if p.origin != expected_origin {
                Err(ErrorView::OriginMismatch { expected: expected_origin, actual: p.origin })
            } else {
                Ok(())
            },
        }
    }
}

/// What [`validate`] returns.
pub open spec fn validated(
    encoded: Seq<char>,
    expected_type: Seq<char>,
    expected_challenge: Seq<u8>,
    expected_origin: Seq<char>,
    strict: bool,
) -> Result<Seq<u8>, ErrorView> {
    match encoding::field_decoding(encoded, strict) {
        Err(e) => Err(e),
        Ok(raw) => match parsed(raw) {
            Err(e) => Err(e),
            Ok(p) => match checked(
                p,
                expected_type,
                expected_challenge,
                expected_origin,
                strict,
            ) {
                Err(e) => Err(e),
                Ok(_) => Ok(raw),
            },
        },
    }
}

impl ClientData {
    /// Holds the members against what is expected of them.
    pub fn check(
        self,
        expected_type: &str,
        expected_challenge: &Challenge,
        expected_origin: &str,
        strict: bool,
    ) -> (r: Result<(), Error>)
        ensures
            error::outcome(r) == checked(
                self@,
                expected_type@,
                expected_challenge@,
                expected_origin@,
                strict,
            ),
    {
        if !same_str(self.kind.as_str(), expected_type) {
            let expected = if same_str(expected_type, TYPE_REGISTER) {
                "webauthn.create"
            } else {
                "webauthn.get"
            };
            return Err(Error::ClientDataType { expected, actual: self.kind });
        }
        let challenge = match decode_field(self.challenge.as_str(), strict) {
            Ok(b) => b,
            Err(e) => {
                return Err(e);
            },
        };
        if !same_bytes(challenge.as_slice(), expected_challenge.as_bytes()) {
            return Err(Error::ChallengeMismatch);
        }
        if !same_str(self.origin.as_str(), expected_origin) {
            return Err(
                Error::OriginMismatch {
                    expected: expected_origin.to_owned(),
                    actual: self.origin,
                },
            );
        }
        Ok(())
    }
}

/// Decodes the base64 envelope, parses the JSON, and holds type, challenge
/// and origin against what is expected. `strict` says how the envelope and
/// the challenge in it are decoded. Returns the decoded bytes, for hashing.
pub fn validate(
    encoded: &str,
    expected_type: &str,
    expected_challenge: &Challenge,
    expected_origin: &str,
    strict: bool,
) -> (r: Result<Vec<u8>, Error>)
    ensures
        error::outcome(r) == validated(
            encoded@,
            expected_type@,
            expected_challenge@,
            expected_origin@,
            strict,
        ),
{
    let raw = match decode_field(encoded, strict) {
        Ok(b) => b,
        Err(e) => {
            return Err(e);
        },
    };
    let p = match parse(raw.as_slice()) {
        Ok(p) => p,
        Err(e) => {
            return Err(e);
        },
    };
    match p.check(expected_type, expected_challenge, expected_origin, strict) {
        Ok(_) => Ok(raw),
        Err(e) => Err(e),
    }
}

} // verus!
