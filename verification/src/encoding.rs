//! Base64, as the wire fields use it.
//!
//! WebAuthn asks for the url-safe alphabet without padding. Three other
//! flavours are accepted by the lenient decoder, since client code produces
//! them.

use vstd::prelude::*;
use base64::Engine;
use base64::engine::general_purpose::{STANDARD, STANDARD_NO_PAD, URL_SAFE, URL_SAFE_NO_PAD};
use crate::error::{self, Error, ErrorView};

verus! {

/// An alphabet and a padding rule.
pub enum Flavour {
    UrlNoPad,
    UrlPad,
    StandardNoPad,
    StandardPad,
}

impl Flavour {
    /// Whether the last two symbols are `-` and `_`.
    pub open spec fn url_safe(self) -> bool {
        self is UrlNoPad || self is UrlPad
    }

    /// Whether the text is padded to a multiple of four characters.
    pub open spec fn padded(self) -> bool {
        self is UrlPad || self is StandardPad
    }

    /// The character for a six-bit value.
    pub open spec fn symbol(self, v: int) -> char {
        if v < 26 {
            ('A' as int + v) as char
        } else if v < 52 {
            ('a' as int + v - 26) as char
        } else if v < 62 {
            ('0' as int + v - 52) as char
        } else if v == 62 {
            if self.url_safe() {
                '-'
            } else {
                '+'
            }
        } else {
            if self.url_safe() {
                '_'
            } else {
                '/'
            }
        }
    }
}

/// The byte at `k`, or zero behind the end.
pub open spec fn byte_at(b: Seq<u8>, k: int) -> int {
    if 0 <= k < b.len() {
        b[k] as int
    } else {
        0
    }
}

/// The `i`-th group of six bits of the byte string.
pub open spec fn sextet(b: Seq<u8>, i: int) -> int {
    let k = 3 * (i / 4);
    if i % 4 == 0 {
        byte_at(b, k) / 4
    } else if i % 4 == 1 {
        (byte_at(b, k) % 4) * 16 + byte_at(b, k + 1) / 16
    } else if i % 4 == 2 {
        (byte_at(b, k + 1) % 16) * 4 + byte_at(b, k + 2) / 64
    } else {
        byte_at(b, k + 2) % 64
    }
}

/// How many symbols `n` bytes take.
pub open spec fn symbol_count(n: nat) -> nat {
    (4 * n + 2) / 3
}

/// The base64 text of a byte string.
pub open spec fn encoded(f: Flavour, b: Seq<u8>) -> Seq<char> {
    let symbols = Seq::new(symbol_count(b.len()), |i: int| f.symbol(sextet(b, i)));
    if f.padded() {
        symbols + Seq::new(((3 - b.len() % 3) % 3) as nat, |i: int| '=')
    } else {
        symbols
    }
}

/// The byte string that a text encodes, if any.
pub open spec fn decoded_as(f: Flavour, s: Seq<char>) -> Option<Seq<u8>> {
    if exists|b: Seq<u8>| encoded(f, b) == s {
        Some(choose|b: Seq<u8>| encoded(f, b) == s)
    } else {
        None
    }
}

/// Why a text is not base64 in the url-safe alphabet without padding, in
/// the words of the `base64` crate.
pub uninterp spec fn url_no_pad_fault(s: Seq<char>) -> Seq<char>;

/// Why a text is not base64 in the standard alphabet with padding, in the
/// words of the `base64` crate.
pub uninterp spec fn standard_pad_fault(s: Seq<char>) -> Seq<char>;

/// `URL_SAFE_NO_PAD.encode`: the base64url text of the bytes. Memory for the
/// result is taken for granted.
#[verifier::external_body]
fn write_url_no_pad(b: &[u8]) -> (r: String)
    ensures
        r@ == encoded(Flavour::UrlNoPad, b@),
{
    URL_SAFE_NO_PAD.encode(b)
}

/// `URL_SAFE_NO_PAD.decode`: undoes the encoding, and refuses every text that
/// encodes nothing. A text whose unused trailing bits are not zero is among
/// those.
#[verifier::external_body]
fn read_url_no_pad(s: &str) -> (r: Result<Vec<u8>, String>)
    ensures
        match r {
            Ok(b) => encoded(Flavour::UrlNoPad, b@) == s@,
            Err(t) => t@ == url_no_pad_fault(s@) && forall|b: Seq<u8>|
                encoded(Flavour::UrlNoPad, b) != s@,
        },
{
    URL_SAFE_NO_PAD.decode(s).map_err(|e| e.to_string())
}

/// `URL_SAFE.decode`: as above, with padding, which must be there.
#[verifier::external_body]
fn read_url_pad(s: &str) -> (r: Option<Vec<u8>>)
    ensures
        match r {
            Some(b) => encoded(Flavour::UrlPad, b@) == s@,
            None => forall|b: Seq<u8>| encoded(Flavour::UrlPad, b) != s@,
        },
{
    URL_SAFE.decode(s).ok()
}

/// `STANDARD_NO_PAD.decode`: as above, in the standard alphabet.
#[verifier::external_body]
fn read_standard_no_pad(s: &str) -> (r: Option<Vec<u8>>)
    ensures
        match r {
            Some(b) => encoded(Flavour::StandardNoPad, b@) == s@,
            None => forall|b: Seq<u8>| encoded(Flavour::StandardNoPad, b) != s@,
        },
{
    STANDARD_NO_PAD.decode(s).ok()
}

/// `STANDARD.decode`: as above, in the standard alphabet with padding.
#[verifier::external_body]
fn read_standard_pad(s: &str) -> (r: Result<Vec<u8>, String>)
    ensures
        match r {
            Ok(b) => encoded(Flavour::StandardPad, b@) == s@,
            Err(t) => t@ == standard_pad_fault(s@) && forall|b: Seq<u8>|
                encoded(Flavour::StandardPad, b) != s@,
        },
{
    STANDARD.decode(s).map_err(|e| e.to_string())
}

proof fn lemma_symbol(f: Flavour, g: Flavour, v: int, w: int)
    requires
        0 <= v < 64,
        0 <= w < 64,
    ensures
        f.symbol(v) != '=',
        f.symbol(v) == g.symbol(w) ==> v == w,
{
}

proof fn lemma_sextet_range(b: Seq<u8>, i: int)
    ensures
        0 <= sextet(b, i) < 64,
{
}

/// A text encodes at most one byte string, whatever the flavours.
pub proof fn lemma_encoded_injective(f: Flavour, b: Seq<u8>, g: Flavour, c: Seq<u8>)
    requires
        encoded(f, b) == encoded(g, c),
    ensures
        b == c,
{
    let s = encoded(f, b);
    let m = symbol_count(b.len()) as int;
    let n = symbol_count(c.len()) as int;
    if m < n {
        lemma_sextet_range(c, m);
        lemma_symbol(g, g, sextet(c, m), 0);
        assert(s[m] == g.symbol(sextet(c, m)));
        assert(s.len() > m && s[m] == '=');
    }
    if n < m {
        lemma_sextet_range(b, n);
        lemma_symbol(f, f, sextet(b, n), 0);
        assert(s[n] == f.symbol(sextet(b, n)));
        assert(encoded(g, c).len() > n && encoded(g, c)[n] == '=');
    }
    assert(b.len() == c.len());
    assert forall|i: int| 0 <= i < m implies sextet(b, i) == sextet(c, i) by {
        lemma_sextet_range(b, i);
        lemma_sextet_range(c, i);
        assert(s[i] == f.symbol(sextet(b, i)));
        assert(s[i] == g.symbol(sextet(c, i)));
        lemma_symbol(f, g, sextet(b, i), sextet(c, i));
    }
    assert forall|k: int| 0 <= k < b.len() implies b[k] == c[k] by {
        let q = k / 3;
        if k % 3 == 0 {
            assert(sextet(b, 4 * q) == sextet(c, 4 * q));
            assert(sextet(b, 4 * q + 1) == sextet(c, 4 * q + 1));
        } else if k % 3 == 1 {
            assert(sextet(b, 4 * q + 1) == sextet(c, 4 * q + 1));
            assert(sextet(b, 4 * q + 2) == sextet(c, 4 * q + 2));
        } else {
            assert(sextet(b, 4 * q + 2) == sextet(c, 4 * q + 2));
            assert(sextet(b, 4 * q + 3) == sextet(c, 4 * q + 3));
        }
    }
    assert(b =~= c);
}

/// Decoding undoes encoding.
pub proof fn lemma_decoded_as(f: Flavour, b: Seq<u8>)
    ensures
        decoded_as(f, encoded(f, b)) == Some(b),
{
    let s = encoded(f, b);
    let c = choose|c: Seq<u8>| encoded(f, c) == s;
    assert(encoded(f, c) == s);
    lemma_encoded_injective(f, c, f, b);
}

/// What [`b64url_decode_strict`] returns.
pub open spec fn strict_decoding(s: Seq<char>) -> Result<Seq<u8>, ErrorView> {
    match decoded_as(Flavour::UrlNoPad, s) {
        Some(b) => Ok(b),
        None => Err(ErrorView::Base64(url_no_pad_fault(s))),
    }
}

/// What [`b64url_decode`] returns: the bytes that the text encodes in the
/// first flavour in which it encodes any.
pub open spec fn lenient_decoding(s: Seq<char>) -> Result<Seq<u8>, ErrorView> {
    if let Some(b) = decoded_as(Flavour::UrlNoPad, s) {
        Ok(b)
    } else if let Some(b) = decoded_as(Flavour::UrlPad, s) {
        Ok(b)
    } else if let Some(b) = decoded_as(Flavour::StandardNoPad, s) {
        Ok(b)
    } else if let Some(b) = decoded_as(Flavour::StandardPad, s) {
        Ok(b)
    } else {
        Err(ErrorView::Base64(standard_pad_fault(s)))
    }
}

/// What a wire field holds, in either mode.
pub open spec fn field_decoding(s: Seq<char>, strict: bool) -> Result<Seq<u8>, ErrorView> {
    if strict {
        strict_decoding(s)
    } else {
        lenient_decoding(s)
    }
}

/// The base64url text of `b`, without padding.
pub fn b64url_encode(b: &[u8]) -> (r: String)
    ensures
        r@ == encoded(Flavour::UrlNoPad, b@),
{
    write_url_no_pad(b)
}

/// Decodes base64url without padding, and nothing else.
pub fn b64url_decode_strict(s: &str) -> (r: Result<Vec<u8>, Error>)
    ensures
        error::outcome(r) == strict_decoding(s@),
{
    match read_url_no_pad(s) {
        Ok(b) => {
            proof {
                lemma_decoded_as(Flavour::UrlNoPad, b@);
            }
            Ok(b)
        },
        Err(t) => Err(Error::Base64(t)),
    }
}

/// Decodes base64 in any of the four flavours: url-safe without padding,
/// as WebAuthn asks; url-safe with padding; standard without and with
/// padding. The error is that of the last attempt.
pub fn b64url_decode(s: &str) -> (r: Result<Vec<u8>, Error>)
    ensures
        error::outcome(r) == lenient_decoding(s@),
{
    if let Ok(b) = read_url_no_pad(s) {
        proof {
            lemma_decoded_as(Flavour::UrlNoPad, b@);
        }
        return Ok(b);
    }
    if let Some(b) = read_url_pad(s) {
        proof {
            lemma_decoded_as(Flavour::UrlPad, b@);
        }
        return Ok(b);
    }
    if let Some(b) = read_standard_no_pad(s) {
        proof {
            lemma_decoded_as(Flavour::StandardNoPad, b@);
        }
        return Ok(b);
    }
    match read_standard_pad(s) {
        Ok(b) => {
            proof {
                lemma_decoded_as(Flavour::StandardPad, b@);
            }
            Ok(b)
        },
        Err(t) => Err(Error::Base64(t)),
    }
}

/// Decodes a wire field, strictly or leniently.
pub fn decode_field(s: &str, strict: bool) -> (r: Result<Vec<u8>, Error>)
    ensures
        error::outcome(r) == field_decoding(s@, strict),
{
    if strict {
        b64url_decode_strict(s)
    } else {
        b64url_decode(s)
    }
}

} // verus!
