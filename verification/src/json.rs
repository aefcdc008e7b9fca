//! JSON texts: single values, read by `serde_json` wherever they stand in a
//! text, and the places that errors name.

use vstd::prelude::*;
use vstd::slice::slice_subrange;
use vstd::string::*;
use serde::de::{Deserialize, IgnoredAny};
use crate::error::{Error, ErrorView};
use crate::text::{self, decimal_string};

verus! {

/// Whether a byte is white space between JSON tokens.
pub open spec fn is_space(b: u8) -> bool {
    b == 0x20 || b == 0x0a || b == 0x09 || b == 0x0d
}

/// The first place from `i` on that is not white space.
pub open spec fn after_space(raw: Seq<u8>, i: nat) -> nat
    decreases raw.len() - i,
{
    if i < raw.len() && is_space(raw[i as int]) {
        after_space(raw, i + 1)
    } else {
        i
    }
}

/// Where the line that holds place `i` begins.
pub open spec fn line_start(raw: Seq<u8>, i: nat) -> nat
    decreases i,
{
    if i == 0 || raw[i - 1] == 0x0a {
        i
    } else {
        line_start(raw, (i - 1) as nat)
    }
}

/// The number of the line that holds place `i`, from 1 on.
pub open spec fn line_number(raw: Seq<u8>, i: nat) -> nat
    decreases i,
{
    if i == 0 {
        1
    } else {
        line_number(raw, (i - 1) as nat) + if raw[i - 1] == 0x0a {
            1nat
        } else {
            0nat
        }
    }
}

/// An error with the place up to which the text was read.
pub open spec fn located(message: Seq<char>, raw: Seq<u8>, i: nat) -> ErrorView {
    ErrorView::ClientData(
        message + " at line "@ + text::decimal(line_number(raw, i)) + " column "@ + text::decimal(
            (i - line_start(raw, i)) as nat,
        ),
    )
}

/// An error about what stands at `i`, or about the end of the text.
pub open spec fn located_at(message: Seq<char>, raw: Seq<u8>, i: nat) -> ErrorView {
    located(
        message,
        raw,
        if i < raw.len() {
            i + 1
        } else {
            raw.len()
        },
    )
}

/// The text with everything before `i` blanked out, line by line, so that
/// what is read first stands at `i` or behind, and every place keeps its
/// number.
pub open spec fn from_here(raw: Seq<u8>, i: nat) -> Seq<u8> {
    Seq::new(
        raw.len(),
        |k: int|
            if k < i && raw[k] != 0x0a {
                0x20u8
            } else {
                raw[k]
            },
    )
}

/// The string at the start of a text, behind white space, and where it ends;
/// or the `serde_json` crate's description of why there is none.
pub uninterp spec fn json_string(raw: Seq<u8>) -> Result<(Seq<char>, nat), Seq<char>>;

/// The same for a boolean.
pub uninterp spec fn json_bool(raw: Seq<u8>) -> Result<(bool, nat), Seq<char>>;

/// Where the value at the start of a text ends, whatever it is; or the
/// `serde_json` crate's description of why there is none.
pub uninterp spec fn json_skip(raw: Seq<u8>) -> Result<nat, Seq<char>>;

/// A `serde_json::Deserializer` on the text, asked for a `String`, and then
/// for how many bytes it has read. The answer depends on the text alone, and
/// a string takes up some bytes of it.
#[verifier::external_body]
fn read_string(raw: &[u8]) -> (r: Result<(String, usize), String>)
    ensures
        match r {
            Ok((t, end)) => json_string(raw@) == Ok::<(Seq<char>, nat), Seq<char>>(
                (t@, end as nat),
            ),
            Err(t) => json_string(raw@) == Err::<(Seq<char>, nat), Seq<char>>(t@),
        },
        r matches Ok((t, end)) ==> 0 < end <= raw@.len(),
{
    let mut de = serde_json::Deserializer::from_slice(raw);
    match String::deserialize(&mut de) {
        Ok(t) => Ok((t, de.into_iter::<IgnoredAny>().byte_offset())),
        Err(e) => Err(e.to_string()),
    }
}

/// A `serde_json::Deserializer`, asked in the same way for a `bool`.
#[verifier::external_body]
fn read_bool(raw: &[u8]) -> (r: Result<(bool, usize), String>)
    ensures
        match r {
            Ok((b, end)) => json_bool(raw@) == Ok::<(bool, nat), Seq<char>>((b, end as nat)),
            Err(t) => json_bool(raw@) == Err::<(bool, nat), Seq<char>>(t@),
        },
        r matches Ok((b, end)) ==> 0 < end <= raw@.len(),
{
    let mut de = serde_json::Deserializer::from_slice(raw);
    match bool::deserialize(&mut de) {
        Ok(b) => Ok((b, de.into_iter::<IgnoredAny>().byte_offset())),
        Err(e) => Err(e.to_string()),
    }
}

/// A `serde_json::Deserializer`, asked in the same way for a value of any
/// kind, which it reads over.
#[verifier::external_body]
fn skip_value(raw: &[u8]) -> (r: Result<usize, String>)
    ensures
        match r {
            Ok(end) => json_skip(raw@) == Ok::<nat, Seq<char>>(end as nat),
            Err(t) => json_skip(raw@) == Err::<nat, Seq<char>>(t@),
        },
        r matches Ok(end) ==> 0 < end <= raw@.len(),
{
    let mut de = serde_json::Deserializer::from_slice(raw);
    match IgnoredAny::deserialize(&mut de) {
        Ok(_) => Ok(de.into_iter::<IgnoredAny>().byte_offset()),
        Err(e) => Err(e.to_string()),
    }
}

/// The place `n` bytes behind `i`, or one behind where `n` is none: a value
/// takes up some bytes.
pub open spec fn past(i: nat, n: nat) -> nat {
    if n > 0 {
        i + n
    } else {
        i + 1
    }
}

/// What `serde_json` says in an error about what stands at `i`: it is asked
/// about the whole text from its start, so that the error names the place in
/// the whole text. (That it then finds a value after all is only a matter of
/// form: what is blanked out is white space to it.)
pub open spec fn complaint<T>(whole: Result<T, Seq<char>>, raw: Seq<u8>, i: nat) -> ErrorView {
    match whole {
        Ok(_) => located_at("expected value"@, raw, i),
        Err(t) => ErrorView::ClientData(t),
    }
}

/// The string that stands at `i`, behind white space, and where it ends.
pub open spec fn string_at(raw: Seq<u8>, i: nat) -> Result<(Seq<char>, nat), ErrorView> {
    match json_string(raw.skip(i as int)) {
        Ok((t, n)) => Ok((t, past(i, n))),
        Err(_) => Err(complaint(json_string(from_here(raw, i)), raw, i)),
    }
}

/// The boolean that stands at `i`, behind white space, and where it ends.
pub open spec fn bool_at(raw: Seq<u8>, i: nat) -> Result<(bool, nat), ErrorView> {
    match json_bool(raw.skip(i as int)) {
        Ok((b, n)) => Ok((b, past(i, n))),
        Err(_) => Err(complaint(json_bool(from_here(raw, i)), raw, i)),
    }
}

/// Where the value that stands at `i`, behind white space, ends.
pub open spec fn value_end(raw: Seq<u8>, i: nat) -> Result<nat, ErrorView> {
    match json_skip(raw.skip(i as int)) {
        Ok(n) => Ok(past(i, n)),
        Err(_) => Err(complaint(json_skip(from_here(raw, i)), raw, i)),
    }
}

/// Stepping over white space never goes back.
pub proof fn lemma_space_moves_on(raw: Seq<u8>, i: nat)
    ensures
        i <= after_space(raw, i),
        i > raw.len() ==> after_space(raw, i) == i,
    decreases raw.len() - i,
{
    if i < raw.len() && is_space(raw[i as int]) {
        lemma_space_moves_on(raw, i + 1);
    }
}

fn blanked(raw: &[u8], i: usize) -> (r: Vec<u8>)
    requires
        i <= raw@.len(),
    ensures
        r@ == from_here(raw@, i as nat),
{
    let n: usize = raw.len();
    let mut out: Vec<u8> = Vec::new();
    let mut k: usize = 0;
    while k < n
        invariant
            k <= n == raw@.len(),
            i <= n,
            out@.len() == k,
            forall|j: int| 0 <= j < k ==> out@[j] == from_here(raw@, i as nat)[j],
        decreases n - k,
    {
        if k < i && raw[k] != 0x0a {
            out.push(0x20);
        } else {
            out.push(raw[k]);
        }
        k += 1;
    }
    assert(out@ =~= from_here(raw@, i as nat));
    out
}

/// Steps over white space.
pub fn skip_space(raw: &[u8], i: usize) -> (r: usize)
    requires
        i <= raw@.len(),
    ensures
        r == after_space(raw@, i as nat),
        i <= r <= raw@.len(),
{
    let n: usize = raw.len();
    let mut k: usize = i;
    while k < n && (raw[k] == 0x20 || raw[k] == 0x0a || raw[k] == 0x09 || raw[k] == 0x0d)
        invariant
            i <= k <= n == raw@.len(),
            after_space(raw@, i as nat) == after_space(raw@, k as nat),
        decreases n - k,
    {
        k += 1;
    }
    k
}

/// Reads the string at `i`.
pub fn read_string_at(raw: &[u8], i: usize) -> (r: Result<(String, usize), Error>)
    requires
        i <= raw@.len(),
    ensures
        match r {
            Ok((t, end)) => string_at(raw@, i as nat) == Ok::<(Seq<char>, nat), ErrorView>(
                (t@, end as nat),
            ) && i < end <= raw@.len(),
            Err(e) => string_at(raw@, i as nat) == Err::<(Seq<char>, nat), ErrorView>(e@),
        },
{
    match read_string(slice_subrange(raw, i, raw.len())) {
        Ok((t, n)) => Ok((t, i + n)),
        Err(_) => match read_string(blanked(raw, i).as_slice()) {
            Ok(_) => Err(error_at("expected value", raw, i)),
            Err(t) => Err(Error::ClientData(t)),
        },
    }
}

/// Reads the boolean at `i`.
pub fn read_bool_at(raw: &[u8], i: usize) -> (r: Result<(bool, usize), Error>)
    requires
        i <= raw@.len(),
    ensures
        match r {
            Ok((b, end)) => bool_at(raw@, i as nat) == Ok::<(bool, nat), ErrorView>(
                (b, end as nat),
            ) && i < end <= raw@.len(),
            Err(e) => bool_at(raw@, i as nat) == Err::<(bool, nat), ErrorView>(e@),
        },
{
    match read_bool(slice_subrange(raw, i, raw.len())) {
        Ok((b, n)) => Ok((b, i + n)),
        Err(_) => match read_bool(blanked(raw, i).as_slice()) {
            Ok(_) => Err(error_at("expected value", raw, i)),
            Err(t) => Err(Error::ClientData(t)),
        },
    }
}

/// Reads over the value at `i`.
pub fn skip_value_at(raw: &[u8], i: usize) -> (r: Result<usize, Error>)
    requires
        i <= raw@.len(),
    ensures
        match r {
            Ok(end) => value_end(raw@, i as nat) == Ok::<nat, ErrorView>(end as nat) && i < end
                <= raw@.len(),
            Err(e) => value_end(raw@, i as nat) == Err::<nat, ErrorView>(e@),
        },
{
    match skip_value(slice_subrange(raw, i, raw.len())) {
        Ok(n) => Ok(i + n),
        Err(_) => match skip_value(blanked(raw, i).as_slice()) {
            Ok(_) => Err(error_at("expected value", raw, i)),
            Err(t) => Err(Error::ClientData(t)),
        },
    }
}

/// An error with the place up to which the text was read.
pub fn error_to(message: &str, raw: &[u8], i: usize) -> (r: Error)
    requires
        i <= raw@.len(),
    ensures
        r@ == located(message@, raw@, i as nat),
{
    let mut line: u128 = 1;
    let mut start: usize = 0;
    let mut k: usize = 0;
    let n: usize = raw.len();
    while k < i
        invariant
            k <= i <= n == raw@.len(),
            start <= k,
            line <= k + 1,
            line == line_number(raw@, k as nat),
            start == line_start(raw@, k as nat),
        decreases i - k,
    {
        if raw[k] == 0x0a {
            line += 1;
            start = k + 1;
        }
        k += 1;
    }
    Error::ClientData(
        message.to_owned().concat(" at line ").concat(decimal_string(line).as_str()).concat(
            " column ",
        ).concat(decimal_string((i - start) as u128).as_str()),
    )
}

/// An error about what stands at `i`, or about the end of the text.
pub fn error_at(message: &str, raw: &[u8], i: usize) -> (r: Error)
    requires
        i <= raw@.len(),
    ensures
        r@ == located_at(message@, raw@, i as nat),
{
    if i < raw.len() {
        error_to(message, raw, i + 1)
    } else {
        error_to(message, raw, raw.len())
    }
}

} // verus!
