//! What is read out of a JSON text of client data, said of the text.
//!
//! A text is described by where its parts stand. Each proof function states
//! one law about what such a text is read as.

use vstd::prelude::*;
use vstd::string::*;
use crate::client_data::{self, ClientDataView, MembersView};
use crate::encoding::{self, Flavour};
use crate::error::ErrorView;
use crate::json;
use crate::text;

verus! {

/// Whether nothing but white space stands from `i` up to `j`.
pub open spec fn blank(raw: Seq<u8>, i: nat, j: nat) -> bool {
    &&& i <= j <= raw.len()
    &&& forall|k: int|
        i <= k < j ==> (#[trigger] raw[k]) == 0x20 || raw[k] == 0x0a || raw[k] == 0x09 || raw[k]
            == 0x0d
}

/// Whether the byte `b` stands at `j`, with nothing but white space between
/// `i` and it.
pub open spec fn stands(raw: Seq<u8>, i: nat, j: nat, b: u8) -> bool {
    blank(raw, i, j) && j < raw.len() && raw[j as int] == b
}

/// Stepping over white space ends at the first byte that is none.
pub proof fn law_after_space(raw: Seq<u8>, i: nat)
    requires
        i <= raw.len(),
    ensures
        blank(raw, i, json::after_space(raw, i)),
        json::after_space(raw, i) < raw.len() ==> !blank(
            raw,
            json::after_space(raw, i),
            json::after_space(raw, i) + 1,
        ),
    decreases raw.len() - i,
{
    if i < raw.len() && json::is_space(raw[i as int]) {
        law_after_space(raw, i + 1);
    } else if i < raw.len() {
        assert(!blank(raw, i, i + 1)) by {
            assert(raw[i as int] == raw[i as int]);
        }
    }
}

proof fn lemma_after_blank(raw: Seq<u8>, i: nat, j: nat)
    requires
        blank(raw, i, j),
        j < raw.len() ==> !json::is_space(raw[j as int]),
    ensures
        json::after_space(raw, i) == j,
    decreases j - i,
{
    if i < j {
        assert(json::is_space(raw[i as int]));
        lemma_after_blank(raw, i + 1, j);
    }
}

/// How many line feeds stand before `i`.
pub open spec fn line_feeds(raw: Seq<u8>, i: nat) -> nat {
    raw.take(i as int).filter(|b: u8| b == 0x0a).len()
}

/// An error names the line of a place, which is one more than the line feeds
/// before it, and how many bytes there are from the beginning of that line,
/// which is the place behind the last of them.
pub proof fn law_located(message: Seq<char>, raw: Seq<u8>, i: nat, start: nat)
    requires
        start <= i <= raw.len(),
        start == 0 || raw[start - 1] == 0x0a,
        forall|k: int| start <= k < i ==> (#[trigger] raw[k]) != 0x0a,
    ensures
        json::located(message, raw, i) == ErrorView::ClientData(
            message + " at line "@ + text::decimal(line_feeds(raw, i) + 1) + " column "@
                + text::decimal((i - start) as nat),
        ),
        json::located_at(message, raw, i) == json::located(
            message,
            raw,
            if i < raw.len() {
                i + 1
            } else {
                i
            },
        ),
{
    lemma_line_number(raw, i);
    lemma_line_start(raw, i, start);
}

proof fn lemma_line_number(raw: Seq<u8>, i: nat)
    requires
        i <= raw.len(),
    ensures
        json::line_number(raw, i) == line_feeds(raw, i) + 1,
    decreases i,
{
    reveal(Seq::filter);
    let is_feed = |b: u8| b == 0x0a;
    if i == 0 {
        assert(raw.take(0) =~= Seq::<u8>::empty());
    } else {
        lemma_line_number(raw, (i - 1) as nat);
        let front = raw.take(i as int);
        assert(front.drop_last() =~= raw.take(i - 1));
        assert(front.last() == raw[i - 1]);
    }
}

proof fn lemma_line_start(raw: Seq<u8>, i: nat, start: nat)
    requires
        start <= i <= raw.len(),
        start == 0 || raw[start - 1] == 0x0a,
        forall|k: int| start <= k < i ==> (#[trigger] raw[k]) != 0x0a,
    ensures
        json::line_start(raw, i) == start,
    decreases i,
{
    if start < i {
        assert(raw[i - 1] != 0x0a);
        lemma_line_start(raw, (i - 1) as nat, start);
    }
}

/// What is asked of `serde_json` about a place is asked of the text from that
/// place on: a string, a boolean or any value that it finds there is taken as
/// it is, and ends where it says.
pub proof fn law_values_at(raw: Seq<u8>, i: nat)
    ensures
        json::json_string(raw.skip(i as int)) matches Ok((t, n)) ==> n > 0 ==> json::string_at(
            raw,
            i,
        ) == Ok::<(Seq<char>, nat), ErrorView>((t, i + n)),
        json::json_bool(raw.skip(i as int)) matches Ok((b, n)) ==> n > 0 ==> json::bool_at(raw, i)
            == Ok::<(bool, nat), ErrorView>((b, i + n)),
        json::json_skip(raw.skip(i as int)) matches Ok(n) ==> n > 0 ==> json::value_end(raw, i)
            == Ok::<nat, ErrorView>(i + n),
        json::json_string(raw.skip(i as int)) is Err ==> json::string_at(raw, i) is Err,
        json::json_bool(raw.skip(i as int)) is Err ==> json::bool_at(raw, i) is Err,
        json::json_skip(raw.skip(i as int)) is Err ==> json::value_end(raw, i) is Err,
{
}

/// Where there is no such value, `serde_json`'s words about the whole text are
/// reported, in which everything before the place but line feeds is blank.
pub proof fn law_complaints_at(raw: Seq<u8>, i: nat, whole: Seq<u8>)
    requires
        whole.len() == raw.len(),
        forall|k: int|
            0 <= k < raw.len() ==> #[trigger] whole[k] == (if k < i && raw[k] != 0x0a {
                0x20
            } else {
                raw[k]
            }),
    ensures
        json::json_string(raw.skip(i as int)) is Err ==> (json::json_string(whole) matches Err(t)
            ==> json::string_at(raw, i) == Err::<(Seq<char>, nat), ErrorView>(
            ErrorView::ClientData(t),
        )),
        json::json_bool(raw.skip(i as int)) is Err ==> (json::json_bool(whole) matches Err(t)
            ==> json::bool_at(raw, i) == Err::<(bool, nat), ErrorView>(ErrorView::ClientData(t))),
        json::json_skip(raw.skip(i as int)) is Err ==> (json::json_skip(whole) matches Err(t)
            ==> json::value_end(raw, i) == Err::<nat, ErrorView>(ErrorView::ClientData(t))),
{
    assert(whole =~= json::from_here(raw, i));
}

// ---------- Objects --------------------------------------------------------

/// A member of an object: where its name begins and what it is, where the
/// colon stands, what the value is if it matters, where the value ends, and
/// where the comma behind it stands, if there is one.
pub struct Member {
    pub at: nat,
    pub name: Seq<char>,
    pub name_end: nat,
    pub colon: nat,
    pub text: Seq<char>,
    pub flag: bool,
    pub end: nat,
    pub comma: nat,
}

/// Whether a name is one of the four that are known.
pub open spec fn known(name: Seq<char>) -> bool {
    name == "type"@ || name == "challenge"@ || name == "origin"@ || name == "crossOrigin"@
}

/// The place behind a value that begins at `i` and takes up `n` bytes.
pub open spec fn behind(i: nat, n: nat) -> nat {
    if n > 0 {
        i + n
    } else {
        i + 1
    }
}

/// Whether the text holds this member.
pub open spec fn holds_member(raw: Seq<u8>, m: Member) -> bool {
    &&& m.at < raw.len() && raw[m.at as int] == 0x22
    &&& json::json_string(raw.skip(m.at as int)) matches Ok((t, n)) && t == m.name && m.name_end
        == behind(m.at, n)
    &&& stands(raw, m.name_end, m.colon, 0x3a)
    &&& if m.name == "type"@ || m.name == "challenge"@ || m.name == "origin"@ {
        json::json_string(raw.skip(m.colon as int + 1)) matches Ok((t, n)) && t == m.text && m.end
            == behind(m.colon + 1, n)
    } else if m.name == "crossOrigin"@ {
        json::json_bool(raw.skip(m.colon as int + 1)) matches Ok((b, n)) && b == m.flag && m.end
            == behind(m.colon + 1, n)
    } else {
        json::json_skip(raw.skip(m.colon as int + 1)) matches Ok(n) && m.end == behind(
            m.colon + 1,
            n,
        )
    }
}

/// Whether one member follows another: only a comma stands between.
pub open spec fn joined(raw: Seq<u8>, m: Member, n: Member) -> bool {
    stands(raw, m.end, m.comma, 0x2c) && stands(raw, m.comma + 1, n.at, 0x22)
}

/// Where the search for the `k`-th member begins.
pub open spec fn before(open: nat, ms: Seq<Member>, k: int) -> nat {
    if k == 0 {
        open + 1
    } else {
        ms[k - 1].end
    }
}

/// Whether the text is an object from `open` to `close` with exactly these
/// members, in this order.
pub open spec fn holds_object(raw: Seq<u8>, open: nat, ms: Seq<Member>, close: nat) -> bool {
    &&& stands(raw, 0, open, 0x7b)
    &&& forall|k: int| 0 <= k < ms.len() ==> holds_member(raw, #[trigger] ms[k])
    &&& ms.len() > 0 ==> stands(raw, open + 1, ms[0].at, 0x22)
    &&& forall|j: int, k: int|
        0 <= j < k < ms.len() && k == j + 1 ==> joined(raw, #[trigger] ms[j], #[trigger] ms[k])
    &&& stands(raw, before(open, ms, ms.len() as int), close, 0x7d)
    &&& blank(raw, close + 1, raw.len())
}

/// Whether no name that is known comes twice.
pub open spec fn once_each(ms: Seq<Member>) -> bool {
    forall|i: int, j: int|
        0 <= i < j < ms.len() && known((#[trigger] ms[i]).name) ==> ms[i].name != (#[trigger] ms[j]).name
}

/// What is known of an object once one more member is read.
pub open spec fn added(front: MembersView, m: Member) -> MembersView {
    if m.name == "type"@ {
        MembersView { kind: Some(m.text), ..front }
    } else if m.name == "challenge"@ {
        MembersView { challenge: Some(m.text), ..front }
    } else if m.name == "origin"@ {
        MembersView { origin: Some(m.text), ..front }
    } else if m.name == "crossOrigin"@ {
        MembersView { cross_origin: Some(m.flag), ..front }
    } else {
        front
    }
}

/// What is known of an object once these members are read.
pub open spec fn read_from(ms: Seq<Member>) -> MembersView
    decreases ms.len(),
{
    if ms.len() == 0 {
        MembersView { kind: None, challenge: None, origin: None, cross_origin: None }
    } else {
        added(read_from(ms.drop_last()), ms[ms.len() - 1])
    }
}

proof fn lemma_names_differ()
    ensures
        "type"@ != "challenge"@,
        "type"@ != "origin"@,
        "type"@ != "crossOrigin"@,
        "challenge"@ != "origin"@,
        "challenge"@ != "crossOrigin"@,
        "origin"@ != "crossOrigin"@,
{
    reveal_strlit("type");
    reveal_strlit("challenge");
    reveal_strlit("origin");
    reveal_strlit("crossOrigin");
    assert("type"@.len() == 4 && "challenge"@.len() == 9 && "origin"@.len() == 6
        && "crossOrigin"@.len() == 11);
}

/// What was read under a name is there exactly if a member has that name, and
/// is then what that member holds.
proof fn lemma_read_from(ms: Seq<Member>)
    ensures
        ({
            let r = read_from(ms);
            &&& r.kind is Some <==> exists|i: int|
                0 <= i < ms.len() && (#[trigger] ms[i]).name == "type"@
            &&& r.challenge is Some <==> exists|i: int|
                0 <= i < ms.len() && (#[trigger] ms[i]).name == "challenge"@
            &&& r.origin is Some <==> exists|i: int|
                0 <= i < ms.len() && (#[trigger] ms[i]).name == "origin"@
            &&& r.cross_origin is Some <==> exists|i: int|
                0 <= i < ms.len() && (#[trigger] ms[i]).name == "crossOrigin"@
        }),
        once_each(ms) ==> forall|i: int|
            0 <= i < ms.len() ==> {
                &&& (#[trigger] ms[i]).name == "type"@ ==> read_from(ms).kind == Some(ms[i].text)
                &&& ms[i].name == "challenge"@ ==> read_from(ms).challenge == Some(ms[i].text)
                &&& ms[i].name == "origin"@ ==> read_from(ms).origin == Some(ms[i].text)
            },
    decreases ms.len(),
{
    lemma_names_differ();
    if ms.len() > 0 {
        let front = ms.drop_last();
        let k = ms.len() - 1;
        lemma_read_from(front);
        assert forall|i: int| 0 <= i < k implies #[trigger] front[i] == ms[i] by {
        }
        let r = read_from(ms);
        let q = read_from(front);
        assert(ms[k].name == ms[k].name);
        if q.kind is Some {
            let i = choose|i: int| 0 <= i < front.len() && (#[trigger] front[i]).name == "type"@;
            assert(ms[i].name == "type"@);
        }
        if q.challenge is Some {
            let i = choose|i: int|
                0 <= i < front.len() && (#[trigger] front[i]).name == "challenge"@;
            assert(ms[i].name == "challenge"@);
        }
        if q.origin is Some {
            let i = choose|i: int| 0 <= i < front.len() && (#[trigger] front[i]).name == "origin"@;
            assert(ms[i].name == "origin"@);
        }
        if q.cross_origin is Some {
            let i = choose|i: int|
                0 <= i < front.len() && (#[trigger] front[i]).name == "crossOrigin"@;
            assert(ms[i].name == "crossOrigin"@);
        }
        if exists|i: int| 0 <= i < ms.len() && (#[trigger] ms[i]).name == "type"@ {
            let i = choose|i: int| 0 <= i < ms.len() && (#[trigger] ms[i]).name == "type"@;
            if i < k {
                assert(front[i].name == "type"@);
            }
        }
        if exists|i: int| 0 <= i < ms.len() && (#[trigger] ms[i]).name == "challenge"@ {
            let i = choose|i: int| 0 <= i < ms.len() && (#[trigger] ms[i]).name == "challenge"@;
            if i < k {
                assert(front[i].name == "challenge"@);
            }
        }
        if exists|i: int| 0 <= i < ms.len() && (#[trigger] ms[i]).name == "origin"@ {
            let i = choose|i: int| 0 <= i < ms.len() && (#[trigger] ms[i]).name == "origin"@;
            if i < k {
                assert(front[i].name == "origin"@);
            }
        }
        if exists|i: int| 0 <= i < ms.len() && (#[trigger] ms[i]).name == "crossOrigin"@ {
            let i = choose|i: int| 0 <= i < ms.len() && (#[trigger] ms[i]).name == "crossOrigin"@;
            if i < k {
                assert(front[i].name == "crossOrigin"@);
            }
        }
        if once_each(ms) {
            assert(once_each(front));
            assert forall|i: int| 0 <= i < ms.len() implies {
                &&& (#[trigger] ms[i]).name == "type"@ ==> r.kind == Some(ms[i].text)
                &&& ms[i].name == "challenge"@ ==> r.challenge == Some(ms[i].text)
                &&& ms[i].name == "origin"@ ==> r.origin == Some(ms[i].text)
            } by {
                if i < k {
                    assert(front[i] == ms[i]);
                    assert(known(ms[i].name) ==> ms[i].name != ms[k].name);
                }
            }
        }
    }
}

proof fn lemma_next(raw: Seq<u8>, i: nat, first: bool, comma: nat, at: nat)
    requires
        first ==> stands(raw, i, at, 0x22),
        !first ==> stands(raw, i, comma, 0x2c) && stands(raw, comma + 1, at, 0x22),
    ensures
        client_data::next_name(raw, i, first) == Ok::<Option<nat>, ErrorView>(Some(at)),
{
    if first {
        lemma_after_blank(raw, i, at);
    } else {
        lemma_after_blank(raw, i, comma);
        lemma_after_blank(raw, comma + 1, at);
    }
}

proof fn lemma_member(raw: Seq<u8>, e: Member, m: MembersView)
    requires
        holds_member(raw, e),
        !m.has(e.name),
    ensures
        client_data::member_at(raw, e.at, m) == Ok::<(MembersView, nat), ErrorView>(
            (added(m, e), e.end),
        ),
{
    lemma_names_differ();
    lemma_after_blank(raw, e.name_end, e.colon);
}

proof fn lemma_unused(ms: Seq<Member>, k: int)
    requires
        once_each(ms),
        0 <= k < ms.len(),
    ensures
        !read_from(ms.take(k)).has(ms[k].name),
{
    let front = ms.take(k);
    let name = ms[k].name;
    lemma_names_differ();
    lemma_read_from(front);
    if read_from(front).has(name) {
        let j = choose|j: int| 0 <= j < front.len() && (#[trigger] front[j]).name == name;
        assert(ms[j].name == name);
        assert(known(ms[j].name));
    }
}

proof fn lemma_object_from(raw: Seq<u8>, open: nat, ms: Seq<Member>, close: nat, k: int)
    requires
        holds_object(raw, open, ms, close),
        once_each(ms),
        0 <= k <= ms.len(),
    ensures
        client_data::object_from(raw, before(open, ms, k), k == 0, read_from(ms.take(k))) == Ok::<
            (MembersView, nat),
            ErrorView,
        >((read_from(ms), close + 1)),
    decreases ms.len() - k,
{
    let i = before(open, ms, k);
    if k == ms.len() {
        lemma_after_blank(raw, i, close);
        assert(ms.take(k) =~= ms);
    } else {
        let m = ms[k];
        assert(holds_member(raw, m));
        let comma = if k == 0 {
            0
        } else {
            ms[k - 1].comma
        };
        if k > 0 {
            assert(joined(raw, ms[k - 1], m));
        }
        lemma_next(raw, i, k == 0, comma, m.at);
        lemma_unused(ms, k);
        lemma_member(raw, m, read_from(ms.take(k)));
        assert(ms.take(k + 1).drop_last() =~= ms.take(k));
        assert(ms.take(k + 1)[k] == m);
        lemma_object_from(raw, open, ms, close, k + 1);
    }
}

proof fn lemma_document(raw: Seq<u8>, open: nat, ms: Seq<Member>, close: nat)
    requires
        holds_object(raw, open, ms, close),
        once_each(ms),
    ensures
        match read_from(ms).complete(raw, close + 1) {
            Ok(c) => client_data::parsed(raw) == Ok::<ClientDataView, ErrorView>(c),
            Err(e) => client_data::parsed(raw) == Err::<ClientDataView, ErrorView>(e),
        },
{
    lemma_after_blank(raw, 0, open);
    assert(ms.take(0) =~= Seq::<Member>::empty());
    assert(read_from(ms.take(0)) == MembersView::none());
    lemma_object_from(raw, open, ms, close, 0);
    lemma_after_blank(raw, close + 1, raw.len());
}

/// An object whose members `type`, `challenge` and `origin` hold strings, each
/// once, is read as exactly those strings, whatever they are and wherever the
/// members stand, and whatever other members hold.
pub proof fn law_object_read(
    raw: Seq<u8>,
    open: nat,
    ms: Seq<Member>,
    close: nat,
    a: int,
    b: int,
    c: int,
)
    requires
        holds_object(raw, open, ms, close),
        once_each(ms),
        0 <= a < ms.len() && ms[a].name == "type"@,
        0 <= b < ms.len() && ms[b].name == "challenge"@,
        0 <= c < ms.len() && ms[c].name == "origin"@,
    ensures
        client_data::parsed(raw) == Ok::<ClientDataView, ErrorView>(
            ClientDataView { kind: ms[a].text, challenge: ms[b].text, origin: ms[c].text },
        ),
{
    lemma_document(raw, open, ms, close);
    lemma_read_from(ms);
}

/// An object without one of them is refused, and the first that is missing is
/// named.
pub proof fn law_incomplete_object_refused(raw: Seq<u8>, open: nat, ms: Seq<Member>, close: nat)
    requires
        holds_object(raw, open, ms, close),
        once_each(ms),
    ensures
        ({
            let r = client_data::parsed(raw);
            let has_type = exists|i: int| 0 <= i < ms.len() && (#[trigger] ms[i]).name == "type"@;
            let has_challenge = exists|i: int|
                0 <= i < ms.len() && (#[trigger] ms[i]).name == "challenge"@;
            let has_origin = exists|i: int|
                0 <= i < ms.len() && (#[trigger] ms[i]).name == "origin"@;
            &&& !has_type ==> r == Err::<ClientDataView, ErrorView>(
                json::located("missing field `type`"@, raw, close + 1),
            )
            &&& has_type && !has_challenge ==> r == Err::<ClientDataView, ErrorView>(
                json::located("missing field `challenge`"@, raw, close + 1),
            )
            &&& has_type && has_challenge && !has_origin ==> r == Err::<ClientDataView, ErrorView>(
                json::located("missing field `origin`"@, raw, close + 1),
            )
        }),
{
    lemma_document(raw, open, ms, close);
    lemma_read_from(ms);
}

/// An object is only read if it is one: a text that begins with `{` and is
/// accepted is an object with members that hold what was read, none of those
/// that are known twice.
pub proof fn law_object_sound(raw: Seq<u8>, open: nat) -> (r: (Seq<Member>, nat))
    requires
        stands(raw, 0, open, 0x7b),
        client_data::parsed(raw) is Ok,
    ensures
        holds_object(raw, open, r.0, r.1),
        once_each(r.0),
        ({
            let client = client_data::parsed(raw)->Ok_0;
            &&& exists|i: int|
                0 <= i < r.0.len() && (#[trigger] r.0[i]).name == "type"@ && r.0[i].text
                    == client.kind
            &&& exists|i: int|
                0 <= i < r.0.len() && (#[trigger] r.0[i]).name == "challenge"@ && r.0[i].text
                    == client.challenge
            &&& exists|i: int|
                0 <= i < r.0.len() && (#[trigger] r.0[i]).name == "origin"@ && r.0[i].text
                    == client.origin
        }),
{
    let (ms, close) = lemma_document_sound(raw, open);
    lemma_read_from(ms);
    let a = choose|i: int| 0 <= i < ms.len() && (#[trigger] ms[i]).name == "type"@;
    let b = choose|i: int| 0 <= i < ms.len() && (#[trigger] ms[i]).name == "challenge"@;
    let c = choose|i: int| 0 <= i < ms.len() && (#[trigger] ms[i]).name == "origin"@;
    assert(ms[a].name == "type"@ && ms[a].text == client_data::parsed(raw)->Ok_0.kind);
    assert(ms[b].name == "challenge"@ && ms[b].text == client_data::parsed(raw)->Ok_0.challenge);
    assert(ms[c].name == "origin"@ && ms[c].text == client_data::parsed(raw)->Ok_0.origin);
    (ms, close)
}

proof fn lemma_document_sound(raw: Seq<u8>, open: nat) -> (r: (Seq<Member>, nat))
    requires
        stands(raw, 0, open, 0x7b),
        client_data::parsed(raw) is Ok,
    ensures
        holds_object(raw, open, r.0, r.1),
        once_each(r.0),
        read_from(r.0).kind == Some(client_data::parsed(raw)->Ok_0.kind),
        read_from(r.0).challenge == Some(client_data::parsed(raw)->Ok_0.challenge),
        read_from(r.0).origin == Some(client_data::parsed(raw)->Ok_0.origin),
{
    lemma_after_blank(raw, 0, open);
    assert(read_from(Seq::<Member>::empty()) == MembersView::none());
    assert(before(open, Seq::<Member>::empty(), 0) == open + 1);
    let (ms, close) = lemma_object_members(raw, open, Seq::empty());
    law_after_space(raw, close + 1);
    assert(holds_object(raw, open, ms, close));
    (ms, close)
}

/// Whether the text goes on, behind `open`, with these members.
spec fn goes_on(raw: Seq<u8>, open: nat, ms: Seq<Member>) -> bool {
    &&& open < raw.len()
    &&& before(open, ms, ms.len() as int) <= raw.len()
    &&& forall|k: int| 0 <= k < ms.len() ==> holds_member(raw, #[trigger] ms[k])
    &&& ms.len() > 0 ==> stands(raw, open + 1, ms[0].at, 0x22)
    &&& forall|j: int, k: int|
        0 <= j < k < ms.len() && k == j + 1 ==> joined(raw, #[trigger] ms[j], #[trigger] ms[k])
}

proof fn lemma_next_sound(raw: Seq<u8>, i: nat, first: bool)
    requires
        i <= raw.len(),
    ensures
        client_data::next_name(raw, i, first) matches Ok(Some(q)) ==> {
            &&& first ==> stands(raw, i, q, 0x22)
            &&& !first ==> stands(raw, i, json::after_space(raw, i), 0x2c) && stands(
                raw,
                json::after_space(raw, i) + 1,
                q,
                0x22,
            )
        },
        client_data::next_name(raw, i, first) matches Ok(None) ==> stands(
            raw,
            i,
            json::after_space(raw, i),
            0x7d,
        ),
{
    law_after_space(raw, i);
    if json::after_space(raw, i) < raw.len() {
        law_after_space(raw, json::after_space(raw, i) + 1);
    }
}

proof fn lemma_member_sound(raw: Seq<u8>, q: nat, m: MembersView) -> (e: Member)
    requires
        q < raw.len(),
        raw[q as int] == 0x22,
        client_data::member_at(raw, q, m) is Ok,
    ensures
        e.at == q,
        holds_member(raw, e),
        !m.has(e.name),
        client_data::member_at(raw, q, m) == Ok::<(MembersView, nat), ErrorView>(
            (added(m, e), e.end),
        ),
{
    lemma_names_differ();
    let (name, name_end) = json::string_at(raw, q)->Ok_0;
    let colon = json::after_space(raw, name_end);
    json::lemma_space_moves_on(raw, name_end);
    law_after_space(raw, name_end);
    Member {
        at: q,
        name,
        name_end,
        colon,
        text: json::string_at(raw, colon + 1)->Ok_0.0,
        flag: json::bool_at(raw, colon + 1)->Ok_0.0,
        end: client_data::member_at(raw, q, m)->Ok_0.1,
        comma: 0,
    }
}

proof fn lemma_one_more(raw: Seq<u8>, open: nat, ms: Seq<Member>, comma: nat, e: Member) -> (r: Seq<
    Member,
>)
    requires
        goes_on(raw, open, ms),
        once_each(ms),
        holds_member(raw, e),
        e.end <= raw.len(),
        !read_from(ms).has(e.name),
        ms.len() == 0 ==> stands(raw, open + 1, e.at, 0x22),
        ms.len() > 0 ==> stands(raw, ms[ms.len() - 1].end, comma, 0x2c) && stands(
            raw,
            comma + 1,
            e.at,
            0x22,
        ),
    ensures
        goes_on(raw, open, r),
        once_each(r),
        r.len() == ms.len() + 1,
        r[r.len() - 1].end == e.end,
        read_from(r) == added(read_from(ms), e),
{
    let k = ms.len() as int;
    let old = if k == 0 {
        ms
    } else {
        ms.update(k - 1, Member { comma, ..ms[k - 1] })
    };
    let all = old.push(e);
    lemma_same_reading(ms, old);
    assert(all.drop_last() =~= old);
    lemma_names_stay_unique(ms, all);
    assert forall|j: int| 0 <= j < all.len() implies holds_member(raw, #[trigger] all[j]) by {
        if j < k {
            assert(holds_member(raw, ms[j]));
        }
    }
    assert forall|i: int, j: int| 0 <= i < j < all.len() && j == i + 1 implies joined(
        raw,
        #[trigger] all[i],
        #[trigger] all[j],
    ) by {
        if j < k {
            assert(joined(raw, ms[i], ms[j]));
        }
    }
    if k > 0 {
        assert(all[0].at == ms[0].at);
    }
    all
}

proof fn lemma_names_stay_unique(ms: Seq<Member>, all: Seq<Member>)
    requires
        once_each(ms),
        all.len() == ms.len() + 1,
        forall|i: int| 0 <= i < ms.len() ==> (#[trigger] all[i]).name == ms[i].name,
        !read_from(ms).has(all[all.len() - 1].name),
    ensures
        once_each(all),
{
    let k = ms.len() as int;
    lemma_read_from(ms);
    assert forall|a: int, b: int|
        0 <= a < b < all.len() && known((#[trigger] all[a]).name) implies all[a].name
        != (#[trigger] all[b]).name by {
        assert(ms[a].name == all[a].name);
        if b < k {
            assert(ms[b].name == all[b].name);
        }
    }
}

proof fn lemma_object_members(raw: Seq<u8>, open: nat, ms: Seq<Member>) -> (r: (Seq<Member>, nat))
    requires
        goes_on(raw, open, ms),
        once_each(ms),
        client_data::object_from(
            raw,
            before(open, ms, ms.len() as int),
            ms.len() == 0,
            read_from(ms),
        ) is Ok,
    ensures
        goes_on(raw, open, r.0),
        once_each(r.0),
        stands(raw, before(open, r.0, r.0.len() as int), r.1, 0x7d),
        client_data::object_from(
            raw,
            before(open, ms, ms.len() as int),
            ms.len() == 0,
            read_from(ms),
        ) == Ok::<(MembersView, nat), ErrorView>((read_from(r.0), r.1 + 1)),
    decreases raw.len() + 1 - before(open, ms, ms.len() as int),
{
    let i = before(open, ms, ms.len() as int);
    let m = read_from(ms);
    let p = json::after_space(raw, i);
    lemma_next_sound(raw, i, ms.len() == 0);
    match client_data::next_name(raw, i, ms.len() == 0) {
        Ok(Some(q)) => {
            client_data::lemma_member_moves_on(raw, i, ms.len() == 0, m);
            let e = lemma_member_sound(raw, q, m);
            lemma_object_stays(raw, e.end, added(m, e));
            let all = lemma_one_more(raw, open, ms, p, e);
            lemma_object_members(raw, open, all)
        },
        _ => (ms, p),
    }
}

/// An object that is read to its end goes on within the text.
proof fn lemma_object_stays(raw: Seq<u8>, i: nat, m: MembersView)
    requires
        client_data::object_from(raw, i, false, m) is Ok,
    ensures
        i < raw.len(),
{
    json::lemma_space_moves_on(raw, i);
}

proof fn lemma_same_reading(ms: Seq<Member>, ns: Seq<Member>)
    requires
        ms.len() == ns.len(),
        forall|i: int|
            0 <= i < ms.len() ==> (#[trigger] ms[i]).name == ns[i].name && ms[i].text == ns[i].text
                && ms[i].flag == ns[i].flag,
    ensures
        read_from(ms) == read_from(ns),
    decreases ms.len(),
{
    if ms.len() > 0 {
        let k = ms.len() - 1;
        assert(ms[k].name == ns[k].name);
        assert forall|i: int| 0 <= i < k implies (#[trigger] ms.drop_last()[i]).name
            == ns.drop_last()[i].name && ms.drop_last()[i].text == ns.drop_last()[i].text
            && ms.drop_last()[i].flag == ns.drop_last()[i].flag by {
            assert(ms[i].name == ns[i].name);
        }
        lemma_same_reading(ms.drop_last(), ns.drop_last());
    }
}

// ---------- Arrays ---------------------------------------------------------

/// Whether a string stands in an array at `at`, and ends before `end`.
pub open spec fn holds_string(raw: Seq<u8>, at: nat, t: Seq<char>, end: nat) -> bool {
    json::json_string(raw.skip(at as int)) matches Ok((s, n)) && s == t && end == behind(at, n)
}

/// Whether something other than the end of the array stands at `j`, with
/// nothing but white space between `i` and it.
pub open spec fn goes_to(raw: Seq<u8>, i: nat, j: nat) -> bool {
    &&& blank(raw, i, j)
    &&& j < raw.len()
    &&& raw[j as int] != 0x5d
    &&& !json::is_space(raw[j as int])
}

/// An array of three strings is read as type, challenge and origin, in this
/// order.
pub proof fn law_array_read(
    raw: Seq<u8>,
    open: nat,
    kind: (nat, Seq<char>, nat),
    comma: nat,
    challenge: (nat, Seq<char>, nat),
    other_comma: nat,
    origin: (nat, Seq<char>, nat),
    close: nat,
)
    requires
        stands(raw, 0, open, 0x5b),
        goes_to(raw, open + 1, kind.0),
        holds_string(raw, kind.0, kind.1, kind.2),
        stands(raw, kind.2, comma, 0x2c),
        goes_to(raw, comma + 1, challenge.0),
        holds_string(raw, challenge.0, challenge.1, challenge.2),
        stands(raw, challenge.2, other_comma, 0x2c),
        goes_to(raw, other_comma + 1, origin.0),
        holds_string(raw, origin.0, origin.1, origin.2),
        stands(raw, origin.2, close, 0x5d),
        blank(raw, close + 1, raw.len()),
    ensures
        client_data::parsed(raw) == Ok::<ClientDataView, ErrorView>(
            ClientDataView { kind: kind.1, challenge: challenge.1, origin: origin.1 },
        ),
{
    lemma_after_blank(raw, 0, open);
    lemma_after_blank(raw, open + 1, kind.0);
    lemma_after_blank(raw, kind.2, comma);
    lemma_after_blank(raw, comma + 1, challenge.0);
    lemma_after_blank(raw, challenge.2, other_comma);
    lemma_after_blank(raw, other_comma + 1, origin.0);
    lemma_after_blank(raw, origin.2, close);
    lemma_after_blank(raw, close + 1, raw.len());
}

/// The same with a boolean as a fourth value, which plays no part.
pub proof fn law_long_array_read(
    raw: Seq<u8>,
    open: nat,
    kind: (nat, Seq<char>, nat),
    comma: nat,
    challenge: (nat, Seq<char>, nat),
    other_comma: nat,
    origin: (nat, Seq<char>, nat),
    last_comma: nat,
    at: nat,
    flag: bool,
    n: nat,
    close: nat,
)
    requires
        stands(raw, 0, open, 0x5b),
        goes_to(raw, open + 1, kind.0),
        holds_string(raw, kind.0, kind.1, kind.2),
        stands(raw, kind.2, comma, 0x2c),
        goes_to(raw, comma + 1, challenge.0),
        holds_string(raw, challenge.0, challenge.1, challenge.2),
        stands(raw, challenge.2, other_comma, 0x2c),
        goes_to(raw, other_comma + 1, origin.0),
        holds_string(raw, origin.0, origin.1, origin.2),
        stands(raw, origin.2, last_comma, 0x2c),
        goes_to(raw, last_comma + 1, at),
        json::json_bool(raw.skip(at as int)) == Ok::<(bool, nat), Seq<char>>((flag, n)),
        stands(raw, behind(at, n), close, 0x5d),
        blank(raw, close + 1, raw.len()),
    ensures
        client_data::parsed(raw) == Ok::<ClientDataView, ErrorView>(
            ClientDataView { kind: kind.1, challenge: challenge.1, origin: origin.1 },
        ),
{
    lemma_after_blank(raw, 0, open);
    lemma_after_blank(raw, open + 1, kind.0);
    lemma_after_blank(raw, kind.2, comma);
    lemma_after_blank(raw, comma + 1, challenge.0);
    lemma_after_blank(raw, challenge.2, other_comma);
    lemma_after_blank(raw, other_comma + 1, origin.0);
    lemma_after_blank(raw, origin.2, last_comma);
    lemma_after_blank(raw, last_comma + 1, at);
    lemma_after_blank(raw, behind(at, n), close);
    lemma_after_blank(raw, close + 1, raw.len());
}

/// A text that begins with anything but an object or an array is refused, and
/// so is an empty one, and one with anything behind the object or array.
pub proof fn law_other_texts_refused(raw: Seq<u8>, p: nat)
    requires
        blank(raw, 0, p),
        p < raw.len() ==> !json::is_space(raw[p as int]) && raw[p as int] != 0x7b && raw[p as int]
            != 0x5b,
    ensures
        client_data::parsed(raw) is Err,
        p == raw.len() ==> client_data::parsed(raw) == Err::<ClientDataView, ErrorView>(
            json::located("EOF while parsing a value"@, raw, raw.len()),
        ),
{
    lemma_after_blank(raw, 0, p);
}

/// An array is only read if it is one: a text that begins with `[` and is
/// accepted holds the three strings that were read, in their order, with a
/// comma between, and nothing but white space behind its end.
pub proof fn law_array_sound(raw: Seq<u8>, open: nat) -> (r: (
    (nat, nat),
    nat,
    (nat, nat),
    nat,
    (nat, nat),
    nat,
))
    requires
        stands(raw, 0, open, 0x5b),
        client_data::parsed(raw) is Ok,
    ensures
        ({
            let c = client_data::parsed(raw)->Ok_0;
            let (kind, comma, challenge, other_comma, origin, close) = r;
            &&& blank(raw, open + 1, kind.0)
            &&& holds_string(raw, kind.0, c.kind, kind.1)
            &&& stands(raw, kind.1, comma, 0x2c)
            &&& blank(raw, comma + 1, challenge.0)
            &&& holds_string(raw, challenge.0, c.challenge, challenge.1)
            &&& stands(raw, challenge.1, other_comma, 0x2c)
            &&& blank(raw, other_comma + 1, origin.0)
            &&& holds_string(raw, origin.0, c.origin, origin.1)
            &&& close < raw.len()
            &&& stands(raw, origin.1, close, 0x5d) || {
                let c2 = json::after_space(raw, origin.1);
                let at = json::after_space(raw, c2 + 1);
                &&& stands(raw, origin.1, c2, 0x2c)
                &&& blank(raw, c2 + 1, at)
                &&& json::json_bool(raw.skip(at as int)) matches Ok((b, n)) && stands(
                    raw,
                    behind(at, n),
                    close,
                    0x5d,
                )
            }
            &&& blank(raw, close + 1, raw.len())
        }),
{
    lemma_after_blank(raw, 0, open);
    let q0 = json::after_space(raw, open + 1);
    law_after_space(raw, open + 1);
    let e0 = json::string_at(raw, q0)->Ok_0.1;
    let c0 = json::after_space(raw, e0);
    json::lemma_space_moves_on(raw, e0);
    law_after_space(raw, e0);
    let q1 = json::after_space(raw, c0 + 1);
    law_after_space(raw, c0 + 1);
    let e1 = json::string_at(raw, q1)->Ok_0.1;
    let c1 = json::after_space(raw, e1);
    json::lemma_space_moves_on(raw, e1);
    law_after_space(raw, e1);
    let q2 = json::after_space(raw, c1 + 1);
    law_after_space(raw, c1 + 1);
    let e2 = json::string_at(raw, q2)->Ok_0.1;
    json::lemma_space_moves_on(raw, e2);
    let n = client_data::bool_item(raw, e2)->Ok_0;
    let c2 = json::after_space(raw, e2);
    law_after_space(raw, e2);
    json::lemma_space_moves_on(raw, c2 + 1);
    law_after_space(raw, c2 + 1);
    json::lemma_space_moves_on(raw, n);
    let close = json::after_space(raw, n);
    law_after_space(raw, n);
    law_after_space(raw, close + 1);
    ((q0, e0), c0, (q1, e1), c1, (q2, e2), close)
}

/// Client data that hold the expected type, the issued challenge in base64url
/// and the configured origin are accepted, whatever these are, wherever they
/// stand in the object, and whatever else it holds.
pub proof fn law_honest_text(
    field: Seq<char>,
    raw: Seq<u8>,
    open: nat,
    ms: Seq<Member>,
    close: nat,
    a: int,
    b: int,
    c: int,
    challenge: Seq<u8>,
    strict: bool,
)
    requires
        encoding::field_decoding(field, strict) == Ok::<Seq<u8>, ErrorView>(raw),
        holds_object(raw, open, ms, close),
        once_each(ms),
        0 <= a < ms.len() && ms[a].name == "type"@,
        0 <= b < ms.len() && ms[b].name == "challenge"@,
        0 <= c < ms.len() && ms[c].name == "origin"@,
        ms[b].text == encoding::encoded(Flavour::UrlNoPad, challenge),
    ensures
        client_data::validated(field, ms[a].text, challenge, ms[c].text, strict) == Ok::<
            Seq<u8>,
            ErrorView,
        >(raw),
{
    law_object_read(raw, open, ms, close, a, b, c);
    crate::laws::law_lenient_round_trip(Flavour::UrlNoPad, challenge);
    crate::laws::law_strict_round_trip(challenge);
}

/// Client data from another origin are refused, however much alike the two
/// are, and both are named.
pub proof fn law_foreign_origin_text(
    field: Seq<char>,
    raw: Seq<u8>,
    open: nat,
    ms: Seq<Member>,
    close: nat,
    a: int,
    b: int,
    c: int,
    challenge: Seq<u8>,
    origin: Seq<char>,
    strict: bool,
)
    requires
        encoding::field_decoding(field, strict) == Ok::<Seq<u8>, ErrorView>(raw),
        holds_object(raw, open, ms, close),
        once_each(ms),
        0 <= a < ms.len() && ms[a].name == "type"@,
        0 <= b < ms.len() && ms[b].name == "challenge"@,
        0 <= c < ms.len() && ms[c].name == "origin"@,
        ms[b].text == encoding::encoded(Flavour::UrlNoPad, challenge),
        ms[c].text != origin,
    ensures
        client_data::validated(field, ms[a].text, challenge, origin, strict) == Err::<
            Seq<u8>,
            ErrorView,
        >(ErrorView::OriginMismatch { expected: origin, actual: ms[c].text }),
{
    law_object_read(raw, open, ms, close, a, b, c);
    crate::laws::law_lenient_round_trip(Flavour::UrlNoPad, challenge);
    crate::laws::law_strict_round_trip(challenge);
}

// ---------- Faults ---------------------------------------------------------

/// Whether `p` is the first place from `i` on that is not white space.
pub open spec fn first_from(raw: Seq<u8>, i: nat, p: nat) -> bool {
    blank(raw, i, p) && (p < raw.len() ==> !blank(raw, p, p + 1))
}

proof fn lemma_first_from(raw: Seq<u8>, i: nat, p: nat)
    requires
        first_from(raw, i, p),
    ensures
        json::after_space(raw, i) == p,
{
    if p < raw.len() {
        assert(!json::is_space(raw[p as int])) by {
            if json::is_space(raw[p as int]) {
                assert(blank(raw, p, p + 1));
            }
        }
    }
    lemma_after_blank(raw, i, p);
}

/// What is reported where no member of an object begins although one should.
pub proof fn law_object_faults(raw: Seq<u8>, i: nat, first: bool, p: nat, q: nat)
    requires
        first_from(raw, i, p),
        p < raw.len() ==> first_from(raw, p + 1, q),
    ensures
        ({
            let r = client_data::next_name(raw, i, first);
            let fault = |t: Seq<char>, at: nat| Err::<Option<nat>, ErrorView>(
                json::located(
                    t,
                    raw,
                    if at < raw.len() {
                        at + 1
                    } else {
                        raw.len()
                    },
                ),
            );
            if p == raw.len() {
                r == fault("EOF while parsing an object"@, p)
            } else if raw[p as int] == 0x7d {
                r == Ok::<Option<nat>, ErrorView>(None)
            } else if first && raw[p as int] == 0x22 {
                r == Ok::<Option<nat>, ErrorView>(Some(p))
            } else if first {
                r == fault("key must be a string"@, p)
            } else if raw[p as int] != 0x2c {
                r == fault("expected `,` or `}`"@, p)
            } else if q == raw.len() {
                r == fault("EOF while parsing a value"@, q)
            } else if raw[q as int] == 0x22 {
                r == Ok::<Option<nat>, ErrorView>(Some(q))
            } else if raw[q as int] == 0x7d {
                r == fault("trailing comma"@, q)
            } else {
                r == fault("key must be a string"@, q)
            }
        }),
{
    lemma_first_from(raw, i, p);
    if p < raw.len() {
        lemma_first_from(raw, p + 1, q);
    }
}

/// What is reported of a member whose name was read but whose value cannot be:
/// that it comes again, or that there is no colon.
pub proof fn law_member_faults(
    raw: Seq<u8>,
    at: nat,
    name: Seq<char>,
    end: nat,
    m: MembersView,
    k: nat,
)
    requires
        holds_string(raw, at, name, end),
        first_from(raw, end, k),
    ensures
        ({
            let r = client_data::member_at(raw, at, m);
            let again = (name == "type"@ && m.kind is Some) || (name == "challenge"@
                && m.challenge is Some) || (name == "origin"@ && m.origin is Some) || (name
                == "crossOrigin"@ && m.cross_origin is Some);
            let closed = k < raw.len() && raw[k as int] == 0x7d;
            &&& again ==> r == Err::<(MembersView, nat), ErrorView>(
                json::located(
                    "duplicate field `"@ + name + "`"@,
                    raw,
                    if closed {
                        k + 1
                    } else {
                        k
                    },
                ),
            )
            &&& !again && k == raw.len() ==> r == Err::<(MembersView, nat), ErrorView>(
                json::located("EOF while parsing an object"@, raw, k),
            )
            &&& !again && k < raw.len() && raw[k as int] != 0x3a ==> r == Err::<
                (MembersView, nat),
                ErrorView,
            >(json::located("expected `:`"@, raw, k + 1))
        }),
{
    lemma_names_differ();
    lemma_first_from(raw, end, k);
}

/// What is reported where no value of an array begins although one should.
pub proof fn law_array_faults(raw: Seq<u8>, i: nat, first: bool, p: nat, q: nat)
    requires
        first_from(raw, i, p),
        p < raw.len() ==> first_from(raw, p + 1, q),
    ensures
        ({
            let r = client_data::next_item(raw, i, first);
            let e = client_data::array_end(raw, i);
            let place = |at: nat|
                if at < raw.len() {
                    at + 1
                } else {
                    raw.len()
                };
            let fault = |t: Seq<char>, at: nat| Err::<Option<nat>, ErrorView>(
                json::located(t, raw, place(at)),
            );
            let late = |t: Seq<char>, at: nat| Err::<nat, ErrorView>(
                json::located(t, raw, place(at)),
            );
            if p == raw.len() {
                r == fault("EOF while parsing a list"@, p) && e == late(
                    "EOF while parsing a list"@,
                    p,
                )
            } else if raw[p as int] == 0x5d {
                r == Ok::<Option<nat>, ErrorView>(None) && e == Ok::<nat, ErrorView>(p + 1)
            } else {
                &&& first ==> r == Ok::<Option<nat>, ErrorView>(Some(p))
                &&& !first && raw[p as int] != 0x2c ==> r == fault("expected `,` or `]`"@, p)
                &&& raw[p as int] != 0x2c ==> e == late("trailing characters"@, p)
                &&& !first && raw[p as int] == 0x2c && q == raw.len() ==> r == fault(
                    "EOF while parsing a value"@,
                    q,
                )
                &&& raw[p as int] == 0x2c && q < raw.len() && raw[q as int] == 0x5d ==> e == late(
                    "trailing comma"@,
                    q,
                ) && (!first ==> r == fault("trailing comma"@, q))
                &&& raw[p as int] == 0x2c && (q == raw.len() || raw[q as int] != 0x5d) ==> e
                    == late("trailing characters"@, q)
                &&& !first && raw[p as int] == 0x2c && q < raw.len() && raw[q as int] != 0x5d ==> r
                    == Ok::<Option<nat>, ErrorView>(Some(q))
            }
        }),
{
    lemma_first_from(raw, i, p);
    if p < raw.len() {
        lemma_first_from(raw, p + 1, q);
    }
}

/// An array that ends before the third string is refused, with how many
/// values it has.
pub proof fn law_short_array_refused(raw: Seq<u8>, i: nat, first: bool, count: Seq<char>, p: nat)
    requires
        stands(raw, i, p, 0x5d),
    ensures
        client_data::string_item(raw, i, first, count) == Err::<(Seq<char>, nat), ErrorView>(
            json::located(
                "invalid length "@ + count + ", expected struct Parsed with 4 elements"@,
                raw,
                p + 1,
            ),
        ),
{
    lemma_after_blank(raw, i, p);
}

/// What stands behind an object or array is refused, at its place.
pub proof fn law_trailing_text_refused(raw: Seq<u8>, t: nat)
    requires
        client_data::document(raw) is Ok,
        first_from(raw, client_data::document(raw)->Ok_0.1, t),
        t < raw.len(),
    ensures
        client_data::parsed(raw) == Err::<ClientDataView, ErrorView>(
            json::located("trailing characters"@, raw, t + 1),
        ),
{
    lemma_first_from(raw, client_data::document(raw)->Ok_0.1, t);
}

/// A value that is neither an object nor an array is refused in the words of
/// `serde_json` about a string that is asked for where `t` or `f` stands, and
/// about a boolean anywhere else, but for what was expected. `whole` is the
/// text with all before the value blank.
pub proof fn law_wrong_kind_refused(raw: Seq<u8>, p: nat, whole: Seq<u8>, t: Seq<char>)
    requires
        blank(raw, 0, p),
        p < raw.len(),
        !json::is_space(raw[p as int]) && raw[p as int] != 0x7b && raw[p as int] != 0x5b,
        whole.len() == raw.len(),
        forall|k: int|
            0 <= k < raw.len() ==> #[trigger] whole[k] == (if k < p && raw[k] != 0x0a {
                0x20
            } else {
                raw[k]
            }),
        raw[p as int] == 0x74 || raw[p as int] == 0x66 ==> json::json_string(
            raw.skip(p as int),
        ) is Err && json::json_string(whole) == Err::<(Seq<char>, nat), Seq<char>>(t),
        raw[p as int] != 0x74 && raw[p as int] != 0x66 ==> json::json_bool(raw.skip(p as int)) is Err
            && json::json_bool(whole) == Err::<(bool, nat), Seq<char>>(t),
    ensures
        client_data::parsed(raw) == Err::<ClientDataView, ErrorView>(
            ErrorView::ClientData(
                client_data::expecting_client_data(
                    t,
                    if raw[p as int] == 0x74 || raw[p as int] == 0x66 {
                        "a string"@
                    } else {
                        "a boolean"@
                    },
                ),
            ),
        ),
{
    lemma_after_blank(raw, 0, p);
    law_complaints_at(raw, p, whole);
}

/// In the words of `serde_json` about a value of the wrong kind, what was
/// expected is named anew, and nothing else is changed.
pub proof fn law_expectation_named(front: Seq<char>, part: Seq<char>, back: Seq<char>)
    requires
        part.len() > 0,
        forall|k: int|
            front.len() < k <= (front + part + back).len() - part.len() ==> #[trigger] (front + part
                + back).subrange(k, k + part.len()) != part,
    ensures
        client_data::expecting_client_data(front + part + back, part) == front + "struct Parsed"@
            + back,
{
    let t = front + part + back;
    assert(t.subrange(front.len() as int, (front.len() + part.len()) as int) =~= part);
    lemma_last_place(t, part, front.len() as int, t.len() as int);
    assert(t.subrange(0, front.len() as int) =~= front);
    assert(t.subrange((front.len() + part.len()) as int, t.len() as int) =~= back);
}

proof fn lemma_last_place(t: Seq<char>, part: Seq<char>, at: int, k: int)
    requires
        0 <= at <= k,
        at + part.len() <= t.len(),
        t.subrange(at, at + part.len()) == part,
        forall|j: int|
            at < j <= t.len() - part.len() ==> #[trigger] t.subrange(j, j + part.len()) != part,
    ensures
        client_data::last_place(t, part, k) == at,
    decreases k - at,
{
    if at < k {
        if k + part.len() <= t.len() {
            assert(t.subrange(k, k + part.len()) != part);
        }
        lemma_last_place(t, part, at, k - 1);
    }
}

} // verus!
