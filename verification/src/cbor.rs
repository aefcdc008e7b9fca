//! CBOR items, decoded by `ciborium`.
//!
//! `ciborium` reads the bytes. What it read is copied, variant by variant,
//! into [`CborValue`], on which the parsers of this crate work.

use vstd::prelude::*;
use ciborium::value::Value;
use crate::text::{copy_bytes, same_str};

verus! {

/// A decoded item: the kinds that passkey data is made of. Floats, nulls and
/// tagged items are `Other`; none of them is ever looked into.
pub enum CborTree {
    Integer(i128),
    Bytes(Seq<u8>),
    Text(Seq<char>),
    Bool(bool),
    Array(Seq<CborTree>),
    Dict(Seq<(CborTree, CborTree)>),
    Other,
}

/// A decoded item as executable data.
#[derive(Debug)]
pub enum CborValue {
    Integer(i128),
    Bytes(Vec<u8>),
    Text(String),
    Bool(bool),
    Array(Vec<CborValue>),
    Dict(Vec<(CborValue, CborValue)>),
    Other,
}

impl View for CborValue {
    type V = CborTree;

    open spec fn view(&self) -> CborTree {
        tree_of(*self)
    }
}

/// The tree that a value stands for.
pub open spec fn tree_of(v: CborValue) -> CborTree
    decreases v,
{
    match v {
        CborValue::Integer(i) => CborTree::Integer(i),
        CborValue::Bytes(b) => CborTree::Bytes(b@),
        CborValue::Text(t) => CborTree::Text(t@),
        CborValue::Bool(b) => CborTree::Bool(b),
        CborValue::Array(a) => CborTree::Array(trees_of(a@)),
        CborValue::Dict(m) => CborTree::Dict(pairs_of(m@)),
        CborValue::Other => CborTree::Other,
    }
}

/// The trees of the elements of an array.
pub open spec fn trees_of(s: Seq<CborValue>) -> Seq<CborTree>
    decreases s,
{
    if s.len() == 0 {
        Seq::empty()
    } else {
        trees_of(s.drop_last()).push(tree_of(s[s.len() - 1]))
    }
}

/// The trees of the entries of a map.
pub open spec fn pairs_of(s: Seq<(CborValue, CborValue)>) -> Seq<(CborTree, CborTree)>
    decreases s,
{
    if s.len() == 0 {
        Seq::empty()
    } else {
        let last = s[s.len() - 1];
        pairs_of(s.drop_last()).push((tree_of(last.0), tree_of(last.1)))
    }
}

pub proof fn lemma_trees_of(s: Seq<CborValue>)
    ensures
        trees_of(s).len() == s.len(),
        forall|i: int| 0 <= i < s.len() ==> #[trigger] trees_of(s)[i] == tree_of(s[i]),
    decreases s.len(),
{
    if s.len() != 0 {
        lemma_trees_of(s.drop_last());
    }
}

pub proof fn lemma_pairs_of(s: Seq<(CborValue, CborValue)>)
    ensures
        pairs_of(s).len() == s.len(),
        forall|i: int|
            0 <= i < s.len() ==> #[trigger] pairs_of(s)[i] == (tree_of(s[i].0), tree_of(s[i].1)),
    decreases s.len(),
{
    if s.len() != 0 {
        lemma_pairs_of(s.drop_last());
    }
}

/// `ciborium`'s dynamic value.
#[verifier::external_type_specification]
#[verifier::external_body]
pub struct ExValue(Value);

/// What a `ciborium` value holds.
pub uninterp spec fn cbor_tree(v: Value) -> CborTree;

/// The first CBOR item in `bytes` and the number of bytes behind it, or
/// `ciborium`'s description of why there is none.
pub uninterp spec fn cbor_item(bytes: Seq<u8>) -> Result<(CborTree, nat), Seq<char>>;

/// One level of a `ciborium` value.
enum Node<'a> {
    Integer(i128),
    Bytes(&'a Vec<u8>),
    Text(&'a String),
    Bool(bool),
    Array(&'a Vec<Value>),
    Dict(&'a Vec<(Value, Value)>),
    Other,
}

/// Tells the variants of `ciborium::value::Value` apart and hands out the
/// fields: what a value holds is its variant, and in an array or a map what
/// the children hold, in their order.
#[verifier::external_body]
fn node(v: &Value) -> (r: Node<'_>)
    ensures
        match r {
            Node::Integer(i) => cbor_tree(*v) == CborTree::Integer(i),
            Node::Bytes(b) => cbor_tree(*v) == CborTree::Bytes(b@),
            Node::Text(t) => cbor_tree(*v) == CborTree::Text(t@),
            Node::Bool(b) => cbor_tree(*v) == CborTree::Bool(b),
            Node::Array(a) => cbor_tree(*v) == CborTree::Array(
                Seq::new(a@.len(), |i: int| cbor_tree(a@[i])),
            ),
            Node::Dict(m) => cbor_tree(*v) == CborTree::Dict(
                Seq::new(m@.len(), |i: int| (cbor_tree(m@[i].0), cbor_tree(m@[i].1))),
            ),
            Node::Other => cbor_tree(*v) == CborTree::Other,
        },
{
    match v {
        Value::Integer(i) => Node::Integer(i128::from(*i)),
        Value::Bytes(b) => Node::Bytes(b),
        Value::Text(t) => Node::Text(t),
        Value::Bool(b) => Node::Bool(*b),
        Value::Array(a) => Node::Array(a),
        Value::Map(m) => Node::Dict(m),
        _ => Node::Other,
    }
}

/// `ciborium::de::from_reader` on a byte slice: the first item, and how many
/// bytes it left unread. An item is never empty.
#[verifier::external_body]
fn read_item(bytes: &[u8]) -> (r: Result<(Value, usize), String>)
    ensures
        match r {
            Ok((v, rest)) => cbor_item(bytes@) == Ok::<(CborTree, nat), Seq<char>>(
                (cbor_tree(v), rest as nat),
            ),
            Err(t) => cbor_item(bytes@) == Err::<(CborTree, nat), Seq<char>>(t@),
        },
        r matches Ok((v, rest)) ==> rest < bytes@.len(),
{
    let mut cur = bytes;
    match ciborium::de::from_reader::<Value, _>(&mut cur) {
        Ok(v) => Ok((v, cur.len())),
        Err(e) => Err(e.to_string()),
    }
}

/// Copies what a `ciborium` value holds.
fn copy_value(v: &Value) -> (r: CborValue)
    ensures
        r@ == cbor_tree(*v),
    decreases cbor_tree(*v),
{
    match node(v) {
        Node::Integer(i) => CborValue::Integer(i),
        Node::Bytes(b) => CborValue::Bytes(copy_bytes(b.as_slice())),
        Node::Text(t) => CborValue::Text(t.clone()),
        Node::Bool(b) => CborValue::Bool(b),
        Node::Array(a) => {
            let mut out: Vec<CborValue> = Vec::new();
            let n: usize = a.len();
            let mut i: usize = 0;
            while i < n
                invariant
                    i <= n == a@.len(),
                    out@.len() == i,
                    cbor_tree(*v) == CborTree::Array(
                        Seq::new(a@.len(), |j: int| cbor_tree(a@[j])),
                    ),
                    forall|j: int| 0 <= j < i ==> tree_of(#[trigger] out@[j]) == cbor_tree(a@[j]),
                decreases n - i,
            {
                proof {
                    let children = Seq::new(a@.len(), |j: int| cbor_tree(a@[j]));
                    assert(children[i as int] == cbor_tree(a@[i as int]));
                    assert(cbor_tree(*v)->Array_0 == children);
                }
                out.push(copy_value(&a[i]));
                i += 1;
            }
            proof {
                lemma_trees_of(out@);
                assert(trees_of(out@) =~= Seq::new(a@.len(), |j: int| cbor_tree(a@[j])));
            }
            CborValue::Array(out)
        },
        Node::Dict(m) => {
            let mut out: Vec<(CborValue, CborValue)> = Vec::new();
            let n: usize = m.len();
            let mut i: usize = 0;
            while i < n
                invariant
                    i <= n == m@.len(),
                    out@.len() == i,
                    cbor_tree(*v) == CborTree::Dict(
                        Seq::new(m@.len(), |j: int| (cbor_tree(m@[j].0), cbor_tree(m@[j].1))),
                    ),
                    forall|j: int|
                        0 <= j < i ==> tree_of((#[trigger] out@[j]).0) == cbor_tree(m@[j].0)
                            && tree_of(out@[j].1) == cbor_tree(m@[j].1),
                decreases n - i,
            {
                proof {
                    let children = Seq::new(
                        m@.len(),
                        |j: int| (cbor_tree(m@[j].0), cbor_tree(m@[j].1)),
                    );
                    assert(children[i as int].0 == cbor_tree(m@[i as int].0));
                    assert(children[i as int].1 == cbor_tree(m@[i as int].1));
                    assert(cbor_tree(*v)->Dict_0 == children);
                }
                let key = copy_value(&m[i].0);
                let val = copy_value(&m[i].1);
                out.push((key, val));
                i += 1;
            }
            proof {
                lemma_pairs_of(out@);
                assert(pairs_of(out@) =~= Seq::new(
                    m@.len(),
                    |j: int| (cbor_tree(m@[j].0), cbor_tree(m@[j].1)),
                ));
            }
            CborValue::Dict(out)
        },
        Node::Other => CborValue::Other,
    }
}

/// The first item in `bytes` and the number of bytes that it takes up.
pub open spec fn decoded(bytes: Seq<u8>) -> Result<(CborTree, nat), Seq<char>> {
    match cbor_item(bytes) {
        Ok((t, rest)) => Ok((t, (bytes.len() - rest) as nat)),
        Err(e) => Err(e),
    }
}

/// Decodes the first item in `bytes`; bytes behind it are left alone.
pub fn decode(bytes: &[u8]) -> (r: Result<(CborValue, usize), String>)
    ensures
        match r {
            Ok((v, n)) => decoded(bytes@) == Ok::<(CborTree, nat), Seq<char>>((v@, n as nat)),
            Err(t) => decoded(bytes@) == Err::<(CborTree, nat), Seq<char>>(t@),
        },
        r matches Ok((v, n)) ==> 0 < n <= bytes@.len(),
{
    match read_item(bytes) {
        Ok((v, rest)) => Ok((copy_value(&v), bytes.len() - rest)),
        Err(t) => Err(t),
    }
}

/// The value that a map gives to an integer label. Where a label occurs more
/// than once, the last entry counts.
pub open spec fn at_label(entries: Seq<(CborTree, CborTree)>, label: i64) -> Option<CborTree>
    decreases entries.len(),
{
    if entries.len() == 0 {
        None
    } else {
        let last = entries[entries.len() - 1];
        if last.0 matches CborTree::Integer(i) && i == label {
            Some(last.1)
        } else {
            at_label(entries.drop_last(), label)
        }
    }
}

/// The value that a map gives to a text key. Where the key occurs more than
/// once, the last entry counts.
pub open spec fn at_name(entries: Seq<(CborTree, CborTree)>, name: Seq<char>) -> Option<CborTree>
    decreases entries.len(),
{
    if entries.len() == 0 {
        None
    } else {
        let last = entries[entries.len() - 1];
        if last.0 == CborTree::Text(name) {
            Some(last.1)
        } else {
            at_name(entries.drop_last(), name)
        }
    }
}

/// The view of an optional reference to a value.
pub open spec fn optional_tree(v: Option<&CborValue>) -> Option<CborTree> {
    match v {
        Some(v) => Some(v@),
        None => None,
    }
}

/// Looks up an integer label.
pub fn find_label(entries: &Vec<(CborValue, CborValue)>, label: i64) -> (r: Option<&CborValue>)
    ensures
        optional_tree(r) == at_label(pairs_of(entries@), label),
{
    let ghost all = pairs_of(entries@);
    proof {
        lemma_pairs_of(entries@);
        assert(all.take(all.len() as int) =~= all);
    }
    let mut i: usize = entries.len();
    while i > 0
        invariant
            i <= entries@.len() == all.len(),
            all == pairs_of(entries@),
            at_label(all, label) == at_label(all.take(i as int), label),
        decreases i,
    {
        i -= 1;
        proof {
            lemma_pairs_of(entries@);
            assert(all.take(i + 1).drop_last() =~= all.take(i as int));
        }
        if let CborValue::Integer(key) = &entries[i].0 {
            if *key == label as i128 {
                return Some(&entries[i].1);
            }
        }
    }
    None
}

/// Looks up a text key.
pub fn find_name<'a>(entries: &'a Vec<(CborValue, CborValue)>, name: &str) -> (r: Option<
    &'a CborValue,
>)
    ensures
        optional_tree(r) == at_name(pairs_of(entries@), name@),
{
    let ghost all = pairs_of(entries@);
    proof {
        lemma_pairs_of(entries@);
        assert(all.take(all.len() as int) =~= all);
    }
    let mut i: usize = entries.len();
    while i > 0
        invariant
            i <= entries@.len() == all.len(),
            all == pairs_of(entries@),
            at_name(all, name@) == at_name(all.take(i as int), name@),
        decreases i,
    {
        i -= 1;
        proof {
            lemma_pairs_of(entries@);
            assert(all.take(i + 1).drop_last() =~= all.take(i as int));
        }
        if let CborValue::Text(key) = &entries[i].0 {
            if same_str(key.as_str(), name) {
                return Some(&entries[i].1);
            }
        }
    }
    None
}

/// Takes the value of a text key out of a map.
pub fn take_name(entries: Vec<(CborValue, CborValue)>, name: &str) -> (r: Option<CborValue>)
    ensures
        match r {
            Some(v) => at_name(pairs_of(entries@), name@) == Some(v@),
            None => at_name(pairs_of(entries@), name@) is None,
        },
{
    let ghost all = pairs_of(entries@);
    proof {
        lemma_pairs_of(entries@);
        assert(all.take(all.len() as int) =~= all);
    }
    let mut rest = entries;
    let mut i: usize = rest.len();
    while i > 0
        invariant
            i <= entries@.len() == all.len(),
            rest@ == entries@,
            all == pairs_of(entries@),
            at_name(all, name@) == at_name(all.take(i as int), name@),
        decreases i,
    {
        i -= 1;
        proof {
            lemma_pairs_of(entries@);
            assert(all.take(i + 1).drop_last() =~= all.take(i as int));
        }
        if let CborValue::Text(key) = &rest[i].0 {
            if same_str(key.as_str(), name) {
                let entry = rest.swap_remove(i);
                return Some(entry.1);
            }
        }
    }
    None
}

/// The integer in an optional tree.
pub open spec fn as_integer(v: Option<CborTree>) -> Option<i128> {
    match v {
        Some(CborTree::Integer(i)) => Some(i),
        _ => None,
    }
}

/// The integer of 64 bits by which `i` is reported: `i` itself where it is
/// one, and what its low 64 bits spell where it is not.
pub open spec fn low_64(i: i128) -> i64 {
    let r = i as int % 0x1_0000_0000_0000_0000;
    (if r < 0x8000_0000_0000_0000 {
        r
    } else {
        r - 0x1_0000_0000_0000_0000
    }) as i64
}

/// The byte string in an optional tree.
pub open spec fn as_bytes(v: Option<CborTree>) -> Option<Seq<u8>> {
    match v {
        Some(CborTree::Bytes(b)) => Some(b),
        _ => None,
    }
}

/// The integer that `v` is, if it is one.
pub fn integer_of(v: Option<&CborValue>) -> (r: Option<i128>)
    ensures
        r == as_integer(optional_tree(v)),
{
    match v {
        Some(CborValue::Integer(i)) => Some(*i),
        _ => None,
    }
}

/// The integer of 64 bits by which `i` is reported.
pub fn i64_of(i: i128) -> (r: i64)
    ensures
        r == low_64(i),
{
    assert((i - (i as i64)) % 0x1_0000_0000_0000_0000 == 0) by (bit_vector);
    #[verifier::truncate]
    (i as i64)
}

/// The byte string that `v` is, if it is one.
pub fn bytes_of(v: Option<&CborValue>) -> (r: Option<&[u8]>)
    ensures
        match r {
            Some(b) => as_bytes(optional_tree(v)) == Some(b@),
            None => as_bytes(optional_tree(v)) is None,
        },
{
    match v {
        Some(CborValue::Bytes(b)) => Some(b.as_slice()),
        _ => None,
    }
}

} // verus!
