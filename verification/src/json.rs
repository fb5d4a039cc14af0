//! JSON documents: reading them with `serde_json`, looking into them, and writing
//! JSON text.
use vstd::prelude::*;

use crate::text::push_char;

verus! {

/// A JSON document as `serde_json` reads it.
#[derive(Debug)]
pub enum JsonValue {
    Null,
    Bool(bool),
    /// A number: its value as a `u64` and as an `i64`, where it is an integer that fits.
    Number(Option<u64>, Option<i64>),
    Str(String),
    Array(Vec<JsonValue>),
    /// The members of an object, each key once.
    Object(Vec<(String, JsonValue)>),
}

#[verifier::external_type_specification]
#[verifier::external_body]
pub struct ExJsonDocument(serde_json::Value);

/// What `serde_json::from_str::<serde_json::Value>` makes of a text: the document, or
/// the error's debug text.
pub uninterp spec fn serde_json_from_str(text: Seq<char>) -> Result<JsonValue, Seq<char>>;

/// `serde_json::from_str::<serde_json::Value>`. Believed: the result is
/// `serde_json_from_str` of the text (the document, or the error's debug text).
#[verifier::external_body]
pub(crate) fn parse_json(text: &str) -> (r: Result<JsonValue, String>)
    ensures
        match r {
            Ok(v) => serde_json_from_str(text@) == Ok::<JsonValue, Seq<char>>(v),
            Err(m) => serde_json_from_str(text@) == Err::<JsonValue, Seq<char>>(m@),
        },
{
    match serde_json::from_str::<serde_json::Value>(text) {
        Ok(v) => Ok(document_of(v)),
        Err(e) => Err(format!("{:?}", e)),
    }
}

/// A name for the debug text of the error that `serde_json::from_str` gives when it
/// reads a text as a map from strings to JSON values; none where it reads it.
pub uninterp spec fn serde_json_map_error(text: Seq<char>) -> Option<Seq<char>>;

/// `serde_json::from_str::<HashMap<String, serde_json::Value>>`, reduced to the debug
/// text of its error. Believed: the result is `serde_json_map_error` of the text.
#[verifier::external_body]
pub(crate) fn json_map_error(text: &str) -> (r: Option<String>)
    ensures
        match r {
            Some(m) => serde_json_map_error(text@) == Some(m@),
            None => serde_json_map_error(text@) is None,
        },
{
    serde_json::from_str::<std::collections::HashMap<String, serde_json::Value>>(text).err().map(|e| format!("{:?}", e))
}

/// A name for the debug text of the error that `serde_json::from_str` gives when it
/// reads a text as a set of strings; none where it reads it.
pub uninterp spec fn serde_json_string_set_error(text: Seq<char>) -> Option<Seq<char>>;

/// `serde_json::from_str::<HashSet<String>>`, reduced to the debug text of its error.
/// Believed: the result is `serde_json_string_set_error` of the text.
#[verifier::external_body]
pub(crate) fn json_string_set_error(text: &str) -> (r: Option<String>)
    ensures
        match r {
            Some(m) => serde_json_string_set_error(text@) == Some(m@),
            None => serde_json_string_set_error(text@) is None,
        },
{
    serde_json::from_str::<std::collections::HashSet<String>>(text).err().map(|e| format!("{:?}", e))
}

/// Moves a `serde_json::Value` into a `JsonValue`, variant by variant; only
/// `parse_json` uses it, and its contract covers the result.
#[verifier::external_body]
fn document_of(v: serde_json::Value) -> JsonValue {
    match v {
        serde_json::Value::Null => JsonValue::Null,
        serde_json::Value::Bool(b) => JsonValue::Bool(b),
        serde_json::Value::Number(n) => JsonValue::Number(n.as_u64(), n.as_i64()),
        serde_json::Value::String(s) => JsonValue::Str(s),
        serde_json::Value::Array(a) => JsonValue::Array(a.into_iter().map(document_of).collect()),
        serde_json::Value::Object(o) => JsonValue::Object(o.into_iter().map(|(k, v)| (k, document_of(v))).collect()),
    }
}

/// The value of the first member named `key`.
pub open spec fn obj_get(members: Seq<(String, JsonValue)>, key: Seq<char>) -> Option<JsonValue>
    decreases members.len(),
{
    if members.len() == 0 {
        None
    } else if members[0].0@ == key {
        Some(members[0].1)
    } else {
        obj_get(members.drop_first(), key)
    }
}

/// The position of the first member named `key`.
pub fn member_index(members: &Vec<(String, JsonValue)>, key: &str) -> (r: Option<usize>)
    ensures
        match r {
            Some(i) => i < members@.len() && obj_get(members@, key@) == Some(members@[i as int].1),
            None => obj_get(members@, key@) is None,
        },
{
    let mut i: usize = 0;
    assert(members@.skip(0) =~= members@);
    while i < members.len()
        invariant
            i <= members@.len(),
            obj_get(members@, key@) == obj_get(members@.skip(i as int), key@),
        decreases members@.len() - i,
    {
        assert(members@.skip(i as int)[0] == members@[i as int]);
        if crate::text::str_eq(members[i].0.as_str(), key) {
            return Some(i);
        }
        assert(members@.skip(i as int).drop_first() =~= members@.skip(i + 1));
        i = i + 1;
    }
    None
}

/// Folding `step` over `s` from the front, stopping at the first error.
pub open spec fn fold_result<A, T, E>(s: Seq<T>, init: A, step: spec_fn(A, T) -> Result<A, E>) -> Result<A, E>
    decreases s.len(),
{
    if s.len() == 0 {
        Ok(init)
    } else {
        match fold_result(s.drop_last(), init, step) {
            Ok(a) => step(a, s.last()),
            Err(e) => Err(e),
        }
    }
}

/// One more step of a fold over a prefix.
pub proof fn lemma_fold_step<A, T, E>(s: Seq<T>, i: int, init: A, step: spec_fn(A, T) -> Result<A, E>)
    requires
        0 <= i < s.len(),
    ensures
        fold_result(s.take(i + 1), init, step) == match fold_result(s.take(i), init, step) {
            Ok(a) => step(a, s[i]),
            Err(e) => Err(e),
        },
{
    assert(s.take(i + 1).drop_last() =~= s.take(i));
}

/// Once a fold has failed on a prefix, it fails with the same error on the whole.
pub proof fn lemma_fold_error_stays<A, T, E>(s: Seq<T>, i: int, init: A, step: spec_fn(A, T) -> Result<A, E>)
    requires
        0 <= i <= s.len(),
        fold_result(s.take(i), init, step) is Err,
    ensures
        fold_result(s, init, step) == fold_result(s.take(i), init, step),
    decreases s.len() - i,
{
    if i == s.len() {
        assert(s.take(i) =~= s);
    } else {
        lemma_fold_step(s, i, init, step);
        lemma_fold_error_stays(s, i + 1, init, step);
    }
}

/// A fold over the whole of `s` is the fold over its longest prefix.
pub proof fn lemma_fold_whole<A, T, E>(s: Seq<T>, init: A, step: spec_fn(A, T) -> Result<A, E>)
    ensures
        fold_result(s.take(s.len() as int), init, step) == fold_result(s, init, step),
{
    assert(s.take(s.len() as int) =~= s);
}

/// The hexadecimal digit (lower case) of `d < 16`.
pub open spec fn hex_digit(d: nat) -> char {
    if d < 10 {
        ((d as int) + ('0' as int)) as char
    } else {
        ((d as int) - 10 + ('a' as int)) as char
    }
}

/// How `serde_json` writes one character inside a string.
pub open spec fn escape_char(c: char) -> Seq<char> {
    if c == '"' {
        seq!['\\', '"']
    } else if c == '\\' {
        seq!['\\', '\\']
    } else if c == '\n' {
        seq!['\\', 'n']
    } else if c == '\r' {
        seq!['\\', 'r']
    } else if c == '\t' {
        seq!['\\', 't']
    } else if (c as u32) == 8 {
        seq!['\\', 'b']
    } else if (c as u32) == 12 {
        seq!['\\', 'f']
    } else if (c as u32) < 32 {
        seq!['\\', 'u', '0', '0', hex_digit(((c as u32) / 16) as nat), hex_digit(((c as u32) % 16) as nat)]
    } else {
        seq![c]
    }
}

/// The escaped characters of a string.
pub open spec fn escaped(s: Seq<char>) -> Seq<char>
    decreases s.len(),
{
    if s.len() == 0 {
        Seq::<char>::empty()
    } else {
        escaped(s.drop_last()) + escape_char(s.last())
    }
}

/// A string as a JSON string literal.
pub open spec fn quoted(s: Seq<char>) -> Seq<char> {
    seq!['"'] + escaped(s) + seq!['"']
}

fn hex_char(d: u32) -> (r: char)
    requires
        d < 16,
    ensures
        r == hex_digit(d as nat),
{
    if d < 10 {
        ((d as u8) + 48u8) as char
    } else {
        ((d as u8) + 87u8) as char
    }
}

/// Append the escaped form of `c` to `out`.
fn push_escaped(out: &mut String, c: char)
    ensures
        final(out)@ == old(out)@ + escape_char(c),
{
    let ghost start = out@;
    if c == '"' {
        push_char(out, '\\');
        push_char(out, '"');
    } else if c == '\\' {
        push_char(out, '\\');
        push_char(out, '\\');
    } else if c == '\n' {
        push_char(out, '\\');
        push_char(out, 'n');
    } else if c == '\r' {
        push_char(out, '\\');
        push_char(out, 'r');
    } else if c == '\t' {
        push_char(out, '\\');
        push_char(out, 't');
    } else if (c as u32) == 8 {
        push_char(out, '\\');
        push_char(out, 'b');
    } else if (c as u32) == 12 {
        push_char(out, '\\');
        push_char(out, 'f');
    } else if (c as u32) < 32 {
        push_char(out, '\\');
        push_char(out, 'u');
        push_char(out, '0');
        push_char(out, '0');
        push_char(out, hex_char((c as u32) / 16));
        push_char(out, hex_char((c as u32) % 16));
    } else {
        push_char(out, c);
    }
    assert(out@ =~= start + escape_char(c));
}

/// Append `s` as a JSON string literal to `out`.
pub fn push_quoted(out: &mut String, s: &str)
    ensures
        final(out)@ == old(out)@ + quoted(s@),
{
    let ghost start = out@;
    push_char(out, '"');
    let cs = crate::text::chars_of(s);
    let mut i: usize = 0;
    while i < cs.len()
        invariant
            i <= cs@.len(),
            cs@ == s@,
            out@ == start + seq!['"'] + escaped(cs@.take(i as int)),
        decreases cs@.len() - i,
    {
        push_escaped(out, cs[i]);
        assert(cs@.take(i + 1).drop_last() =~= cs@.take(i as int));
        assert(escaped(cs@.take(i + 1)) == escaped(cs@.take(i as int)) + escape_char(cs@[i as int]));
        i = i + 1;
    }
    assert(cs@.take(cs@.len() as int) =~= s@);
    push_char(out, '"');
    assert(out@ =~= start + quoted(s@));
}


/// Read a JSON document: the document, or the parser's error (see `serde_json_from_str`).
pub fn json_document(text: &str) -> (r: Result<JsonValue, String>)
    ensures
        match r {
            Ok(v) => serde_json_from_str(text@) == Ok::<JsonValue, Seq<char>>(v),
            Err(m) => serde_json_from_str(text@) == Err::<JsonValue, Seq<char>>(m@),
        },
{
    parse_json(text)
}

} // verus!
