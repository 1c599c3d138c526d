//! The library's model of a JSON value, and the trusted parse boundary.
//!
//! A document arrives as raw text (from the fetcher or from the selector
//! evaluator); `parse_json` turns it into a [`Json`] value. Numbers are kept
//! as a signed 64-bit integer where they fit, as an unsigned integer beyond
//! the signed range, and otherwise (a float) as their decimal text: the
//! derivation rules only ever coerce in-range integers to gauge values, and
//! render any number as label text.

use vstd::prelude::*;
use vstd::string::StringExecFns;
use crate::utils::{digit_char, i64_to_dec_string, push_char, spec_i64_dec, spec_u64_dec, u64_to_dec_string};

verus! {

/// A JSON number: in signed 64-bit range, beyond it but unsigned, or the
/// decimal text of a number that is neither.
#[derive(Clone, Debug)]
pub enum JsonNum {
    Int(i64),
    Big(u64),
    Other(String),
}

/// A JSON value, the shape the derivation rules dispatch on.
pub enum Json {
    Null,
    Bool(bool),
    Num(JsonNum),
    Text(String),
    Arr(Vec<Json>),
    Obj(Vec<(String, Json)>),
}

/// serde_json's JSON value, declared so that the parse boundary can pass it
/// between the trusted readers.
#[verifier::external_type_specification]
#[verifier::external_body]
pub struct ExValue(serde_json::Value);

/// serde_json's JSON number, declared for the same reason.
#[verifier::external_type_specification]
#[verifier::external_body]
pub struct ExNumber(serde_json::Number);

/// What a parsed JSON number holds, as the library's model of a number.
pub uninterp spec fn num_model(n: serde_json::Number) -> JsonNum;

/// What a parsed JSON value holds, as the library's model of a document.
pub uninterp spec fn json_model(v: serde_json::Value) -> Json;

/// The parse of a JSON text, as the library models JSON; `None` for a
/// malformed text. Parsing is a function of the text alone.
pub uninterp spec fn spec_parse_json(s: Seq<char>) -> Option<Json>;

/// Relies on serde_json::Number::as_i64 and as_u64: a JSON number is read as
/// signed where it fits, as unsigned beyond that, and otherwise kept as the
/// decimal text its Display form gives.
#[verifier::external_body]
fn num_of(n: serde_json::Number) -> (r: JsonNum)
    ensures
        r == num_model(n),
{
    if let Some(i) = n.as_i64() {
        JsonNum::Int(i)
    } else if let Some(u) = n.as_u64() {
        JsonNum::Big(u)
    } else {
        JsonNum::Other(n.to_string())
    }
}

/// Relies on serde_json::Value being an enum over exactly these six shapes:
/// each variant is read into the matching variant of the library's model,
/// field for field, object entries in the order serde_json iterates them.
#[verifier::external_body]
fn json_of(v: serde_json::Value) -> (r: Json)
    ensures
        r == json_model(v),
{
    match v {
        serde_json::Value::Null => Json::Null,
        serde_json::Value::Bool(b) => Json::Bool(b),
        serde_json::Value::Number(n) => Json::Num(num_of(n)),
        serde_json::Value::String(s) => Json::Text(s),
        serde_json::Value::Array(a) => Json::Arr(a.into_iter().map(json_of).collect()),
        serde_json::Value::Object(m) => Json::Obj(m.into_iter().map(|e| (e.0, json_of(e.1))).collect()),
    }
}

/// Relies on serde_json::from_str: parsing is deterministic in the text, and
/// a malformed text is reported as an error.
#[verifier::external_body]
pub fn parse_json(s: &str) -> (r: Option<Json>)
    ensures
        r == spec_parse_json(s@),
{
    match serde_json::from_str::<serde_json::Value>(s) {
        Ok(v) => Some(json_of(v)),
        Err(_) => None,
    }
}

// ---- rendering a value back to JSON text ----

/// The character of one hexadecimal digit, small letters.
pub open spec fn hex_digit(d: int) -> char {
    if d < 10 {
        digit_char(d)
    } else {
        ((87 + d) as u8) as char
    }
}

/// The escaped form of one character inside a JSON string: quote and
/// backslash get a backslash, the named control characters their short form,
/// the other control characters a four-digit escape, everything else stands
/// as itself.
pub open spec fn spec_escape_char(c: char) -> Seq<char> {
    if c == '"' {
        seq!['\\', '"']
    } else if c == '\\' {
        seq!['\\', '\\']
    } else if c == '\n' {
        seq!['\\', 'n']
    } else if c == '\r' {
        seq!['\\', 'r']
    } else if c == '\t' {
        seq!['\\', 't']
    } else if c as u32 == 8 {
        seq!['\\', 'b']
    } else if c as u32 == 12 {
        seq!['\\', 'f']
    } else if (c as u32) < 32 {
        let u = (c as u32) as int;
        seq!['\\', 'u', '0', '0', hex_digit(u / 16), hex_digit(u % 16)]
    } else {
        seq![c]
    }
}

/// A text escaped for the inside of a JSON string.
pub open spec fn spec_escape(s: Seq<char>) -> Seq<char>
    decreases s.len(),
{
    if s.len() == 0 {
        Seq::empty()
    } else {
        spec_escape(s.drop_last()) + spec_escape_char(s.last())
    }
}

/// The JSON text of a string: the escaped text between quotes.
pub open spec fn spec_quoted(s: Seq<char>) -> Seq<char> {
    seq!['"'] + spec_escape(s) + seq!['"']
}

/// The compact JSON text of a value, as the library renders it: no spaces,
/// entries and items comma-separated in held order.
pub open spec fn spec_json_text(j: Json) -> Seq<char>
    decreases j,
{
    match j {
        Json::Null => "null"@,
        Json::Bool(b) => if b {
            "true"@
        } else {
            "false"@
        },
        Json::Num(JsonNum::Int(i)) => spec_i64_dec(i as int),
        Json::Num(JsonNum::Big(u)) => spec_u64_dec(u as nat),
        Json::Num(JsonNum::Other(t)) => t@,
        Json::Text(t) => spec_quoted(t@),
        Json::Arr(items) => seq!['['] + spec_items_text(items@) + seq![']'],
        Json::Obj(entries) => seq!['{'] + spec_entries_text(entries@) + seq!['}'],
    }
}

/// The comma-separated JSON texts of an array's items.
pub open spec fn spec_items_text(items: Seq<Json>) -> Seq<char>
    decreases items,
{
    if items.len() == 0 {
        Seq::empty()
    } else if items.len() == 1 {
        spec_json_text(items[0])
    } else {
        spec_items_text(items.drop_last()) + seq![','] + spec_json_text(items.last())
    }
}

/// The comma-separated `"key":value` texts of an object's entries.
pub open spec fn spec_entries_text(entries: Seq<(String, Json)>) -> Seq<char>
    decreases entries,
{
    if entries.len() == 0 {
        Seq::empty()
    } else if entries.len() == 1 {
        spec_quoted(entries[0].0@) + seq![':'] + spec_json_text(entries[0].1)
    } else {
        spec_entries_text(entries.drop_last()) + seq![','] + spec_quoted(entries.last().0@)
            + seq![':'] + spec_json_text(entries.last().1)
    }
}

/// See [`hex_digit`].
fn hex_char(d: u32) -> (c: char)
    requires
        d < 16,
    ensures
        c == hex_digit(d as int),
{
    if d < 10 {
        ((48 + d) as u8) as char
    } else {
        ((87 + d) as u8) as char
    }
}

/// Appends a text escaped for the inside of a JSON string; see
/// [`spec_escape`].
fn push_escaped(out: &mut String, s: &str)
    ensures
        final(out)@ == old(out)@ + spec_escape(s@),
{
    let len = s.unicode_len();
    let mut i: usize = 0;
    while i < len
        invariant
            len == s@.len(),
            i <= len,
            out@ =~= old(out)@ + spec_escape(s@.take(i as int)),
        decreases len - i,
    {
        let c = s.get_char(i);
        let u = c as u32;
        if c == '"' {
            push_char(out, '\\');
            push_char(out, '"');
        } else if c == '\\' {
            push_char(out, '\\');
            push_char(out, '\\');
        } else if c == '\n' {
            push_char(out, '\\');
            push_char(out, 'n');
        } else if c == '\r' {
            push_char(out, '\\');
            push_char(out, 'r');
        } else if c == '\t' {
            push_char(out, '\\');
            push_char(out, 't');
        } else if u == 8 {
            push_char(out, '\\');
            push_char(out, 'b');
        } else if u == 12 {
            push_char(out, '\\');
            push_char(out, 'f');
        } else if u < 32 {
            push_char(out, '\\');
            push_char(out, 'u');
            push_char(out, '0');
            push_char(out, '0');
            push_char(out, hex_char(u / 16));
            push_char(out, hex_char(u % 16));
        } else {
            push_char(out, c);
        }
        i = i + 1;
        proof {
            assert(s@.take(i as int).drop_last() =~= s@.take(i - 1));
            assert(s@.take(i as int).last() == s@[i - 1]);
            assert(out@ =~= old(out)@ + spec_escape(s@.take(i as int)));
        }
    }
    proof {
        assert(s@.take(len as int) =~= s@);
    }
}

/// Appends the compact JSON text of a value; see [`spec_json_text`].
fn push_json_text(out: &mut String, j: &Json)
    ensures
        final(out)@ == old(out)@ + spec_json_text(*j),
    decreases *j,
{
    match j {
        Json::Null => {
            out.append("null");
        },
        Json::Bool(b) => {
            if *b {
                out.append("true");
            } else {
                out.append("false");
            }
        },
        Json::Num(JsonNum::Int(i)) => {
            let t = i64_to_dec_string(*i);
            out.append(t.as_str());
        },
        Json::Num(JsonNum::Big(u)) => {
            let t = u64_to_dec_string(*u);
            out.append(t.as_str());
        },
        Json::Num(JsonNum::Other(t)) => {
            out.append(t.as_str());
        },
        Json::Text(t) => {
            push_char(out, '"');
            push_escaped(out, t.as_str());
            push_char(out, '"');
            proof {
                assert(out@ =~= old(out)@ + spec_quoted(t@));
            }
        },
        Json::Arr(items) => {
            push_char(out, '[');
            let mut i: usize = 0;
            while i < items.len()
                invariant
                    *j is Arr,
                    j->Arr_0 == *items,
                    i <= items@.len(),
                    out@ =~= old(out)@ + seq!['['] + spec_items_text(items@.take(i as int)),
                decreases items@.len() - i,
            {
                if i > 0 {
                    push_char(out, ',');
                }
                proof {
                    assert(decreases_to!(*j => items@[i as int])) by {
                        assert(decreases_to!(*j => j->Arr_0));
                        assert(decreases_to!(j->Arr_0 => j->Arr_0@));
                        assert(decreases_to!(j->Arr_0@ => j->Arr_0@[i as int]));
                    }
                }
                push_json_text(out, &items[i]);
                i = i + 1;
                proof {
                    assert(items@.take(i as int).drop_last() =~= items@.take(i - 1));
                    assert(items@.take(i as int).last() == items@[i - 1]);
                    assert(out@ =~= old(out)@ + seq!['['] + spec_items_text(
                        items@.take(i as int),
                    ));
                }
            }
            push_char(out, ']');
            proof {
                assert(items@.take(items@.len() as int) =~= items@);
                assert(out@ =~= old(out)@ + spec_json_text(*j));
            }
        },
        Json::Obj(entries) => {
            push_char(out, '{');
            let mut i: usize = 0;
            while i < entries.len()
                invariant
                    *j is Obj,
                    j->Obj_0 == *entries,
                    i <= entries@.len(),
                    out@ =~= old(out)@ + seq!['{'] + spec_entries_text(entries@.take(i as int)),
                decreases entries@.len() - i,
            {
                if i > 0 {
                    push_char(out, ',');
                }
                let e = &entries[i];
                push_char(out, '"');
                push_escaped(out, e.0.as_str());
                push_char(out, '"');
                push_char(out, ':');
                proof {
                    assert(decreases_to!(*j => entries@[i as int].1)) by {
                        assert(decreases_to!(*j => j->Obj_0));
                        assert(decreases_to!(j->Obj_0 => j->Obj_0@));
                        assert(decreases_to!(j->Obj_0@ => j->Obj_0@[i as int]));
                        assert(decreases_to!(j->Obj_0@[i as int] => j->Obj_0@[i as int].1));
                    }
                }
                push_json_text(out, &e.1);
                i = i + 1;
                proof {
                    assert(entries@.take(i as int).drop_last() =~= entries@.take(i - 1));
                    assert(entries@.take(i as int).last() == entries@[i - 1]);
                    assert(out@ =~= old(out)@ + seq!['{'] + spec_entries_text(
                        entries@.take(i as int),
                    ));
                }
            }
            push_char(out, '}');
            proof {
                assert(entries@.take(entries@.len() as int) =~= entries@);
                assert(out@ =~= old(out)@ + spec_json_text(*j));
            }
        },
    }
}

/// The compact JSON text of a value; see [`spec_json_text`].
pub fn json_text(j: &Json) -> (r: String)
    ensures
        r@ == spec_json_text(*j),
{
    let mut out = String::new();
    push_json_text(&mut out, j);
    proof {
        assert(out@ =~= spec_json_text(*j));
    }
    out
}

} // verus!
