//! Value coercion and small text helpers.
//!
//! The coercions are total: a value that cannot be coerced yields no value,
//! and callers treat that as "produce no metric for this field" rather than
//! as an error. Gauge coercion maps numbers in signed 64-bit range through,
//! booleans to 0/1, and the strings "ok"/"error" (compared after ASCII case
//! folding) to 1/0; unsigned values beyond the signed range are rejected.

use vstd::prelude::*;
use crate::json::{Json, JsonNum};

verus! {

/// Relies on String::push: it appends exactly one character.
#[verifier::external_body]
pub fn push_char(s: &mut String, c: char)
    ensures
        final(s)@ == old(s)@ + seq![c],
{
    s.push(c);
}

// ---- ASCII case folding ----

/// An ASCII capital letter folded to its small form; any other character is
/// left alone.
pub open spec fn lower_char(c: char) -> char {
    if 'A' <= c && c <= 'Z' {
        ((c as u8) + 32) as char
    } else {
        c
    }
}

/// A text with every ASCII capital letter folded to its small form.
pub open spec fn spec_to_lower(s: Seq<char>) -> Seq<char> {
    s.map_values(|c: char| lower_char(c))
}

/// ASCII case folding of a text.
pub fn lower_ascii(s: &str) -> (r: String)
    ensures
        r@ == spec_to_lower(s@),
{
    let len = s.unicode_len();
    let mut out = String::new();
    let mut i: usize = 0;
    while i < len
        invariant
            len == s@.len(),
            i <= len,
            out@ =~= spec_to_lower(s@.take(i as int)),
        decreases len - i,
    {
        let c = s.get_char(i);
        let lc: char = if 'A' <= c && c <= 'Z' {
            ((c as u8) + 32) as char
        } else {
            c
        };
        push_char(&mut out, lc);
        i = i + 1;
        proof {
            assert(out@ =~= spec_to_lower(s@.take(i as int)));
        }
    }
    proof {
        assert(s@.take(len as int) =~= s@);
    }
    out
}

/// Whether two texts hold the same characters.
pub fn str_eq_str(a: &str, b: &str) -> (r: bool)
    ensures
        r == (a@ == b@),
{
    let alen = a.unicode_len();
    let blen = b.unicode_len();
    if alen != blen {
        return false;
    }
    let mut i: usize = 0;
    while i < alen
        invariant
            alen == a@.len(),
            blen == b@.len(),
            alen == blen,
            i <= alen,
            forall|j: int| 0 <= j < i ==> a@[j] == b@[j],
        decreases alen - i,
    {
        if a.get_char(i) != b.get_char(i) {
            return false;
        }
        i = i + 1;
    }
    proof {
        assert(a@ =~= b@);
    }
    true
}

// ---- trimming ----

/// The whitespace characters, as Unicode gives them.
pub open spec fn is_space_char(c: char) -> bool {
    ||| c == ' '
    ||| c == '\t'
    ||| c == '\n'
    ||| c == '\r'
    ||| c == '\u{b}'
    ||| c == '\u{c}'
    ||| c == '\u{85}'
    ||| c == '\u{a0}'
    ||| c == '\u{1680}'
    ||| ('\u{2000}' <= c && c <= '\u{200a}')
    ||| c == '\u{2028}'
    ||| c == '\u{2029}'
    ||| c == '\u{202f}'
    ||| c == '\u{205f}'
    ||| c == '\u{3000}'
}

/// See [`is_space_char`].
pub fn is_space(c: char) -> (r: bool)
    ensures
        r == is_space_char(c),
{
    c == ' ' || c == '\t' || c == '\n' || c == '\r' || c == '\u{b}' || c == '\u{c}' || c == '\u{85}'
        || c == '\u{a0}' || c == '\u{1680}' || ('\u{2000}' <= c && c <= '\u{200a}') || c
        == '\u{2028}' || c == '\u{2029}' || c == '\u{202f}' || c == '\u{205f}' || c == '\u{3000}'
}

/// A text without its leading whitespace.
pub open spec fn spec_trim_front(s: Seq<char>) -> Seq<char>
    decreases s.len(),
{
    if s.len() > 0 && is_space_char(s[0]) {
        spec_trim_front(s.drop_first())
    } else {
        s
    }
}

/// A text without its trailing whitespace.
pub open spec fn spec_trim_back(s: Seq<char>) -> Seq<char>
    decreases s.len(),
{
    if s.len() > 0 && is_space_char(s.last()) {
        spec_trim_back(s.drop_last())
    } else {
        s
    }
}

/// A text without its leading and trailing whitespace.
pub open spec fn spec_trim(s: Seq<char>) -> Seq<char> {
    spec_trim_back(spec_trim_front(s))
}

proof fn lemma_trim_front_skip(s: Seq<char>, k: int)
    requires
        0 <= k <= s.len(),
        forall|j: int| 0 <= j < k ==> is_space_char(s[j]),
        k < s.len() ==> !is_space_char(s[k]),
    ensures
        spec_trim_front(s) == s.skip(k),
    decreases k,
{
    if k == 0 {
        assert(s.skip(0) =~= s);
        if s.len() > 0 && is_space_char(s[0]) {
            assert(false);
        }
    } else {
        assert(is_space_char(s[0]));
        let t = s.drop_first();
        assert(t =~= s.skip(1));
        lemma_trim_front_skip(t, k - 1);
        assert(t.skip(k - 1) =~= s.skip(k));
    }
}

proof fn lemma_trim_back_take(s: Seq<char>, m: int)
    requires
        0 <= m <= s.len(),
        forall|j: int| m <= j < s.len() ==> is_space_char(s[j]),
        m > 0 ==> !is_space_char(s[m - 1]),
    ensures
        spec_trim_back(s) == s.take(m),
    decreases s.len(),
{
    if m == s.len() {
        if s.len() > 0 && is_space_char(s.last()) {
            assert(false);
        } else {
            assert(s.take(m) =~= s);
        }
    } else {
        assert(is_space_char(s.last()));
        let t = s.drop_last();
        lemma_trim_back_take(t, m);
        assert(t.take(m) =~= s.take(m));
    }
}

/// A copy of a text with leading and trailing whitespace removed.
pub fn trim_str(s: &str) -> (r: String)
    ensures
        r@ == spec_trim(s@),
{
    let len = s.unicode_len();
    let mut start: usize = 0;
    while start < len && is_space(s.get_char(start))
        invariant
            len == s@.len(),
            start <= len,
            forall|j: int| 0 <= j < start ==> is_space_char(s@[j]),
        decreases len - start,
    {
        start = start + 1;
    }
    proof {
        lemma_trim_front_skip(s@, start as int);
    }
    let mut end: usize = len;
    while end > start && is_space(s.get_char(end - 1))
        invariant
            len == s@.len(),
            start <= end <= len,
            forall|j: int| end <= j < len ==> is_space_char(s@[j]),
            spec_trim_front(s@) == s@.skip(start as int),
        decreases end,
    {
        end = end - 1;
    }
    proof {
        let t = s@.skip(start as int);
        lemma_trim_back_take(t, end - start);
        assert(t.take(end - start) =~= s@.subrange(start as int, end as int));
    }
    let sub = s.substring_char(start, end);
    String::from_str(sub)
}

// ---- decimal text of integers ----

/// The character of one decimal digit.
pub open spec fn digit_char(d: int) -> char {
    ((48 + d) as u8) as char
}

/// The decimal text of a natural number.
pub open spec fn spec_u64_dec(n: nat) -> Seq<char>
    decreases n,
{
    if n < 10 {
        seq![digit_char(n as int)]
    } else {
        spec_u64_dec(n / 10).push(digit_char((n % 10) as int))
    }
}

/// The decimal text of an integer: a minus sign ahead of the magnitude when
/// it is negative.
pub open spec fn spec_i64_dec(i: int) -> Seq<char> {
    if i < 0 {
        seq!['-'] + spec_u64_dec((-i) as nat)
    } else {
        spec_u64_dec(i as nat)
    }
}

fn push_u64_dec(out: &mut String, n: u64)
    ensures
        final(out)@ == old(out)@ + spec_u64_dec(n as nat),
    decreases n,
{
    if n < 10 {
        push_char(out, ((48 + n) as u8) as char);
    } else {
        push_u64_dec(out, n / 10);
        push_char(out, ((48 + (n % 10)) as u8) as char);
        proof {
            assert(final(out)@ =~= old(out)@ + spec_u64_dec(n as nat));
        }
    }
}

/// The decimal text of an unsigned number.
pub fn u64_to_dec_string(n: u64) -> (r: String)
    ensures
        r@ == spec_u64_dec(n as nat),
{
    let mut s = String::new();
    push_u64_dec(&mut s, n);
    proof {
        assert(s@ =~= spec_u64_dec(n as nat));
    }
    s
}

/// The decimal text of a signed number.
pub fn i64_to_dec_string(n: i64) -> (r: String)
    ensures
        r@ == spec_i64_dec(n as int),
{
    if n >= 0 {
        u64_to_dec_string(n as u64)
    } else {
        let mut s = String::new();
        push_char(&mut s, '-');
        let mag: u64 = ((-(n + 1)) as u64) + 1;
        assert(mag as nat == -(n as int) as nat);
        push_u64_dec(&mut s, mag);
        proof {
            assert(s@ =~= spec_i64_dec(n as int));
        }
        s
    }
}

// ---- coercions ----

/// The gauge coercion of a number: only a value in signed 64-bit range
/// passes; larger unsigned values and non-integral numbers are rejected.
pub open spec fn spec_json_number_to_i64(j: &Json) -> Option<i64> {
    match j {
        Json::Num(JsonNum::Int(i)) => Some(*i),
        _ => None,
    }
}

/// See [`spec_json_number_to_i64`].
pub fn json_number_to_i64(value: &Json) -> (r: Option<i64>)
    ensures
        r == spec_json_number_to_i64(value),
{
    match value {
        Json::Num(JsonNum::Int(i)) => Some(*i),
        _ => None,
    }
}

/// The label text of a scalar: strings pass through verbatim, numbers render
/// as their decimal text, booleans as "true"/"false"; null, arrays and
/// objects yield no value.
pub open spec fn spec_json_value_to_str(j: &Json) -> Option<Seq<char>> {
    match j {
        Json::Text(t) => Some(t@),
        Json::Num(JsonNum::Int(i)) => Some(spec_i64_dec(*i as int)),
        Json::Num(JsonNum::Big(u)) => Some(spec_u64_dec(*u as nat)),
        Json::Num(JsonNum::Other(t)) => Some(t@),
        Json::Bool(b) => Some(if *b {
            "true"@
        } else {
            "false"@
        }),
        _ => None,
    }
}

/// See [`spec_json_value_to_str`].
pub fn json_value_to_str(value: &Json) -> (r: Option<String>)
    ensures
        match r {
            Some(s) => spec_json_value_to_str(value) == Some(s@),
            None => spec_json_value_to_str(value) is None,
        },
{
    match value {
        Json::Text(t) => Some(t.clone()),
        Json::Num(JsonNum::Int(i)) => Some(i64_to_dec_string(*i)),
        Json::Num(JsonNum::Big(u)) => Some(u64_to_dec_string(*u)),
        Json::Num(JsonNum::Other(t)) => Some(t.clone()),
        Json::Bool(b) => Some(
            if *b {
                String::from_str("true")
            } else {
                String::from_str("false")
            },
        ),
        _ => None,
    }
}

/// The gauge coercion of a value: numbers in signed 64-bit range pass
/// through, booleans map to 0/1, and the strings "ok" and "error" (after
/// ASCII case folding) map to 1/0; every other value yields no value.
pub open spec fn spec_json_value_to_i64(j: &Json) -> Option<i64> {
    match j {
        Json::Text(t) => if spec_to_lower(t@) == "ok"@ {
            Some(1i64)
        } else if spec_to_lower(t@) == "error"@ {
            Some(0i64)
        } else {
            None
        },
        Json::Num(JsonNum::Int(i)) => Some(*i),
        Json::Bool(b) => Some(
            if *b {
                1i64
            } else {
                0i64
            },
        ),
        _ => None,
    }
}

/// See [`spec_json_value_to_i64`].
pub fn json_value_to_i64(value: &Json) -> (r: Option<i64>)
    ensures
        r == spec_json_value_to_i64(value),
{
    match value {
        Json::Text(t) => {
            let low = lower_ascii(t.as_str());
            if str_eq_str(low.as_str(), "ok") {
                Some(1)
            } else if str_eq_str(low.as_str(), "error") {
                Some(0)
            } else {
                None
            }
        },
        Json::Num(JsonNum::Int(i)) => Some(*i),
        Json::Bool(b) => Some(
            if *b {
                1
            } else {
                0
            },
        ),
        _ => None,
    }
}

} // verus!
