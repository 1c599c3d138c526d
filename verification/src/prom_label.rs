//! A metric label: a name/value pair with a rendering rule that quotes the
//! value unless it reads as an integer, float or boolean literal.
//!
//! The literal grammar follows the decimal float syntax: an optional sign,
//! then either one of the words "inf", "infinity" or "nan" (in any letter
//! case), or a mantissa holding at least one digit with an optional dot,
//! followed by an optional exponent part. The booleans are exactly "true"
//! and "false". Every integer literal is also a float literal, so the float
//! grammar covers both.

use vstd::prelude::*;
use vstd::string::StringExecFns;
use crate::utils::{digit_char, lower_ascii, spec_i64_dec, spec_to_lower, spec_u64_dec, str_eq_str};

verus! {

/// The mathematical value of a label: its name and value as char sequences.
#[verifier::ext_equal]
pub ghost struct LabelModel {
    pub name: Seq<char>,
    pub value: Seq<char>,
}

#[derive(Clone, Debug)]
pub struct PromLabel {
    pub name: String,
    pub value: String,
}

impl View for PromLabel {
    type V = LabelModel;

    open spec fn view(&self) -> LabelModel {
        LabelModel { name: self.name@, value: self.value@ }
    }
}

/// The views of a sequence of labels, in order.
pub open spec fn labels_view(ls: Seq<PromLabel>) -> Seq<LabelModel> {
    ls.map_values(|l: PromLabel| l@)
}

/// The view of an optional label list.
pub open spec fn opt_labels_view(ls: Option<Vec<PromLabel>>) -> Option<Seq<LabelModel>> {
    match ls {
        Some(v) => Some(labels_view(v@)),
        None => None,
    }
}

/// A field-for-field copy of a label list, in order.
pub fn clone_labels(ls: &Vec<PromLabel>) -> (r: Vec<PromLabel>)
    ensures
        r@ == ls@,
{
    let mut out: Vec<PromLabel> = Vec::new();
    let mut i: usize = 0;
    while i < ls.len()
        invariant
            i <= ls@.len(),
            out@ =~= ls@.take(i as int),
        decreases ls@.len() - i,
    {
        let l = &ls[i];
        out.push(PromLabel { name: l.name.clone(), value: l.value.clone() });
        i = i + 1;
        proof {
            assert(out@ =~= ls@.take(i as int));
        }
    }
    proof {
        assert(ls@.take(ls@.len() as int) =~= ls@);
    }
    out
}

/// A field-for-field copy of an optional label list.
pub fn clone_opt_labels(ls: &Option<Vec<PromLabel>>) -> (r: Option<Vec<PromLabel>>)
    ensures
        r is Some == *ls is Some,
        r is Some ==> r->0@ == (*ls)->0@,
{
    match ls {
        Some(v) => Some(clone_labels(v)),
        None => None,
    }
}

// ---- the numeric literal grammar, as a character-by-character scan ----

/// The scanner's position inside a numeric literal.
#[derive(Clone, Copy, PartialEq, Eq, Structural)]
pub enum NumScan {
    /// Nothing read yet (the sign is stripped beforehand).
    Start,
    /// Digits read, no dot or exponent yet: a complete integer.
    Int,
    /// A dot read first, with no digit yet.
    Dot,
    /// A dot read after or followed by at least one digit: a complete
    /// mantissa.
    Frac,
    /// An exponent mark read, nothing after it.
    Exp,
    /// A sign read right after the exponent mark.
    ExpSign,
    /// Digits read after the exponent mark: a complete exponent.
    ExpDigits,
    /// No literal can continue from here.
    Dead,
}

/// Whether a character is a decimal digit.
pub open spec fn spec_is_digit(c: char) -> bool {
    48 <= c as u32 <= 57
}

/// One step of the literal scan.
pub open spec fn num_step(st: NumScan, c: char) -> NumScan {
    match st {
        NumScan::Start => if spec_is_digit(c) {
            NumScan::Int
        } else if c == '.' {
            NumScan::Dot
        } else {
            NumScan::Dead
        },
        NumScan::Int => if spec_is_digit(c) {
            NumScan::Int
        } else if c == '.' {
            NumScan::Frac
        } else if c == 'e' || c == 'E' {
            NumScan::Exp
        } else {
            NumScan::Dead
        },
        NumScan::Dot => if spec_is_digit(c) {
            NumScan::Frac
        } else {
            NumScan::Dead
        },
        NumScan::Frac => if spec_is_digit(c) {
            NumScan::Frac
        } else if c == 'e' || c == 'E' {
            NumScan::Exp
        } else {
            NumScan::Dead
        },
        NumScan::Exp => if spec_is_digit(c) {
            NumScan::ExpDigits
        } else if c == '+' || c == '-' {
            NumScan::ExpSign
        } else {
            NumScan::Dead
        },
        NumScan::ExpSign => if spec_is_digit(c) {
            NumScan::ExpDigits
        } else {
            NumScan::Dead
        },
        NumScan::ExpDigits => if spec_is_digit(c) {
            NumScan::ExpDigits
        } else {
            NumScan::Dead
        },
        NumScan::Dead => NumScan::Dead,
    }
}

/// The scan folded over a text, last character stepped last.
pub open spec fn num_scan(st: NumScan, s: Seq<char>) -> NumScan
    decreases s.len(),
{
    if s.len() == 0 {
        st
    } else {
        num_step(num_scan(st, s.drop_last()), s.last())
    }
}

/// Whether the scan ends in a complete number.
pub open spec fn spec_accepts_number(st: NumScan) -> bool {
    st == NumScan::Int || st == NumScan::Frac || st == NumScan::ExpDigits
}

/// A text without its one leading sign, if any.
pub open spec fn spec_strip_sign(s: Seq<char>) -> Seq<char> {
    if s.len() > 0 && (s[0] == '+' || s[0] == '-') {
        s.drop_first()
    } else {
        s
    }
}

/// Whether a text is a float literal: after an optional sign, one of the
/// special words in any letter case, or a number the scan accepts.
pub open spec fn spec_is_float_literal(s: Seq<char>) -> bool {
    let b = spec_strip_sign(s);
    ||| spec_to_lower(b) == "inf"@
    ||| spec_to_lower(b) == "infinity"@
    ||| spec_to_lower(b) == "nan"@
    ||| spec_accepts_number(num_scan(NumScan::Start, b))
}

/// Whether a text is a boolean literal.
pub open spec fn spec_is_bool_literal(s: Seq<char>) -> bool {
    s == "true"@ || s == "false"@
}

/// Whether a label value renders without quotes.
pub open spec fn spec_is_unquoted(s: Seq<char>) -> bool {
    spec_is_bool_literal(s) || spec_is_float_literal(s)
}

// ---- laws of label rendering ----

proof fn lemma_digit_char_is_digit(d: int)
    requires
        0 <= d < 10,
    ensures
        spec_is_digit(digit_char(d)),
        digit_char(d) != '+',
        digit_char(d) != '-',
{
}

proof fn lemma_scan_dec_digits(st: NumScan, n: nat)
    requires
        st == NumScan::Start || st == NumScan::Int,
    ensures
        num_scan(st, spec_u64_dec(n)) == NumScan::Int,
    decreases n,
{
    if n < 10 {
        lemma_digit_char_is_digit(n as int);
        let s = spec_u64_dec(n);
        assert(s == seq![digit_char(n as int)]);
        assert(s.drop_last() =~= Seq::<char>::empty());
        assert(num_scan(st, Seq::<char>::empty()) == st);
        assert(s.last() == digit_char(n as int));
        assert(num_scan(st, s) == num_step(st, digit_char(n as int)));
    } else {
        lemma_scan_dec_digits(st, n / 10);
        assert(spec_u64_dec(n).drop_last() =~= spec_u64_dec(n / 10));
        assert(spec_u64_dec(n).last() == digit_char((n % 10) as int));
        lemma_digit_char_is_digit((n % 10) as int);
    }
}

proof fn lemma_dec_starts_with_digit(n: nat)
    ensures
        spec_u64_dec(n).len() >= 1,
        spec_is_digit(spec_u64_dec(n)[0]),
    decreases n,
{
    if n < 10 {
        lemma_digit_char_is_digit(n as int);
    } else {
        lemma_dec_starts_with_digit(n / 10);
    }
}

/// Law: a label whose value is the decimal text of a signed number renders
/// unquoted, as `name=value`.
pub proof fn lemma_int_label_unquoted(name: Seq<char>, i: i64)
    ensures
        spec_label_render(LabelModel { name: name, value: spec_i64_dec(i as int) }) == name + "="@
            + spec_i64_dec(i as int),
{
    let s = spec_i64_dec(i as int);
    if i >= 0 {
        lemma_dec_starts_with_digit(i as nat);
        lemma_digit_char_is_digit(0);
        assert(!(s[0] == '+' || s[0] == '-')) by {
            assert(spec_is_digit(s[0]));
        }
        assert(spec_strip_sign(s) == s);
        lemma_scan_dec_digits(NumScan::Start, i as nat);
    } else {
        let mag = (-(i as int)) as nat;
        assert(s == seq!['-'] + spec_u64_dec(mag));
        assert(s[0] == '-');
        assert(s.len() > 0);
        assert(spec_strip_sign(s) =~= spec_u64_dec(mag));
        lemma_scan_dec_digits(NumScan::Start, mag);
    }
    assert(spec_is_float_literal(s));
}

/// Law: a label whose value is the decimal text of an unsigned number
/// renders unquoted, as `name=value`.
pub proof fn lemma_big_label_unquoted(name: Seq<char>, u: u64)
    ensures
        spec_label_render(LabelModel { name: name, value: spec_u64_dec(u as nat) }) == name + "="@
            + spec_u64_dec(u as nat),
{
    let s = spec_u64_dec(u as nat);
    lemma_dec_starts_with_digit(u as nat);
    assert(!(s[0] == '+' || s[0] == '-')) by {
        assert(spec_is_digit(s[0]));
    }
    assert(spec_strip_sign(s) == s);
    lemma_scan_dec_digits(NumScan::Start, u as nat);
    assert(spec_is_float_literal(s));
}

/// Law: a label whose value is a boolean's text renders unquoted, as
/// `name=true` or `name=false`.
pub proof fn lemma_bool_label_unquoted(name: Seq<char>, b: bool)
    ensures
        spec_label_render(
            LabelModel {
                name: name,
                value: if b {
                    "true"@
                } else {
                    "false"@
                },
            },
        ) == name + "="@ + if b {
            "true"@
        } else {
            "false"@
        },
{
}

/// Law: a label whose value is a string that reads as no boolean or float
/// literal renders quoted, as `name="value"`, the string kept verbatim.
pub proof fn lemma_text_label_quoted(name: Seq<char>, t: Seq<char>)
    requires
        !spec_is_unquoted(t),
    ensures
        spec_label_render(LabelModel { name: name, value: t }) == name + "=\""@ + t + "\""@,
{
}

fn num_step_exec(st: NumScan, c: char) -> (r: NumScan)
    ensures
        r == num_step(st, c),
{
    let u = c as u32;
    let digit = 48 <= u && u <= 57;
    match st {
        NumScan::Start => if digit {
            NumScan::Int
        } else if c == '.' {
            NumScan::Dot
        } else {
            NumScan::Dead
        },
        NumScan::Int => if digit {
            NumScan::Int
        } else if c == '.' {
            NumScan::Frac
        } else if c == 'e' || c == 'E' {
            NumScan::Exp
        } else {
            NumScan::Dead
        },
        NumScan::Dot => if digit {
            NumScan::Frac
        } else {
            NumScan::Dead
        },
        NumScan::Frac => if digit {
            NumScan::Frac
        } else if c == 'e' || c == 'E' {
            NumScan::Exp
        } else {
            NumScan::Dead
        },
        NumScan::Exp => if digit {
            NumScan::ExpDigits
        } else if c == '+' || c == '-' {
            NumScan::ExpSign
        } else {
            NumScan::Dead
        },
        NumScan::ExpSign => if digit {
            NumScan::ExpDigits
        } else {
            NumScan::Dead
        },
        NumScan::ExpDigits => if digit {
            NumScan::ExpDigits
        } else {
            NumScan::Dead
        },
        NumScan::Dead => NumScan::Dead,
    }
}

/// Whether a label value renders without quotes: a boolean or float literal.
pub fn is_unquoted_value(s: &str) -> (r: bool)
    ensures
        r == spec_is_unquoted(s@),
{
    if str_eq_str(s, "true") || str_eq_str(s, "false") {
        return true;
    }
    let len = s.unicode_len();
    let start: usize = if len > 0 {
        let c0 = s.get_char(0);
        if c0 == '+' || c0 == '-' {
            1
        } else {
            0
        }
    } else {
        0
    };
    let body = s.substring_char(start, len);
    proof {
        assert(body@ =~= spec_strip_sign(s@));
    }
    let low = lower_ascii(body);
    if str_eq_str(low.as_str(), "inf") || str_eq_str(low.as_str(), "infinity") || str_eq_str(
        low.as_str(),
        "nan",
    ) {
        return true;
    }
    let blen = body.unicode_len();
    let mut st = NumScan::Start;
    let mut i: usize = 0;
    while i < blen
        invariant
            blen == body@.len(),
            i <= blen,
            st == num_scan(NumScan::Start, body@.take(i as int)),
        decreases blen - i,
    {
        st = num_step_exec(st, body.get_char(i));
        i = i + 1;
        proof {
            assert(body@.take(i as int).drop_last() =~= body@.take(i - 1));
        }
    }
    proof {
        assert(body@.take(blen as int) =~= body@);
    }
    match st {
        NumScan::Int => true,
        NumScan::Frac => true,
        NumScan::ExpDigits => true,
        _ => false,
    }
}

// ---- the label itself ----

/// The rendered form of a label: `name=value`, with the value quoted unless
/// it is a boolean or float literal.
pub open spec fn spec_label_render(l: LabelModel) -> Seq<char> {
    if spec_is_unquoted(l.value) {
        l.name + "="@ + l.value
    } else {
        l.name + "=\""@ + l.value + "\""@
    }
}

impl PromLabel {
    pub fn new(name: String, value: String) -> (r: Self)
        ensures
            r@.name == name@,
            r@.value == value@,
    {
        Self { name, value }
    }

    /// The exposition-format text of this label.
    pub fn to_string(&self) -> (r: String)
        ensures
            r@ == spec_label_render(self@),
    {
        let mut out = self.name.clone();
        if is_unquoted_value(self.value.as_str()) {
            out.append("=");
            out.append(self.value.as_str());
        } else {
            out.append("=\"");
            out.append(self.value.as_str());
            out.append("\"");
        }
        proof {
            assert(out@ =~= spec_label_render(self@));
        }
        out
    }
}

} // verus!
