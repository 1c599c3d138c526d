//! Snake-case normalization of metric and label names.
//!
//! The converter's word splitting counts split positions in characters but
//! cuts the text in bytes, so on a delimiter-free name a case change after a
//! multi-byte character makes it panic. The trusted call is therefore
//! confined to ASCII text, where the two positions agree; any other name is
//! kept verbatim rather than converted.

use vstd::prelude::*;
use vstd::string::StringExecFns;
use convert_case::{Case, Casing};

verus! {

/// The snake_case form of an ASCII text, as convert_case computes it.
pub uninterp spec fn snake_of(s: Seq<char>) -> Seq<char>;

/// Relies on convert_case's Casing::to_case with Case::Snake: the crate
/// splits a name into words at its delimiters and case changes, and joins
/// them with underscores in small letters; the result depends on the
/// characters alone. On ASCII text the crate's character-counted split
/// positions are valid byte positions, so the call returns.
#[verifier::external_body]
fn convert_to_snake(s: &str) -> (r: String)
    requires
        vstd::string::is_ascii(s),
    ensures
        r@ == snake_of(s@),
{
    s.to_case(Case::Snake)
}

/// The name normalization applied to document keys and the configured
/// prefix: ASCII text is snake-cased, any other text is kept as it is.
pub open spec fn spec_snake(s: Seq<char>) -> Seq<char> {
    if vstd::utf8::is_ascii_chars(s) {
        snake_of(s)
    } else {
        s
    }
}

/// See [`spec_snake`].
pub fn to_snake_case(s: &str) -> (r: String)
    ensures
        r@ == spec_snake(s@),
{
    if s.is_ascii() {
        convert_to_snake(s)
    } else {
        String::from_str(s)
    }
}

} // verus!
