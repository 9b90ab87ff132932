//! The outside matchers and encoders the ranking engine relies on.
use crate::text::ascii_lower;
use fuzzy_matcher::skim::SkimMatcherV2;
use fuzzy_matcher::FuzzyMatcher;
use percent_encoding::{utf8_percent_encode, NON_ALPHANUMERIC};
use vstd::prelude::*;
use vstd::utf8::encode_utf8;

verus! {

/// The score skim's matcher gives `pattern` against `choice` when it matches.
pub uninterp spec fn skim_score(choice: Seq<char>, pattern: Seq<char>) -> i64;

/// Whether the pattern holds an ASCII capital, which makes skim's smart case exact.
pub open spec fn has_ascii_upper(s: Seq<char>) -> bool {
    exists|i: int| 0 <= i < s.len() && 'A' <= #[trigger] s[i] && s[i] <= 'Z'
}

/// Character equality under skim's case rule.
pub open spec fn chars_match(a: char, b: char, case_sensitive: bool) -> bool {
    if case_sensitive {
        a == b
    } else {
        ascii_lower(a) == ascii_lower(b)
    }
}

/// `p` is a subsequence of `c` under the case rule.
pub open spec fn subsequence_of(p: Seq<char>, c: Seq<char>, cs: bool) -> bool
    decreases c.len(),
{
    if p.len() == 0 {
        true
    } else if c.len() == 0 {
        false
    } else if chars_match(c[0], p[0], cs) {
        subsequence_of(p.drop_first(), c.drop_first(), cs)
    } else {
        subsequence_of(p, c.drop_first(), cs)
    }
}

/// Whether skim's smart-case matcher accepts `pattern` against `choice`.
pub open spec fn fuzzy_accepts(choice: Seq<char>, pattern: Seq<char>) -> bool {
    subsequence_of(pattern, choice, has_ascii_upper(pattern))
}

/// Relies on `SkimMatcherV2::fuzzy_match` with the default (smart case) matcher: a score
/// exactly when the pattern is a subsequence of the choice (ASCII case ignored unless the
/// pattern holds an ASCII capital), `Some(0)` for an empty pattern; scores come from an
/// `i32` matrix.
#[verifier::external_body]
pub(crate) fn fuzzy_match(choice: &str, pattern: &str) -> (r: Option<i64>)
    ensures
        r is Some <==> fuzzy_accepts(choice@, pattern@),
        r is Some ==> r->0 == skim_score(choice@, pattern@),
        pattern@.len() == 0 ==> r == Some(0i64),
        r is Some ==> i32::MIN <= r->0 <= i32::MAX,
{
    SkimMatcherV2::default().fuzzy_match(choice, pattern)
}

/// An uppercase hexadecimal digit for `n < 16`.
pub open spec fn hex_digit(n: u8) -> char {
    if n < 10 {
        (48u8 + n) as char
    } else {
        (55u8 + n) as char
    }
}

/// Whether a byte is an ASCII letter or digit.
pub open spec fn is_alnum_byte(b: u8) -> bool {
    (48 <= b && b <= 57) || (65 <= b && b <= 90) || (97 <= b && b <= 122)
}

/// One byte as it appears in a percent-encoded text that keeps only letters and digits.
pub open spec fn percent_byte(b: u8) -> Seq<char> {
    if is_alnum_byte(b) {
        seq![b as char]
    } else {
        seq!['%', hex_digit(b / 16), hex_digit(b % 16)]
    }
}

/// Bytes percent-encoded, letters and digits kept.
pub open spec fn percent_encoded(bytes: Seq<u8>) -> Seq<char>
    decreases bytes.len(),
{
    if bytes.len() == 0 {
        Seq::empty()
    } else {
        percent_encoded(bytes.drop_last()) + percent_byte(bytes.last())
    }
}

/// Relies on `percent_encoding::utf8_percent_encode` with `NON_ALPHANUMERIC`: every UTF-8 byte
/// that is not an ASCII letter or digit becomes `%` and two uppercase hex digits.
#[verifier::external_body]
pub(crate) fn percent_encode(s: &str) -> (r: String)
    ensures
        r@ == percent_encoded(encode_utf8(s@)),
{
    utf8_percent_encode(s, NON_ALPHANUMERIC).to_string()
}

} // verus!
