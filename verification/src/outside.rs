//! The calls this library makes into outside crates, each with the contract
//! that the calling code relies on.
use vstd::prelude::*;
use base64::Engine;

verus! {

/// What `regex::Regex::new(pattern)` followed by `is_match(haystack)` gives:
/// `None` when the pattern does not compile, else whether the pattern
/// matches somewhere in the haystack.
pub uninterp spec fn regex_outcome(pattern: Seq<char>, haystack: Seq<char>) -> Option<bool>;

/// Compiles `pattern` with `regex::Regex::new` and, when that succeeds,
/// tests it against `haystack` with `Regex::is_match`. The contract names
/// the outcome and claims only that it depends on the two texts alone.
#[verifier::external_body]
pub(crate) fn regex_is_match(pattern: &str, haystack: &str) -> (r: Option<bool>)
    ensures
        r == regex_outcome(pattern@, haystack@),
{
    match regex::Regex::new(pattern) {
        Ok(re) => Some(re.is_match(haystack)),
        Err(_) => None,
    }
}

} // verus!

verus! {

/// A fresh random identifier from `uuid::Uuid::new_v4`, written with
/// `to_string`: 36 characters, lower-case hexadecimal in groups of 8, 4, 4, 4
/// and 12 joined by hyphens, the version digit `4` first in the third group.
/// Which identifier comes out is left open: it is random.
#[verifier::external_body]
pub(crate) fn new_uuid_v4() -> (r: String)
    ensures
        r@.len() == 36,
        r@[8] == '-' && r@[13] == '-' && r@[18] == '-' && r@[23] == '-',
        r@[14] == '4',
{
    uuid::Uuid::new_v4().to_string()
}

} // verus!

verus! {

/// What `str::to_lowercase` gives for a text (full Unicode lower-casing).
pub uninterp spec fn lowercase(s: Seq<char>) -> Seq<char>;

/// Lower-cases a text with `str::to_lowercase`. The contract names the
/// result and claims only that it depends on the text alone.
#[verifier::external_body]
pub(crate) fn to_lowercase(s: &str) -> (r: String)
    ensures
        r@ == lowercase(s@),
{
    s.to_lowercase()
}

} // verus!

verus! {

/// The character of a 6-bit value in the standard base64 alphabet
/// (`A`-`Z`, `a`-`z`, `0`-`9`, `+`, `/`).
pub open spec fn base64_char(v: int) -> char {
    if v < 26 {
        (65 + v) as char
    } else if v < 52 {
        (97 + v - 26) as char
    } else if v < 62 {
        (48 + v - 52) as char
    } else if v == 62 {
        '+'
    } else {
        '/'
    }
}

/// Standard base64 with padding (RFC 4648, section 4): every three bytes
/// become four characters; a final one or two bytes become two or three
/// characters followed by `=` to a group of four.
pub open spec fn base64_standard(b: Seq<u8>) -> Seq<char>
    decreases b.len(),
{
    if b.len() == 0 {
        Seq::empty()
    } else if b.len() == 1 {
        seq![base64_char(b[0] as int / 4), base64_char((b[0] as int % 4) * 16), '=', '=']
    } else if b.len() == 2 {
        seq![
            base64_char(b[0] as int / 4),
            base64_char((b[0] % 4) * 16 + b[1] / 16),
            base64_char((b[1] % 16) * 4),
            '=',
        ]
    } else {
        seq![
            base64_char(b[0] as int / 4),
            base64_char((b[0] % 4) * 16 + b[1] / 16),
            base64_char((b[1] % 16) * 4 + b[2] / 64),
            base64_char(b[2] as int % 64),
        ] + base64_standard(b.skip(3))
    }
}

/// Encodes bytes with `base64::engine::general_purpose::STANDARD.encode`:
/// the standard alphabet with `=` padding. The encoder panics when the
/// length of the output does not fit in `usize`, which `requires` rules out.
#[verifier::external_body]
pub(crate) fn base64_encode(bytes: &[u8]) -> (r: String)
    requires
        bytes@.len() <= 3 * (usize::MAX / 4),
    ensures
        r@ == base64_standard(bytes@),
{
    base64::engine::general_purpose::STANDARD.encode(bytes)
}

} // verus!
