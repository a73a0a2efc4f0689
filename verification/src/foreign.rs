//! The calls into other crates and into parts of the standard library that
//! carry no specification. What each contract claims is not proved here: it
//! is what the called function's documentation says.

use crate::text::is_blank;
use vstd::prelude::*;

verus! {

/// The pattern that a text of white space alone matches, the empty text
/// among them.
pub open spec fn blank_pattern() -> Seq<char> {
    "^\\s*$"@
}

/// The pattern that the path of a function or of a resource matches.
pub open spec fn path_pattern() -> Seq<char> {
    "^[a-z0-9_/.]+$"@
}

/// The characters of a path: small letters, digits, `_`, `/` and `.`.
pub open spec fn is_path_char(c: char) -> bool {
    ('a' <= c && c <= 'z') || ('0' <= c && c <= '9') || c == '_' || c == '/' || c == '.'
}

/// Whether `s` is a path: not empty, and made of the characters of a path.
pub open spec fn is_path_text(s: Seq<char>) -> bool {
    s.len() > 0 && forall|i: int| 0 <= i < s.len() ==> is_path_char(#[trigger] s[i])
}

/// Whether the regular expression `pattern` has a match in `haystack`, by
/// `regex::Regex::new` and `Regex::is_match`; `None` where `pattern` is no
/// regular expression.
///
/// Claimed of two patterns only. `^\s*$` matches the texts whose every
/// character has the Unicode property `White_Space`. `^[a-z0-9_/.]+$` matches
/// the texts of at least one character whose every character is one of those
/// between the square brackets.
#[verifier::external_body]
pub(crate) fn regex_is_match(pattern: &str, haystack: &str) -> (r: Option<bool>)
    ensures
        pattern@ == blank_pattern() ==> r == Some(is_blank(haystack@)),
        pattern@ == path_pattern() ==> r == Some(is_path_text(haystack@)),
{
    match regex::Regex::new(pattern) {
        Ok(re) => Some(re.is_match(haystack)),
        Err(_) => None,
    }
}

/// The text `s` as `format` writes it for `{:?}`: between double quotes, with
/// escapes.
pub uninterp spec fn debug_text(s: Seq<char>) -> Seq<char>;

/// The text `s` as `format` writes it for `{:?}`.
#[verifier::external_body]
pub(crate) fn debug_format(s: &str) -> (r: String)
    ensures
        r@ == debug_text(s@),
{
    format!("{:?}", s)
}

/// The failure of `serde_json`'s parser.
#[verifier::external_type_specification]
#[verifier::external_body]
pub struct ExJsonError(serde_json::Error);

/// What is wrong with `text` as JSON: nothing where `serde_json::from_str`
/// reads it as one `serde_json::Value`, else what the parser's failure says
/// by its `to_string`.
pub uninterp spec fn json_fault(text: Seq<char>) -> Option<Seq<char>>;

/// Reads `text` as one JSON value, by `serde_json::from_str`: nothing where
/// that succeeds, else what the failure says, by its `to_string`.
#[verifier::external_body]
pub(crate) fn json_fault_of(text: &str) -> (r: Option<String>)
    ensures
        crate::exception::text_view(r) == json_fault(text@),
{
    match serde_json::from_str::<serde_json::Value>(text) {
        Ok(_) => None,
        Err(error) => Some(error.to_string()),
    }
}

/// What the failure says, by its `to_string`.
#[verifier::external_body]
pub(crate) fn json_error_text(error: &serde_json::Error) -> (r: String) {
    error.to_string()
}

} // verus!
