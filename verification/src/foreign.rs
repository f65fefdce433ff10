//! Calls into code outside this crate, each with the contract that the rest of
//! the library relies on.
use vstd::prelude::*;

verus! {

/// What `regex_lite` yields when `pattern` is compiled and every non-overlapping
/// match of it in `haystack` is replaced by `replacement`; `None` when the
/// pattern does not compile.
pub uninterp spec fn regex_replace_all(
    pattern: Seq<char>,
    haystack: Seq<char>,
    replacement: Seq<char>,
) -> Option<Seq<char>>;

/// Compiles `pattern` with `regex_lite::Regex::new` and, when that succeeds,
/// returns `Regex::replace_all(haystack, replacement)` as an owned string.
/// The contract ties the outcome to the three arguments through
/// `regex_replace_all` and states one fact of `replacen`'s source: a
/// replacement without `$` is inserted literally between unchanged pieces of
/// the haystack, so every character of the result comes from one of the two.
/// Which runs the regex engine matches is not restated here.
#[verifier::external_body]
pub(crate) fn regex_replace_all_exec(pattern: &str, haystack: &str, replacement: &str) -> (r: Option<
    String,
>)
    ensures
        r is None <==> regex_replace_all(pattern@, haystack@, replacement@) is None,
        r matches Some(s) ==> regex_replace_all(pattern@, haystack@, replacement@) == Some(s@),
        r matches Some(s) ==> (!replacement@.contains('$') ==> forall|i: int|
            0 <= i < s@.len() ==> haystack@.contains(#[trigger] s@[i]) || replacement@.contains(s@[i])),
{
    match regex_lite::Regex::new(pattern) {
        Ok(re) => Some(re.replace_all(haystack, replacement).into_owned()),
        Err(_) => None,
    }
}

} // verus!

verus! {

/// What `format!("{:?}", s)` yields for a string slice: the quoted, escaped form.
pub uninterp spec fn debug_quoted(s: Seq<char>) -> Seq<char>;

/// Renders `s` with the standard `Debug` formatting of `str`; the contract names
/// the result and does not restate Rust's escaping rules.
#[verifier::external_body]
pub(crate) fn debug_quoted_exec(s: &str) -> (r: String)
    ensures
        r@ == debug_quoted(s@),
{
    format!("{:?}", s)
}

/// Asks the file system whether `path` names an existing file or directory
/// through `std::path::Path::exists`. The answer depends on the disk, so nothing
/// is promised about it.
#[verifier::external_body]
pub(crate) fn path_exists(path: &str) -> bool {
    std::path::Path::new(path).exists()
}

#[verifier::external_type_specification]
#[verifier::external_body]
pub struct ExJsonValue(serde_json::Value);

/// The error text of `serde_json::from_str::<Value>` for `text`, or `None`
/// when `text` is a syntactically valid JSON document.
pub uninterp spec fn json_parse_error(text: Seq<char>) -> Option<Seq<char>>;

/// Parses `text` with `serde_json::from_str` into a `serde_json::Value`,
/// turning a parse error into its `Display` text. Success and the error text are
/// tied to `text` through `json_parse_error`; the parsed value is opaque.
#[verifier::external_body]
pub(crate) fn parse_json_value(text: &str) -> (r: Result<serde_json::Value, String>)
    ensures
        r is Ok <==> json_parse_error(text@) is None,
        r matches Err(e) ==> json_parse_error(text@) == Some(e@),
{
    match serde_json::from_str::<serde_json::Value>(text) {
        Ok(v) => Ok(v),
        Err(e) => Err(e.to_string()),
    }
}

} // verus!

verus! {

/// Resolves `path` with `std::path::Path::canonicalize` (symbolic links
/// followed, `.` and `..` removed) and returns it as text, replacing any bytes
/// that are not UTF-8; an I/O failure is returned as its `Display` text. The
/// outcome depends on the disk; the contract only states what the documentation
/// promises of every success: the path is absolute.
#[verifier::external_body]
pub(crate) fn canonicalize_path(path: &str) -> (r: Result<String, String>)
    ensures
        r matches Ok(p) ==> crate::path::is_absolute(p@),
{
    match std::path::Path::new(path).canonicalize() {
        Ok(p) => Ok(p.to_string_lossy().into_owned()),
        Err(e) => Err(e.to_string()),
    }
}

} // verus!

verus! {

/// What `str::to_lowercase` yields for `s` (Unicode lowercase mapping).
pub uninterp spec fn lowercase(s: Seq<char>) -> Seq<char>;

/// Lower-cases `s` with `str::to_lowercase`; the contract names the result and
/// does not restate the Unicode case tables.
#[verifier::external_body]
pub(crate) fn to_lowercase_exec(s: &str) -> (r: String)
    ensures
        r@ == lowercase(s@),
{
    s.to_lowercase()
}

} // verus!

verus! {

/// The current time in UTC, written by `chrono::DateTime::to_rfc3339` for
/// `chrono::Utc::now()`. It depends on the clock, so nothing is promised of it.
#[verifier::external_body]
pub(crate) fn now_rfc3339() -> String {
    chrono::Utc::now().to_rfc3339()
}

} // verus!
