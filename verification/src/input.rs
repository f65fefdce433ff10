//! Input validation and hardening against agent hallucinations.
//!
//! Agents hallucinate. Build like it. This module validates all external
//! inputs before they reach the API client or filesystem.
use vstd::prelude::*;
use crate::foreign::{debug_quoted, debug_quoted_exec, json_parse_error, parse_json_value, path_exists};
use crate::text::{chars_of, decimal, push_char, push_decimal};
use vstd::string::StringSliceAdditionalSpecFns;

verus! {

/// A byte below 0x20 other than tab: not allowed in a file path.
pub open spec fn is_path_control_byte(b: u8) -> bool {
    b < 0x20 && b != 0x09
}

/// A byte below 0x20 other than newline, carriage return and tab: not allowed in text.
pub open spec fn is_text_control_byte(b: u8) -> bool {
    b < 0x20 && b != 0x0a && b != 0x0d && b != 0x09
}

/// The UTF-8 encoding of `path` holds a control byte.
pub open spec fn path_has_control(path: Seq<char>) -> bool {
    let b = vstd::utf8::encode_utf8(path);
    exists|i: int| 0 <= i < b.len() && is_path_control_byte(#[trigger] b[i])
}

/// `path` holds a percent sign.
pub open spec fn path_has_percent(path: Seq<char>) -> bool {
    path.contains('%')
}

/// A `..` component starts at index `i` of `path` (components are separated by `/`).
pub open spec fn parent_component_at(path: Seq<char>, i: int) -> bool {
    &&& 0 <= i
    &&& i + 2 <= path.len()
    &&& path[i] == '.'
    &&& path[i + 1] == '.'
    &&& (i == 0 || path[i - 1] == '/')
    &&& (i + 2 == path.len() || path[i + 2] == '/')
}

/// `path` has a `..` component.
pub open spec fn path_has_parent_component(path: Seq<char>) -> bool {
    exists|i: int| parent_component_at(path, i)
}

/// `path` is absolute: it starts at the root.
pub open spec fn path_is_absolute(path: Seq<char>) -> bool {
    path.len() > 0 && path[0] == '/'
}

/// The verdict on the form of a file path, before the file system is asked.
pub open spec fn file_path_syntax_verdict(path: Seq<char>) -> Result<(), Seq<char>> {
    if path_has_control(path) {
        Err("File path contains control characters: "@ + debug_quoted(path))
    } else if path_has_percent(path) {
        Err("File path contains percent-encoding (possible double-encoding): "@ + path)
    } else if path_has_parent_component(path) {
        Err("File path contains directory traversal (..): "@ + path)
    } else if path_is_absolute(path) {
        Err("Absolute file paths are not allowed: "@ + path + ". Use a relative path."@)
    } else {
        Ok(())
    }
}

/// A `Result` carrying a `String` error, seen as one carrying its characters.
pub open spec fn unit_result_view(r: Result<(), String>) -> Result<(), Seq<char>> {
    match r {
        Ok(()) => Ok(()),
        Err(e) => Err(e@),
    }
}

fn has_path_control_byte(path: &str) -> (b: bool)
    ensures
        b == path_has_control(path@),
{
    let bytes = path.as_bytes();
    let mut i: usize = 0;
    while i < bytes.len()
        invariant
            0 <= i <= bytes@.len(),
            bytes@ == vstd::utf8::encode_utf8(path@),
            forall|j: int| 0 <= j < i ==> !is_path_control_byte(#[trigger] bytes@[j]),
        decreases bytes@.len() - i,
    {
        if bytes[i] < 0x20 && bytes[i] != 0x09 {
            assert(is_path_control_byte(bytes@[i as int]));
            return true;
        }
        i = i + 1;
    }
    false
}

/// Whether `path` has a `..` component.
pub fn has_parent_component(path: &str) -> (b: bool)
    ensures
        b == path_has_parent_component(path@),
{
    let c = chars_of(path);
    let n = c.len();
    let mut i: usize = 0;
    while i < n
        invariant
            0 <= i <= n,
            n == c@.len(),
            c@ == path@,
            forall|j: int| 0 <= j < i ==> !parent_component_at(path@, j),
        decreases n - i,
    {
        if n - i >= 2 && c[i] == '.' && c[i + 1] == '.' && (i == 0 || c[i - 1] == '/') && (i + 2
            == n || c[i + 2] == '/') {
            assert(parent_component_at(path@, i as int));
            return true;
        }
        i = i + 1;
    }
    assert forall|j: int| !parent_component_at(path@, j) by {
        if 0 <= j < n {
        }
    }
    false
}

fn has_char(s: &str, x: char) -> (b: bool)
    ensures
        b == s@.contains(x),
{
    let c = chars_of(s);
    let mut i: usize = 0;
    while i < c.len()
        invariant
            0 <= i <= c@.len(),
            c@ == s@,
            forall|j: int| 0 <= j < i ==> c@[j] != x,
        decreases c@.len() - i,
    {
        if c[i] == x {
            assert(s@[i as int] == x);
            return true;
        }
        i = i + 1;
    }
    false
}

/// Checks the form of a file path: no control characters, no percent-encoding,
/// no `..` component and no absolute path.
#[verifier::spinoff_prover]
pub fn check_file_path_syntax(path: &str) -> (r: Result<(), String>)
    ensures
        unit_result_view(r) == file_path_syntax_verdict(path@),
{
    if has_path_control_byte(path) {
        let mut m = String::from_str("File path contains control characters: ");
        let q = debug_quoted_exec(path);
        m.append(q.as_str());
        return Err(m);
    }
    if has_char(path, '%') {
        let mut m = String::from_str(
            "File path contains percent-encoding (possible double-encoding): ",
        );
        m.append(path);
        return Err(m);
    }
    if has_parent_component(path) {
        let mut m = String::from_str("File path contains directory traversal (..): ");
        m.append(path);
        return Err(m);
    }
    let is_abs = path.unicode_len() > 0 && path.get_char(0) == '/';
    if is_abs {
        let mut m = String::from_str("Absolute file paths are not allowed: ");
        m.append(path);
        m.append(". Use a relative path.");
        return Err(m);
    }
    Ok(())
}

/// The verdict on a well-formed path once the file system has said whether it exists.
pub fn file_presence_verdict(path: &str, exists: bool) -> (r: Result<(), String>)
    ensures
        exists ==> r is Ok,
        !exists ==> unit_result_view(r) == Err::<(), Seq<char>>("File not found: "@ + path@),
{
    if exists {
        Ok(())
    } else {
        let mut m = String::from_str("File not found: ");
        m.append(path);
        Err(m)
    }
}

/// Validate a file path is safe to read.
///
/// Rejects:
/// - Paths containing `..` (directory traversal)
/// - Absolute paths (agents should only read relative to CWD)
/// - Paths with control characters
/// - Paths containing URL-encoded sequences (`%`)
///
/// A path that passes these checks is accepted when the file exists.
pub fn validate_file_path(path: &str) -> (r: Result<(), String>)
    ensures
        file_path_syntax_verdict(path@) is Err ==> unit_result_view(r) == file_path_syntax_verdict(
            path@,
        ),
        file_path_syntax_verdict(path@) is Ok ==> (r is Ok || unit_result_view(r) == Err::<
            (),
            Seq<char>,
        >("File not found: "@ + path@)),
{
    match check_file_path_syntax(path) {
        Err(e) => Err(e),
        Ok(()) => {
            let exists = path_exists(path);
            file_presence_verdict(path, exists)
        },
    }
}

/// Two lower-case hexadecimal digits of a byte.
pub open spec fn hex_digit(d: nat) -> char {
    if d < 10 {
        crate::text::digit_char(d)
    } else if d == 10 {
        'a'
    } else if d == 11 {
        'b'
    } else if d == 12 {
        'c'
    } else if d == 13 {
        'd'
    } else if d == 14 {
        'e'
    } else {
        'f'
    }
}

/// `{:02x}` of a byte.
pub open spec fn hex_byte(b: u8) -> Seq<char> {
    seq![hex_digit((b / 16) as nat), hex_digit((b % 16) as nat)]
}

fn hex_digit_exec(d: u8) -> (c: char)
    requires
        d < 16,
    ensures
        c == hex_digit(d as nat),
{
    if d < 10 {
        if d == 0 { '0' } else if d == 1 { '1' } else if d == 2 { '2' } else if d == 3 { '3' }
        else if d == 4 { '4' } else if d == 5 { '5' } else if d == 6 { '6' } else if d == 7 { '7' }
        else if d == 8 { '8' } else { '9' }
    } else if d == 10 {
        'a'
    } else if d == 11 {
        'b'
    } else if d == 12 {
        'c'
    } else if d == 13 {
        'd'
    } else if d == 14 {
        'e'
    } else {
        'f'
    }
}

/// The message for a control byte `b` found at byte offset `i` of a text input.
pub open spec fn control_char_message(b: u8, i: nat) -> Seq<char> {
    "Text input contains control character (0x"@ + hex_byte(b) + ") at byte offset "@ + decimal(i)
        + ". Remove non-printable characters before submitting."@
}

/// The verdict on a text input: the first control byte, if any, is reported.
pub open spec fn text_input_verdict(text: Seq<char>, r: Result<(), Seq<char>>) -> bool {
    let b = vstd::utf8::encode_utf8(text);
    &&& r is Ok <==> (forall|i: int| 0 <= i < b.len() ==> !is_text_control_byte(#[trigger] b[i]))
    &&& r matches Err(m) ==> exists|i: int|
        0 <= i < b.len() && is_text_control_byte(#[trigger] b[i]) && (forall|j: int|
            0 <= j < i ==> !is_text_control_byte(#[trigger] b[j])) && m == control_char_message(
            b[i],
            i as nat,
        )
}

/// Validate text input doesn't contain control characters.
///
/// Allows: printable ASCII, UTF-8, newlines, carriage returns, tabs.
/// Rejects: NUL bytes, bell, backspace, and other control chars below 0x20.
#[verifier::spinoff_prover]
pub fn validate_text_input(text: &str) -> (r: Result<(), String>)
    ensures
        text_input_verdict(text@, unit_result_view(r)),
{
    let bytes = text.as_bytes();
    let mut i: usize = 0;
    while i < bytes.len()
        invariant
            0 <= i <= bytes@.len(),
            bytes@ == vstd::utf8::encode_utf8(text@),
            forall|j: int| 0 <= j < i ==> !is_text_control_byte(#[trigger] bytes@[j]),
        decreases bytes@.len() - i,
    {
        let b = bytes[i];
        if b < 0x20 && b != 0x0a && b != 0x0d && b != 0x09 {
            let mut m = String::from_str("Text input contains control character (0x");
            push_char(&mut m, hex_digit_exec(b / 16));
            push_char(&mut m, hex_digit_exec(b % 16));
            m.append(") at byte offset ");
            push_decimal(&mut m, i as u64);
            m.append(". Remove non-printable characters before submitting.");
            assert(is_text_control_byte(bytes@[i as int]));
            assert(m@ == control_char_message(b, i as nat));
            assert(unit_result_view(Err::<(), String>(m)) matches Err(mm) && mm == control_char_message(bytes@[i as int], i as nat));
            return Err(m);
        }
        i = i + 1;
    }
    Ok(())
}

/// Validate a raw JSON string is syntactically valid.
pub fn validate_json_input(json: &str) -> (r: Result<serde_json::Value, String>)
    ensures
        r is Ok <==> json_parse_error(json@) is None,
        r matches Err(m) ==> m@ == "Invalid JSON input: "@ + json_parse_error(json@).unwrap(),
{
    match parse_json_value(json) {
        Ok(v) => Ok(v),
        Err(e) => {
            let mut m = String::from_str("Invalid JSON input: ");
            m.append(e.as_str());
            Err(m)
        },
    }
}

/// The locales the analysis API accepts.
pub open spec fn is_known_locale(locale: Seq<char>) -> bool {
    locale == "en-us"@ || locale == "en-gb"@ || locale == "en-any"@
}

/// The message for a locale that the API does not accept.
pub open spec fn unknown_locale_message(locale: Seq<char>) -> Seq<char> {
    "unknown locale '"@ + locale + "'; accepted locales: en-us, en-gb, en-any"@
}

/// Validate a `--locale` value client-side: only `en-us`, `en-gb` and `en-any`
/// are accepted.
pub fn validate_locale(locale: &str) -> (r: Result<(), String>)
    ensures
        r is Ok <==> is_known_locale(locale@),
        r matches Err(m) ==> m@ == unknown_locale_message(locale@),
{
    let s = String::from_str(locale);
    let known = s == String::from_str("en-us") || s == String::from_str("en-gb") || s
        == String::from_str("en-any");
    if known {
        Ok(())
    } else {
        let mut m = String::from_str("unknown locale '");
        m.append(locale);
        m.append("'; accepted locales: en-us, en-gb, en-any");
        Err(m)
    }
}

} // verus!
