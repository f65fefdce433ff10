//! Errors of the API client and the mapping of HTTP failures to them.
use vstd::prelude::*;
use crate::foreign::{regex_replace_all, regex_replace_all_exec};
use crate::text::{decimal, push_char, push_decimal};
use vstd::string::StringSliceAdditionalSpecFns;

verus! {

broadcast use vstd::utf8::encode_utf8_decode_utf8;

/// An error returned by the IronProse API or the HTTP transport layer.
#[derive(Debug)]
pub enum ApiError {
    /// HTTP transport failure (network error, timeout, etc.)
    Transport(String),
    /// API returned a non-200 status code.
    Http { status: u16, message: String },
    /// Failed to parse the API response body.
    Parse(String),
    /// Invalid input (missing args, bad file path, etc.)
    Input(String),
}

/// The user-facing rendering of an error.
pub open spec fn api_error_text(e: ApiError) -> Seq<char> {
    match e {
        ApiError::Transport(m) => "Network error: "@ + m@,
        ApiError::Http { status, message } => "API error (HTTP "@ + decimal(status as nat) + "): "@
            + message@,
        ApiError::Parse(m) => "Response parse error: "@ + m@,
        ApiError::Input(m) => "Invalid input: "@ + m@,
    }
}

impl ApiError {
    /// Renders the error as the text shown to users.
    pub fn message(&self) -> (r: String)
        ensures
            r@ == api_error_text(*self),
    {
        match self {
            ApiError::Transport(m) => {
                let mut r = String::from_str("Network error: ");
                r.append(m.as_str());
                r
            },
            ApiError::Http { status, message } => {
                let mut r = String::from_str("API error (HTTP ");
                push_decimal(&mut r, *status as u64);
                r.append("): ");
                r.append(message.as_str());
                r
            },
            ApiError::Parse(m) => {
                let mut r = String::from_str("Response parse error: ");
                r.append(m.as_str());
                r
            },
            ApiError::Input(m) => {
                let mut r = String::from_str("Invalid input: ");
                r.append(m.as_str());
                r
            },
        }
    }
}

/// Pattern of strings that look like API keys or tokens.
pub const SECRET_PATTERN: &'static str = "[A-Za-z0-9_-]{20,}";

/// What a token-like string is replaced with.
pub const REDACTION: &'static str = "[REDACTED]";

/// The longest upstream body, in bytes, kept in an error message.
pub const MAX_BODY_BYTES: usize = 200;

/// A line break written out as a backslash escape.
pub open spec fn escape_line_break(c: char) -> Seq<char> {
    if c == '\n' {
        seq!['\\', 'n']
    } else if c == '\r' {
        seq!['\\', 'r']
    } else {
        seq![c]
    }
}

/// `s` with every newline written as `\n` and every carriage return as `\r`.
pub open spec fn escape_line_breaks(s: Seq<char>) -> Seq<char>
    decreases s.len(),
{
    if s.len() == 0 {
        seq![]
    } else {
        escape_line_breaks(s.drop_last()) + escape_line_break(s.last())
    }
}

/// `s` with token-like runs replaced by the redaction marker; `s` itself when
/// the pattern cannot be compiled.
pub open spec fn redact(s: Seq<char>) -> Seq<char> {
    match regex_replace_all(SECRET_PATTERN@, s, REDACTION@) {
        Some(r) => r,
        None => s,
    }
}

/// `s` cut to its first 200 bytes, followed by `...`, when its UTF-8 encoding
/// is longer than 200 bytes.
pub open spec fn truncate_body(s: Seq<char>) -> Seq<char> {
    let b = vstd::utf8::encode_utf8(s);
    if b.len() > MAX_BODY_BYTES {
        vstd::utf8::decode_utf8(b.take(MAX_BODY_BYTES as int)) + "..."@
    } else {
        s
    }
}

/// Cutting `s` at 200 bytes does not split a character (the cut panics otherwise).
pub open spec fn cut_is_safe(s: Seq<char>) -> bool {
    let b = vstd::utf8::encode_utf8(s);
    b.len() > MAX_BODY_BYTES ==> vstd::utf8::is_char_boundary(b, MAX_BODY_BYTES as int)
}

/// The upstream body as it may appear in an error message.
pub open spec fn sanitized_body(body: Seq<char>) -> Seq<char> {
    truncate_body(redact(escape_line_breaks(body)))
}

/// The bodies whose sanitized form can be built without splitting a character.
pub open spec fn body_can_be_sanitized(body: Seq<char>) -> bool {
    cut_is_safe(redact(escape_line_breaks(body)))
}

proof fn lemma_encode_concat(a: Seq<char>, b: Seq<char>)
    ensures
        vstd::utf8::encode_utf8(a + b) == vstd::utf8::encode_utf8(a) + vstd::utf8::encode_utf8(b),
    decreases a.len(),
{
    if a.len() > 0 {
        lemma_encode_concat(a.drop_first(), b);
        assert((a + b).drop_first() =~= a.drop_first() + b);
        assert((a + b)[0] == a[0]);
        assert(vstd::utf8::encode_scalar(a[0] as u32) + (vstd::utf8::encode_utf8(a.drop_first())
            + vstd::utf8::encode_utf8(b)) =~= (vstd::utf8::encode_scalar(a[0] as u32)
            + vstd::utf8::encode_utf8(a.drop_first())) + vstd::utf8::encode_utf8(b));
    } else {
        assert(a + b =~= b);
    }
}

/// An upstream body as it may appear in an error message takes at most 203
/// bytes: 200 bytes of the body and the `...` that marks the cut.
pub proof fn sanitized_body_is_short(body: Seq<char>)
    requires
        body_can_be_sanitized(body),
    ensures
        vstd::utf8::encode_utf8(sanitized_body(body)).len() <= MAX_BODY_BYTES + 3,
{
    let s = redact(escape_line_breaks(body));
    let b = vstd::utf8::encode_utf8(s);
    if b.len() > MAX_BODY_BYTES {
        vstd::utf8::encode_utf8_valid_utf8(s);
        vstd::utf8::valid_utf8_split(b, MAX_BODY_BYTES as int);
        assert(b.take(MAX_BODY_BYTES as int) =~= b.subrange(0, MAX_BODY_BYTES as int));
        vstd::utf8::decode_utf8_encode_utf8(b.take(MAX_BODY_BYTES as int));
        let head = vstd::utf8::decode_utf8(b.take(MAX_BODY_BYTES as int));
        lemma_encode_concat(head, "..."@);
        reveal_strlit("...");
        vstd::utf8::is_ascii_chars_encode_utf8("..."@);
    }
}

/// Writes every newline as `\n` and every carriage return as `\r`.
pub fn escape_line_breaks_exec(s: &str) -> (r: String)
    ensures
        r@ == escape_line_breaks(s@),
{
    let chars = crate::text::chars_of(s);
    let mut out = String::new();
    let mut i: usize = 0;
    while i < chars.len()
        invariant
            0 <= i <= chars@.len(),
            chars@ == s@,
            out@ == escape_line_breaks(s@.take(i as int)),
        decreases chars@.len() - i,
    {
        let c = chars[i];
        assert(s@.take(i + 1).drop_last() == s@.take(i as int));
        if c == '\n' {
            push_char(&mut out, '\\');
            push_char(&mut out, 'n');
        } else if c == '\r' {
            push_char(&mut out, '\\');
            push_char(&mut out, 'r');
        } else {
            push_char(&mut out, c);
        }
        assert(out@ == escape_line_breaks(s@.take(i as int)) + escape_line_break(c));
        i = i + 1;
    }
    assert(s@.take(i as int) == s@);
    out
}

/// No character of `s` is a line break.
pub open spec fn has_no_line_break(s: Seq<char>) -> bool {
    forall|i: int| 0 <= i < s.len() ==> #[trigger] s[i] != '\n' && s[i] != '\r'
}

proof fn lemma_escaped_has_no_line_break(s: Seq<char>)
    ensures
        has_no_line_break(escape_line_breaks(s)),
    decreases s.len(),
{
    if s.len() > 0 {
        lemma_escaped_has_no_line_break(s.drop_last());
        let a = escape_line_breaks(s.drop_last());
        let b = escape_line_break(s.last());
        assert forall|i: int| 0 <= i < (a + b).len() implies #[trigger] (a + b)[i] != '\n' && (a + b)[i]
            != '\r' by {
            if i >= a.len() {
                assert((a + b)[i] == b[i - a.len()]);
            } else {
                assert((a + b)[i] == a[i]);
            }
        }
    }
}

/// Replaces token-like runs by the redaction marker.
pub fn redact_exec(s: &str) -> (r: String)
    ensures
        r@ == redact(s@),
        forall|i: int| 0 <= i < r@.len() ==> s@.contains(#[trigger] r@[i]) || REDACTION@.contains(r@[i]),
{
    proof {
        reveal_strlit("[REDACTED]");
        assert(!REDACTION@.contains('$')) by {
            if REDACTION@.contains('$') {
                let k = choose|k: int| 0 <= k < REDACTION@.len() && REDACTION@[k] == '$';
            }
        }
    }
    match regex_replace_all_exec(SECRET_PATTERN, s, REDACTION) {
        Some(r) => r,
        None => String::from_str(s),
    }
}

/// Whether `body` can be sanitized without cutting inside a character.
pub fn body_can_be_sanitized_exec(body: &str) -> (b: bool)
    ensures
        b == body_can_be_sanitized(body@),
{
    let escaped = escape_line_breaks_exec(body);
    let redacted = redact_exec(escaped.as_str());
    let r = redacted.as_str();
    r.as_bytes().len() <= MAX_BODY_BYTES || r.is_char_boundary(MAX_BODY_BYTES)
}

/// Sanitize and truncate an upstream HTTP response body before including it in
/// error messages: line breaks are escaped, token-like runs are redacted, and
/// the result is cut to 200 bytes followed by `...` when longer. The result
/// holds no line break.
pub fn sanitize_and_truncate_body(body: &str) -> (r: String)
    requires
        body_can_be_sanitized(body@),
    ensures
        r@ == sanitized_body(body@),
        has_no_line_break(r@),
{
    let escaped = escape_line_breaks_exec(body);
    let redacted = redact_exec(escaped.as_str());
    proof {
        lemma_escaped_has_no_line_break(body@);
        reveal_strlit("[REDACTED]");
        assert forall|i: int| 0 <= i < redacted@.len() implies #[trigger] redacted@[i] != '\n'
            && redacted@[i] != '\r' by {
            if escaped@.contains(redacted@[i]) {
                let k = choose|k: int| 0 <= k < escaped@.len() && escaped@[k] == redacted@[i];
            } else {
                assert(REDACTION@.contains(redacted@[i]));
                let k = choose|k: int| 0 <= k < REDACTION@.len() && REDACTION@[k] == redacted@[i];
            }
        }
    }
    let rs = redacted.as_str();
    if rs.as_bytes().len() > MAX_BODY_BYTES {
        let (head, _tail) = rs.split_at(MAX_BODY_BYTES);
        assert(head@ == vstd::utf8::decode_utf8(head.spec_bytes()));
        proof {
            let b = rs.spec_bytes();
            vstd::utf8::encode_utf8_valid_utf8(rs@);
            vstd::utf8::encode_utf8_decode_utf8(rs@);
            vstd::utf8::decode_utf8_split(b, MAX_BODY_BYTES as int);
            assert(head.spec_bytes() == b.subrange(0, MAX_BODY_BYTES as int));
            let rest = vstd::utf8::decode_utf8(b.subrange(MAX_BODY_BYTES as int, b.len() as int));
            assert(rs@ == head@ + rest);
            assert forall|i: int| 0 <= i < head@.len() implies head@[i] == rs@[i] by {
                assert((head@ + rest)[i] == head@[i]);
            }
        }
        let mut out = String::from_str(head);
        out.append("...");
        proof {
            reveal_strlit("...");
            assert forall|i: int| 0 <= i < out@.len() implies #[trigger] out@[i] != '\n' && out@[i]
                != '\r' by {
                if i < head@.len() {
                    assert(out@[i] == head@[i]);
                    assert(head@[i] == rs@[i]);
                } else {
                    assert(out@[i] == "..."@[i - head@.len()]);
                }
            }
        }
        out
    } else {
        redacted
    }
}

pub proof fn lemma_concat_has_no_line_break(a: Seq<char>, b: Seq<char>)
    requires
        has_no_line_break(a),
        has_no_line_break(b),
    ensures
        has_no_line_break(a + b),
{
    assert forall|i: int| 0 <= i < (a + b).len() implies #[trigger] (a + b)[i] != '\n' && (a + b)[i]
        != '\r' by {
        if i < a.len() {
            assert((a + b)[i] == a[i]);
        } else {
            assert((a + b)[i] == b[i - a.len()]);
        }
    }
}

pub proof fn lemma_decimal_has_no_line_break(n: nat)
    ensures
        has_no_line_break(decimal(n)),
    decreases n,
{
    if n >= 10 {
        lemma_decimal_has_no_line_break(n / 10);
        let d = decimal(n / 10);
        let c = crate::text::digit_char(n % 10);
        assert(c != '\n' && c != '\r');
        assert forall|i: int| 0 <= i < d.push(c).len() implies #[trigger] d.push(c)[i] != '\n' && d.push(
            c,
        )[i] != '\r' by {
            if i < d.len() {
                assert(d.push(c)[i] == d[i]);
            }
        }
    }
}

/// The message for an HTTP failure status, given the sanitized body.
pub open spec fn status_message(status: u16, safe: Seq<char>) -> Seq<char> {
    if status == 402 {
        "IronProse API requires a paid subscription (HTTP 402). Visit https://ironprose.com to activate your API key. Details: "@
            + safe
    } else if status == 429 {
        "IronProse API rate limit exceeded (HTTP 429). Please wait before sending more requests. Details: "@
            + safe
    } else if 500 <= status <= 599 {
        "IronProse API server error (HTTP "@ + decimal(status as nat)
            + "). This is a transient error \u{2014} retry after a brief delay. Details: "@ + safe
    } else if status == 401 || status == 403 {
        "IronProse API authentication failed (HTTP "@ + decimal(status as nat)
            + "). Check your IRONPROSE_API_KEY. Details: "@ + safe
    } else {
        "IronProse API returned unexpected status "@ + decimal(status as nat) + ": "@ + safe
    }
}

/// Map an HTTP status code from the remote API to an appropriate `ApiError`.
///
/// Error messages are intentionally clear and discourage retry loops
/// for non-transient errors (402, 429).
pub fn http_status_to_error(status: u16, body: &str) -> (e: ApiError)
    requires
        body_can_be_sanitized(body@),
    ensures
        e matches ApiError::Http { status: s, message: m } && s == status && m@ == status_message(
            status,
            sanitized_body(body@),
        ),
        e matches ApiError::Http { message: m, .. } && has_no_line_break(m@),
{
    let safe = sanitize_and_truncate_body(body);
    proof {
        lemma_decimal_has_no_line_break(status as nat);
        reveal_strlit("IronProse API requires a paid subscription (HTTP 402). Visit https://ironprose.com to activate your API key. Details: ");
        reveal_strlit("IronProse API rate limit exceeded (HTTP 429). Please wait before sending more requests. Details: ");
        reveal_strlit("IronProse API server error (HTTP ");
        reveal_strlit("). This is a transient error \u{2014} retry after a brief delay. Details: ");
        reveal_strlit("IronProse API authentication failed (HTTP ");
        reveal_strlit("). Check your IRONPROSE_API_KEY. Details: ");
        reveal_strlit("IronProse API returned unexpected status ");
        reveal_strlit(": ");
    }
    let mut m: String;
    if status == 402 {
        m = String::from_str(
            "IronProse API requires a paid subscription (HTTP 402). Visit https://ironprose.com to activate your API key. Details: ",
        );
    } else if status == 429 {
        m = String::from_str(
            "IronProse API rate limit exceeded (HTTP 429). Please wait before sending more requests. Details: ",
        );
    } else if 500 <= status && status <= 599 {
        m = String::from_str("IronProse API server error (HTTP ");
        push_decimal(&mut m, status as u64);
        m.append("). This is a transient error \u{2014} retry after a brief delay. Details: ");
    } else if status == 401 || status == 403 {
        m = String::from_str("IronProse API authentication failed (HTTP ");
        push_decimal(&mut m, status as u64);
        m.append("). Check your IRONPROSE_API_KEY. Details: ");
    } else {
        m = String::from_str("IronProse API returned unexpected status ");
        push_decimal(&mut m, status as u64);
        m.append(": ");
    }
    assert(has_no_line_break(m@));
    proof {
        lemma_concat_has_no_line_break(m@, safe@);
    }
    m.append(safe.as_str());
    ApiError::Http { status, message: m }
}

/// Like `http_status_to_error`, but returns `None` for a body whose 200-byte cut
/// would fall inside a character, where the mapping itself cannot proceed.
pub fn checked_http_status_to_error(status: u16, body: &str) -> (r: Option<ApiError>)
    ensures
        r is None <==> !body_can_be_sanitized(body@),
        r matches Some(e) ==> (e matches ApiError::Http { status: s, message: m } && s == status
            && m@ == status_message(status, sanitized_body(body@))),
{
    if body_can_be_sanitized_exec(body) {
        Some(http_status_to_error(status, body))
    } else {
        None
    }
}

} // verus!
