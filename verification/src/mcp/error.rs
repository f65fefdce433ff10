//! Errors reported to MCP clients.
use vstd::prelude::*;
use crate::error::{body_can_be_sanitized, body_can_be_sanitized_exec, has_no_line_break, lemma_concat_has_no_line_break, lemma_decimal_has_no_line_break, sanitize_and_truncate_body, sanitized_body};
use crate::text::{decimal, push_decimal};

verus! {

/// An error reported to an MCP client, by its protocol category.
#[derive(Debug)]
pub enum ToolError {
    /// The server could not complete the request.
    InternalError(String),
    /// The request's parameters were rejected.
    InvalidParams(String),
}

impl ToolError {
    /// The text of the error.
    pub open spec fn text(self) -> Seq<char> {
        match self {
            ToolError::InternalError(m) => m@,
            ToolError::InvalidParams(m) => m@,
        }
    }

    /// The text of the error.
    pub fn message(&self) -> (r: String)
        ensures
            r@ == self.text(),
    {
        match self {
            ToolError::InternalError(m) => m.clone(),
            ToolError::InvalidParams(m) => m.clone(),
        }
    }
}

/// The message for an HTTP failure status reported to an MCP client.
pub open spec fn mcp_status_message(status: u16, safe: Seq<char>) -> Seq<char> {
    if status == 402 {
        "IronProse API requires a paid subscription (HTTP 402). Visit https://ironprose.com to activate your API key. Do NOT retry this request automatically. Details: "@
            + safe
    } else if status == 429 {
        "IronProse API rate limit exceeded (HTTP 429). Please wait before sending more requests. Do NOT retry in a tight loop. Details: "@
            + safe
    } else if 500 <= status <= 599 {
        "IronProse API server error (HTTP "@ + decimal(status as nat)
            + "). This is a transient error \u{2014} a single retry after a brief delay is acceptable. Details: "@
            + safe
    } else if status == 401 || status == 403 {
        "IronProse API authentication failed (HTTP "@ + decimal(status as nat)
            + "). Check your IRONPROSE_API_KEY. Do NOT retry. Details: "@ + safe
    } else {
        "IronProse API returned unexpected status "@ + decimal(status as nat) + ": "@ + safe
    }
}

/// Map an HTTP status code from the remote API to an internal MCP error.
///
/// The error messages are intentionally clear and discourage retry loops
/// for non-transient errors (402, 429).
pub fn http_status_to_mcp_error(status: u16, body: &str) -> (e: ToolError)
    requires
        body_can_be_sanitized(body@),
    ensures
        e matches ToolError::InternalError(m) && m@ == mcp_status_message(
            status,
            sanitized_body(body@),
        ),
        has_no_line_break(e.text()),
{
    let safe = sanitize_and_truncate_body(body);
    proof {
        lemma_decimal_has_no_line_break(status as nat);
        reveal_strlit("IronProse API requires a paid subscription (HTTP 402). Visit https://ironprose.com to activate your API key. Do NOT retry this request automatically. Details: ");
        reveal_strlit("IronProse API rate limit exceeded (HTTP 429). Please wait before sending more requests. Do NOT retry in a tight loop. Details: ");
        reveal_strlit("IronProse API server error (HTTP ");
        reveal_strlit("). This is a transient error \u{2014} a single retry after a brief delay is acceptable. Details: ");
        reveal_strlit("IronProse API authentication failed (HTTP ");
        reveal_strlit("). Check your IRONPROSE_API_KEY. Do NOT retry. Details: ");
        reveal_strlit("IronProse API returned unexpected status ");
        reveal_strlit(": ");
    }
    let mut m: String;
    if status == 402 {
        m = String::from_str(
            "IronProse API requires a paid subscription (HTTP 402). Visit https://ironprose.com to activate your API key. Do NOT retry this request automatically. Details: ",
        );
    } else if status == 429 {
        m = String::from_str(
            "IronProse API rate limit exceeded (HTTP 429). Please wait before sending more requests. Do NOT retry in a tight loop. Details: ",
        );
    } else if 500 <= status && status <= 599 {
        m = String::from_str("IronProse API server error (HTTP ");
        push_decimal(&mut m, status as u64);
        m.append(
            "). This is a transient error \u{2014} a single retry after a brief delay is acceptable. Details: ",
        );
    } else if status == 401 || status == 403 {
        m = String::from_str("IronProse API authentication failed (HTTP ");
        push_decimal(&mut m, status as u64);
        m.append("). Check your IRONPROSE_API_KEY. Do NOT retry. Details: ");
    } else {
        m = String::from_str("IronProse API returned unexpected status ");
        push_decimal(&mut m, status as u64);
        m.append(": ");
    }
    assert(has_no_line_break(m@));
    proof {
        lemma_concat_has_no_line_break(m@, safe@);
    }
    m.append(safe.as_str());
    ToolError::InternalError(m)
}

/// Like `http_status_to_mcp_error`, but returns `None` for a body whose 200-byte
/// cut would fall inside a character, where the mapping itself cannot proceed.
pub fn checked_http_status_to_mcp_error(status: u16, body: &str) -> (r: Option<ToolError>)
    ensures
        r is None <==> !body_can_be_sanitized(body@),
        r matches Some(e) ==> (e matches ToolError::InternalError(m) && m@ == mcp_status_message(
            status,
            sanitized_body(body@),
        )),
{
    if body_can_be_sanitized_exec(body) {
        Some(http_status_to_mcp_error(status, body))
    } else {
        None
    }
}

/// Create an MCP error for sandbox violations.
pub fn sandbox_error(msg: &str) -> (e: ToolError)
    ensures
        e matches ToolError::InvalidParams(m) && m@ == "Workspace sandbox violation: "@ + msg@,
{
    let mut m = String::from_str("Workspace sandbox violation: ");
    m.append(msg);
    ToolError::InvalidParams(m)
}

/// Create an MCP error for missing workspace configuration.
pub fn no_workspace_error() -> (e: ToolError)
    ensures
        e matches ToolError::InvalidParams(m) && m@
            == "No workspace directory configured. Set IRONPROSE_WORKSPACE environment variable or pass workspace_dir parameter."@,
{
    ToolError::InvalidParams(
        String::from_str(
            "No workspace directory configured. Set IRONPROSE_WORKSPACE environment variable or pass workspace_dir parameter.",
        ),
    )
}

/// The error for a file system operation that failed: what could not be done,
/// then the system's reason (`Cannot read file: ...`).
pub fn io_failure(what: &str, detail: &str) -> (e: ToolError)
    ensures
        e matches ToolError::InternalError(m) && m@ == what@ + ": "@ + detail@,
{
    let mut m = String::from_str(what);
    m.append(": ");
    m.append(detail);
    ToolError::InternalError(m)
}

/// The refusal to list something that is not a directory.
pub fn not_a_directory(display: &str) -> (e: ToolError)
    ensures
        e matches ToolError::InvalidParams(m) && m@ == display@ + " is not a directory"@,
{
    let mut m = String::from_str(display);
    m.append(" is not a directory");
    ToolError::InvalidParams(m)
}

} // verus!
