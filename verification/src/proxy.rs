//! Routing of remote tool calls to the IronProse REST API.
//!
//! Remote tool calls are forwarded using the appropriate HTTP method:
//! - `analyze`, `compare`, `rate` → `POST /api/<tool_name>` with JSON body
//! - `list_rules` → `GET /api/rules`
//! - `rule_doc`   → `GET /api/rules/<name>` (returns markdown)
//! - `entitlement` → `GET /api/entitlement`
use vstd::prelude::*;
use crate::error::ApiError;
use crate::text::str_eq;

verus! {

/// The HTTP method of a remote call.
#[derive(Debug)]
pub enum HttpMethod {
    Get,
    Post,
}

/// A request to the remote API: its method and full URL.
#[derive(Debug)]
pub struct RemoteCall {
    pub method: HttpMethod,
    pub url: String,
}

/// The method and API path of a remote tool of the command-line client, if it has one.
pub open spec fn cli_route(tool: Seq<char>) -> Option<(HttpMethod, Seq<char>)> {
    if tool == "list_rules"@ {
        Some((HttpMethod::Get, "/api/rules"@))
    } else if tool == "entitlement"@ {
        Some((HttpMethod::Get, "/api/entitlement"@))
    } else if tool == "analyze"@ {
        Some((HttpMethod::Post, "/api/analyze"@))
    } else if tool == "compare"@ {
        Some((HttpMethod::Post, "/api/compare"@))
    } else if tool == "rate"@ {
        Some((HttpMethod::Post, "/api/rate"@))
    } else {
        None
    }
}

/// The request that forwards the tool call `tool_name` to the API at `api_base`.
pub fn remote_call(api_base: &str, tool_name: &str) -> (r: Result<RemoteCall, ApiError>)
    ensures
        cli_route(tool_name@) matches Some((m, p)) ==> (r matches Ok(c) && c.method == m && c.url@
            == api_base@ + p),
        cli_route(tool_name@) is None ==> (r matches Err(ApiError::Input(msg)) && msg@
            == "Unknown remote tool: "@ + tool_name@),
{
    let mut url = String::from_str(api_base);
    if str_eq(tool_name, "list_rules") {
        url.append("/api/rules");
        Ok(RemoteCall { method: HttpMethod::Get, url })
    } else if str_eq(tool_name, "entitlement") {
        url.append("/api/entitlement");
        Ok(RemoteCall { method: HttpMethod::Get, url })
    } else if str_eq(tool_name, "analyze") {
        url.append("/api/analyze");
        Ok(RemoteCall { method: HttpMethod::Post, url })
    } else if str_eq(tool_name, "compare") {
        url.append("/api/compare");
        Ok(RemoteCall { method: HttpMethod::Post, url })
    } else if str_eq(tool_name, "rate") {
        url.append("/api/rate");
        Ok(RemoteCall { method: HttpMethod::Post, url })
    } else {
        let mut m = String::from_str("Unknown remote tool: ");
        m.append(tool_name);
        Err(ApiError::Input(m))
    }
}

/// The URL of the documentation of one rule.
pub fn rule_doc_url(api_base: &str, rule_name: &str) -> (r: String)
    ensures
        r@ == api_base@ + "/api/rules/"@ + rule_name@,
{
    let mut url = String::from_str(api_base);
    url.append("/api/rules/");
    url.append(rule_name);
    url
}

/// Whether a reply with this status carries the call's result; any other
/// status is an error, read from the reply's text.
pub fn reply_is_ok(status: u16) -> (r: bool)
    ensures
        r == (status == 200),
{
    status == 200
}

/// The error for a request that did not reach the API.
pub fn transport_error(detail: &str) -> (e: ApiError)
    ensures
        e matches ApiError::Transport(m) && m@ == "Failed to reach IronProse API: "@ + detail@
            + ". Check your network connection."@,
{
    let mut m = String::from_str("Failed to reach IronProse API: ");
    m.append(detail);
    m.append(". Check your network connection.");
    ApiError::Transport(m)
}

/// The error for a successful reply whose body is not JSON.
pub fn parse_error(detail: &str) -> (e: ApiError)
    ensures
        e matches ApiError::Parse(m) && m@ == "Failed to parse API response: "@ + detail@,
{
    let mut m = String::from_str("Failed to parse API response: ");
    m.append(detail);
    ApiError::Parse(m)
}

/// The error for a reply that does not have the expected shape.
pub fn deserialize_error(detail: &str) -> (e: ApiError)
    ensures
        e matches ApiError::Parse(m) && m@ == "Failed to deserialize response: "@ + detail@,
{
    let mut m = String::from_str("Failed to deserialize response: ");
    m.append(detail);
    ApiError::Parse(m)
}

/// The error for a rule documentation request that did not reach the API.
pub fn rule_doc_transport_error(detail: &str) -> (e: ApiError)
    ensures
        e matches ApiError::Transport(m) && m@ == "Failed to reach IronProse API: "@ + detail@,
{
    let mut m = String::from_str("Failed to reach IronProse API: ");
    m.append(detail);
    ApiError::Transport(m)
}

/// The error for a rule documentation reply whose text cannot be read.
pub fn rule_doc_read_error(detail: &str) -> (e: ApiError)
    ensures
        e matches ApiError::Parse(m) && m@ == "Failed to read rule doc: "@ + detail@,
{
    let mut m = String::from_str("Failed to read rule doc: ");
    m.append(detail);
    ApiError::Parse(m)
}

/// The command-line client reaches exactly five tools. Those that carry a JSON
/// body (`analyze`, `compare`, `rate`) are sent with POST to `/api/<tool>`;
/// the read-only ones are sent with GET: `list_rules` to `/api/rules` and
/// `entitlement` to `/api/entitlement`.
pub proof fn cli_routes_send_bodies_with_post(tool: Seq<char>)
    ensures
        cli_route(tool) is Some <==> (tool == "analyze"@ || tool == "compare"@ || tool == "rate"@
            || tool == "list_rules"@ || tool == "entitlement"@),
        (tool == "analyze"@ || tool == "compare"@ || tool == "rate"@) ==> cli_route(tool) == Some(
            (HttpMethod::Post, "/api/"@ + tool),
        ),
        tool == "list_rules"@ ==> cli_route(tool) == Some((HttpMethod::Get, "/api/rules"@)),
        tool == "entitlement"@ ==> cli_route(tool) == Some((HttpMethod::Get, "/api/"@ + tool)),
{
    reveal_strlit("analyze");
    reveal_strlit("compare");
    reveal_strlit("rate");
    reveal_strlit("list_rules");
    reveal_strlit("entitlement");
    reveal_strlit("/api/");
    reveal_strlit("/api/analyze");
    reveal_strlit("/api/compare");
    reveal_strlit("/api/rate");
    reveal_strlit("/api/entitlement");
    assert("/api/analyze"@ =~= "/api/"@ + "analyze"@);
    assert("/api/compare"@ =~= "/api/"@ + "compare"@);
    assert("/api/rate"@ =~= "/api/"@ + "rate"@);
    assert("/api/entitlement"@ =~= "/api/"@ + "entitlement"@);
}

} // verus!
