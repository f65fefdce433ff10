//! Routing of the MCP server's remote tools to the IronProse REST API.
//!
//! - `analyze`    -> POST /api/analyze
//! - `compare`    -> POST /api/compare
//! - `rate`       -> POST /api/rate
//! - `list_rules` -> GET  /api/rules
use vstd::prelude::*;
use crate::mcp::error::ToolError;
use crate::proxy::{HttpMethod, RemoteCall};
use crate::text::str_eq;

verus! {

/// The method and API path of a remote tool of the MCP server, if it has one.
pub open spec fn mcp_route(tool: Seq<char>) -> Option<(HttpMethod, Seq<char>)> {
    if tool == "list_rules"@ {
        Some((HttpMethod::Get, "/api/rules"@))
    } else if tool == "analyze"@ {
        Some((HttpMethod::Post, "/api/analyze"@))
    } else if tool == "compare"@ {
        Some((HttpMethod::Post, "/api/compare"@))
    } else if tool == "rate"@ {
        Some((HttpMethod::Post, "/api/rate"@))
    } else {
        None
    }
}

/// The request that forwards the MCP tool call `tool_name` to the API at `api_base`.
pub fn mcp_remote_call(api_base: &str, tool_name: &str) -> (r: Result<RemoteCall, ToolError>)
    ensures
        mcp_route(tool_name@) matches Some((m, p)) ==> (r matches Ok(c) && c.method == m && c.url@
            == api_base@ + p),
        mcp_route(tool_name@) is None ==> (r matches Err(ToolError::InvalidParams(msg)) && msg@
            == "Unknown remote tool: "@ + tool_name@),
{
    let mut url = String::from_str(api_base);
    if str_eq(tool_name, "list_rules") {
        url.append("/api/rules");
        Ok(RemoteCall { method: HttpMethod::Get, url })
    } else if str_eq(tool_name, "analyze") {
        url.append("/api/analyze");
        Ok(RemoteCall { method: HttpMethod::Post, url })
    } else if str_eq(tool_name, "compare") {
        url.append("/api/compare");
        Ok(RemoteCall { method: HttpMethod::Post, url })
    } else if str_eq(tool_name, "rate") {
        url.append("/api/rate");
        Ok(RemoteCall { method: HttpMethod::Post, url })
    } else {
        let mut m = String::from_str("Unknown remote tool: ");
        m.append(tool_name);
        Err(ToolError::InvalidParams(m))
    }
}

/// The error for a request that did not reach the API.
pub fn mcp_transport_error(detail: &str) -> (e: ToolError)
    ensures
        e matches ToolError::InternalError(m) && m@ == "Failed to reach IronProse API: "@ + detail@
            + ". Check your network connection."@,
{
    let mut m = String::from_str("Failed to reach IronProse API: ");
    m.append(detail);
    m.append(". Check your network connection.");
    ToolError::InternalError(m)
}

/// The error for a successful reply whose body is not JSON.
pub fn mcp_parse_error(detail: &str) -> (e: ToolError)
    ensures
        e matches ToolError::InternalError(m) && m@ == "Failed to parse API response: "@ + detail@,
{
    let mut m = String::from_str("Failed to parse API response: ");
    m.append(detail);
    ToolError::InternalError(m)
}

/// The MCP server forwards exactly four tools. Those that carry a JSON body
/// (`analyze`, `compare`, `rate`) are sent with POST to `/api/<tool>`;
/// `list_rules` is read-only and sent with GET to `/api/rules`.
pub proof fn mcp_routes_send_bodies_with_post(tool: Seq<char>)
    ensures
        mcp_route(tool) is Some <==> (tool == "analyze"@ || tool == "compare"@ || tool == "rate"@
            || tool == "list_rules"@),
        (tool == "analyze"@ || tool == "compare"@ || tool == "rate"@) ==> mcp_route(tool) == Some(
            (HttpMethod::Post, "/api/"@ + tool),
        ),
        tool == "list_rules"@ ==> mcp_route(tool) == Some((HttpMethod::Get, "/api/rules"@)),
{
    reveal_strlit("analyze");
    reveal_strlit("compare");
    reveal_strlit("rate");
    reveal_strlit("list_rules");
    reveal_strlit("/api/");
    reveal_strlit("/api/analyze");
    reveal_strlit("/api/compare");
    reveal_strlit("/api/rate");
    assert("/api/analyze"@ =~= "/api/"@ + "analyze"@);
    assert("/api/compare"@ =~= "/api/"@ + "compare"@);
    assert("/api/rate"@ =~= "/api/"@ + "rate"@);
}

} // verus!
