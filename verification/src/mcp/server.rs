//! What the stdio MCP server does with a tool call: which tool it reaches and
//! with which arguments, and the text of its replies.
//!
//! Tool calls are routed to either:
//! - **Remote proxy**: `analyze`, `compare`, `rate`, `list_rules` → HTTP call to the remote API
//! - **Local tools**: `read_file`, `write_file`, `list_files` → sandboxed workspace operations
use vstd::prelude::*;
use crate::json::{Json, JsonSpec, jv, get_bool, get_str, get_u64, json_as_bool, json_as_str,
    json_as_u64, json_get};
use crate::mcp::catalog::tool_catalog;
use crate::mcp::error::ToolError;
use crate::mcp::proxy::mcp_route;
use crate::mcp::local_tools::{chosen_workspace, opt_view, resolve_workspace};
use crate::text::str_eq;

verus! {

/// A tool call, decided: the tool it reaches and the arguments it passes on.
#[derive(Debug)]
pub enum ToolCall {
    /// Forwarded to the remote API with the call's arguments.
    Remote,
    ReadFile {
        workspace: Option<String>,
        path: String,
        offset: Option<u64>,
        max_bytes: Option<u64>,
    },
    WriteFile {
        workspace: Option<String>,
        path: String,
        content: String,
        /// The write is logged in the request's own workspace, not the server's.
        request_audit: bool,
    },
    ListFiles {
        workspace: Option<String>,
        subdirectory: Option<String>,
        recursive: bool,
    },
    /// No such tool; the reply's text.
    Unknown { message: String },
}

/// The mathematical view of a decided tool call.
pub enum ToolCallSpec {
    Remote,
    ReadFile {
        workspace: Option<Seq<char>>,
        path: Seq<char>,
        offset: Option<u64>,
        max_bytes: Option<u64>,
    },
    WriteFile {
        workspace: Option<Seq<char>>,
        path: Seq<char>,
        content: Seq<char>,
        request_audit: bool,
    },
    ListFiles { workspace: Option<Seq<char>>, subdirectory: Option<Seq<char>>, recursive: bool },
    Unknown { message: Seq<char> },
}

pub open spec fn tool_call_view(c: ToolCall) -> ToolCallSpec {
    match c {
        ToolCall::Remote => ToolCallSpec::Remote,
        ToolCall::ReadFile { workspace, path, offset, max_bytes } => ToolCallSpec::ReadFile {
            workspace: opt_view(workspace),
            path: path@,
            offset,
            max_bytes,
        },
        ToolCall::WriteFile { workspace, path, content, request_audit } => ToolCallSpec::WriteFile {
            workspace: opt_view(workspace),
            path: path@,
            content: content@,
            request_audit,
        },
        ToolCall::ListFiles { workspace, subdirectory, recursive } => ToolCallSpec::ListFiles {
            workspace: opt_view(workspace),
            subdirectory: opt_view(subdirectory),
            recursive,
        },
        ToolCall::Unknown { message } => ToolCallSpec::Unknown { message: message@ },
    }
}

/// Whether the tool is one that the remote API serves.
pub open spec fn is_remote_tool(name: Seq<char>) -> bool {
    name == "analyze"@ || name == "compare"@ || name == "rate"@ || name == "list_rules"@
}

/// The text of the string argument `k`, or the empty text where there is none.
pub open spec fn str_arg(args: JsonSpec, k: Seq<char>) -> Seq<char> {
    match json_as_str(json_get(args, k)) {
        Some(s) => s,
        None => seq![],
    }
}

/// The reply to a call of a tool that does not exist.
pub open spec fn unknown_tool_message(name: Seq<char>) -> Seq<char> {
    "Unknown tool: "@ + name + ". Use list_tools to see available tools."@
}

/// What a call of tool `name` with arguments `args` does, for a server whose
/// own workspace is `default`.
pub open spec fn planned_call(name: Seq<char>, args: JsonSpec, default: Option<Seq<char>>) -> ToolCallSpec {
    let workspace = chosen_workspace(json_as_str(json_get(args, "workspace_dir"@)), default);
    if is_remote_tool(name) {
        ToolCallSpec::Remote
    } else if name == "read_file"@ {
        ToolCallSpec::ReadFile {
            workspace,
            path: str_arg(args, "path"@),
            offset: json_as_u64(json_get(args, "offset"@)),
            max_bytes: json_as_u64(json_get(args, "max_bytes"@)),
        }
    } else if name == "write_file"@ {
        ToolCallSpec::WriteFile {
            workspace,
            path: str_arg(args, "path"@),
            content: str_arg(args, "content"@),
            request_audit: match json_as_str(json_get(args, "workspace_dir"@)) {
                Some(w) => w.len() > 0,
                None => false,
            },
        }
    } else if name == "list_files"@ {
        ToolCallSpec::ListFiles {
            workspace,
            subdirectory: json_as_str(json_get(args, "subdirectory"@)),
            recursive: match json_as_bool(json_get(args, "recursive"@)) {
                Some(b) => b,
                None => false,
            },
        }
    } else {
        ToolCallSpec::Unknown { message: unknown_tool_message(name) }
    }
}

fn str_arg_exec(args: &Json, k: &str) -> (r: String)
    ensures
        r@ == str_arg(jv(*args), k@),
{
    match get_str(args, k) {
        Some(s) => String::from_str(s),
        None => String::new(),
    }
}

/// Decides what a call of tool `tool_name` with arguments `args` does, for a
/// server whose own workspace is `default_workspace`.
pub fn plan_tool_call(tool_name: &str, args: &Json, default_workspace: Option<&String>) -> (r: ToolCall)
    ensures
        tool_call_view(r) == planned_call(
            tool_name@,
            jv(*args),
            match default_workspace {
                Some(d) => Some(d@),
                None => None,
            },
        ),
{
    if str_eq(tool_name, "analyze") || str_eq(tool_name, "compare") || str_eq(tool_name, "rate")
        || str_eq(tool_name, "list_rules") {
        return ToolCall::Remote;
    }
    let explicit = get_str(args, "workspace_dir");
    if str_eq(tool_name, "read_file") {
        ToolCall::ReadFile {
            workspace: resolve_workspace(explicit, default_workspace),
            path: str_arg_exec(args, "path"),
            offset: get_u64(args, "offset"),
            max_bytes: get_u64(args, "max_bytes"),
        }
    } else if str_eq(tool_name, "write_file") {
        let request_audit = match explicit {
            Some(w) => w.unicode_len() > 0,
            None => false,
        };
        ToolCall::WriteFile {
            workspace: resolve_workspace(explicit, default_workspace),
            path: str_arg_exec(args, "path"),
            content: str_arg_exec(args, "content"),
            request_audit,
        }
    } else if str_eq(tool_name, "list_files") {
        let recursive = match get_bool(args, "recursive") {
            Some(b) => b,
            None => false,
        };
        let subdirectory = match get_str(args, "subdirectory") {
            Some(s) => Some(String::from_str(s)),
            None => None,
        };
        ToolCall::ListFiles {
            workspace: resolve_workspace(explicit, default_workspace),
            subdirectory,
            recursive,
        }
    } else {
        let mut message = String::from_str("Unknown tool: ");
        message.append(tool_name);
        message.append(". Use list_tools to see available tools.");
        ToolCall::Unknown { message }
    }
}

/// The reply to a tool call: its text content and whether it reports an error.
#[derive(Debug)]
pub struct ToolReply {
    pub text: String,
    pub is_error: bool,
}

/// Helper to build a successful reply with text content.
pub fn text_result(text: String) -> (r: ToolReply)
    ensures
        r.text@ == text@,
        !r.is_error,
{
    ToolReply { text, is_error: false }
}

/// Helper to build an error reply.
pub fn error_result(msg: String) -> (r: ToolReply)
    ensures
        r.text@ == msg@,
        r.is_error,
{
    ToolReply { text: msg, is_error: true }
}

/// The error reply for a tool call that failed with `e`.
pub fn failure_reply(e: &ToolError) -> (r: ToolReply)
    ensures
        r.text@ == "Error: "@ + e.text(),
        r.is_error,
{
    let mut msg = String::from_str("Error: ");
    let text = e.message();
    msg.append(text.as_str());
    error_result(msg)
}

/// The entries of a JSON object; those of no object for any other value.
pub fn value_to_json_object(v: Json) -> (r: Vec<(String, Json)>)
    ensures
        match jv(v) {
            JsonSpec::Object(es) => crate::json::entries_view(r@) == es,
            _ => r@.len() == 0,
        },
{
    match v {
        Json::Object(map) => map,
        _ => Vec::new(),
    }
}

/// The server serves exactly the tools it lists: a call of a listed tool
/// reaches that tool, and a call of any other name is refused as unknown. The
/// calls forwarded to the remote API are exactly those of the tools that the
/// API routes.
pub proof fn listed_tools_are_served(name: Seq<char>, args: JsonSpec, default: Option<Seq<char>>)
    ensures
        (exists|i: int| 0 <= i < tool_catalog().len() && #[trigger] tool_catalog()[i].name == name)
            <==> !(planned_call(name, args, default) is Unknown),
        planned_call(name, args, default) is Remote <==> mcp_route(name) is Some,
{
    let c = tool_catalog();
    if is_remote_tool(name) || name == "read_file"@ || name == "write_file"@ || name == "list_files"@ {
        if name == "analyze"@ {
            assert(c[0].name == name);
        } else if name == "compare"@ {
            assert(c[1].name == name);
        } else if name == "rate"@ {
            assert(c[2].name == name);
        } else if name == "list_rules"@ {
            assert(c[3].name == name);
        } else if name == "read_file"@ {
            assert(c[4].name == name);
        } else if name == "write_file"@ {
            assert(c[5].name == name);
        } else {
            assert(c[6].name == name);
        }
    }
}

} // verus!
