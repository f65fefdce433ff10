use ironprose::cli::{analyze_args, compare_args, input_source, output_format, stdin_input, InputSource, OutputFormat};
use ironprose::error::{checked_http_status_to_error, http_status_to_error, sanitize_and_truncate_body, ApiError};
use ironprose::input::{validate_file_path, validate_json_input, validate_locale, validate_text_input};
use ironprose::json::{get, get_bool, get_str, get_u64, number_to_u64, resolve_refs, resolves_within, Json};
use ironprose::mcp::audit::{audit_log_path, record_write, write_entry};
use ironprose::mcp::catalog::build_tool_list;
use ironprose::mcp::error::{checked_http_status_to_mcp_error, http_status_to_mcp_error, io_failure, no_workspace_error, not_a_directory, sandbox_error, ToolError};
use ironprose::mcp::local_tools::{check_created_parent, check_write_size, finish_read, list_entry, locate_in_workspace, plan_read, relative_to_exec, resolve_workspace, should_descend, write_result, VisitedDirs};
use ironprose::mcp::proxy::{mcp_parse_error, mcp_remote_call, mcp_transport_error};
use ironprose::mcp::sandbox::{confine, resolve_in_canonical_workspace, resolve_sandboxed_path, SandboxError};
use ironprose::mcp::server::{error_result, failure_reply, plan_tool_call, text_result, value_to_json_object, ToolCall};
use ironprose::output::{axis_label, escape_md, format_diagnostic_md, score_axes, severity_label, severity_rank, DiagnosticView};
use ironprose::proxy::{deserialize_error, parse_error, remote_call, reply_is_ok, rule_doc_read_error, rule_doc_transport_error, rule_doc_url, transport_error, HttpMethod};
use ironprose::report::{has_compare_keys, render_markdown, render_markdown_analyze, render_markdown_compare, AnalyzeView, AxisComparison, CompareView, MarkdownReport};
use ironprose::schema::{checked_endpoint_schema, endpoint_schema, properties_to_parameters};
use ironprose::spec_source::{cache_dir, cache_is_fresh, cache_path, caches_result, fetch_succeeded, first_spec_step, next_spec_step, openapi_url, SpecStep};
use ironprose::tally::count_by_rule;
use ironprose::text_render::{render_text, RuleRowView, Stream, TextView};
use tempfile::TempDir;

// ── Helpers ─────────────────────────────────────────────────────

fn s(x: &str) -> String {
    x.to_string()
}

fn jstr(x: &str) -> Json {
    Json::Str(s(x))
}

fn obj(entries: Vec<(&str, Json)>) -> Json {
    Json::Object(entries.into_iter().map(|(k, v)| (s(k), v)).collect())
}

fn diag(rule: &str, severity: &str, message: &str, line: u64) -> DiagnosticView {
    DiagnosticView {
        rule: Some(s(rule)),
        severity: Some(s(severity)),
        message: Some(s(message)),
        start_line: Some(line),
        source_type: None,
        confidence: None,
        id: None,
        has_id: false,
    }
}

fn rule_only(rule: &str) -> DiagnosticView {
    DiagnosticView {
        rule: Some(s(rule)),
        severity: None,
        message: None,
        start_line: None,
        source_type: None,
        confidence: None,
        id: None,
        has_id: false,
    }
}

fn ws_str(dir: &TempDir) -> String {
    dir.path().to_str().unwrap().to_string()
}

fn required_names(tool_schema: &Json) -> Vec<String> {
    match get(tool_schema, "required") {
        Some(Json::Array(items)) => items
            .iter()
            .filter_map(|v| match v {
                Json::Str(x) => Some(x.clone()),
                _ => None,
            })
            .collect(),
        _ => Vec::new(),
    }
}

// ── Input validation ────────────────────────────────────────────

#[test]
fn test_reject_traversal() {
    assert!(validate_file_path("../../etc/passwd").is_err());
    assert!(validate_file_path("foo/../bar").is_err());
}

#[test]
fn input_test_reject_absolute_path() {
    assert!(validate_file_path("/etc/passwd").is_err());
}

#[test]
fn test_reject_percent_encoding() {
    assert!(validate_file_path("%2e%2e/etc/passwd").is_err());
}

#[test]
fn test_reject_control_chars_in_path() {
    assert!(validate_file_path("foo\x00bar").is_err());
    assert!(validate_file_path("foo\x07bar").is_err());
}

#[test]
fn test_accept_valid_relative_path() {
    // This will fail with "File not found" but NOT with a security error
    let err = validate_file_path("chapter-07.md").unwrap_err();
    assert!(err.contains("not found"), "Expected 'not found', got: {err}");
}

#[test]
fn test_text_rejects_control_chars() {
    assert!(validate_text_input("hello\x00world").is_err());
    assert!(validate_text_input("hello\x07world").is_err());
}

#[test]
fn test_text_allows_normal_content() {
    assert!(validate_text_input("Hello, world!\nNew paragraph.\tTabbed.").is_ok());
    assert!(validate_text_input("Héllo wörld — em dash").is_ok());
}

#[test]
fn test_json_validation() {
    assert!(validate_json_input(r#"{"text": "hello"}"#).is_ok());
    assert!(validate_json_input("not json").is_err());
}

#[test]
fn file_path_messages_name_the_reason() {
    assert_eq!(
        validate_file_path("../x").unwrap_err(),
        "File path contains directory traversal (..): ../x"
    );
    assert_eq!(
        validate_file_path("/etc/passwd").unwrap_err(),
        "Absolute file paths are not allowed: /etc/passwd. Use a relative path."
    );
    assert_eq!(
        validate_file_path("a%20b").unwrap_err(),
        "File path contains percent-encoding (possible double-encoding): a%20b"
    );
    assert_eq!(
        validate_file_path("a\x01b").unwrap_err(),
        "File path contains control characters: \"a\\u{1}b\""
    );
    assert_eq!(validate_file_path("missing-file.md").unwrap_err(), "File not found: missing-file.md");
    // A tab is no control character for paths; the file is simply missing.
    assert_eq!(validate_file_path("a\tb").unwrap_err(), "File not found: a\tb");
}

#[test]
fn text_control_char_message_gives_byte_and_offset() {
    assert_eq!(
        validate_text_input("ab\x07").unwrap_err(),
        "Text input contains control character (0x07) at byte offset 2. Remove non-printable characters before submitting."
    );
    // Offsets count bytes, not characters.
    assert_eq!(
        validate_text_input("é\x1f").unwrap_err(),
        "Text input contains control character (0x1f) at byte offset 2. Remove non-printable characters before submitting."
    );
    assert_eq!(validate_text_input("line\r\nnext"), Ok(()));
}

#[test]
fn json_input_error_is_prefixed() {
    let e = validate_json_input("{").unwrap_err();
    assert!(e.starts_with("Invalid JSON input: "));
}

#[test]
fn locale_validation() {
    assert_eq!(validate_locale("en-us"), Ok(()));
    assert_eq!(validate_locale("en-gb"), Ok(()));
    assert_eq!(validate_locale("en-any"), Ok(()));
    assert_eq!(
        validate_locale("klingon").unwrap_err(),
        "unknown locale 'klingon'; accepted locales: en-us, en-gb, en-any"
    );
    assert!(validate_locale("fr-FR").unwrap_err().contains("accepted locales"));
}

// ── Workspace sandbox ───────────────────────────────────────────

#[test]
fn test_valid_relative_path() {
    let dir = TempDir::new().unwrap();
    let result = resolve_sandboxed_path(&ws_str(&dir), "chapter1.md");
    assert!(result.is_ok());
    assert!(result.unwrap().ends_with("chapter1.md"));
}

#[test]
fn test_valid_subdirectory_path() {
    let dir = TempDir::new().unwrap();
    let result = resolve_sandboxed_path(&ws_str(&dir), "subdir/chapter2.md");
    assert!(result.is_ok());
}

#[test]
fn test_reject_parent_traversal() {
    let dir = TempDir::new().unwrap();
    let result = resolve_sandboxed_path(&ws_str(&dir), "../etc/passwd");
    assert!(matches!(result, Err(SandboxError::TraversalAttempt)));
}

#[test]
fn test_reject_hidden_traversal() {
    let dir = TempDir::new().unwrap();
    let result = resolve_sandboxed_path(&ws_str(&dir), "subdir/../../etc/passwd");
    assert!(matches!(result, Err(SandboxError::TraversalAttempt)));
}

#[test]
fn sandbox_test_reject_absolute_path() {
    let dir = TempDir::new().unwrap();
    let result = resolve_sandboxed_path(&ws_str(&dir), "/etc/passwd");
    assert!(matches!(result, Err(SandboxError::AbsolutePath)));
}

#[test]
fn test_reject_empty_path() {
    let dir = TempDir::new().unwrap();
    let result = resolve_sandboxed_path(&ws_str(&dir), "");
    assert!(matches!(result, Err(SandboxError::EmptyPath)));
}

#[test]
fn test_reject_null_byte() {
    let dir = TempDir::new().unwrap();
    let result = resolve_sandboxed_path(&ws_str(&dir), "chapter1\0.md");
    assert!(matches!(result, Err(SandboxError::NullByte)));
}

#[test]
fn test_new_file_in_existing_directory() {
    let dir = TempDir::new().unwrap();
    let result = resolve_sandboxed_path(&ws_str(&dir), "new_chapter.md");
    assert!(result.is_ok());
}

#[test]
fn test_new_file_in_nonexistent_directory() {
    let dir = TempDir::new().unwrap();
    // With ancestor walking, nested dirs within the workspace are allowed
    let result = resolve_sandboxed_path(&ws_str(&dir), "nonexistent/chapter.md");
    assert!(result.is_ok());
    assert!(result.unwrap().ends_with("nonexistent/chapter.md"));
}

#[test]
fn sandbox_result_stays_in_canonical_workspace() {
    // The workspace "/" exists and is canonical: every resolved path lies under it.
    let r = resolve_in_canonical_workspace("/", "no-such-dir-here/file.md").unwrap();
    assert_eq!(r, "/no-such-dir-here/file.md");
    // A symlink target outside the workspace is refused by the final check.
    assert!(matches!(
        confine("/work/space", s("/elsewhere/secret.txt")),
        Err(SandboxError::OutsideWorkspace)
    ));
    assert_eq!(confine("/work/space", s("/work/space/a.md")).unwrap(), "/work/space/a.md");
    // A sibling whose name merely starts with the workspace's is outside it.
    assert!(confine("/work/space", s("/work/spacecraft/a.md")).is_err());
}

#[test]
fn sandbox_missing_workspace_is_an_io_error() {
    let r = resolve_sandboxed_path("/definitely/not/here/ws", "a.md");
    match r {
        Err(SandboxError::IoError(m)) => assert!(m.starts_with("Cannot canonicalize workspace: ")),
        _ => panic!("expected an I/O error"),
    }
}

#[test]
fn sandbox_error_messages() {
    assert_eq!(SandboxError::EmptyPath.message(), "Path must not be empty");
    assert_eq!(
        SandboxError::AbsolutePath.message(),
        "Absolute paths are not allowed; use a relative path within the workspace"
    );
    assert_eq!(SandboxError::TraversalAttempt.message(), "Path traversal (.. components) is not allowed");
    assert_eq!(SandboxError::NullByte.message(), "Null bytes in path are not allowed");
    assert_eq!(SandboxError::OutsideWorkspace.message(), "Resolved path is outside the workspace sandbox");
    assert_eq!(SandboxError::IoError(s("disk")).message(), "disk");
}

// ── MCP server: workspace, local tools, catalog ─────────────────

#[test]
fn test_resolve_workspace_dir_explicit_overrides_default() {
    let default = s("/default/path");
    let ws = resolve_workspace(Some("/explicit/path"), Some(&default));
    assert_eq!(ws.unwrap(), "/explicit/path");
}

#[test]
fn test_resolve_workspace_dir_empty_with_default() {
    let default = s("/default");
    let ws = resolve_workspace(Some(""), Some(&default));
    assert_eq!(ws.unwrap(), "/default");
}

#[test]
fn test_resolve_workspace_dir_empty_no_default() {
    let ws = resolve_workspace(None, None);
    assert!(ws.is_none());
}

const CHAPTER1: &str = "# Chapter 1\n\nSome prose here.\n";

#[test]
fn test_read_file_basic() {
    let size = CHAPTER1.len() as u64;
    let (offset, n) = plan_read(size, None, None);
    assert_eq!((offset, n), (0, size));
    let result = finish_read(s(CHAPTER1), size, offset, n);
    assert!(result.content.contains("Chapter 1"));
    assert!(!result.truncated);
}

#[test]
fn test_read_file_pagination() {
    let size = CHAPTER1.len() as u64;
    let (offset, n) = plan_read(size, None, Some(10));
    let result = finish_read(s(&CHAPTER1[..n as usize]), size, offset, n);
    assert_eq!(result.bytes_read, 10);
    assert!(result.truncated);
    assert_eq!(result.offset, 0);
}

#[test]
fn test_read_file_offset() {
    let size = CHAPTER1.len() as u64;
    let (offset, n) = plan_read(size, Some(2), Some(5));
    let result = finish_read(s(&CHAPTER1[2..7]), size, offset, n);
    assert_eq!(result.bytes_read, 5);
    assert_eq!(result.offset, 2);
}

#[test]
fn read_plan_limits() {
    // Past the end: nothing to read.
    assert_eq!(plan_read(10, Some(10), None), (10, 0));
    assert_eq!(plan_read(10, Some(50), Some(5)), (50, 0));
    // Default page 64 KB, capped at 1 MB.
    assert_eq!(plan_read(10_000_000, None, None), (0, 65_536));
    assert_eq!(plan_read(10_000_000, None, Some(5_000_000)), (0, 1_048_576));
    let r = finish_read(String::new(), 10, 50, 0);
    assert!(!r.truncated);
}

#[test]
fn test_write_file_basic() {
    let result = write_result("output.md", "Hello, world!".len());
    assert!(result.success);
    assert_eq!(result.bytes_written, 13);
    assert_eq!(result.path, "output.md");
    assert!(check_write_size("Hello, world!").is_ok());
}

#[test]
fn test_write_file_too_large() {
    let big_content = "x".repeat(2_000_000);
    let result = check_write_size(&big_content);
    assert!(result.is_err());
}

#[test]
fn write_size_limit_is_one_megabyte_of_bytes() {
    assert!(check_write_size(&"x".repeat(1_048_576)).is_ok());
    match check_write_size(&"x".repeat(1_048_577)) {
        Err(ToolError::InvalidParams(m)) => assert_eq!(
            m,
            "Content exceeds maximum write size (1048576 bytes). Split large content into multiple writes."
        ),
        _ => panic!("expected invalid params"),
    }
    // Counted in UTF-8 bytes: 524289 two-byte characters exceed the limit.
    assert!(check_write_size(&"é".repeat(524_289)).is_err());
}

#[test]
fn created_parent_must_stay_in_workspace() {
    assert!(check_created_parent("/ws/a/b", "/ws").is_ok());
    match check_created_parent("/other", "/ws") {
        Err(ToolError::InvalidParams(m)) => {
            assert_eq!(m, "Workspace sandbox violation: Created directories escaped the workspace")
        }
        _ => panic!("expected a sandbox violation"),
    }
}

#[test]
fn test_list_files_basic() {
    let files = vec![
        list_entry("chapter1.md", "/ws/chapter1.md", "/ws", false, false, false, 31),
        list_entry("chapter2.md", "/ws/chapter2.md", "/ws", false, false, false, 26),
        list_entry("notes", "/ws/notes", "/ws", false, false, true, 0),
    ];
    let names: Vec<String> = files.into_iter().flatten().map(|f| f.path).collect();
    assert!(names.iter().any(|n| n.contains("chapter1.md")));
    assert!(names.iter().any(|n| n.contains("chapter2.md")));
}

#[test]
fn test_list_files_recursive() {
    let mut visited = VisitedDirs::new();
    assert!(visited.insert("/ws"));
    assert!(should_descend(Some("/ws/notes"), "/ws", &mut visited));
    let entry = list_entry("ideas.md", "/ws/notes/ideas.md", "/ws", false, false, false, 9).unwrap();
    assert!(entry.path.contains("ideas.md"));
    assert_eq!(entry.path, "notes/ideas.md");
}

#[test]
fn listing_skips_hidden_and_linked_directories() {
    assert!(list_entry(".git", "/ws/.git", "/ws", false, false, true, 0).is_none());
    assert!(list_entry("link", "/ws/link", "/ws", true, true, true, 0).is_none());
    let linked_file = list_entry("l.md", "/ws/l.md", "/ws", true, false, false, 4).unwrap();
    assert_eq!(linked_file.size, Some(4));
    let d = list_entry("sub", "/ws/sub", "/ws", false, false, true, 4096).unwrap();
    assert!(d.is_directory);
    assert_eq!(d.size, None);
    assert_eq!(relative_to_exec("/elsewhere/x", "/ws"), "/elsewhere/x");
}

#[test]
fn recursive_listing_enters_each_directory_once() {
    let mut visited = VisitedDirs::new();
    assert!(should_descend(Some("/ws/a"), "/ws", &mut visited));
    assert!(!should_descend(Some("/ws/a"), "/ws", &mut visited));
    assert!(visited.contains("/ws/a"));
    assert!(!should_descend(Some("/outside"), "/ws", &mut visited));
    assert!(!visited.contains("/outside"));
    assert!(!should_descend(None, "/ws", &mut visited));
}

#[test]
fn test_write_file_audit_log() {
    let path = audit_log_path("/work/book");
    assert!(path.ends_with(".ironprose/audit.jsonl"));
    assert_eq!(path, "/work/book/.ironprose/audit.jsonl");
    let entry = record_write("logged.md", 15);
    assert!(entry.path.contains("logged.md"));
    assert!(entry.operation.contains("write_file"));
    assert_eq!(entry.bytes_written, Some(15));
    assert!(!entry.truncated);
    assert!(!entry.timestamp.is_empty());
}

#[test]
fn audit_entry_keeps_given_time() {
    let e = write_entry(s("2024-01-01T00:00:00+00:00"), "a.md", 3);
    assert_eq!(e.timestamp, "2024-01-01T00:00:00+00:00");
    assert_eq!(e.operation, "write_file");
    assert_eq!(audit_log_path("/ws/"), "/ws/.ironprose/audit.jsonl");
}

#[test]
fn test_sandbox_traversal_rejected_in_read() {
    let dir = TempDir::new().unwrap();
    let ws = ws_str(&dir);
    let result = locate_in_workspace(Some(&ws), "../../../etc/passwd");
    assert!(result.is_err());
}

#[test]
fn test_sandbox_traversal_rejected_in_write() {
    let dir = TempDir::new().unwrap();
    let ws = ws_str(&dir);
    let result = locate_in_workspace(Some(&ws), "../escape.txt");
    assert!(result.is_err());
}

#[test]
fn test_sandbox_absolute_path_rejected() {
    let dir = TempDir::new().unwrap();
    let ws = ws_str(&dir);
    let result = locate_in_workspace(Some(&ws), "/etc/passwd");
    assert!(result.is_err());
}

#[test]
fn test_no_workspace_returns_error() {
    let result = locate_in_workspace(None, "chapter1.md");
    assert!(result.is_err());
}

#[test]
fn workspace_errors_are_invalid_params_with_text() {
    match locate_in_workspace(None, "a.md") {
        Err(ToolError::InvalidParams(m)) => assert_eq!(
            m,
            "No workspace directory configured. Set IRONPROSE_WORKSPACE environment variable or pass workspace_dir parameter."
        ),
        _ => panic!("expected invalid params"),
    }
    match locate_in_workspace(Some("/ws"), "../a") {
        Err(ToolError::InvalidParams(m)) => {
            assert_eq!(m, "Workspace sandbox violation: Path traversal (.. components) is not allowed")
        }
        _ => panic!("expected invalid params"),
    }
    assert_eq!(no_workspace_error().message(), locate_in_workspace(None, "b").unwrap_err().message());
    assert_eq!(sandbox_error("x").message(), "Workspace sandbox violation: x");
    assert_eq!(io_failure("Cannot read file", "denied").message(), "Cannot read file: denied");
    assert_eq!(not_a_directory("/ws/a.md").message(), "/ws/a.md is not a directory");
}

#[test]
fn test_tool_list_contains_all_tools() {
    let tools = build_tool_list();
    let names: Vec<&str> = tools.iter().map(|t| t.name.as_str()).collect();
    assert!(names.contains(&"analyze"));
    assert!(names.contains(&"compare"));
    assert!(names.contains(&"rate"));
    assert!(names.contains(&"list_rules"));
    assert!(names.contains(&"read_file"));
    assert!(names.contains(&"write_file"));
    assert!(names.contains(&"list_files"));
    assert_eq!(tools.len(), 7);
}

#[test]
fn test_tool_schemas_have_type_object() {
    let tools = build_tool_list();
    for tool in &tools {
        let schema_type = get_str(&tool.input_schema, "type");
        assert_eq!(schema_type, Some("object"), "Tool '{}' schema must have type: object", tool.name);
    }
}

#[test]
fn test_proxy_tool_parity_with_remote_api() {
    let tools = build_tool_list();
    let get_required = |name: &str| -> Vec<String> {
        let tool = tools.iter().find(|t| t.name == name).unwrap();
        required_names(&tool.input_schema)
    };

    // analyze: requires "text"
    let required = get_required("analyze");
    assert!(required.contains(&"text".to_string()));

    // compare: requires "original" and "revised"
    let required = get_required("compare");
    assert!(required.contains(&"original".to_string()));
    assert!(required.contains(&"revised".to_string()));

    // rate: requires "rule" and "rating"
    let required = get_required("rate");
    assert!(required.contains(&"rule".to_string()));
    assert!(required.contains(&"rating".to_string()));

    // list_rules: no required params
    let required = get_required("list_rules");
    assert!(required.is_empty());
}

#[test]
fn catalog_local_tools_and_properties() {
    let tools = build_tool_list();
    let names: Vec<&str> = tools.iter().map(|t| t.name.as_str()).collect();
    assert_eq!(names, vec!["analyze", "compare", "rate", "list_rules", "read_file", "write_file", "list_files"]);
    assert_eq!(required_names(&tools[4].input_schema), vec![s("path")]);
    assert_eq!(required_names(&tools[5].input_schema), vec![s("path"), s("content")]);
    assert!(get(&tools[6].input_schema, "required").is_none());
    let props = get(&tools[0].input_schema, "properties").unwrap();
    let rules = get(props, "rules").unwrap();
    assert_eq!(get_str(rules, "type"), Some("array"));
    assert_eq!(get_str(get(rules, "items").unwrap(), "type"), Some("string"));
    let offset = get(get(&tools[4].input_schema, "properties").unwrap(), "offset").unwrap();
    assert_eq!(get_str(offset, "type"), Some("integer"));
    assert_eq!(
        tools[3].description,
        "List all available analysis rules with their categories."
    );
}

// ── MCP server: tool call routing and replies ───────────────────

#[test]
fn tool_calls_route_to_remote_or_local_tools() {
    let empty = obj(vec![]);
    for name in ["analyze", "compare", "rate", "list_rules"] {
        assert!(matches!(plan_tool_call(name, &empty, None), ToolCall::Remote));
    }
    let args = obj(vec![
        ("path", jstr("ch1.md")),
        ("offset", Json::Number(s("2"))),
        ("max_bytes", Json::Number(s("5"))),
    ]);
    let default = s("/default");
    match plan_tool_call("read_file", &args, Some(&default)) {
        ToolCall::ReadFile { workspace, path, offset, max_bytes } => {
            assert_eq!(workspace, Some(s("/default")));
            assert_eq!(path, "ch1.md");
            assert_eq!(offset, Some(2));
            assert_eq!(max_bytes, Some(5));
        }
        _ => panic!("expected a read"),
    }
    match plan_tool_call("unknown_tool", &empty, None) {
        ToolCall::Unknown { message } => {
            assert_eq!(message, "Unknown tool: unknown_tool. Use list_tools to see available tools.")
        }
        _ => panic!("expected an unknown tool"),
    }
}

#[test]
fn write_call_uses_request_audit_only_with_own_workspace() {
    let default = s("/default");
    let args = obj(vec![("path", jstr("a.md")), ("content", jstr("hi")), ("workspace_dir", jstr("/mine"))]);
    match plan_tool_call("write_file", &args, Some(&default)) {
        ToolCall::WriteFile { workspace, path, content, request_audit } => {
            assert_eq!(workspace, Some(s("/mine")));
            assert_eq!(path, "a.md");
            assert_eq!(content, "hi");
            assert!(request_audit);
        }
        _ => panic!("expected a write"),
    }
    let args = obj(vec![("workspace_dir", jstr(""))]);
    match plan_tool_call("write_file", &args, Some(&default)) {
        ToolCall::WriteFile { workspace, path, content, request_audit } => {
            assert_eq!(workspace, Some(s("/default")));
            assert_eq!(path, "");
            assert_eq!(content, "");
            assert!(!request_audit);
        }
        _ => panic!("expected a write"),
    }
}

#[test]
fn list_call_reads_its_arguments() {
    let args = obj(vec![("subdirectory", jstr("notes")), ("recursive", Json::Bool(true))]);
    match plan_tool_call("list_files", &args, None) {
        ToolCall::ListFiles { workspace, subdirectory, recursive } => {
            assert_eq!(workspace, None);
            assert_eq!(subdirectory, Some(s("notes")));
            assert!(recursive);
        }
        _ => panic!("expected a listing"),
    }
    // A non-boolean `recursive` counts as false.
    let args = obj(vec![("recursive", jstr("yes"))]);
    match plan_tool_call("list_files", &args, None) {
        ToolCall::ListFiles { recursive, subdirectory, .. } => {
            assert!(!recursive);
            assert_eq!(subdirectory, None);
        }
        _ => panic!("expected a listing"),
    }
}

#[test]
fn tool_replies() {
    let ok = text_result(s("{}"));
    assert_eq!(ok.text, "{}");
    assert!(!ok.is_error);
    let err = error_result(s("bad"));
    assert!(err.is_error);
    let r = failure_reply(&ToolError::InvalidParams(s("Path must not be empty")));
    assert_eq!(r.text, "Error: Path must not be empty");
    assert!(r.is_error);
    let es = value_to_json_object(obj(vec![("a", Json::Null)]));
    assert_eq!(es.len(), 1);
    assert_eq!(value_to_json_object(Json::Bool(true)).len(), 0);
}

// ── JSON accessors ──────────────────────────────────────────────

#[test]
fn json_number_accessors() {
    assert_eq!(number_to_u64("0"), Some(0));
    assert_eq!(number_to_u64("18446744073709551615"), Some(u64::MAX));
    assert_eq!(number_to_u64("18446744073709551616"), None);
    assert_eq!(number_to_u64("-1"), None);
    assert_eq!(number_to_u64("1.5"), None);
    assert_eq!(number_to_u64("1e3"), None);
    assert_eq!(number_to_u64(""), None);
    let v = obj(vec![("n", Json::Number(s("7"))), ("b", Json::Bool(false)), ("t", jstr("x"))]);
    assert_eq!(get_u64(&v, "n"), Some(7));
    assert_eq!(get_u64(&v, "t"), None);
    assert_eq!(get_bool(&v, "b"), Some(false));
    assert_eq!(get_str(&v, "t"), Some("x"));
    assert_eq!(get_str(&v, "missing"), None);
}

// ── API errors ──────────────────────────────────────────────────

#[test]
fn http_status_messages() {
    let e = http_status_to_error(402, "Payment required");
    match &e {
        ApiError::Http { status, message } => {
            assert_eq!(*status, 402);
            assert!(message.contains("subscription"));
            assert!(message.ends_with("Details: Payment required"));
        }
        _ => panic!("expected an HTTP error"),
    }
    assert!(http_status_to_error(429, "x").message().contains("rate limit"));
    assert!(http_status_to_error(500, "x").message().contains("server error"));
    assert!(http_status_to_error(503, "x").message().contains("(HTTP 503)"));
    assert!(http_status_to_error(401, "x").message().contains("authentication"));
    assert!(http_status_to_error(403, "x").message().contains("(HTTP 403)"));
    assert_eq!(
        http_status_to_error(404, "nope").message(),
        "API error (HTTP 404): IronProse API returned unexpected status 404: nope"
    );
}

#[test]
fn api_error_display_texts() {
    assert_eq!(ApiError::Transport(s("down")).message(), "Network error: down");
    assert_eq!(ApiError::Parse(s("bad")).message(), "Response parse error: bad");
    assert_eq!(ApiError::Input(s("no")).message(), "Invalid input: no");
    assert_eq!(
        transport_error("timeout").message(),
        "Network error: Failed to reach IronProse API: timeout. Check your network connection."
    );
    assert_eq!(parse_error("eof").message(), "Response parse error: Failed to parse API response: eof");
    assert_eq!(
        deserialize_error("missing field").message(),
        "Response parse error: Failed to deserialize response: missing field"
    );
    assert_eq!(rule_doc_transport_error("dns").message(), "Network error: Failed to reach IronProse API: dns");
    assert_eq!(rule_doc_read_error("cut").message(), "Response parse error: Failed to read rule doc: cut");
}

#[test]
fn body_is_sanitized_redacted_and_truncated() {
    assert_eq!(sanitize_and_truncate_body("a\nb\rc"), "a\\nb\\rc");
    // A token-like run of 20 or more characters is redacted.
    let run = "abc_XYZ-09".repeat(3);
    let out = sanitize_and_truncate_body(&format!("key={run} end"));
    assert_eq!(out, "key=[REDACTED] end");
    // Nineteen such characters are left as they are; twenty are redacted.
    let nineteen = "q".repeat(19);
    assert_eq!(sanitize_and_truncate_body(&nineteen), nineteen);
    assert_eq!(sanitize_and_truncate_body(&"q".repeat(20)), "[REDACTED]");
    // Short words stay.
    assert_eq!(sanitize_and_truncate_body("short words stay"), "short words stay");
}

#[test]
fn long_body_is_cut_at_200_bytes() {
    let long = "ab ".repeat(100);
    let cut = sanitize_and_truncate_body(&long);
    assert_eq!(cut.len(), 203);
    assert!(cut.ends_with("..."));
    assert_eq!(cut[..200].to_string(), long[..200].to_string());
    // At the limit nothing is cut.
    let exact = "ab ".repeat(66) + "ab";
    assert_eq!(exact.len(), 200);
    assert_eq!(sanitize_and_truncate_body(&exact), exact);
}

#[test]
fn checked_status_mapping_refuses_unsafe_cut() {
    // A 2-byte character straddling byte 200 cannot be cut there.
    let body = format!("{}é{}", "a ".repeat(99) + "a", " b".repeat(20));
    assert!(checked_http_status_to_error(500, &body).is_none());
    assert!(checked_http_status_to_mcp_error(500, &body).is_none());
    assert!(checked_http_status_to_error(500, "fine").is_some());
}

#[test]
fn mcp_status_messages() {
    match http_status_to_mcp_error(429, "slow down") {
        ToolError::InternalError(m) => assert!(m.contains("429") && m.ends_with("slow down")),
        _ => panic!("expected an internal error"),
    }
    match http_status_to_mcp_error(401, "who") {
        ToolError::InvalidParams(m) => assert!(m.contains("401")),
        ToolError::InternalError(m) => assert!(m.contains("401")),
    }
    assert_eq!(
        mcp_transport_error("refused").message(),
        "Failed to reach IronProse API: refused. Check your network connection."
    );
    assert_eq!(mcp_parse_error("eof").message(), "Failed to parse API response: eof");
}

// ── Remote routing ──────────────────────────────────────────────

#[test]
fn remote_routes() {
    let c = remote_call("https://api.test", "analyze").unwrap();
    assert!(matches!(c.method, HttpMethod::Post));
    assert_eq!(c.url, "https://api.test/api/analyze");
    let c = remote_call("https://api.test", "list_rules").unwrap();
    assert!(matches!(c.method, HttpMethod::Get));
    assert_eq!(c.url, "https://api.test/api/rules");
    let c = remote_call("https://api.test", "entitlement").unwrap();
    assert_eq!(c.url, "https://api.test/api/entitlement");
    assert_eq!(remote_call("b", "bogus").err().unwrap().message(), "Invalid input: Unknown remote tool: bogus");
    assert!(mcp_remote_call("b", "entitlement").is_err());
    let c = mcp_remote_call("b", "rate").unwrap();
    assert_eq!(c.url, "b/api/rate");
    assert_eq!(rule_doc_url("b", "repetition"), "b/api/rules/repetition");
    assert!(reply_is_ok(200));
    assert!(!reply_is_ok(201));
}

// ── Command-line decisions ──────────────────────────────────────

#[test]
fn command_input_sources() {
    assert!(matches!(input_source(Some(s("t")), Some("f")), InputSource::Text(t) if t == "t"));
    assert!(matches!(input_source(None, Some("f.md")), InputSource::File(p) if p == "f.md"));
    assert!(matches!(input_source(None, None), InputSource::Stdin));
    assert_eq!(stdin_input(s("abc")), Ok(s("abc")));
    assert_eq!(
        stdin_input(String::new()),
        Err(s("No input provided. Pass text as argument, --file, or pipe to stdin."))
    );
}

#[test]
fn command_arguments() {
    let rules = vec![s("repetition"), s("weak_verb")];
    let a = analyze_args("Some text", true, Some(&rules), Some("warning"));
    assert_eq!(get_str(&a, "text"), Some("Some text"));
    assert_eq!(get_bool(&a, "score_only"), Some(true));
    assert_eq!(get_str(&a, "severity_min"), Some("warning"));
    match get(&a, "rules") {
        Some(Json::Array(items)) => assert_eq!(items.len(), 2),
        _ => panic!("expected rules"),
    }
    let plain = analyze_args("x", false, None, None);
    assert!(get(&plain, "score_only").is_none());
    assert!(get(&plain, "rules").is_none());
    let c = compare_args("a", "b");
    assert_eq!(get_str(&c, "original"), Some("a"));
    assert_eq!(get_str(&c, "revised"), Some("b"));
    assert!(matches!(output_format("text"), OutputFormat::Text));
    assert!(matches!(output_format("markdown"), OutputFormat::Markdown));
    assert!(matches!(output_format("json"), OutputFormat::Json));
    assert!(matches!(output_format("yaml"), OutputFormat::Json));
}

#[test]
fn openapi_document_sources() {
    assert_eq!(cache_dir(Some("/home/u"), Some("C:/u")), Some(s("/home/u/.ironprose")));
    assert_eq!(cache_dir(None, Some("C:/u")), Some(s("C:/u/.ironprose")));
    assert_eq!(cache_dir(None, None), None);
    assert_eq!(cache_path(Some("/home/u/.ironprose")), Some(s("/home/u/.ironprose/openapi.json")));
    assert_eq!(cache_path(None), None);
    assert!(cache_is_fresh(Some(3599)));
    assert!(!cache_is_fresh(Some(3600)));
    assert!(!cache_is_fresh(None));
    assert_eq!(openapi_url("https://x"), "https://x/api/openapi.json");
    assert!(fetch_succeeded(204));
    assert!(!fetch_succeeded(304));
    let step = first_spec_step(true);
    assert!(matches!(step, SpecStep::FreshCache));
    let step = next_spec_step(step);
    assert!(matches!(step, SpecStep::Remote));
    assert!(caches_result(&step));
    let step = next_spec_step(step);
    assert!(matches!(step, SpecStep::StaleCache));
    assert!(!caches_result(&step));
    assert!(matches!(next_spec_step(step), SpecStep::Embedded));
    assert!(matches!(first_spec_step(false), SpecStep::Remote));
}

// ── OpenAPI schema introspection ────────────────────────────────

fn sample_spec() -> Json {
    let analyze_params = obj(vec![
        ("type", jstr("object")),
        (
            "properties",
            obj(vec![
                ("text", obj(vec![("type", jstr("string")), ("description", jstr("The text."))])),
                ("locale", obj(vec![("type", jstr("string"))])),
            ]),
        ),
    ]);
    let post = obj(vec![
        ("summary", jstr("Analyze prose")),
        (
            "requestBody",
            obj(vec![(
                "content",
                obj(vec![(
                    "application/json",
                    obj(vec![("schema", obj(vec![("$ref", jstr("#/components/schemas/AnalyzeParams"))]))]),
                )]),
            )]),
        ),
        ("responses", obj(vec![("200", obj(vec![("description", jstr("ok"))]))])),
    ]);
    obj(vec![
        ("openapi", jstr("3.1.0")),
        (
            "paths",
            obj(vec![
                ("/analyze", obj(vec![("post", post)])),
                ("/rules", obj(vec![("get", obj(vec![("summary", jstr("List rules"))]))])),
            ]),
        ),
        ("components", obj(vec![("schemas", obj(vec![("AnalyzeParams", analyze_params)]))])),
    ])
}

#[test]
fn endpoint_schema_resolves_refs_and_lists_parameters() {
    let spec = sample_spec();
    let r = endpoint_schema(&spec, "analyze").unwrap();
    assert_eq!(get_str(&r, "endpoint"), Some("/analyze"));
    assert_eq!(get_str(&r, "method"), Some("POST"));
    assert_eq!(get_str(&r, "summary"), Some("Analyze prose"));
    let body = get(&r, "request_body").unwrap();
    let schema = get(get(get(body, "content").unwrap(), "application/json").unwrap(), "schema").unwrap();
    assert!(get(schema, "$ref").is_none());
    assert_eq!(get_str(schema, "type"), Some("object"));
    match get(&r, "parameters") {
        Some(Json::Array(ps)) => {
            assert_eq!(ps.len(), 2);
            // Sorted by name.
            assert_eq!(get_str(&ps[0], "name"), Some("locale"));
            assert!(matches!(get(&ps[0], "description"), Some(Json::Null)));
            assert_eq!(get_str(&ps[1], "name"), Some("text"));
            assert_eq!(get_str(&ps[1], "description"), Some("The text."));
        }
        _ => panic!("expected parameters"),
    }
    let rules = endpoint_schema(&spec, "list-rules").unwrap();
    assert_eq!(get_str(&rules, "method"), Some("GET"));
    assert!(get(&rules, "request_body").is_none());
}

#[test]
fn endpoint_schema_errors() {
    let spec = sample_spec();
    assert_eq!(
        endpoint_schema(&spec, "nonexistent").unwrap_err(),
        "Unknown endpoint: nonexistent. Available: analyze, compare, rate, list-rules, entitlement, insights"
    );
    assert_eq!(endpoint_schema(&spec, "compare").unwrap_err(), "Path /compare not found in OpenAPI spec");
    assert_eq!(endpoint_schema(&obj(vec![]), "analyze").unwrap_err(), "OpenAPI spec missing 'paths'");
    let no_get = obj(vec![("paths", obj(vec![("/rules", obj(vec![]))]))]);
    assert_eq!(endpoint_schema(&no_get, "rules").unwrap_err(), "Method get not found for /rules");
}

#[test]
fn cyclic_refs_are_detected() {
    let spec = sample_spec();
    assert!(checked_endpoint_schema(&spec, "analyze", 100).unwrap().is_ok());
    let looped = obj(vec![
        (
            "paths",
            obj(vec![(
                "/rate",
                obj(vec![("post", obj(vec![("requestBody", obj(vec![("$ref", jstr("#/components/Loop"))]))]))]),
            )]),
        ),
        ("components", obj(vec![("Loop", obj(vec![("$ref", jstr("#/components/Loop"))]))])),
    ]);
    assert!(checked_endpoint_schema(&looped, "rate", 100).is_none());
    assert!(!resolves_within(get(&looped, "components").unwrap(), &looped, 100));
    // An unresolvable reference is kept as it is.
    let dangling = obj(vec![("$ref", jstr("#/nowhere"))]);
    let kept = resolve_refs(&dangling, &spec);
    assert_eq!(get_str(&kept, "$ref"), Some("#/nowhere"));
    assert!(properties_to_parameters(&jstr("x")).is_none());
}

// ── Markdown and text output ────────────────────────────────────

#[test]
fn test_format_diagnostic_md_with_source() {
    let d = DiagnosticView {
        rule: Some(s("repetition")),
        severity: Some(s("warning")),
        message: Some(s("Word 'dark' repeated.")),
        start_line: Some(0),
        source_type: Some(s("Heuristic")),
        confidence: Some(s("1.00")),
        id: None,
        has_id: false,
    };
    let mut out = String::new();
    format_diagnostic_md(&mut out, &d);
    assert!(out.contains("**L1**"));
    assert!(out.contains("`repetition`"));
    assert!(out.contains("heuristic"));
    assert!(out.contains("1.00 confidence"));
}

#[test]
fn test_format_diagnostic_md_without_source() {
    let d = diag("weak_verb", "hint", "Consider a stronger verb.", 9);
    let mut out = String::new();
    format_diagnostic_md(&mut out, &d);
    assert!(out.contains("**L10**"));
    assert!(out.contains("`weak_verb`"));
    assert!(!out.contains("confidence"));
}

#[test]
fn diagnostic_bullet_exact_text() {
    let mut d = diag("a|b", "error", "x <y>\nz", 23);
    d.source_type = Some(s("Model"));
    d.confidence = Some(s("0.72"));
    let mut out = s("> ");
    format_diagnostic_md(&mut out, &d);
    assert_eq!(out, "> - **L24** `a\\|b` — x &lt;y&gt; z · model · 0.72 confidence\n");
}

#[test]
fn test_count_by_rule_sorting() {
    let diags = vec![rule_only("b_rule"), rule_only("a_rule"), rule_only("b_rule"), rule_only("b_rule"), rule_only("a_rule")];
    let counts = count_by_rule(&diags);
    // b_rule (3) should come before a_rule (2)
    assert_eq!(counts[0], ("b_rule".into(), 3));
    assert_eq!(counts[1], ("a_rule".into(), 2));
}

#[test]
fn count_ties_are_broken_by_name() {
    let diags = vec![rule_only("z"), rule_only("m"), rule_only("a"), rule_only("m"), rule_only("z")];
    let counts = count_by_rule(&diags);
    assert_eq!(counts, vec![(s("m"), 2), (s("z"), 2), (s("a"), 1)]);
    let mut missing = rule_only("x");
    missing.rule = None;
    assert_eq!(count_by_rule(&vec![missing]), vec![(s("unknown"), 1)]);
    assert!(count_by_rule(&vec![]).is_empty());
}

#[test]
fn test_severity_ordering() {
    assert!(severity_rank("error") < severity_rank("warning"));
    assert!(severity_rank("warning") < severity_rank("information"));
    assert!(severity_rank("information") < severity_rank("hint"));
}

#[test]
fn severity_labels_and_axes() {
    assert_eq!(severity_rank("other"), 4);
    assert_eq!(severity_label("error"), "Errors");
    assert_eq!(severity_label("information"), "Info");
    assert_eq!(severity_label("custom"), "custom");
    assert_eq!(axis_label("pacing_score"), "Pacing");
    assert_eq!(axis_label("imagery_density"), "Imagery Density");
    assert_eq!(axis_label("unknown_axis"), "unknown_axis");
    assert_eq!(escape_md("a\\b|c`d<e>f\ng\rh"), "a\\\\b\\|c\\`d&lt;e&gt;f gh");
}

fn sample_analyze_view() -> AnalyzeView {
    let mut d1 = diag("repetition", "warning", "Word 'dark' repeated 2 times in close proximity.", 0);
    d1.source_type = Some(s("Heuristic"));
    d1.confidence = Some(s("1.00"));
    d1.id = Some(s("d-001"));
    d1.has_id = true;
    let mut d2 = diag("tense_consistency", "error", "Tense shift detected.", 5);
    d2.source_type = Some(s("Model"));
    d2.confidence = Some(s("0.72"));
    AnalyzeView {
        score: Some(vec![
            Some(s("0.75")),
            Some(s("0.62")),
            Some(s("0.58")),
            Some(s("0.70")),
            Some(s("0.45")),
            Some(s("0.68")),
        ]),
        diagnostics: Some(vec![d1, d2]),
    }
}

#[test]
fn test_render_markdown_analyze_structure() {
    let axes = score_axes();
    let v = sample_analyze_view();
    let md = render_markdown_analyze(&v);
    for axis in &axes {
        assert!(md.contains(&axis_label(axis)), "missing axis: {axis}");
    }
    let ds = v.diagnostics.as_ref().unwrap();
    let ranks: Vec<u8> = ds.iter().map(|d| severity_rank(d.severity.as_deref().unwrap())).collect();
    assert!(ranks.contains(&0), "no error group");
    assert!(ranks.contains(&1), "no warning group");
}

#[test]
fn analyze_report_groups_most_severe_first() {
    let md = render_markdown_analyze(&sample_analyze_view());
    assert!(md.starts_with("# Prose Analysis\n\n## Scores\n\n| Axis | Score |\n|------|-------|\n| Concreteness | 0.75 |\n"));
    assert!(md.contains("## Diagnostics (2 issues)\n\n"));
    let errors = md.find("### Errors (1)").unwrap();
    let warnings = md.find("### Warnings (1)").unwrap();
    assert!(errors < warnings);
    assert!(md.contains("- **L6** `tense_consistency` — Tense shift detected. · model · 0.72 confidence\n"));
    assert!(md.ends_with("---\n*Generated by [ironprose](https://ironprose.com) · deterministic craft analyzers*\n"));
    let bare = render_markdown_analyze(&AnalyzeView { score: None, diagnostics: None });
    assert_eq!(
        bare,
        "# Prose Analysis\n\n---\n*Generated by [ironprose](https://ironprose.com) · deterministic craft analyzers*\n"
    );
}

fn sample_compare_view() -> CompareView {
    let mut introduced = diag("paragraph_end_weight", "warning", "Paragraph ends on weak function word.", 6);
    introduced.source_type = Some(s("Heuristic"));
    introduced.confidence = Some(s("0.90"));
    CompareView {
        scores: Some(vec![
            Some(AxisComparison { original: s("0.68"), revised: s("0.79"), delta: s("+0.11") }),
            None,
            None,
            None,
            None,
            None,
        ]),
        fixed: vec![
            diag("repetition", "warning", "Word 'dark' repeated 2 times.", 0),
            diag("repetition", "warning", "Another repetition.", 2),
            diag("passive_voice", "warning", "Passive construction detected.", 3),
        ],
        introduced: vec![introduced],
        persistent: vec![diag("comma_splice", "error", "Comma splice detected.", 1)],
    }
}

#[test]
fn test_render_markdown_compare_counts() {
    let v = sample_compare_view();
    let counts = count_by_rule(&v.fixed);
    // 2 repetition + 1 passive_voice
    assert_eq!(counts.len(), 2);
    assert_eq!(counts[0], ("repetition".into(), 2));
    assert_eq!(counts[1], ("passive_voice".into(), 1));
}

#[test]
fn compare_report_sections() {
    let md = render_markdown_compare(&sample_compare_view());
    assert!(md.starts_with("# Revision Report\n\n## Score Comparison\n\n"));
    assert!(md.contains("| Concreteness | 0.68 | 0.79 | +0.11 |\n"));
    assert!(md.contains("## Fixed (3 issues resolved)\n\n| Rule | Count |\n|------|-------|\n| `repetition` | 2 |\n| `passive_voice` | 1 |\n"));
    assert!(md.contains("## Introduced (1 new issues)\n\n- **L7** `paragraph_end_weight`"));
    assert!(md.contains("## Persistent (1 unchanged)\n\n| Rule | Count |\n|------|-------|\n| `comma_splice` | 1 |\n"));
    let empty = CompareView { scores: None, fixed: vec![], introduced: vec![], persistent: vec![] };
    let md = render_markdown_compare(&empty);
    assert!(md.contains("No issues were fixed."));
    assert!(md.contains("No new issues were introduced."));
    assert!(md.contains("No persistent issues."));
}

#[test]
fn markdown_report_dispatch() {
    let compare_like = obj(vec![("fixed", Json::Array(vec![]))]);
    let analyze_like = obj(vec![("diagnostics", Json::Array(vec![]))]);
    assert!(has_compare_keys(&compare_like));
    assert!(has_compare_keys(&obj(vec![("persistent", Json::Null)])));
    assert!(!has_compare_keys(&analyze_like));
    let v = sample_compare_view();
    let direct = render_markdown_compare(&v);
    assert_eq!(render_markdown(&MarkdownReport::Compare(v)), direct);
    let a = sample_analyze_view();
    let direct = render_markdown_analyze(&a);
    assert_eq!(render_markdown(&MarkdownReport::Analyze(a)), direct);
}

fn empty_text_view() -> TextView {
    TextView {
        rules: None,
        total: None,
        diagnostics: None,
        score_json: None,
        has_compare_keys: false,
        fixed: vec![],
        introduced: vec![],
        persistent: vec![],
        has_both_scores: false,
        score_delta_lines: vec![],
    }
}

#[test]
fn text_output_of_analyze() {
    let mut v = empty_text_view();
    let a = sample_analyze_view();
    v.diagnostics = a.diagnostics;
    v.score_json = Some(s("{\n  \"concreteness\": 0.75\n}"));
    let lines = render_text(&v);
    let texts: Vec<(bool, String)> = lines
        .into_iter()
        .map(|l| (matches!(l.stream, Stream::Stdout), l.text))
        .collect();
    assert!(texts.iter().any(|(out, t)| !out && t.contains("[warning]") && t.contains("[Heuristic 1.00]") && t.contains("[id:d-001]")));
    assert!(texts.iter().any(|(out, t)| !out && t == "\n2 diagnostic(s)"));
    assert!(texts.iter().any(|(out, t)| !out && t.contains("ironprose rate")));
    assert!(texts.iter().any(|(out, t)| *out && t.contains("concreteness")));
}

#[test]
fn text_output_of_list_rules() {
    let mut v = empty_text_view();
    let row = |name: &str, category: &str| RuleRowView {
        name: Some(s(name)),
        category: Some(s(category)),
        rule: None,
        has_total_ratings: false,
        total_ratings: None,
        helpful: None,
        not_helpful: None,
        false_positive: None,
        precision: None,
    };
    v.rules = Some(vec![row("repetition", "style"), row("passive_voice", "grammar"), row("weak_verb", "style")]);
    v.total = Some(3);
    let texts: Vec<String> = render_text(&v).into_iter().map(|l| l.text).collect();
    assert!(texts.iter().any(|t| t == "repetition  [style]"));
    assert!(texts.iter().any(|t| t == "passive_voice  [grammar]"));
    assert!(texts.iter().any(|t| t.contains("3 rule(s)")));
}

#[test]
fn sandbox_relative_workspace_is_canonicalized() {
    let r = resolve_sandboxed_path(".", "some-new-file.md").unwrap();
    assert!(r.starts_with('/'));
    assert!(r.ends_with("/some-new-file.md"));
}

#[test]
fn http_error_message_has_no_line_break() {
    match http_status_to_error(500, "line1\nline2\r\n") {
        ApiError::Http { message, .. } => {
            assert!(!message.contains('\n') && !message.contains('\r'));
            assert!(message.ends_with("Details: line1\\nline2\\r\\n"));
        }
        _ => panic!("expected an HTTP error"),
    }
    match http_status_to_mcp_error(402, "<html>\n<body>") {
        ToolError::InternalError(m) => {
            assert!(!m.contains('\n'));
            assert!(m.contains("Do NOT retry"));
        }
        _ => panic!("expected an internal error"),
    }
    let long = format!("{}\n", "x y ".repeat(80));
    assert!(sanitize_and_truncate_body(&long).len() <= 203);
}

#[test]
fn every_listed_tool_is_served() {
    let empty = obj(vec![]);
    for tool in build_tool_list() {
        assert!(!matches!(plan_tool_call(&tool.name, &empty, None), ToolCall::Unknown { .. }));
        let remote = matches!(plan_tool_call(&tool.name, &empty, None), ToolCall::Remote);
        assert_eq!(remote, mcp_remote_call("b", &tool.name).is_ok());
    }
}

#[test]
fn rule_counts_add_up_to_the_diagnostics() {
    let diags = vec![rule_only("x"), rule_only("y"), rule_only("x"), rule_only("z"), rule_only("x")];
    let counts = count_by_rule(&diags);
    assert_eq!(counts.iter().map(|c| c.1).sum::<usize>(), diags.len());
}

#[test]
fn every_diagnostic_is_in_one_group() {
    let ds = vec![
        diag("a", "error", "m", 0),
        diag("b", "warning", "m", 0),
        diag("c", "information", "m", 0),
        diag("d", "hint", "m", 0),
        diag("e", "custom", "m", 0),
        diag("f", "error", "m", 0),
    ];
    let md = render_markdown_analyze(&AnalyzeView { score: None, diagnostics: Some(ds) });
    assert!(md.contains("## Diagnostics (6 issues)"));
    assert!(md.contains("### Errors (2)"));
    assert!(md.contains("### Warnings (1)"));
    assert!(md.contains("### Info (1)"));
    assert!(md.contains("### Hints (1)"));
    assert!(md.contains("### custom (1)"));
    assert_eq!(md.matches("- **L1**").count(), 6);
}

#[test]
fn escaped_markdown_has_every_pipe_escaped() {
    let out = escape_md("a|b\\|c`d");
    assert_eq!(out, "a\\|b\\\\\\|c\\`d");
    let chars: Vec<char> = out.chars().collect();
    let mut i = 0;
    while i < chars.len() {
        if chars[i] == '\\' {
            assert!(matches!(chars[i + 1], '\\' | '|' | '`'));
            i += 2;
        } else {
            assert!(!matches!(chars[i], '|' | '`'));
            i += 1;
        }
    }
}

