//! The local audit log of write operations in the workspace: where it lives and
//! what each entry says. Entries are appended as JSON lines to
//! `.ironprose/audit.jsonl` inside the workspace; the log never leaves the
//! local machine.
use vstd::prelude::*;
use crate::foreign::now_rfc3339;
use crate::path::{join_relative, join_relative_exec};

verus! {

/// The file of the audit log of a workspace: `<workspace>/.ironprose/audit.jsonl`.
pub open spec fn audit_log_path_spec(workspace: Seq<char>) -> Seq<char> {
    join_relative(join_relative(workspace, ".ironprose"@), "audit.jsonl"@)
}

/// The audit log file for the given workspace directory.
pub fn audit_log_path(workspace: &str) -> (r: String)
    ensures
        r@ == audit_log_path_spec(workspace@),
{
    let dir = join_relative_exec(workspace, ".ironprose");
    join_relative_exec(dir.as_str(), "audit.jsonl")
}

/// One entry of the audit log.
#[derive(Debug)]
pub struct AuditEntry {
    pub timestamp: String,
    pub operation: String,
    pub path: String,
    pub bytes_written: Option<usize>,
    pub truncated: bool,
}

/// The entry that records a write of `bytes_written` bytes to `relative_path`
/// at the given time.
pub fn write_entry(timestamp: String, relative_path: &str, bytes_written: usize) -> (e: AuditEntry)
    ensures
        e.timestamp@ == timestamp@,
        e.operation@ == "write_file"@,
        e.path@ == relative_path@,
        e.bytes_written == Some(bytes_written),
        !e.truncated,
{
    AuditEntry {
        timestamp,
        operation: String::from_str("write_file"),
        path: String::from_str(relative_path),
        bytes_written: Some(bytes_written),
        truncated: false,
    }
}

/// The entry that records a write of `bytes_written` bytes to `relative_path`
/// now, the time written as RFC 3339 in UTC.
pub fn record_write(relative_path: &str, bytes_written: usize) -> (e: AuditEntry)
    ensures
        e.operation@ == "write_file"@,
        e.path@ == relative_path@,
        e.bytes_written == Some(bytes_written),
        !e.truncated,
{
    write_entry(now_rfc3339(), relative_path, bytes_written)
}

} // verus!
