//! Decisions of the local file tools (`read_file`, `write_file`, `list_files`):
//! workspace selection, confinement, paging, size limits and listing rules.
//! The file system itself is reached by the caller.
use vstd::prelude::*;
use crate::mcp::error::{no_workspace_error, sandbox_error, ToolError};
use crate::mcp::sandbox::{relative_path_refusal, resolve_sandboxed_path, sandbox_error_text, SandboxError};
use crate::path::{components, components_exec, is_absolute, path_starts_with, render, render_exec, starts_with_exec};
use crate::text::{chars_of, decimal, push_decimal};

verus! {

/// Maximum bytes returned from a single read_file call (1 MB).
pub const MAX_READ_BYTES: u64 = 1_048_576;

/// Default page size for paginated reads (64 KB).
pub const DEFAULT_PAGE_SIZE: u64 = 65_536;

/// Maximum file size for write_file (1 MB).
pub const MAX_WRITE_BYTES: usize = 1_048_576;

/// The result of a `read_file` call.
#[derive(Debug)]
pub struct ReadFileResult {
    pub content: String,
    pub file_size: u64,
    pub offset: u64,
    pub bytes_read: u64,
    pub truncated: bool,
}

/// The result of a `write_file` call.
#[derive(Debug)]
pub struct WriteFileResult {
    pub success: bool,
    pub bytes_written: usize,
    pub path: String,
}

/// The result of a `list_files` call.
#[derive(Debug)]
pub struct ListFilesResult {
    pub files: Vec<FileEntry>,
}

/// One entry of a workspace listing.
#[derive(Debug)]
pub struct FileEntry {
    pub path: String,
    pub is_directory: bool,
    pub size: Option<u64>,
}

/// The workspace a request uses: an explicit non-empty one, else the configured default.
pub open spec fn chosen_workspace(explicit: Option<Seq<char>>, default: Option<Seq<char>>) -> Option<
    Seq<char>,
> {
    match explicit {
        Some(e) => if e.len() > 0 {
            Some(e)
        } else {
            default
        },
        None => default,
    }
}

/// An optional string seen as its characters.
pub open spec fn opt_view(o: Option<String>) -> Option<Seq<char>> {
    match o {
        Some(s) => Some(s@),
        None => None,
    }
}

/// An optional string slice seen as its characters.
pub open spec fn opt_str_view(o: Option<&str>) -> Option<Seq<char>> {
    match o {
        Some(s) => Some(s@),
        None => None,
    }
}

/// Resolve workspace_dir parameter: use explicit if provided, else fall back to configured default.
pub fn resolve_workspace(explicit: Option<&str>, default: Option<&String>) -> (r: Option<String>)
    ensures
        opt_view(r) == chosen_workspace(
            opt_str_view(explicit),
            match default {
                Some(d) => Some(d@),
                None => None,
            },
        ),
{
    match explicit {
        Some(e) => {
            if e.unicode_len() > 0 {
                return Some(String::from_str(e));
            }
        },
        None => {},
    }
    match default {
        Some(d) => Some(d.clone()),
        None => None,
    }
}

/// Finds `relative_path` inside the workspace, if one is configured: the error
/// for a missing workspace, or the sandbox's verdict turned into an MCP error.
pub fn locate_in_workspace(workspace: Option<&str>, relative_path: &str) -> (r: Result<
    String,
    ToolError,
>)
    ensures
        workspace is None ==> (r matches Err(ToolError::InvalidParams(m)) && m@
            == "No workspace directory configured. Set IRONPROSE_WORKSPACE environment variable or pass workspace_dir parameter."@),
        workspace is Some ==> (relative_path_refusal(relative_path@) matches Some(e) ==> (
        r matches Err(ToolError::InvalidParams(m)) && m@ == "Workspace sandbox violation: "@
            + sandbox_error_text(e))),
        workspace is Some && relative_path_refusal(relative_path@) is None ==> match r {
            Ok(p) => is_absolute(p@),
            Err(ToolError::InvalidParams(m)) => exists|e: SandboxError|
                (e is OutsideWorkspace || e is IoError) && m@ == "Workspace sandbox violation: "@
                    + sandbox_error_text(e),
            Err(ToolError::InternalError(_)) => false,
        },
{
    match workspace {
        None => Err(no_workspace_error()),
        Some(ws) => match resolve_sandboxed_path(ws, relative_path) {
            Ok(p) => Ok(p),
            Err(e) => {
                let text = e.message();
                Err(sandbox_error(text.as_str()))
            },
        },
    }
}

/// The number of bytes a read may return: the requested page size (64 KB by
/// default), capped at 1 MB.
pub open spec fn page_size(max_bytes: Option<u64>) -> u64 {
    let wanted = match max_bytes {
        Some(m) => m,
        None => DEFAULT_PAGE_SIZE,
    };
    if wanted < MAX_READ_BYTES {
        wanted
    } else {
        MAX_READ_BYTES
    }
}

/// How many bytes a read at `offset` of a file of `file_size` bytes asks for;
/// zero when the offset is at or past the end.
pub open spec fn bytes_to_read(file_size: u64, offset: u64, max_bytes: Option<u64>) -> u64 {
    if offset >= file_size {
        0
    } else {
        let rest = (file_size - offset) as u64;
        if page_size(max_bytes) < rest {
            page_size(max_bytes)
        } else {
            rest
        }
    }
}

/// How many bytes to read from a file of `file_size` bytes, starting at
/// `offset` (0 by default), for a request of at most `max_bytes`.
pub fn plan_read(file_size: u64, offset: Option<u64>, max_bytes: Option<u64>) -> (r: (u64, u64))
    ensures
        r.0 == (match offset {
            Some(o) => o,
            None => 0,
        }),
        r.1 == bytes_to_read(file_size, r.0, max_bytes),
        r.1 <= MAX_READ_BYTES,
        r.0 < file_size ==> r.0 + r.1 <= file_size,
{
    let off = match offset {
        Some(o) => o,
        None => 0,
    };
    let wanted = match max_bytes {
        Some(m) => m,
        None => DEFAULT_PAGE_SIZE,
    };
    let page = if wanted < MAX_READ_BYTES {
        wanted
    } else {
        MAX_READ_BYTES
    };
    if off >= file_size {
        (off, 0)
    } else {
        let rest = file_size - off;
        (off, if page < rest {
            page
        } else {
            rest
        })
    }
}

/// The result of a read at `offset` that returned `bytes_read` bytes decoded as
/// `content`: it is truncated when bytes remain after the part returned.
pub fn finish_read(content: String, file_size: u64, offset: u64, bytes_read: u64) -> (r:
    ReadFileResult)
    requires
        offset < file_size ==> offset + bytes_read <= file_size,
        offset >= file_size ==> bytes_read == 0,
    ensures
        r.content == content,
        r.file_size == file_size,
        r.offset == offset,
        r.bytes_read == bytes_read,
        r.truncated == (offset + bytes_read < file_size),
{
    let truncated = if offset >= file_size {
        false
    } else {
        offset + bytes_read < file_size
    };
    ReadFileResult { content, file_size, offset, bytes_read, truncated }
}

/// The message for content above the write limit.
pub open spec fn write_too_large_message() -> Seq<char> {
    "Content exceeds maximum write size ("@ + decimal(MAX_WRITE_BYTES as nat)
        + " bytes). Split large content into multiple writes."@
}

/// Refuses content longer than 1 MB (counted in UTF-8 bytes).
pub fn check_write_size(content: &str) -> (r: Result<(), ToolError>)
    ensures
        vstd::utf8::encode_utf8(content@).len() <= MAX_WRITE_BYTES ==> r is Ok,
        vstd::utf8::encode_utf8(content@).len() > MAX_WRITE_BYTES ==> (r matches Err(
            ToolError::InvalidParams(m),
        ) && m@ == write_too_large_message()),
{
    if content.as_bytes().len() > MAX_WRITE_BYTES {
        let mut m = String::from_str("Content exceeds maximum write size (");
        push_decimal(&mut m, MAX_WRITE_BYTES as u64);
        m.append(" bytes). Split large content into multiple writes.");
        Err(ToolError::InvalidParams(m))
    } else {
        Ok(())
    }
}

/// Checks that directories created for a write stayed inside the workspace.
pub fn check_created_parent(canonical_parent: &str, canonical_workspace: &str) -> (r: Result<
    (),
    ToolError,
>)
    ensures
        path_starts_with(canonical_parent@, canonical_workspace@) ==> r is Ok,
        !path_starts_with(canonical_parent@, canonical_workspace@) ==> (r matches Err(
            ToolError::InvalidParams(m),
        ) && m@ == "Workspace sandbox violation: "@ + "Created directories escaped the workspace"@),
{
    if starts_with_exec(canonical_parent, canonical_workspace) {
        Ok(())
    } else {
        Err(sandbox_error("Created directories escaped the workspace"))
    }
}

/// The result of a successful write of `bytes_written` bytes to `relative_path`.
pub fn write_result(relative_path: &str, bytes_written: usize) -> (r: WriteFileResult)
    ensures
        r.success,
        r.bytes_written == bytes_written,
        r.path@ == relative_path@,
{
    WriteFileResult { success: true, bytes_written, path: String::from_str(relative_path) }
}

/// A listed name is hidden when it starts with a dot.
pub open spec fn is_hidden(name: Seq<char>) -> bool {
    name.len() > 0 && name[0] == '.'
}

/// The text of `path` relative to `root`, or `path` itself when it does not lie
/// under `root` (as `strip_prefix(root).unwrap_or(path)`).
pub open spec fn relative_to(path: Seq<char>, root: Seq<char>) -> Seq<char> {
    if path_starts_with(path, root) {
        render(false, components(path).skip(components(root).len() as int))
    } else {
        path
    }
}

/// The text of `path` relative to `root`, or `path` itself when it does not lie under `root`.
#[verifier::spinoff_prover]
pub fn relative_to_exec(path: &str, root: &str) -> (r: String)
    ensures
        r@ == relative_to(path@, root@),
{
    if starts_with_exec(path, root) {
        let pv = chars_of(path);
        let rv = chars_of(root);
        let pc = components_exec(&pv);
        let rc = components_exec(&rv);
        let mut rest: Vec<Vec<char>> = Vec::new();
        let mut i: usize = rc.len();
        while i < pc.len()
            invariant
                rc@.len() <= i <= pc@.len(),
                rest.deep_view() == pc.deep_view().subrange(rc@.len() as int, i as int),
            decreases pc@.len() - i,
        {
            let ghost old_r = rest.deep_view();
            let c = pc[i].clone();
            rest.push(c);
            assert(rest.deep_view() =~= old_r.push(pc.deep_view()[i as int]));
            assert(pc.deep_view().subrange(rc@.len() as int, i + 1) =~= old_r.push(
                pc.deep_view()[i as int],
            ));
            i = i + 1;
        }
        assert(pc.deep_view().skip(rc@.len() as int) =~= rest.deep_view());
        render_exec(false, &rest)
    } else {
        String::from_str(path)
    }
}

/// What a directory listing records for one entry: hidden names and symbolic
/// links to directories are skipped; directories carry no size.
pub fn list_entry(
    name: &str,
    path: &str,
    workspace_root: &str,
    is_symlink: bool,
    points_to_directory: bool,
    is_directory: bool,
    len: u64,
) -> (r: Option<FileEntry>)
    ensures
        (is_hidden(name@) || (is_symlink && points_to_directory)) <==> r is None,
        r matches Some(e) ==> e.path@ == relative_to(path@, workspace_root@) && e.is_directory
            == is_directory && e.size == (if is_directory {
            None::<u64>
        } else {
            Some(len)
        }),
{
    let nv = chars_of(name);
    if nv.len() > 0 && nv[0] == '.' {
        return None;
    }
    if is_symlink && points_to_directory {
        return None;
    }
    let rel = relative_to_exec(path, workspace_root);
    Some(FileEntry { path: rel, is_directory, size: if is_directory {
        None
    } else {
        Some(len)
    } })
}

/// The canonical directories a recursive listing has entered; no directory
/// appears twice.
pub struct VisitedDirs {
    dirs: Vec<String>,
}

impl VisitedDirs {
    /// The directories entered so far.
    pub closed spec fn entered(self) -> Seq<Seq<char>> {
        self.dirs@.map_values(|d: String| d@)
    }

    /// No directory is recorded twice.
    pub closed spec fn wf(self) -> bool {
        forall|i: int, j: int|
            0 <= i < j < self.dirs@.len() ==> self.dirs@[i]@ != self.dirs@[j]@
    }

    /// An empty record.
    pub fn new() -> (r: Self)
        ensures
            r.wf(),
            r.entered() == Seq::<Seq<char>>::empty(),
    {
        let r = VisitedDirs { dirs: Vec::new() };
        assert(r.entered() =~= Seq::<Seq<char>>::empty());
        r
    }

    /// Whether `dir` was entered.
    pub fn contains(&self, dir: &str) -> (b: bool)
        ensures
            b == self.entered().contains(dir@),
    {
        let dv = chars_of(dir);
        let mut i: usize = 0;
        while i < self.dirs.len()
            invariant
                0 <= i <= self.dirs@.len(),
                dv@ == dir@,
                forall|k: int| 0 <= k < i ==> self.dirs@[k]@ != dir@,
            decreases self.dirs@.len() - i,
        {
            let cv = chars_of(self.dirs[i].as_str());
            if crate::text::vec_chars_eq(&cv, &dv) {
                assert(self.entered()[i as int] == dir@);
                return true;
            }
            i = i + 1;
        }
        assert forall|k: int| 0 <= k < self.entered().len() implies self.entered()[k] != dir@ by {
            assert(self.entered()[k] == self.dirs@[k]@);
        }
        false
    }

    /// Records `dir`; returns whether it was new, as `HashSet::insert`.
    pub fn insert(&mut self, dir: &str) -> (b: bool)
        requires
            old(self).wf(),
        ensures
            final(self).wf(),
            b == !old(self).entered().contains(dir@),
            b ==> final(self).entered() == old(self).entered().push(dir@),
            !b ==> final(self).entered() == old(self).entered(),
    {
        if self.contains(dir) {
            false
        } else {
            let ghost before = self.entered();
            self.dirs.push(String::from_str(dir));
            assert(self.entered() =~= before.push(dir@));
            assert forall|i: int, j: int|
                0 <= i < j < self.dirs@.len() implies self.dirs@[i]@ != self.dirs@[j]@ by {
                if j == self.dirs@.len() - 1 {
                    assert(before[i] == self.dirs@[i]@);
                }
            }
            true
        }
    }
}

/// Whether a recursive listing descends into a directory, given its canonical
/// form (`None` when it could not be canonicalized): only inside the workspace
/// and only the first time. A directory descended into is recorded.
pub fn should_descend(
    canonical_dir: Option<&str>,
    workspace_root: &str,
    visited: &mut VisitedDirs,
) -> (b: bool)
    requires
        old(visited).wf(),
    ensures
        final(visited).wf(),
        b <==> (canonical_dir matches Some(d) && path_starts_with(d@, workspace_root@)
            && !old(visited).entered().contains(d@)),
        b ==> final(visited).entered() == old(visited).entered().push(canonical_dir.unwrap()@),
        !b ==> final(visited).entered() == old(visited).entered(),
{
    match canonical_dir {
        None => false,
        Some(d) => {
            if !starts_with_exec(d, workspace_root) {
                false
            } else {
                visited.insert(d)
            }
        },
    }
}

} // verus!
