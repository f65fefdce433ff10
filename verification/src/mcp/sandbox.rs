//! Confinement of relative paths to a workspace directory.
use vstd::prelude::*;
use crate::foreign::{canonicalize_path, path_exists};
use crate::input::{has_parent_component, path_has_parent_component};
use crate::path::{components, components_exec, is_absolute, join_relative, join_relative_exec, path_starts_with, render, render_exec, starts_with_exec};
use crate::text::chars_of;

verus! {

/// Why a path was refused.
#[derive(Debug)]
pub enum SandboxError {
    EmptyPath,
    AbsolutePath,
    TraversalAttempt,
    NullByte,
    OutsideWorkspace,
    IoError(String),
}

/// The user-facing text of a sandbox error.
pub open spec fn sandbox_error_text(e: SandboxError) -> Seq<char> {
    match e {
        SandboxError::EmptyPath => "Path must not be empty"@,
        SandboxError::AbsolutePath => "Absolute paths are not allowed; use a relative path within the workspace"@,
        SandboxError::TraversalAttempt => "Path traversal (.. components) is not allowed"@,
        SandboxError::NullByte => "Null bytes in path are not allowed"@,
        SandboxError::OutsideWorkspace => "Resolved path is outside the workspace sandbox"@,
        SandboxError::IoError(m) => m@,
    }
}

impl SandboxError {
    /// The user-facing text of the error.
    pub fn message(&self) -> (r: String)
        ensures
            r@ == sandbox_error_text(*self),
    {
        match self {
            SandboxError::EmptyPath => String::from_str("Path must not be empty"),
            SandboxError::AbsolutePath => String::from_str(
                "Absolute paths are not allowed; use a relative path within the workspace",
            ),
            SandboxError::TraversalAttempt => String::from_str(
                "Path traversal (.. components) is not allowed",
            ),
            SandboxError::NullByte => String::from_str("Null bytes in path are not allowed"),
            SandboxError::OutsideWorkspace => String::from_str(
                "Resolved path is outside the workspace sandbox",
            ),
            SandboxError::IoError(m) => m.clone(),
        }
    }
}

/// The refusal of a relative path that its text alone decides, if any.
pub open spec fn relative_path_refusal(rel: Seq<char>) -> Option<SandboxError> {
    if rel.len() == 0 {
        Some(SandboxError::EmptyPath)
    } else if is_absolute(rel) {
        Some(SandboxError::AbsolutePath)
    } else if path_has_parent_component(rel) {
        Some(SandboxError::TraversalAttempt)
    } else if rel.contains('\0') {
        Some(SandboxError::NullByte)
    } else {
        None
    }
}

/// Checks a relative path before the file system is consulted: it must be
/// non-empty, relative, free of `..` components and free of NUL characters.
pub fn check_relative_path(rel: &str) -> (r: Result<(), SandboxError>)
    ensures
        relative_path_refusal(rel@) matches Some(e) ==> r == Err::<(), SandboxError>(e),
        relative_path_refusal(rel@) is None ==> r is Ok,
{
    let v = chars_of(rel);
    if v.len() == 0 {
        return Err(SandboxError::EmptyPath);
    }
    if v[0] == '/' {
        return Err(SandboxError::AbsolutePath);
    }
    if has_parent_component(rel) {
        return Err(SandboxError::TraversalAttempt);
    }
    let mut i: usize = 0;
    while i < v.len()
        invariant
            0 <= i <= v@.len(),
            v@ == rel@,
            v@.len() > 0,
            !is_absolute(rel@),
            !path_has_parent_component(rel@),
            forall|j: int| 0 <= j < i ==> v@[j] != '\0',
        decreases v@.len() - i,
    {
        if v[i] == '\0' {
            assert(rel@[i as int] == '\0');
            assert(rel@.contains('\0'));
            return Err(SandboxError::NullByte);
        }
        i = i + 1;
    }
    Ok(())
}

/// Keeps `candidate` only when it lies inside `canonical_workspace`, compared
/// component by component.
pub fn confine(canonical_workspace: &str, candidate: String) -> (r: Result<String, SandboxError>)
    ensures
        path_starts_with(candidate@, canonical_workspace@) ==> r == Ok::<String, SandboxError>(
            candidate,
        ),
        !path_starts_with(candidate@, canonical_workspace@) ==> r == Err::<String, SandboxError>(
            SandboxError::OutsideWorkspace,
        ),
{
    if starts_with_exec(candidate.as_str(), canonical_workspace) {
        Ok(candidate)
    } else {
        Err(SandboxError::OutsideWorkspace)
    }
}

/// Rebuilds a not-yet-existing target under the canonical form of its nearest
/// existing ancestor, which holds the first `kept` components of the target.
pub fn rebase_onto(canonical_ancestor: &str, target_components: &Vec<Vec<char>>, kept: usize) -> (r:
    String)
    requires
        kept <= target_components@.len(),
    ensures
        r@ == join_relative(
            canonical_ancestor@,
            render(false, target_components.deep_view().skip(kept as int)),
        ),
{
    let mut suffix: Vec<Vec<char>> = Vec::new();
    let mut i: usize = kept;
    while i < target_components.len()
        invariant
            kept <= i <= target_components@.len(),
            suffix.deep_view() == target_components.deep_view().subrange(kept as int, i as int),
        decreases target_components@.len() - i,
    {
        let ghost old_s = suffix.deep_view();
        let c = target_components[i].clone();
        assert(c.deep_view() == target_components.deep_view()[i as int]);
        suffix.push(c);
        assert(suffix.deep_view() =~= old_s.push(target_components.deep_view()[i as int]));
        assert(target_components.deep_view().subrange(kept as int, i + 1) =~= old_s.push(
            target_components.deep_view()[i as int],
        ));
        i = i + 1;
    }
    assert(target_components.deep_view().skip(kept as int) =~= suffix.deep_view());
    let rel = render_exec(false, &suffix);
    join_relative_exec(canonical_ancestor, rel.as_str())
}

fn take_components(cs: &Vec<Vec<char>>, k: usize) -> (r: Vec<Vec<char>>)
    requires
        k <= cs@.len(),
    ensures
        r.deep_view() == cs.deep_view().take(k as int),
{
    let mut out: Vec<Vec<char>> = Vec::new();
    let mut i: usize = 0;
    while i < k
        invariant
            0 <= i <= k <= cs@.len(),
            out.deep_view() == cs.deep_view().take(i as int),
        decreases k - i,
    {
        let ghost old_o = out.deep_view();
        let c = cs[i].clone();
        out.push(c);
        assert(out.deep_view() =~= old_o.push(cs.deep_view()[i as int]));
        assert(cs.deep_view().take(i + 1) =~= old_o.push(cs.deep_view()[i as int]));
        i = i + 1;
    }
    out
}

fn io_error(prefix: &str, detail: &str) -> (e: SandboxError)
    ensures
        e matches SandboxError::IoError(m) && m@ == prefix@ + detail@,
{
    let mut m = String::from_str(prefix);
    m.append(detail);
    SandboxError::IoError(m)
}

/// Resolves `relative_path` inside a workspace whose canonical form is
/// `canonical_workspace`.
///
/// An existing target is canonicalized (symbolic links resolved); a missing one
/// is rebuilt under the canonical form of its nearest existing ancestor, which
/// must itself lie inside the workspace. Whatever the file system answers, a
/// returned path lies inside `canonical_workspace`.
#[verifier::spinoff_prover]
pub fn resolve_in_canonical_workspace(canonical_workspace: &str, relative_path: &str) -> (r:
    Result<String, SandboxError>)
    ensures
        relative_path_refusal(relative_path@) matches Some(e) ==> r == Err::<String, SandboxError>(
            e,
        ),
        relative_path_refusal(relative_path@) is None ==> match r {
            Ok(p) => path_starts_with(p@, canonical_workspace@),
            Err(e) => e is OutsideWorkspace || e is IoError,
        },
{
    match check_relative_path(relative_path) {
        Err(e) => {
            return Err(e);
        },
        Ok(()) => {},
    }
    let target = join_relative_exec(canonical_workspace, relative_path);
    let candidate: String;
    if path_exists(target.as_str()) {
        match canonicalize_path(target.as_str()) {
            Ok(c) => {
                candidate = c;
            },
            Err(e) => {
                return Err(io_error("Cannot canonicalize target: ", e.as_str()));
            },
        }
    } else {
        let tv = chars_of(target.as_str());
        let absolute = tv.len() > 0 && tv[0] == '/';
        let comps = components_exec(&tv);
        let n = comps.len();
        if n == 0 {
            return Err(SandboxError::IoError(String::from_str("No parent directory")));
        }
        let mut k: usize = n;
        let mut found: Option<(usize, String)> = None;
        while k > 0
            invariant_except_break
                found is None,
            invariant
                0 <= k <= n,
                n == comps@.len(),
            ensures
                found matches Some((kk, _)) ==> kk < n,
            decreases k,
        {
            k = k - 1;
            let prefix = take_components(&comps, k);
            let probe = render_exec(absolute, &prefix);
            if path_exists(probe.as_str()) {
                found = Some((k, probe));
                break;
            }
        }
        match found {
            None => {
                let parent = take_components(&comps, n - 1);
                let shown = render_exec(absolute, &parent);
                return Err(io_error("No existing ancestor directory found for: ", shown.as_str()));
            },
            Some((kept, ancestor)) => {
                match canonicalize_path(ancestor.as_str()) {
                    Err(e) => {
                        return Err(io_error("Cannot canonicalize ancestor: ", e.as_str()));
                    },
                    Ok(canonical_ancestor) => {
                        if !starts_with_exec(canonical_ancestor.as_str(), canonical_workspace) {
                            return Err(SandboxError::OutsideWorkspace);
                        }
                        candidate = rebase_onto(canonical_ancestor.as_str(), &comps, kept);
                    },
                }
            },
        }
    }
    confine(canonical_workspace, candidate)
}

/// Validate and canonicalize a path, ensuring it stays within the workspace sandbox.
///
/// # Security properties
/// - Resolves symlinks via canonicalization to prevent symlink traversal.
/// - Rejects `..` components before canonicalization as an early guard.
/// - Confirms the canonical path starts with the canonical workspace prefix.
/// - Rejects absolute paths in the relative component.
pub fn resolve_sandboxed_path(workspace: &str, relative_path: &str) -> (r: Result<
    String,
    SandboxError,
>)
    ensures
        relative_path_refusal(relative_path@) matches Some(e) ==> r == Err::<String, SandboxError>(
            e,
        ),
        relative_path_refusal(relative_path@) is None ==> match r {
            Ok(p) => is_absolute(p@),
            Err(e) => e is OutsideWorkspace || e is IoError,
        },
{
    match check_relative_path(relative_path) {
        Err(e) => {
            return Err(e);
        },
        Ok(()) => {},
    }
    match canonicalize_path(workspace) {
        Err(e) => Err(io_error("Cannot canonicalize workspace: ", e.as_str())),
        Ok(canonical_workspace) => {
            let r = resolve_in_canonical_workspace(canonical_workspace.as_str(), relative_path);
            proof {
                if r is Ok {
                    let p = r->Ok_0;
                    assert(path_starts_with(p@, canonical_workspace@));
                    assert(is_absolute(canonical_workspace@));
                }
            }
            r
        },
    }
}

} // verus!
