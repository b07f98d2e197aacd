//! The rules of the file write tools (`write_file`, `patch_file`,
//! `copy_file`): where they may write, how they agree with the confirmed
//! execution scope, the hash checks that guard against lost updates, and
//! the exact-match patch.
use vstd::prelude::*;
use vstd::utf8::{encode_utf8, valid_utf8};
use sha2::Digest;
use crate::scope::{AgentExecutionScope, ScopeView, opt_scope_view, opt_string};
use crate::text::{
    append_lit, chars_of, contains, contains_exec, find, find_exec, occurs_at, slice_vec, string_of, surround,
};
use crate::tool_policy::{ToolPolicyError, denied, invalid, unit_result};
use crate::workspace_path::{first_segment, first_segment_exec, is_cadquery_model_path, is_cadquery_model_path_exec};

verus! {

/// A refusal because the workspace changed or disagrees.
pub open spec fn conflict(message: Seq<char>) -> (Seq<char>, Seq<char>) {
    (message, "file_conflict"@)
}

fn err_of(message: &str, error_type: &'static str) -> (r: ToolPolicyError)
    ensures
        r@ == (message@, error_type@),
{
    ToolPolicyError { message: message.to_owned(), error_type }
}

// ---------------------------------------------------------------------------
// Where the tools write

/// What a write target is written for.
#[derive(Debug, Clone, Copy, PartialEq, Eq, Structural)]
pub enum WriteTargetPolicy {
    WriteFile,
    CopyTarget,
}

/// What an existing file is read for.
#[derive(Debug, Clone, Copy, PartialEq, Eq, Structural)]
pub enum ExistingFilePolicy {
    PatchTarget,
    CopySource,
}

impl WriteTargetPolicy {
    /// Only a copy may create a CadQuery model source.
    pub fn allows_model_target(self) -> (r: bool)
        ensures
            r == (self == WriteTargetPolicy::CopyTarget),
    {
        match self {
            WriteTargetPolicy::CopyTarget => true,
            WriteTargetPolicy::WriteFile => false,
        }
    }
}

impl ExistingFilePolicy {
    /// Only a copy may read a CadQuery model source.
    pub fn allows_model_source(self) -> (r: bool)
        ensures
            r == (self == ExistingFilePolicy::CopySource),
    {
        match self {
            ExistingFilePolicy::CopySource => true,
            ExistingFilePolicy::PatchTarget => false,
        }
    }
}

/// The roots that file write tools may touch.
pub open spec fn write_root_allowed(root: Seq<char>) -> bool {
    root == "components"@ || root == "parts"@ || root == "assemblies"@ || root == "refs"@ || root == "docs"@
}

/// The roots that file write tools never touch.
pub open spec fn write_root_denied(root: Seq<char>) -> bool {
    root == ".git"@ || root == "target"@ || root == "node_modules"@ || root == "outputs"@ || root
        == ".budn_staging"@ || root == "chats"@
}

/// A resolved workspace path that a write tool may touch.
pub open spec fn actual_write_path_check(relative: Seq<char>, allow_model: bool) -> Result<
    (),
    (Seq<char>, Seq<char>),
> {
    let root = first_segment(relative);
    if write_root_denied(root) || !write_root_allowed(root) {
        Err(denied("path root '"@ + root + "' is not allowed for file write tools"@))
    } else if !allow_model && is_cadquery_model_path(relative) {
        Err(denied("CadQuery model .py files must be modified through CadQuery tools"@))
    } else {
        Ok(())
    }
}

/// Checks the resolved path that a write tool touches.
pub fn validate_actual_write_path(relative: &str, allow_cadquery_model: bool) -> (r: Result<(), ToolPolicyError>)
    ensures
        unit_result(r) == actual_write_path_check(relative@, allow_cadquery_model),
{
    let rel = chars_of(relative);
    let root = first_segment_exec(&rel);
    let eq = |lit: &str| -> (b: bool)
        ensures
            b == (root@ == lit@),
        { crate::text::eq_lit(&root, lit) };
    let denied_root = eq(".git") || eq("target") || eq("node_modules") || eq("outputs") || eq(".budn_staging")
        || eq("chats");
    let allowed_root = eq("components") || eq("parts") || eq("assemblies") || eq("refs") || eq("docs");
    if denied_root || !allowed_root {
        let m = surround("path root '", &root, "' is not allowed for file write tools");
        return Err(ToolPolicyError { message: string_of(&m), error_type: "permission_denied" });
    }
    if !allow_cadquery_model && is_cadquery_model_path_exec(&rel) {
        return Err(err_of("CadQuery model .py files must be modified through CadQuery tools", "permission_denied"));
    }
    Ok(())
}

/// Inside a confirmed scope, `write_file` overwrites only affected files
/// and creates only new files; `copy_file` creates only new files.
pub open spec fn write_scope_check(
    relative: Seq<char>,
    existed: bool,
    scope: Option<ScopeView>,
    policy: WriteTargetPolicy,
) -> Result<(), (Seq<char>, Seq<char>)> {
    match scope {
        None => Ok(()),
        Some(sc) => match policy {
            WriteTargetPolicy::WriteFile => if existed && sc.affected_files.contains(relative) {
                Ok(())
            } else if !existed && sc.new_files.contains(relative) {
                Ok(())
            } else if sc.new_files.contains(relative) || sc.affected_files.contains(relative) {
                Err(conflict("execution scope file state does not match workspace"@))
            } else {
                Err(denied("path is outside execution scope"@))
            },
            WriteTargetPolicy::CopyTarget => if sc.new_files.contains(relative) {
                Ok(())
            } else {
                Err(denied("copy_file target must be in execution new_files"@))
            },
        },
    }
}

/// Checks a write target against the confirmed scope.
pub fn validate_write_execution_scope(
    relative: &str,
    existed: bool,
    execution_scope: Option<&AgentExecutionScope>,
    policy: WriteTargetPolicy,
) -> (r: Result<(), ToolPolicyError>)
    ensures
        unit_result(r) == write_scope_check(relative@, existed, opt_scope_view(execution_scope), policy),
{
    let sc = match execution_scope {
        None => return Ok(()),
        Some(s) => s,
    };
    let rel = chars_of(relative);
    match policy {
        WriteTargetPolicy::WriteFile => {
            let affected = sc.contains_affected_file(&rel);
            let new = sc.contains_new_file(&rel);
            if existed && affected {
                Ok(())
            } else if !existed && new {
                Ok(())
            } else if new || affected {
                Err(err_of("execution scope file state does not match workspace", "file_conflict"))
            } else {
                Err(err_of("path is outside execution scope", "permission_denied"))
            }
        },
        WriteTargetPolicy::CopyTarget => if sc.contains_new_file(&rel) {
            Ok(())
        } else {
            Err(err_of("copy_file target must be in execution new_files", "permission_denied"))
        },
    }
}

/// Inside a confirmed scope, `patch_file` patches only affected files.
pub open spec fn existing_affected_check(relative: Seq<char>, scope: Option<ScopeView>) -> Result<
    (),
    (Seq<char>, Seq<char>),
> {
    match scope {
        None => Ok(()),
        Some(sc) => if sc.affected_files.contains(relative) {
            Ok(())
        } else if sc.new_files.contains(relative) {
            Err(conflict("execution new_files cannot patch existing files"@))
        } else {
            Err(denied("path is outside execution scope"@))
        },
    }
}

pub fn validate_existing_affected_scope(relative: &str, execution_scope: Option<&AgentExecutionScope>) -> (r: Result<
    (),
    ToolPolicyError,
>)
    ensures
        unit_result(r) == existing_affected_check(relative@, opt_scope_view(execution_scope)),
{
    let sc = match execution_scope {
        None => return Ok(()),
        Some(s) => s,
    };
    let rel = chars_of(relative);
    if sc.contains_affected_file(&rel) {
        Ok(())
    } else if sc.contains_new_file(&rel) {
        Err(err_of("execution new_files cannot patch existing files", "file_conflict"))
    } else {
        Err(err_of("path is outside execution scope", "permission_denied"))
    }
}

/// A copy may create a CadQuery model source only from another one.
pub open spec fn copy_model_boundary_check(source: Seq<char>, target: Seq<char>) -> Result<(), (Seq<char>, Seq<char>)> {
    if is_cadquery_model_path(target) && !is_cadquery_model_path(source) {
        Err(denied("CadQuery model .py copy targets require a CadQuery model .py source"@))
    } else {
        Ok(())
    }
}

pub fn validate_copy_model_boundary(source: &str, target: &str) -> (r: Result<(), ToolPolicyError>)
    ensures
        unit_result(r) == copy_model_boundary_check(source@, target@),
{
    if is_cadquery_model_path_exec(&chars_of(target)) && !is_cadquery_model_path_exec(&chars_of(source)) {
        Err(err_of("CadQuery model .py copy targets require a CadQuery model .py source", "permission_denied"))
    } else {
        Ok(())
    }
}

// ---------------------------------------------------------------------------
// Text and hashes

/// Bytes that the write tools accept as text: UTF-8 without NUL.
pub open spec fn text_bytes_ok(bytes: Seq<u8>) -> bool {
    !bytes.contains(0u8) && valid_utf8(bytes)
}

/// `std::str::from_utf8` succeeds exactly on valid UTF-8.
#[verifier::external_body]
fn is_utf8(bytes: &[u8]) -> (r: bool)
    ensures
        r == valid_utf8(bytes@),
{
    std::str::from_utf8(bytes).is_ok()
}

/// Refuses bytes that are not UTF-8 text or hold a NUL byte.
pub fn validate_text_bytes(bytes: &[u8]) -> (r: Result<(), ToolPolicyError>)
    ensures
        r is Ok <==> text_bytes_ok(bytes@),
        r matches Err(e) ==> e@ == invalid("file contents must be UTF-8 text"@),
{
    let mut i: usize = 0;
    while i < bytes.len()
        invariant
            i <= bytes.len(),
            forall|j: int| 0 <= j < i ==> bytes@[j] != 0u8,
        decreases bytes.len() - i,
    {
        if bytes[i] == 0 {
            proof {
                assert(bytes@.contains(0u8));
            }
            return Err(err_of("file contents must be UTF-8 text", "invalid_arguments"));
        }
        i = i + 1;
    }
    if !is_utf8(bytes) {
        return Err(err_of("file contents must be UTF-8 text", "invalid_arguments"));
    }
    Ok(())
}

/// The SHA-256 digest of a byte sequence.
pub uninterp spec fn sha256_of(bytes: Seq<u8>) -> Seq<u8>;

/// `sha2::Sha256::digest`: the digest of the bytes, which is 32 bytes long
/// (`Sha256` has a 32-byte output). What the digest is, is named, not
/// stated.
#[verifier::external_body]
fn sha256_digest(bytes: &[u8]) -> (r: Vec<u8>)
    ensures
        r@ == sha256_of(bytes@),
        r@.len() == 32,
{
    sha2::Sha256::digest(bytes).to_vec()
}

pub open spec fn hex_digits() -> Seq<char> {
    seq!['0', '1', '2', '3', '4', '5', '6', '7', '8', '9', 'a', 'b', 'c', 'd', 'e', 'f']
}

/// Bytes as lowercase hexadecimal, two digits each.
pub open spec fn hex_of(bytes: Seq<u8>) -> Seq<char>
    decreases bytes.len(),
{
    if bytes.len() == 0 {
        Seq::empty()
    } else {
        hex_of(bytes.drop_last()) + seq![hex_digits()[(bytes.last() / 16) as int], hex_digits()[(bytes.last() % 16) as int]]
    }
}

/// The hash that the write tools report and compare: `sha256:` and the
/// digest in lowercase hexadecimal.
pub open spec fn content_hash(bytes: Seq<u8>) -> Seq<char> {
    "sha256:"@ + hex_of(sha256_of(bytes))
}

/// Bytes in lowercase hexadecimal.
pub fn hex_exec(d: &[u8]) -> (r: Vec<char>)
    ensures
        r@ == hex_of(d@),
{
    let digits = vec!['0', '1', '2', '3', '4', '5', '6', '7', '8', '9', 'a', 'b', 'c', 'd', 'e', 'f'];
    proof {
        assert(digits@ =~= hex_digits());
    }
    let mut h: Vec<char> = Vec::new();
    let mut i: usize = 0;
    proof {
        assert(d@.take(0) =~= Seq::<u8>::empty());
        assert(h@ =~= hex_of(d@.take(0)));
    }
    while i < d.len()
        invariant
            i <= d.len(),
            digits@ == hex_digits(),
            h@ == hex_of(d@.take(i as int)),
        decreases d.len() - i,
    {
        let b = d[i];
        h.push(digits[(b / 16) as usize]);
        h.push(digits[(b % 16) as usize]);
        proof {
            assert(d@.take(i + 1).drop_last() =~= d@.take(i as int));
            assert(d@.take(i + 1).last() == b);
        }
        i = i + 1;
    }
    proof {
        assert(d@.take(d@.len() as int) =~= d@);
    }
    h
}

/// The content hash of bytes.
pub fn sha256_bytes(bytes: &[u8]) -> (r: String)
    ensures
        r@ == content_hash(bytes@),
{
    let d = sha256_digest(bytes);
    let h = hex_exec(&d);
    let mut r = chars_of("sha256:");
    crate::text::append_chars(&mut r, &h);
    string_of(&r)
}

/// The content hash of a text, over its UTF-8 bytes.
pub fn sha256_text(text: &str) -> (r: String)
    ensures
        r@ == content_hash(encode_utf8(text@)),
{
    sha256_bytes(text.as_bytes())
}

// ---------------------------------------------------------------------------
// Conflicts

pub open spec fn opt_str_view(o: Option<&str>) -> Option<Seq<char>> {
    match o {
        Some(s) => Some(s@),
        None => None,
    }
}

/// `write_file` creates a file only without an expected hash, and
/// overwrites one only with the hash of what is there.
pub open spec fn write_conflict_check(existed: bool, expected_hash: Option<Seq<char>>, current: Seq<u8>) -> Result<
    (),
    (Seq<char>, Seq<char>),
> {
    if !existed {
        if expected_hash is Some {
            Err(conflict("expected_hash was provided but target does not exist"@))
        } else {
            Ok(())
        }
    } else {
        match expected_hash {
            None => Err(conflict("expected_hash is required when overwriting an existing file"@)),
            Some(h) => if !text_bytes_ok(current) {
                Err(invalid("file contents must be UTF-8 text"@))
            } else if content_hash(current) == h {
                Ok(())
            } else {
                Err(conflict("expected_hash does not match current file"@))
            },
        }
    }
}

/// Checks a write against the target's state; `current` is what the target
/// holds when it exists.
pub fn validate_write_conflict(existed: bool, expected_hash: Option<&str>, current: &[u8]) -> (r: Result<
    (),
    ToolPolicyError,
>)
    ensures
        unit_result(r) == write_conflict_check(existed, opt_str_view(expected_hash), current@),
{
    if !existed {
        return if expected_hash.is_some() {
            Err(err_of("expected_hash was provided but target does not exist", "file_conflict"))
        } else {
            Ok(())
        };
    }
    let expected = match expected_hash {
        None => return Err(err_of("expected_hash is required when overwriting an existing file", "file_conflict")),
        Some(h) => h,
    };
    match validate_text_bytes(current) {
        Ok(_) => {},
        Err(e) => return Err(e),
    }
    let h = sha256_bytes(current);
    if crate::text::seq_eq(&chars_of(h.as_str()), &chars_of(expected)) {
        Ok(())
    } else {
        Err(err_of("expected_hash does not match current file", "file_conflict"))
    }
}

/// A copy matches the expected source hash when one is given, and creates a
/// new file distinct from its source.
pub open spec fn copy_request_check(
    same_path: bool,
    target_existed: bool,
    bytes: Seq<u8>,
    expected_hash: Option<Seq<char>>,
) -> Result<(), (Seq<char>, Seq<char>)> {
    if expected_hash is Some && content_hash(bytes) != expected_hash->0 {
        Err(conflict("expected_source_hash does not match source"@))
    } else if same_path || target_existed {
        Err(conflict("copy target already exists or equals source"@))
    } else {
        Ok(())
    }
}

/// Checks a copy: `same_path` tells whether source and target resolve to
/// one file, `bytes` are the source's.
pub fn validate_copy_request(
    same_path: bool,
    target_existed: bool,
    bytes: &[u8],
    expected_hash: Option<&str>,
) -> (r: Result<(), ToolPolicyError>)
    ensures
        unit_result(r) == copy_request_check(same_path, target_existed, bytes@, opt_str_view(expected_hash)),
{
    match expected_hash {
        Some(expected) => {
            let h = sha256_bytes(bytes);
            if !crate::text::seq_eq(&chars_of(h.as_str()), &chars_of(expected)) {
                return Err(err_of("expected_source_hash does not match source", "file_conflict"));
            }
        },
        None => {},
    }
    if same_path || target_existed {
        return Err(err_of("copy target already exists or equals source", "file_conflict"));
    }
    Ok(())
}

// ---------------------------------------------------------------------------
// Exact patches

/// Replaces the one occurrence of `search` in `current` with `replace`: the
/// search text must occur exactly once (occurrences counted left to right
/// without overlap), and both texts must be text without NUL. An empty
/// search text occurs at every character boundary, so it occurs once only
/// in an empty text.
pub open spec fn exact_patch(current: Seq<char>, search: Seq<char>, replace: Seq<char>) -> Result<
    Seq<char>,
    (Seq<char>, Seq<char>),
> {
    if !text_bytes_ok(encode_utf8(search)) || !text_bytes_ok(encode_utf8(replace)) {
        Err(invalid("file contents must be UTF-8 text"@))
    } else if search.len() == 0 {
        if current.len() == 0 {
            Ok(replace)
        } else {
            Err(conflict("patch search text must match exactly once"@))
        }
    } else {
        match find(current, search) {
            None => Err(conflict("patch search text must match exactly once"@)),
            Some(j) => if contains(current.subrange(j + search.len(), current.len() as int), search) {
                Err(conflict("patch search text must match exactly once"@))
            } else {
                Ok(current.subrange(0, j) + replace + current.subrange(j + search.len(), current.len() as int))
            },
        }
    }
}

pub open spec fn string_result(r: Result<String, ToolPolicyError>) -> Result<Seq<char>, (Seq<char>, Seq<char>)> {
    match r {
        Ok(s) => Ok(s@),
        Err(e) => Err(e@),
    }
}

/// Applies an exact-match patch.
pub fn apply_exact_patch(current: &str, search: &str, replace: &str) -> (r: Result<String, ToolPolicyError>)
    ensures
        string_result(r) == exact_patch(current@, search@, replace@),
{
    match validate_text_bytes(search.as_bytes()) {
        Ok(_) => {},
        Err(e) => return Err(e),
    }
    match validate_text_bytes(replace.as_bytes()) {
        Ok(_) => {},
        Err(e) => return Err(e),
    }
    let c = chars_of(current);
    let s = chars_of(search);
    if s.len() == 0 {
        if c.len() == 0 {
            return Ok(replace.to_owned());
        }
        return Err(err_of("patch search text must match exactly once", "file_conflict"));
    }
    let found = find_exec(&c, &s);
    if found.is_none() {
        return Err(err_of("patch search text must match exactly once", "file_conflict"));
    }
    let j = found.unwrap();
    proof {
        assert(crate::text::occurs_at(c@, s@, j as int));
    }
    assert(j + s.len() <= c.len());
    let rest = slice_vec(&c, j + s.len(), c.len());
    if contains_exec(&rest, &s) {
        return Err(err_of("patch search text must match exactly once", "file_conflict"));
    }
    let mut out = slice_vec(&c, 0, j);
    append_lit(&mut out, replace);
    crate::text::append_chars(&mut out, &rest);
    Ok(string_of(&out))
}

/// What `patch_file` does with the current text: the hash must be the one
/// the caller saw, then the exact patch applies.
pub open spec fn patch_text_check(current: Seq<char>, expected_hash: Seq<char>, search: Seq<char>, replace: Seq<char>) -> Result<
    Seq<char>,
    (Seq<char>, Seq<char>),
> {
    if content_hash(encode_utf8(current)) != expected_hash {
        Err(conflict("expected_hash does not match current file"@))
    } else {
        exact_patch(current, search, replace)
    }
}

/// The patched text, when the current text has the expected hash and the
/// search text matches exactly once.
pub fn patch_text(current: &str, expected_hash: &str, search: &str, replace: &str) -> (r: Result<String, ToolPolicyError>)
    ensures
        string_result(r) == patch_text_check(current@, expected_hash@, search@, replace@),
{
    let h = sha256_text(current);
    if !crate::text::seq_eq(&chars_of(h.as_str()), &chars_of(expected_hash)) {
        return Err(err_of("expected_hash does not match current file", "file_conflict"));
    }
    apply_exact_patch(current, search, replace)
}

// ---------------------------------------------------------------------------
// What is on disk at a path

/// What the file system says of a path, without following a final link.
#[derive(Debug, Clone, PartialEq, Eq)]
pub enum PathState {
    Symlink,
    /// A regular file with this many hard links.
    File(u64),
    /// Something else, such as a directory.
    Other,
    /// Nothing is there; the text is the error the lookup gave.
    NotFound(String),
    /// The lookup failed otherwise; the text is its error.
    Unreadable(String),
}

pub open spec fn hard_link_check(links: u64) -> Result<(), (Seq<char>, Seq<char>)> {
    if links > 1 {
        Err(denied("file write tools reject hard-linked files"@))
    } else {
        Ok(())
    }
}

pub open spec fn bool_result(r: Result<bool, ToolPolicyError>) -> Result<bool, (Seq<char>, Seq<char>)> {
    match r {
        Ok(b) => Ok(b),
        Err(e) => Err(e@),
    }
}

/// Whether a write target exists: a single-linked regular file does, a
/// missing one does not; a link, another kind of entry, a hard-linked file
/// or a failed lookup is refused.
pub open spec fn target_status_of(state: PathState) -> Result<bool, (Seq<char>, Seq<char>)> {
    match state {
        PathState::Symlink => Err(denied("target path must not be a symlink"@)),
        PathState::File(links) => match hard_link_check(links) {
            Err(e) => Err(e),
            Ok(_) => Ok(true),
        },
        PathState::Other => Err(invalid("target path must be a file"@)),
        PathState::NotFound(_) => Ok(false),
        PathState::Unreadable(e) => Err(conflict("读取目标路径失败: "@ + e@)),
    }
}

pub fn target_status(state: &PathState) -> (r: Result<bool, ToolPolicyError>)
    ensures
        bool_result(r) == target_status_of(*state),
{
    match state {
        PathState::Symlink => Err(err_of("target path must not be a symlink", "permission_denied")),
        PathState::File(links) => {
            if *links > 1 {
                Err(err_of("file write tools reject hard-linked files", "permission_denied"))
            } else {
                Ok(true)
            }
        },
        PathState::Other => Err(err_of("target path must be a file", "invalid_arguments")),
        PathState::NotFound(_) => Ok(false),
        PathState::Unreadable(e) => {
            let mut m = chars_of("读取目标路径失败: ");
            crate::text::append_lit(&mut m, e.as_str());
            Err(ToolPolicyError { message: string_of(&m), error_type: "file_conflict" })
        },
    }
}

/// An existing source or patch target must be a single-linked regular file
/// that is not a link.
pub open spec fn existing_file_of(state: PathState) -> Result<(), (Seq<char>, Seq<char>)> {
    match state {
        PathState::Symlink => Err(denied("source path must not be a symlink"@)),
        PathState::File(links) => hard_link_check(links),
        PathState::Other => Err(invalid("source path must be a file"@)),
        PathState::NotFound(e) => Err(("读取源文件失败: "@ + e@, "not_found"@)),
        PathState::Unreadable(e) => Err(("读取源文件失败: "@ + e@, "not_found"@)),
    }
}

pub fn validate_existing_literal_file(state: &PathState) -> (r: Result<(), ToolPolicyError>)
    ensures
        unit_result(r) == existing_file_of(*state),
{
    match state {
        PathState::Symlink => Err(err_of("source path must not be a symlink", "permission_denied")),
        PathState::File(links) => {
            if *links > 1 {
                Err(err_of("file write tools reject hard-linked files", "permission_denied"))
            } else {
                Ok(())
            }
        },
        PathState::Other => Err(err_of("source path must be a file", "invalid_arguments")),
        PathState::NotFound(e) | PathState::Unreadable(e) => {
            let mut m = chars_of("读取源文件失败: ");
            crate::text::append_lit(&mut m, e.as_str());
            Err(ToolPolicyError { message: string_of(&m), error_type: "not_found" })
        },
    }
}

/// The checks of a write target once it is resolved to a workspace path:
/// its root and model rule, what is on disk, and the confirmed scope.
/// `Ok` tells whether the target existed.
pub open spec fn write_target_of(
    relative: Seq<char>,
    state: PathState,
    scope: Option<ScopeView>,
    policy: WriteTargetPolicy,
) -> Result<bool, (Seq<char>, Seq<char>)> {
    match actual_write_path_check(relative, policy == WriteTargetPolicy::CopyTarget) {
        Err(e) => Err(e),
        Ok(_) => match target_status_of(state) {
            Err(e) => Err(e),
            Ok(existed) => match write_scope_check(relative, existed, scope, policy) {
                Err(e) => Err(e),
                Ok(_) => Ok(existed),
            },
        },
    }
}

pub fn safe_write_target(
    relative: &str,
    state: &PathState,
    execution_scope: Option<&AgentExecutionScope>,
    policy: WriteTargetPolicy,
) -> (r: Result<bool, ToolPolicyError>)
    ensures
        bool_result(r) == write_target_of(relative@, *state, opt_scope_view(execution_scope), policy),
{
    match validate_actual_write_path(relative, policy.allows_model_target()) {
        Ok(_) => {},
        Err(e) => return Err(e),
    }
    let existed = match target_status(state) {
        Ok(b) => b,
        Err(e) => return Err(e),
    };
    match validate_write_execution_scope(relative, existed, execution_scope, policy) {
        Ok(_) => Ok(existed),
        Err(e) => Err(e),
    }
}

// ---------------------------------------------------------------------------
// Laws of the guards

/// A write that names the hash of what the target holds now is no
/// conflict: the hash a read reports lets the next overwrite through.
pub proof fn law_current_hash_accepted(current: Seq<u8>)
    requires
        text_bytes_ok(current),
    ensures
        write_conflict_check(true, Some(content_hash(current)), current) == Ok::<(), (Seq<char>, Seq<char>)>(()),
{
}

/// `p` occurs at most once in `s`.
pub open spec fn occurs_at_most_once(s: Seq<char>, p: Seq<char>) -> bool {
    forall|a: int, b: int| occurs_at(s, p, a) && occurs_at(s, p, b) ==> a == b
}

proof fn lemma_find_unique(s: Seq<char>, p: Seq<char>, j: int)
    requires
        occurs_at(s, p, j),
        occurs_at_most_once(s, p),
    ensures
        find(s, p) == Some(j),
{
    reveal(find);
    assert(contains(s, p));
    let i = choose|i: int| occurs_at(s, p, i) && forall|k: int| 0 <= k < i ==> !occurs_at(s, p, k);
    crate::text::lemma_find_occurs(s, p);
    assert(occurs_at(s, p, i));
}

/// An exact patch is undone by the reverse patch, when the replacement
/// text occurs only once in the patched text.
pub proof fn law_reverse_patch_restores(current: Seq<char>, search: Seq<char>, replace: Seq<char>)
    requires
        search.len() > 0,
        replace.len() > 0,
        exact_patch(current, search, replace) is Ok,
        occurs_at_most_once(exact_patch(current, search, replace)->Ok_0, replace),
    ensures
        exact_patch(exact_patch(current, search, replace)->Ok_0, replace, search) == Ok::<
            Seq<char>,
            (Seq<char>, Seq<char>),
        >(current),
{
    let patched = exact_patch(current, search, replace)->Ok_0;
    crate::text::lemma_find_occurs(current, search);
    let j = find(current, search)->0;
    let tail = current.subrange(j + search.len(), current.len() as int);
    assert(patched == current.subrange(0, j) + replace + tail);
    assert(occurs_at(patched, replace, j)) by {
        assert(patched.subrange(j, j + replace.len()) =~= replace);
    }
    lemma_find_unique(patched, replace, j);
    let rest = patched.subrange(j + replace.len(), patched.len() as int);
    assert(rest =~= tail);
    if contains(rest, replace) {
        let m = choose|m: int| occurs_at(rest, replace, m);
        assert(occurs_at(patched, replace, j + replace.len() + m)) by {
            assert(patched.subrange(j + replace.len() + m, j + replace.len() + m + replace.len()) =~= rest.subrange(
                m,
                m + replace.len(),
            ));
        }
    }
    assert(patched.subrange(0, j) =~= current.subrange(0, j));
    assert(current.subrange(0, j) + search + tail =~= current) by {
        assert(current.subrange(j, j + search.len()) =~= search);
    }
}

} // verus!
