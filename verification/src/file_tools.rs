//! The file write tools put together: how `write_file`, `patch_file` and
//! `copy_file` read their arguments, and what each decides from what the
//! file system showed of its paths: the bytes to write and the reply, or
//! the refusal. Resolving paths, reading and writing stay with the caller.
use vstd::prelude::*;
use vstd::utf8::{decode_utf8, encode_utf8, valid_utf8};
use crate::file_write::{
    ExistingFilePolicy, PathState, WriteTargetPolicy, actual_write_path_check, conflict, content_hash,
    copy_model_boundary_check, copy_request_check, existing_affected_check, existing_file_of, patch_text,
    patch_text_check, safe_write_target, sha256_bytes, text_bytes_ok, validate_actual_write_path,
    validate_copy_model_boundary, validate_copy_request, validate_existing_affected_scope,
    validate_existing_literal_file, validate_text_bytes, validate_write_conflict, write_conflict_check,
    write_target_of,
};
use crate::json_args::{FieldView, JsonField, field_text, field_view, fields_view, json_fields, keys_view, read_fields};
use crate::readonly::{missing_arg, missing_arg_error};
use crate::scope::{AgentExecutionScope, ScopeView, opt_scope_view};
use crate::text::{chars_of, string_of, surround};
use crate::tool_policy::{ToolPolicyError, invalid, invalid_args_error, invalid_args_exec};

verus! {

pub type Err2 = (Seq<char>, Seq<char>);

// ---------------------------------------------------------------------------
// Arguments

/// A required string argument: a non-empty string.
pub open spec fn required_of(f: FieldView, key: Seq<char>) -> Result<Seq<char>, Err2> {
    match field_text(f) {
        Some(t) => if t.len() > 0 {
            Ok(t)
        } else {
            Err(missing_arg_error(key))
        },
        None => Err(missing_arg_error(key)),
    }
}

/// A string argument that may be empty.
pub open spec fn string_of_field(f: FieldView, key: Seq<char>) -> Result<Seq<char>, Err2> {
    match field_text(f) {
        Some(t) => Ok(t),
        None => Err(missing_arg_error(key)),
    }
}

pub open spec fn not_string_error(key: Seq<char>) -> Err2 {
    invalid("'"@ + key + "' must be a string"@)
}

/// An optional string argument: absent, or a string.
pub open spec fn optional_of(f: FieldView, key: Seq<char>) -> Result<Option<Seq<char>>, Err2> {
    if !f.0 {
        Ok(None)
    } else {
        match field_text(f) {
            Some(t) => Ok(Some(t)),
            None => Err(not_string_error(key)),
        }
    }
}

pub open spec fn text_res(r: Result<String, ToolPolicyError>) -> Result<Seq<char>, Err2> {
    match r {
        Ok(s) => Ok(s@),
        Err(e) => Err(e@),
    }
}

pub open spec fn opt_text_res(r: Result<Option<String>, ToolPolicyError>) -> Result<Option<Seq<char>>, Err2> {
    match r {
        Ok(Some(s)) => Ok(Some(s@)),
        Ok(None) => Ok(None),
        Err(e) => Err(e@),
    }
}

fn take_required(f: JsonField, key: &str) -> (r: Result<String, ToolPolicyError>)
    ensures
        text_res(r) == required_of(field_view(f), key@),
{
    match f {
        JsonField::Text(s) => if chars_of(s.as_str()).len() > 0 {
            Ok(s)
        } else {
            Err(missing_arg(key))
        },
        _ => Err(missing_arg(key)),
    }
}

fn take_string(f: JsonField, key: &str) -> (r: Result<String, ToolPolicyError>)
    ensures
        text_res(r) == string_of_field(field_view(f), key@),
{
    match f {
        JsonField::Text(s) => Ok(s),
        _ => Err(missing_arg(key)),
    }
}

fn take_optional(f: JsonField, key: &str) -> (r: Result<Option<String>, ToolPolicyError>)
    ensures
        opt_text_res(r) == optional_of(field_view(f), key@),
{
    match f {
        JsonField::Absent => Ok(None),
        JsonField::Text(s) => Ok(Some(s)),
        _ => Err(ToolPolicyError { message: string_of(&surround("'", &chars_of(key), "' must be a string")), error_type: "invalid_arguments" }),
    }
}

fn next_of(fields: &mut Vec<JsonField>) -> (f: JsonField)
    requires
        old(fields).len() > 0,
    ensures
        f == old(fields)@[0],
        final(fields)@ == old(fields)@.drop_first(),
{
    fields.remove(0)
}

/// What `write_file` reads of its arguments.
#[derive(Debug, Clone, PartialEq, Eq)]
pub struct WriteArgs {
    pub path: String,
    pub contents: String,
    pub expected_hash: Option<String>,
}

/// What `patch_file` reads of its arguments.
#[derive(Debug, Clone, PartialEq, Eq)]
pub struct PatchArgs {
    pub path: String,
    pub expected_hash: String,
    pub search: String,
    pub replace: String,
}

/// What `copy_file` reads of its arguments.
#[derive(Debug, Clone, PartialEq, Eq)]
pub struct CopyArgs {
    pub source_path: String,
    pub target_path: String,
    pub expected_source_hash: Option<String>,
}

pub open spec fn opt_view(o: Option<String>) -> Option<Seq<char>> {
    match o {
        Some(s) => Some(s@),
        None => None,
    }
}

pub open spec fn write_keys() -> Seq<Seq<char>> {
    seq!["path"@, "contents"@, "expected_hash"@]
}

pub open spec fn patch_keys() -> Seq<Seq<char>> {
    seq!["path"@, "expected_hash"@, "search"@, "replace"@]
}

pub open spec fn copy_keys() -> Seq<Seq<char>> {
    seq!["source_path"@, "target_path"@, "expected_source_hash"@]
}

/// The arguments of `write_file` as read from the fields: a non-empty
/// `path`, a string `contents`, an optional string `expected_hash`, checked
/// in that order.
pub open spec fn write_args_of(r: Result<Seq<FieldView>, Seq<char>>) -> Result<
    (Seq<char>, Seq<char>, Option<Seq<char>>),
    Err2,
> {
    match r {
        Err(e) => Err(invalid_args_error(e)),
        Ok(f) => match required_of(f[0], "path"@) {
            Err(e) => Err(e),
            Ok(p) => match string_of_field(f[1], "contents"@) {
                Err(e) => Err(e),
                Ok(c) => match optional_of(f[2], "expected_hash"@) {
                    Err(e) => Err(e),
                    Ok(h) => Ok((p, c, h)),
                },
            },
        },
    }
}

/// The arguments of `patch_file`: non-empty `path`, `expected_hash` and
/// `search`, and a string `replace`, checked in that order.
pub open spec fn patch_args_of(r: Result<Seq<FieldView>, Seq<char>>) -> Result<
    (Seq<char>, Seq<char>, Seq<char>, Seq<char>),
    Err2,
> {
    match r {
        Err(e) => Err(invalid_args_error(e)),
        Ok(f) => match required_of(f[0], "path"@) {
            Err(e) => Err(e),
            Ok(p) => match required_of(f[1], "expected_hash"@) {
                Err(e) => Err(e),
                Ok(h) => match required_of(f[2], "search"@) {
                    Err(e) => Err(e),
                    Ok(s) => match string_of_field(f[3], "replace"@) {
                        Err(e) => Err(e),
                        Ok(rp) => Ok((p, h, s, rp)),
                    },
                },
            },
        },
    }
}

/// The arguments of `copy_file`: non-empty `source_path` and `target_path`,
/// and an optional string `expected_source_hash`, checked in that order.
pub open spec fn copy_args_of(r: Result<Seq<FieldView>, Seq<char>>) -> Result<
    (Seq<char>, Seq<char>, Option<Seq<char>>),
    Err2,
> {
    match r {
        Err(e) => Err(invalid_args_error(e)),
        Ok(f) => match required_of(f[0], "source_path"@) {
            Err(e) => Err(e),
            Ok(s) => match required_of(f[1], "target_path"@) {
                Err(e) => Err(e),
                Ok(t) => match optional_of(f[2], "expected_source_hash"@) {
                    Err(e) => Err(e),
                    Ok(h) => Ok((s, t, h)),
                },
            },
        },
    }
}

pub open spec fn write_args_view(r: Result<WriteArgs, ToolPolicyError>) -> Result<
    (Seq<char>, Seq<char>, Option<Seq<char>>),
    Err2,
> {
    match r {
        Ok(a) => Ok((a.path@, a.contents@, opt_view(a.expected_hash))),
        Err(e) => Err(e@),
    }
}

pub open spec fn patch_args_view(r: Result<PatchArgs, ToolPolicyError>) -> Result<
    (Seq<char>, Seq<char>, Seq<char>, Seq<char>),
    Err2,
> {
    match r {
        Ok(a) => Ok((a.path@, a.expected_hash@, a.search@, a.replace@)),
        Err(e) => Err(e@),
    }
}

pub open spec fn copy_args_view(r: Result<CopyArgs, ToolPolicyError>) -> Result<
    (Seq<char>, Seq<char>, Option<Seq<char>>),
    Err2,
> {
    match r {
        Ok(a) => Ok((a.source_path@, a.target_path@, opt_view(a.expected_source_hash))),
        Err(e) => Err(e@),
    }
}

/// Reads the JSON arguments of `write_file`.
pub fn write_args(arguments: &str) -> (r: Result<WriteArgs, ToolPolicyError>)
    ensures
        write_args_view(r) == write_args_of(json_fields(arguments@, write_keys())),
{
    let mut keys: Vec<&str> = Vec::new();
    keys.push("path");
    keys.push("contents");
    keys.push("expected_hash");
    proof {
        assert(keys_view(keys@) =~= write_keys());
    }
    let mut fields = match read_fields(arguments, &keys) {
        Err(e) => return Err(invalid_args_exec(&e)),
        Ok(v) => v,
    };
    let ghost f = fields_view(fields@);
    let ghost all = fields@;
    proof {
        assert forall|k: int| 0 <= k < 3 implies f[k] == field_view(all[k]) by {}
    }
    let path = match take_required(next_of(&mut fields), "path") {
        Ok(p) => p,
        Err(e) => return Err(e),
    };
    let contents = match take_string(next_of(&mut fields), "contents") {
        Ok(c) => c,
        Err(e) => return Err(e),
    };
    let expected_hash = match take_optional(next_of(&mut fields), "expected_hash") {
        Ok(h) => h,
        Err(e) => return Err(e),
    };
    Ok(WriteArgs { path, contents, expected_hash })
}

/// Reads the JSON arguments of `patch_file`.
pub fn patch_args(arguments: &str) -> (r: Result<PatchArgs, ToolPolicyError>)
    ensures
        patch_args_view(r) == patch_args_of(json_fields(arguments@, patch_keys())),
{
    let mut keys: Vec<&str> = Vec::new();
    keys.push("path");
    keys.push("expected_hash");
    keys.push("search");
    keys.push("replace");
    proof {
        assert(keys_view(keys@) =~= patch_keys());
    }
    let mut fields = match read_fields(arguments, &keys) {
        Err(e) => return Err(invalid_args_exec(&e)),
        Ok(v) => v,
    };
    let ghost f = fields_view(fields@);
    let ghost all = fields@;
    proof {
        assert forall|k: int| 0 <= k < 4 implies f[k] == field_view(all[k]) by {}
    }
    let path = match take_required(next_of(&mut fields), "path") {
        Ok(p) => p,
        Err(e) => return Err(e),
    };
    let expected_hash = match take_required(next_of(&mut fields), "expected_hash") {
        Ok(h) => h,
        Err(e) => return Err(e),
    };
    let search = match take_required(next_of(&mut fields), "search") {
        Ok(s) => s,
        Err(e) => return Err(e),
    };
    let replace = match take_string(next_of(&mut fields), "replace") {
        Ok(s) => s,
        Err(e) => return Err(e),
    };
    Ok(PatchArgs { path, expected_hash, search, replace })
}

/// Reads the JSON arguments of `copy_file`.
pub fn copy_args(arguments: &str) -> (r: Result<CopyArgs, ToolPolicyError>)
    ensures
        copy_args_view(r) == copy_args_of(json_fields(arguments@, copy_keys())),
{
    let mut keys: Vec<&str> = Vec::new();
    keys.push("source_path");
    keys.push("target_path");
    keys.push("expected_source_hash");
    proof {
        assert(keys_view(keys@) =~= copy_keys());
    }
    let mut fields = match read_fields(arguments, &keys) {
        Err(e) => return Err(invalid_args_exec(&e)),
        Ok(v) => v,
    };
    let ghost f = fields_view(fields@);
    let ghost all = fields@;
    proof {
        assert forall|k: int| 0 <= k < 3 implies f[k] == field_view(all[k]) by {}
    }
    let source_path = match take_required(next_of(&mut fields), "source_path") {
        Ok(p) => p,
        Err(e) => return Err(e),
    };
    let target_path = match take_required(next_of(&mut fields), "target_path") {
        Ok(p) => p,
        Err(e) => return Err(e),
    };
    let expected_source_hash = match take_optional(next_of(&mut fields), "expected_source_hash") {
        Ok(h) => h,
        Err(e) => return Err(e),
    };
    Ok(CopyArgs { source_path, target_path, expected_source_hash })
}

// ---------------------------------------------------------------------------
// Decisions

/// An existing file as the caller found it: the state of its literal path
/// under the workspace, and the workspace-relative path it resolves to, or
/// the refusal of resolving it.
#[derive(Debug, PartialEq, Eq)]
pub struct ExistingFacts {
    pub literal: PathState,
    pub relative: Result<String, ToolPolicyError>,
}

/// A write target as the caller resolved it: its workspace-relative path
/// and what is there now.
#[derive(Debug, Clone, PartialEq, Eq)]
pub struct TargetFacts {
    pub relative: String,
    pub state: PathState,
}

/// What a file write tool writes and answers: the bytes for the target, and
/// the reply's path, the hash of the bytes, and whether the file is new.
#[derive(Debug, Clone, PartialEq, Eq)]
pub struct FileWritePlan {
    pub bytes: Vec<u8>,
    pub path: String,
    pub hash: String,
    pub created: bool,
}

pub type PlanView = (Seq<u8>, Seq<char>, Seq<char>, bool);

pub open spec fn plan_res(r: Result<FileWritePlan, ToolPolicyError>) -> Result<PlanView, Err2> {
    match r {
        Ok(p) => Ok((p.bytes@, p.path@, p.hash@, p.created)),
        Err(e) => Err(e@),
    }
}

/// An existing file passes when its literal path is a single-linked
/// regular file, it resolves inside the workspace, and its relative path is
/// one the write tools may touch; `Ok` is that relative path.
pub open spec fn existing_check(f: Result<ExistingFacts, ToolPolicyError>, allow_model: bool) -> Result<
    Seq<char>,
    Err2,
> {
    match f {
        Err(e) => Err(e@),
        Ok(x) => match existing_file_of(x.literal) {
            Err(e) => Err(e),
            Ok(_) => match x.relative {
                Err(e) => Err(e@),
                Ok(rel) => match actual_write_path_check(rel@, allow_model) {
                    Err(e) => Err(e),
                    Ok(_) => Ok(rel@),
                },
            },
        },
    }
}

/// A write target passes the target checks; `Ok` is its relative path and
/// whether it existed.
pub open spec fn target_check(
    t: Result<TargetFacts, ToolPolicyError>,
    scope: Option<ScopeView>,
    policy: WriteTargetPolicy,
) -> Result<(Seq<char>, bool), Err2> {
    match t {
        Err(e) => Err(e@),
        Ok(x) => match write_target_of(x.relative@, x.state, scope, policy) {
            Err(e) => Err(e),
            Ok(existed) => Ok((x.relative@, existed)),
        },
    }
}

/// A file read for a write tool: the read must succeed and give text.
pub open spec fn read_check(b: Result<Vec<u8>, String>) -> Result<Seq<u8>, Err2> {
    match b {
        Err(m) => Err(conflict("读取文件失败: "@ + m@)),
        Ok(v) => if !text_bytes_ok(v@) {
            Err(invalid("file contents must be UTF-8 text"@))
        } else {
            Ok(v@)
        },
    }
}

/// `copy_file`: the source must be an existing file, the target a new file
/// the scope allows, a model target needs a model source, the source must be
/// text matching its expected hash and distinct from the target; then its
/// bytes are written and the reply names the target as created.
pub open spec fn copy_decision(
    a: CopyArgs,
    source: Result<ExistingFacts, ToolPolicyError>,
    target: Result<TargetFacts, ToolPolicyError>,
    same_path: bool,
    bytes: Result<Vec<u8>, String>,
    scope: Option<ScopeView>,
) -> Result<PlanView, Err2> {
    match existing_check(source, true) {
        Err(e) => Err(e),
        Ok(src) => match target_check(target, scope, WriteTargetPolicy::CopyTarget) {
            Err(e) => Err(e),
            Ok((trel, existed)) => match copy_model_boundary_check(src, trel) {
                Err(e) => Err(e),
                Ok(_) => match read_check(bytes) {
                    Err(e) => Err(e),
                    Ok(b) => match copy_request_check(same_path, existed, b, opt_view(a.expected_source_hash)) {
                        Err(e) => Err(e),
                        Ok(_) => Ok((b, a.target_path@, content_hash(b), true)),
                    },
                },
            },
        },
    }
}

/// `write_file`: the target must pass the target checks, agree with the
/// expected hash (an existing target is read for it), and the contents must
/// be text; then the contents are written, new when the target did not
/// exist.
pub open spec fn write_decision(
    a: WriteArgs,
    target: Result<TargetFacts, ToolPolicyError>,
    current: Result<Vec<u8>, String>,
    scope: Option<ScopeView>,
) -> Result<PlanView, Err2> {
    match target_check(target, scope, WriteTargetPolicy::WriteFile) {
        Err(e) => Err(e),
        Ok((_, existed)) => {
            let conflict_result = if existed && a.expected_hash is Some {
                match current {
                    Err(m) => Err(conflict("读取文件失败: "@ + m@)),
                    Ok(c) => write_conflict_check(true, opt_view(a.expected_hash), c@),
                }
            } else {
                write_conflict_check(existed, opt_view(a.expected_hash), Seq::empty())
            };
            match conflict_result {
                Err(e) => Err(e),
                Ok(_) => if !text_bytes_ok(encode_utf8(a.contents@)) {
                    Err(invalid("file contents must be UTF-8 text"@))
                } else {
                    Ok((encode_utf8(a.contents@), a.path@, content_hash(encode_utf8(a.contents@)), !existed))
                },
            }
        },
    }
}

/// `patch_file`: the file must be an existing non-model file, an affected
/// file of the scope, readable text with the expected hash, and the search
/// text must occur exactly once; then the patched text is written.
pub open spec fn patch_decision(
    a: PatchArgs,
    file: Result<ExistingFacts, ToolPolicyError>,
    current: Result<Vec<u8>, String>,
    scope: Option<ScopeView>,
) -> Result<PlanView, Err2> {
    match existing_check(file, false) {
        Err(e) => Err(e),
        Ok(rel) => match existing_affected_check(rel, scope) {
            Err(e) => Err(e),
            Ok(_) => match read_check(current) {
                Err(e) => Err(e),
                Ok(b) => match patch_text_check(decode_utf8(b), a.expected_hash@, a.search@, a.replace@) {
                    Err(e) => Err(e),
                    Ok(p) => Ok((encode_utf8(p), a.path@, content_hash(encode_utf8(p)), false)),
                },
            },
        },
    }
}

fn check_existing(f: &Result<ExistingFacts, ToolPolicyError>, policy: ExistingFilePolicy) -> (r: Result<
    String,
    ToolPolicyError,
>)
    ensures
        text_res(r) == existing_check(*f, policy == ExistingFilePolicy::CopySource),
{
    let x = match f {
        Err(e) => return Err(e.clone_error()),
        Ok(x) => x,
    };
    match validate_existing_literal_file(&x.literal) {
        Ok(_) => {},
        Err(e) => return Err(e),
    }
    let rel = match &x.relative {
        Err(e) => return Err(e.clone_error()),
        Ok(rel) => rel,
    };
    match validate_actual_write_path(rel.as_str(), policy.allows_model_source()) {
        Ok(_) => Ok(rel.as_str().to_owned()),
        Err(e) => Err(e),
    }
}

fn check_target(t: &Result<TargetFacts, ToolPolicyError>, scope: Option<&AgentExecutionScope>, policy: WriteTargetPolicy) -> (r: Result<
    (String, bool),
    ToolPolicyError,
>)
    ensures
        match r {
            Ok((rel, existed)) => target_check(*t, opt_scope_view(scope), policy) == Ok::<(Seq<char>, bool), Err2>((rel@, existed)),
            Err(e) => target_check(*t, opt_scope_view(scope), policy) == Err::<(Seq<char>, bool), Err2>(e@),
        },
{
    let x = match t {
        Err(e) => return Err(e.clone_error()),
        Ok(x) => x,
    };
    match safe_write_target(x.relative.as_str(), &x.state, scope, policy) {
        Ok(existed) => Ok((x.relative.as_str().to_owned(), existed)),
        Err(e) => Err(e),
    }
}

fn check_read<'a>(b: &'a Result<Vec<u8>, String>) -> (r: Result<&'a Vec<u8>, ToolPolicyError>)
    ensures
        match r {
            Ok(v) => *b == Ok::<Vec<u8>, String>(*v) && read_check(*b) == Ok::<Seq<u8>, Err2>(v@),
            Err(e) => read_check(*b) == Err::<Seq<u8>, Err2>(e@),
        },
{
    match b {
        Err(m) => {
            let msg = surround("读取文件失败: ", &chars_of(m.as_str()), "");
            proof {
                reveal_strlit("");
                assert(msg@ =~= "读取文件失败: "@ + m@);
            }
            Err(ToolPolicyError { message: string_of(&msg), error_type: "file_conflict" })
        },
        Ok(v) => match validate_text_bytes(v) {
            Ok(_) => Ok(v),
            Err(e) => Err(e),
        },
    }
}

/// Decides `copy_file` from what the caller found: `source` and `target`
/// are the resolved paths, `same_path` whether they are one file, `bytes`
/// the read of the source.
pub fn prepare_copy(
    args: &CopyArgs,
    source: &Result<ExistingFacts, ToolPolicyError>,
    target: &Result<TargetFacts, ToolPolicyError>,
    same_path: bool,
    bytes: &Result<Vec<u8>, String>,
    execution_scope: Option<&AgentExecutionScope>,
) -> (r: Result<FileWritePlan, ToolPolicyError>)
    ensures
        plan_res(r) == copy_decision(*args, *source, *target, same_path, *bytes, opt_scope_view(execution_scope)),
{
    let src = match check_existing(source, ExistingFilePolicy::CopySource) {
        Ok(s) => s,
        Err(e) => return Err(e),
    };
    let (trel, existed) = match check_target(target, execution_scope, WriteTargetPolicy::CopyTarget) {
        Ok(t) => t,
        Err(e) => return Err(e),
    };
    match validate_copy_model_boundary(src.as_str(), trel.as_str()) {
        Ok(_) => {},
        Err(e) => return Err(e),
    }
    let b = match check_read(bytes) {
        Ok(v) => v,
        Err(e) => return Err(e),
    };
    let expected = match &args.expected_source_hash {
        Some(h) => Some(h.as_str()),
        None => None,
    };
    match validate_copy_request(same_path, existed, b.as_slice(), expected) {
        Ok(_) => {},
        Err(e) => return Err(e),
    }
    let hash = sha256_bytes(b.as_slice());
    Ok(FileWritePlan { bytes: vstd::slice::slice_to_vec(b.as_slice()), path: args.target_path.as_str().to_owned(), hash, created: true })
}

/// Decides `write_file` from what the caller found: `target` is the
/// resolved path, `current` the read of the target (consulted only when it
/// exists and an expected hash is given).
pub fn prepare_write(
    args: &WriteArgs,
    target: &Result<TargetFacts, ToolPolicyError>,
    current: &Result<Vec<u8>, String>,
    execution_scope: Option<&AgentExecutionScope>,
) -> (r: Result<FileWritePlan, ToolPolicyError>)
    ensures
        plan_res(r) == write_decision(*args, *target, *current, opt_scope_view(execution_scope)),
{
    let (_, existed) = match check_target(target, execution_scope, WriteTargetPolicy::WriteFile) {
        Ok(t) => t,
        Err(e) => return Err(e),
    };
    let expected = match &args.expected_hash {
        Some(h) => Some(h.as_str()),
        None => None,
    };
    if existed && expected.is_some() {
        match current {
            Err(m) => {
                let msg = surround("读取文件失败: ", &chars_of(m.as_str()), "");
                proof {
                    reveal_strlit("");
                    assert(msg@ =~= "读取文件失败: "@ + m@);
                }
                return Err(ToolPolicyError { message: string_of(&msg), error_type: "file_conflict" });
            },
            Ok(c) => match validate_write_conflict(true, expected, c.as_slice()) {
                Ok(_) => {},
                Err(e) => return Err(e),
            },
        }
    } else {
        let empty: Vec<u8> = Vec::new();
        proof {
            assert(empty@ =~= Seq::<u8>::empty());
        }
        match validate_write_conflict(existed, expected, empty.as_slice()) {
            Ok(_) => {},
            Err(e) => return Err(e),
        }
    }
    let bytes = args.contents.as_str().as_bytes();
    match validate_text_bytes(bytes) {
        Ok(_) => {},
        Err(e) => return Err(e),
    }
    let hash = sha256_bytes(bytes);
    Ok(FileWritePlan { bytes: vstd::slice::slice_to_vec(bytes), path: args.path.as_str().to_owned(), hash, created: !existed })
}

/// Decides `patch_file` from what the caller found: `file` is the resolved
/// path, `current` the read of it.
pub fn prepare_patch(
    args: &PatchArgs,
    file: &Result<ExistingFacts, ToolPolicyError>,
    current: &Result<Vec<u8>, String>,
    execution_scope: Option<&AgentExecutionScope>,
) -> (r: Result<FileWritePlan, ToolPolicyError>)
    ensures
        plan_res(r) == patch_decision(*args, *file, *current, opt_scope_view(execution_scope)),
{
    let rel = match check_existing(file, ExistingFilePolicy::PatchTarget) {
        Ok(r) => r,
        Err(e) => return Err(e),
    };
    match validate_existing_affected_scope(rel.as_str(), execution_scope) {
        Ok(_) => {},
        Err(e) => return Err(e),
    }
    let b = match check_read(current) {
        Ok(v) => v,
        Err(e) => return Err(e),
    };
    let text = crate::preview::from_utf8_lossy(b.as_slice());
    let patched = match patch_text(text.as_str(), args.expected_hash.as_str(), args.search.as_str(), args.replace.as_str()) {
        Ok(p) => p,
        Err(e) => return Err(e),
    };
    let bytes = patched.as_str().as_bytes();
    let hash = sha256_bytes(bytes);
    Ok(FileWritePlan { bytes: vstd::slice::slice_to_vec(bytes), path: args.path.as_str().to_owned(), hash, created: false })
}

} // verus!
