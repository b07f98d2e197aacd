//! The path policy that a tool call is held to before it runs.
//!
//! A call names workspace paths (`path`, `source_path`, `target_path`) and
//! may name export targets. Each path is normalized and checked against the
//! tool's roots, its rule for CadQuery model sources and, where the tool
//! works inside a confirmed execution scope, against that scope.
use vstd::prelude::*;
use crate::registry::{
    AgentToolPathPolicy, CadQueryModelFilePolicy, OutputPathPolicy, PolicyView, policy_view,
    str_views, find_spec, permission_for, tool_table, agent_tool_specs, find_spec_index,
    specs_view, spec_view, agent_tool_permission,
};
use crate::json_args::{
    FieldView, JsonField, field_items_or_empty, field_list, field_text, field_view, fields_view, json_fields, keys_view,
    next_field, read_fields, take_items, take_text,
};
use crate::scope::{AgentExecutionScope, ScopeView, opt_scope_view, opt_string, scope_view};
use crate::text::{chars_of, eq_lit, seq_eq, string_of, surround};
use crate::workspace_path::{
    PathRejection, first_segment, first_segment_exec, is_cadquery_model_path,
    is_cadquery_model_path_exec, normalize_path, normalize_path_exec,
};
use crate::model::AgentMode;

verus! {

/// Why a tool call was refused: a message and an error type.
#[derive(Debug, Clone, PartialEq, Eq)]
pub struct ToolPolicyError {
    pub message: String,
    pub error_type: &'static str,
}

impl View for ToolPolicyError {
    type V = (Seq<char>, Seq<char>);

    open spec fn view(&self) -> (Seq<char>, Seq<char>) {
        (self.message@, self.error_type@)
    }
}

/// A refusal for lack of permission.
pub open spec fn denied(message: Seq<char>) -> (Seq<char>, Seq<char>) {
    (message, "permission_denied"@)
}

/// A refusal for malformed arguments.
pub open spec fn invalid(message: Seq<char>) -> (Seq<char>, Seq<char>) {
    (message, "invalid_arguments"@)
}

impl ToolPolicyError {
    /// A copy of the refusal.
    pub(crate) fn clone_error(&self) -> (r: Self)
        ensures
            r@ == self@,
    {
        ToolPolicyError { message: self.message.as_str().to_owned(), error_type: self.error_type }
    }

    fn permission_denied(message: &str) -> (r: Self)
        ensures
            r@ == denied(message@),
    {
        ToolPolicyError { message: message.to_owned(), error_type: "permission_denied" }
    }

    fn permission_denied_chars(message: &[char]) -> (r: Self)
        ensures
            r@ == denied(message@),
    {
        ToolPolicyError { message: string_of(message), error_type: "permission_denied" }
    }

    fn invalid_arguments(message: &str) -> (r: Self)
        ensures
            r@ == invalid(message@),
    {
        ToolPolicyError { message: message.to_owned(), error_type: "invalid_arguments" }
    }
}

/// The workspace-path fields of a tool call.
#[derive(Debug, Clone, Copy, PartialEq, Eq, Structural)]
pub enum PathField {
    Path,
    SourcePath,
    TargetPath,
}

/// The `export_targets` argument of a call.
#[derive(Debug, Clone, PartialEq, Eq)]
pub enum ExportTargetsArg {
    /// The call has no `export_targets`.
    Absent,
    /// `export_targets` is present but is not an array.
    NotArray,
    /// The items of the array; an item that is not a string is `None`.
    Items(Vec<Option<String>>),
}

/// The `expected_hash` argument of a call.
#[derive(Debug, Clone, PartialEq, Eq)]
pub enum ExpectedHashArg {
    Absent,
    Text(String),
    /// Present, but not a string.
    Other,
}

/// What the path policy reads of a call's JSON arguments. A path field is
/// `Some` where the argument is a string.
#[derive(Debug, Clone, PartialEq, Eq)]
pub struct ToolArgs {
    pub path: Option<String>,
    pub source_path: Option<String>,
    pub target_path: Option<String>,
    pub export_targets: ExportTargetsArg,
    /// Whether `export_formats` is a non-empty array.
    pub export_formats_requested: bool,
    pub expected_hash: ExpectedHashArg,
}

/// A call's arguments: parsed, or the parser's error text.
#[derive(Debug, Clone, PartialEq, Eq)]
pub enum ParsedToolArgs {
    Invalid(String),
    Parsed(ToolArgs),
}

/// Parsed arguments by their views: the three path fields, the export
/// targets (absent, not an array, or the items), whether export formats are
/// requested, and the expected hash (absent, not a string, or the text); or
/// the parser's error message.
pub type ToolArgsView = (
    Option<Seq<char>>,
    Option<Seq<char>>,
    Option<Seq<char>>,
    Option<Option<Seq<Option<Seq<char>>>>>,
    bool,
    Option<Option<Seq<char>>>,
);

pub open spec fn export_targets_view(a: ExportTargetsArg) -> Option<Option<Seq<Option<Seq<char>>>>> {
    match a {
        ExportTargetsArg::Absent => None,
        ExportTargetsArg::NotArray => Some(None),
        ExportTargetsArg::Items(v) => Some(Some(items_view(v@))),
    }
}

pub open spec fn expected_hash_view(h: ExpectedHashArg) -> Option<Option<Seq<char>>> {
    match h {
        ExpectedHashArg::Absent => None,
        ExpectedHashArg::Text(s) => Some(Some(s@)),
        ExpectedHashArg::Other => Some(None),
    }
}

pub open spec fn parsed_view(p: ParsedToolArgs) -> Result<ToolArgsView, Seq<char>> {
    match p {
        ParsedToolArgs::Invalid(e) => Err(e@),
        ParsedToolArgs::Parsed(a) => Ok(
            (
                opt_string(a.path),
                opt_string(a.source_path),
                opt_string(a.target_path),
                export_targets_view(a.export_targets),
                a.export_formats_requested,
                expected_hash_view(a.expected_hash),
            ),
        ),
    }
}

/// The keys the path policy reads.
pub open spec fn tool_arg_keys() -> Seq<Seq<char>> {
    seq!["path"@, "source_path"@, "target_path"@, "export_targets"@, "export_formats"@, "expected_hash"@]
}

/// What the path policy reads of the fields: string paths, the export
/// targets list, export formats as a non-empty array, and the expected hash
/// (present, and its string where it is one).
pub open spec fn tool_args_of_fields(r: Result<Seq<FieldView>, Seq<char>>) -> Result<ToolArgsView, Seq<char>> {
    match r {
        Err(e) => Err(e),
        Ok(f) => Ok(
            (
                field_text(f[0]),
                field_text(f[1]),
                field_text(f[2]),
                field_list(f[3]),
                field_items_or_empty(f[4]).len() > 0,
                if f[5].0 {
                    Some(f[5].1)
                } else {
                    None
                },
            ),
        ),
    }
}

/// Reads a call's JSON arguments for the path policy.
pub fn parse_tool_args(arguments: &str) -> (r: ParsedToolArgs)
    ensures
        parsed_view(r) == tool_args_of_fields(json_fields(arguments@, tool_arg_keys())),
{
    let mut keys: Vec<&str> = Vec::new();
    keys.push("path");
    keys.push("source_path");
    keys.push("target_path");
    keys.push("export_targets");
    keys.push("export_formats");
    keys.push("expected_hash");
    proof {
        assert(keys_view(keys@) =~= tool_arg_keys());
    }
    let mut fields = match read_fields(arguments, &keys) {
        Err(e) => return ParsedToolArgs::Invalid(e),
        Ok(v) => v,
    };
    let ghost f = fields_view(fields@);
    let ghost all = fields@;
    let path = take_text(next_field(&mut fields));
    let source_path = take_text(next_field(&mut fields));
    let target_path = take_text(next_field(&mut fields));
    let targets_field = next_field(&mut fields);
    let present = !matches!(targets_field, JsonField::Absent);
    let export_targets = match take_items(targets_field) {
        Some(v) => ExportTargetsArg::Items(v),
        None => if present {
            ExportTargetsArg::NotArray
        } else {
            ExportTargetsArg::Absent
        },
    };
    let export_formats_requested = match take_items(next_field(&mut fields)) {
        Some(v) => v.len() > 0,
        None => false,
    };
    let expected_hash = match next_field(&mut fields) {
        JsonField::Absent => ExpectedHashArg::Absent,
        JsonField::Text(s) => ExpectedHashArg::Text(s),
        _ => ExpectedHashArg::Other,
    };
    proof {
        assert(f[0] == field_view(all[0]));
        assert(f[1] == field_view(all[1]));
        assert(f[2] == field_view(all[2]));
        assert(f[3] == field_view(all[3]));
        assert(f[4] == field_view(all[4]));
        assert(f[5] == field_view(all[5]));
    }
    ParsedToolArgs::Parsed(
        ToolArgs { path, source_path, target_path, export_targets, export_formats_requested, expected_hash },
    )
}

pub open spec fn unit_result(r: Result<(), ToolPolicyError>) -> Result<(), (Seq<char>, Seq<char>)> {
    match r {
        Ok(_) => Ok(()),
        Err(e) => Err(e@),
    }
}

pub open spec fn text_result(r: Result<Vec<char>, ToolPolicyError>) -> Result<Seq<char>, (Seq<char>, Seq<char>)> {
    match r {
        Ok(v) => Ok(v@),
        Err(e) => Err(e@),
    }
}

pub open spec fn opt_text_result(r: Result<Option<Vec<char>>, ToolPolicyError>) -> Result<
    Option<Seq<char>>,
    (Seq<char>, Seq<char>),
> {
    match r {
        Ok(Some(v)) => Ok(Some(v@)),
        Ok(None) => Ok(None),
        Err(e) => Err(e@),
    }
}

pub open spec fn rejection_message(r: PathRejection) -> Seq<char> {
    match r {
        PathRejection::NotWorkspaceRelative => "path must be workspace-relative"@,
        PathRejection::ParentSegment => "path must not contain '..'"@,
    }
}

/// A path normalized as the tool layer does it; a rejection is a refusal.
pub open spec fn normalized(path: Seq<char>) -> Result<Seq<char>, (Seq<char>, Seq<char>)> {
    match normalize_path(path) {
        Ok(p) => Ok(p),
        Err(r) => Err(denied(rejection_message(r))),
    }
}

/// A path normalized and held to the policy's denied and allowed roots. An
/// empty allowed root allows every root.
pub open spec fn checked_path(path: Seq<char>, policy: PolicyView) -> Result<
    Seq<char>,
    (Seq<char>, Seq<char>),
> {
    match normalized(path) {
        Err(e) => Err(e),
        Ok(cleaned) => {
            let root = first_segment(cleaned);
            if policy.denied_roots.contains(root) {
                Err(denied("path root '"@ + root + "' is denied for this tool"@))
            } else if policy.allowed_roots.len() > 0 && !policy.allowed_roots.contains(
                Seq::<char>::empty(),
            ) && !policy.allowed_roots.contains(root) {
                Err(denied("path root '"@ + root + "' is not allowed for this tool"@))
            } else {
                Ok(cleaned)
            }
        },
    }
}

pub open spec fn checked_opt(o: Option<Seq<char>>, policy: PolicyView) -> Result<
    Option<Seq<char>>,
    (Seq<char>, Seq<char>),
> {
    match o {
        None => Ok(None),
        Some(p) => match checked_path(p, policy) {
            Ok(c) => Ok(Some(c)),
            Err(e) => Err(e),
        },
    }
}

pub open spec fn normalized_opt(o: Option<Seq<char>>) -> Result<Option<Seq<char>>, (Seq<char>, Seq<char>)> {
    match o {
        None => Ok(None),
        Some(p) => match normalized(p) {
            Ok(c) => Ok(Some(c)),
            Err(e) => Err(e),
        },
    }
}

/// The path arguments that the policy checks; `save_cad_plan` names its
/// `target_path` as a CAD reference, not as a file it touches.
pub open spec fn policy_target(tool: Seq<char>, a: ToolArgs) -> Option<Seq<char>> {
    if tool == "save_cad_plan"@ {
        None
    } else {
        opt_string(a.target_path)
    }
}

pub open spec fn is_model_arg(o: Option<Seq<char>>) -> bool {
    match o {
        Some(p) => is_cadquery_model_path(p),
        None => false,
    }
}

/// `copy_file` may create a CadQuery model source only from another one.
pub open spec fn copy_boundary(tool: Seq<char>, source: Option<Seq<char>>, target: Option<Seq<char>>) -> Result<
    (),
    (Seq<char>, Seq<char>),
> {
    if tool == "copy_file"@ && is_model_arg(target) && !is_model_arg(source) {
        Err(denied("CadQuery model .py copy targets require a CadQuery model .py source"@))
    } else {
        Ok(())
    }
}

/// The policy's rule for CadQuery model sources.
pub open spec fn model_file_check(field: PathField, path: Seq<char>, policy: PolicyView) -> Result<
    (),
    (Seq<char>, Seq<char>),
> {
    if !is_cadquery_model_path(path) {
        Ok(())
    } else {
        match policy.cadquery_model_file {
            CadQueryModelFilePolicy::ReadOnly | CadQueryModelFilePolicy::CadQueryToolOnly => Ok(()),
            CadQueryModelFilePolicy::Denied => Err(
                denied("CadQuery model .py files must be modified through CadQuery tools"@),
            ),
            CadQueryModelFilePolicy::CopyOnly => if field != PathField::Path {
                Ok(())
            } else {
                Err(denied("CadQuery model .py files can only be copied by copy_file"@))
            },
        }
    }
}

/// A file that a scoped tool touches must be in the confirmed scope.
pub open spec fn scope_check(
    tool: Seq<char>,
    field: PathField,
    path: Seq<char>,
    policy: PolicyView,
    scope: Option<ScopeView>,
) -> Result<(), (Seq<char>, Seq<char>)> {
    if !policy.uses_execution_scope || field == PathField::SourcePath {
        Ok(())
    } else {
        match scope {
            None => Err(denied("tool requires confirmed execution scope"@)),
            Some(sc) => if tool == "patch_file"@ && field == PathField::Path
                && !sc.affected_files.contains(path) {
                Err(denied("patch_file path '"@ + path + "' must be in confirmed affected_files"@))
            } else if tool == "copy_file"@ && field == PathField::TargetPath
                && !sc.new_files.contains(path) {
                Err(denied("copy_file target_path '"@ + path + "' must be in confirmed new_files"@))
            } else if policy.cadquery_model_file == CadQueryModelFilePolicy::CopyOnly && field
                == PathField::TargetPath && is_cadquery_model_path(path) && !sc.new_files.contains(
                path,
            ) {
                Err(denied("copy_file target CadQuery model .py must be in confirmed new_files"@))
            } else if sc.affected_files.contains(path) || sc.new_files.contains(path) {
                Ok(())
            } else {
                Err(denied("path '"@ + path + "' is outside confirmed affected_files / new_files"@))
            },
        }
    }
}

pub open spec fn field_check(
    tool: Seq<char>,
    field: PathField,
    o: Option<Seq<char>>,
    policy: PolicyView,
    scope: Option<ScopeView>,
) -> Result<(), (Seq<char>, Seq<char>)> {
    match o {
        None => Ok(()),
        Some(p) => match model_file_check(field, p, policy) {
            Err(e) => Err(e),
            Ok(_) => scope_check(tool, field, p, policy, scope),
        },
    }
}

pub open spec fn export_items_message() -> Seq<char> {
    "export_targets must be an array of workspace-relative strings"@
}

pub open spec fn export_item(item: Option<Seq<char>>) -> Result<Seq<char>, (Seq<char>, Seq<char>)> {
    match item {
        None => Err(invalid(export_items_message())),
        Some(s) => normalized(s),
    }
}

/// The export targets of an array, normalized; the first bad item decides.
pub open spec fn export_items(items: Seq<Option<Seq<char>>>) -> Result<Seq<Seq<char>>, (Seq<char>, Seq<char>)>
    decreases items.len(),
{
    if items.len() == 0 {
        Ok(Seq::empty())
    } else {
        match export_items(items.drop_last()) {
            Err(e) => Err(e),
            Ok(prev) => match export_item(items.last()) {
                Err(e) => Err(e),
                Ok(p) => Ok(prev.push(p)),
            },
        }
    }
}

/// A bad item decides the result of every longer list.
pub proof fn lemma_export_items_err_extends(items: Seq<Option<Seq<char>>>, k: int)
    requires
        0 <= k <= items.len(),
        export_items(items.take(k)) is Err,
    ensures
        export_items(items) == export_items(items.take(k)),
    decreases items.len(),
{
    if k == items.len() {
        assert(items.take(k) =~= items);
    } else {
        assert(items.drop_last().take(k) =~= items.take(k));
        lemma_export_items_err_extends(items.drop_last(), k);
    }
}

pub open spec fn items_view(v: Seq<Option<String>>) -> Seq<Option<Seq<char>>> {
    v.map_values(|o: Option<String>| opt_string(o))
}

pub open spec fn export_targets_of(arg: ExportTargetsArg) -> Result<
    Option<Seq<Seq<char>>>,
    (Seq<char>, Seq<char>),
> {
    match arg {
        ExportTargetsArg::Absent => Ok(None),
        ExportTargetsArg::NotArray => Err(invalid(export_items_message())),
        ExportTargetsArg::Items(v) => match export_items(items_view(v@)) {
            Ok(t) => Ok(Some(t)),
            Err(e) => Err(e),
        },
    }
}

/// Where an export target may go under the policy's output rule.
pub open spec fn export_scope_check(path: Seq<char>, policy: PolicyView, scope: Option<ScopeView>) -> Result<
    (),
    (Seq<char>, Seq<char>),
> {
    if policy.output_paths == OutputPathPolicy::Denied {
        Err(denied("export_targets are not allowed for this tool"@))
    } else if policy.output_paths == OutputPathPolicy::DeclaredOutputsOnly {
        if first_segment(path) == "outputs"@ {
            Ok(())
        } else {
            Err(denied("export target must be under outputs/"@))
        }
    } else if policy.output_paths != OutputPathPolicy::ExecutionScopeOutputs {
        Ok(())
    } else if first_segment(path) != "outputs"@ {
        Err(denied("export target must be under outputs/"@))
    } else {
        match scope {
            None => Err(denied("export target requires confirmed execution scope"@)),
            Some(sc) => if sc.export_targets.contains(path) {
                Ok(())
            } else {
                Err(denied("export target '"@ + path + "' is outside confirmed export_targets"@))
            },
        }
    }
}

/// Every export target checked in order; the first refusal decides.
pub open spec fn exports_check(targets: Seq<Seq<char>>, policy: PolicyView, scope: Option<ScopeView>) -> Result<
    (),
    (Seq<char>, Seq<char>),
>
    decreases targets.len(),
{
    if targets.len() == 0 {
        Ok(())
    } else {
        match exports_check(targets.drop_last(), policy, scope) {
            Err(e) => Err(e),
            Ok(_) => export_scope_check(targets.last(), policy, scope),
        }
    }
}

/// A refused target decides the result of every longer list.
pub proof fn lemma_exports_check_err_extends(
    targets: Seq<Seq<char>>,
    k: int,
    policy: PolicyView,
    scope: Option<ScopeView>,
)
    requires
        0 <= k <= targets.len(),
        exports_check(targets.take(k), policy, scope) is Err,
    ensures
        exports_check(targets, policy, scope) == exports_check(targets.take(k), policy, scope),
    decreases targets.len(),
{
    if k == targets.len() {
        assert(targets.take(k) =~= targets);
    } else {
        assert(targets.drop_last().take(k) =~= targets.take(k));
        lemma_exports_check_err_extends(targets.drop_last(), k, policy, scope);
    }
}

/// Export formats under a scoped output rule need confirmed targets.
pub open spec fn export_policy(
    a: ToolArgs,
    policy: PolicyView,
    scope: Option<ScopeView>,
) -> Result<(), (Seq<char>, Seq<char>)> {
    match export_targets_of(a.export_targets) {
        Err(e) => Err(e),
        Ok(ex) => if a.export_formats_requested && policy.output_paths
            == OutputPathPolicy::ExecutionScopeOutputs && (ex is None || ex->0.len() == 0) {
            Err(denied("export_formats require confirmed export_targets"@))
        } else {
            match ex {
                None => Ok(()),
                Some(t) => exports_check(t, policy, scope),
            }
        },
    }
}

/// The whole path policy on parsed arguments, in the order the checks run:
/// path normalization and roots, the copy boundary, then per field the model
/// rule and the scope, then the export targets.
pub open spec fn tool_path_policy(
    tool: Seq<char>,
    a: ToolArgs,
    policy: PolicyView,
    scope: Option<ScopeView>,
) -> Result<(), (Seq<char>, Seq<char>)> {
    match checked_opt(opt_string(a.path), policy) {
        Err(e) => Err(e),
        Ok(p) => match checked_opt(opt_string(a.source_path), policy) {
            Err(e) => Err(e),
            Ok(s) => match checked_opt(policy_target(tool, a), policy) {
                Err(e) => Err(e),
                Ok(t) => match copy_boundary(tool, s, t) {
                    Err(e) => Err(e),
                    Ok(_) => match field_check(tool, PathField::Path, p, policy, scope) {
                        Err(e) => Err(e),
                        Ok(_) => match field_check(tool, PathField::SourcePath, s, policy, scope) {
                            Err(e) => Err(e),
                            Ok(_) => match field_check(tool, PathField::TargetPath, t, policy, scope) {
                                Err(e) => Err(e),
                                Ok(_) => export_policy(a, policy, scope),
                            },
                        },
                    },
                },
            },
        },
    }
}

pub open spec fn invalid_args_error(error: Seq<char>) -> (Seq<char>, Seq<char>) {
    invalid("invalid tool arguments: "@ + error)
}

pub open spec fn tool_path_policy_of(
    tool: Seq<char>,
    args: ParsedToolArgs,
    policy: PolicyView,
    scope: Option<ScopeView>,
) -> Result<(), (Seq<char>, Seq<char>)> {
    match args {
        ParsedToolArgs::Invalid(e) => Err(invalid_args_error(e@)),
        ParsedToolArgs::Parsed(a) => tool_path_policy(tool, a, policy, scope),
    }
}

pub open spec fn hash_present(h: ExpectedHashArg) -> bool {
    !(h is Absent)
}

pub open spec fn hash_non_empty(h: ExpectedHashArg) -> bool {
    match h {
        ExpectedHashArg::Text(s) => s@.len() > 0,
        _ => false,
    }
}

/// `write_file` on a confirmed new file carries no expected hash; on a
/// confirmed affected file it carries a non-empty one.
pub open spec fn write_intent(tool: Seq<char>, path: Option<Seq<char>>, hash: ExpectedHashArg, scope: Option<ScopeView>) -> Result<
    (),
    (Seq<char>, Seq<char>),
> {
    if tool != "write_file"@ {
        Ok(())
    } else {
        match (scope, path) {
            (Some(sc), Some(p)) => if sc.new_files.contains(p) && hash_present(hash) {
                Err(denied("write_file paths in confirmed new_files must not provide expected_hash"@))
            } else if sc.affected_files.contains(p) && !hash_non_empty(hash) {
                Err(denied("write_file paths in confirmed affected_files require expected_hash"@))
            } else {
                Ok(())
            },
            _ => Ok(()),
        }
    }
}

/// The registry's check of a call's intent: every path normalizes, and
/// `write_file` agrees with the scope about hashes.
pub open spec fn registry_intent(tool: Seq<char>, a: ToolArgs, scope: Option<ScopeView>) -> Result<
    (),
    (Seq<char>, Seq<char>),
> {
    match normalized_opt(opt_string(a.path)) {
        Err(e) => Err(e),
        Ok(p) => match normalized_opt(opt_string(a.source_path)) {
            Err(e) => Err(e),
            Ok(_) => match normalized_opt(opt_string(a.target_path)) {
                Err(e) => Err(e),
                Ok(_) => write_intent(tool, p, a.expected_hash, scope),
            },
        },
    }
}

pub open spec fn registry_intent_of(tool: Seq<char>, args: ParsedToolArgs, scope: Option<ScopeView>) -> Result<
    (),
    (Seq<char>, Seq<char>),
> {
    match args {
        ParsedToolArgs::Invalid(e) => Err(invalid_args_error(e@)),
        ParsedToolArgs::Parsed(a) => registry_intent(tool, a, scope),
    }
}

// ---------------------------------------------------------------------------
// Executable checks

fn rejection_error(r: PathRejection) -> (e: ToolPolicyError)
    ensures
        e@ == denied(rejection_message(r)),
{
    match r {
        PathRejection::NotWorkspaceRelative => ToolPolicyError::permission_denied("path must be workspace-relative"),
        PathRejection::ParentSegment => ToolPolicyError::permission_denied("path must not contain '..'"),
    }
}

fn normalized_exec(path: &[char]) -> (r: Result<Vec<char>, ToolPolicyError>)
    ensures
        text_result(r) == normalized(path@),
{
    match normalize_path_exec(path) {
        Ok(p) => Ok(p),
        Err(e) => Err(rejection_error(e)),
    }
}

/// Whether a list of literals holds a text.
fn strs_contain(v: &Vec<&'static str>, x: &[char]) -> (r: bool)
    ensures
        r == str_views(v@).contains(x@),
{
    let mut i: usize = 0;
    while i < v.len()
        invariant
            i <= v.len(),
            forall|j: int| 0 <= j < i ==> str_views(v@)[j] != x@,
        decreases v.len() - i,
    {
        let c = chars_of(v[i]);
        if seq_eq(&c, x) {
            proof {
                assert(str_views(v@)[i as int] == x@);
            }
            return true;
        }
        i = i + 1;
    }
    false
}

/// Normalizes a path and holds it to the policy's roots.
pub fn validate_one_tool_path(path: &[char], policy: &AgentToolPathPolicy) -> (r: Result<Vec<char>, ToolPolicyError>)
    ensures
        text_result(r) == checked_path(path@, policy_view(*policy)),
{
    let cleaned = match normalized_exec(path) {
        Ok(c) => c,
        Err(e) => return Err(e),
    };
    let root = first_segment_exec(&cleaned);
    if strs_contain(&policy.denied_roots, &root) {
        return Err(ToolPolicyError::permission_denied_chars(
            &surround("path root '", &root, "' is denied for this tool"),
        ));
    }
    let empty: Vec<char> = Vec::new();
    proof {
        assert(empty@ =~= Seq::<char>::empty());
    }
    if policy.allowed_roots.len() > 0 && !strs_contain(&policy.allowed_roots, &empty) && !strs_contain(
        &policy.allowed_roots,
        &root,
    ) {
        return Err(ToolPolicyError::permission_denied_chars(
            &surround("path root '", &root, "' is not allowed for this tool"),
        ));
    }
    Ok(cleaned)
}

pub open spec fn opt_chars(o: Option<Vec<char>>) -> Option<Seq<char>> {
    match o {
        Some(v) => Some(v@),
        None => None,
    }
}

fn opt_chars_of(o: &Option<String>) -> (r: Option<Vec<char>>)
    ensures
        opt_chars(r) == opt_string(*o),
{
    match o {
        Some(s) => Some(chars_of(s.as_str())),
        None => None,
    }
}

fn checked_opt_exec(o: &Option<Vec<char>>, policy: &AgentToolPathPolicy) -> (r: Result<
    Option<Vec<char>>,
    ToolPolicyError,
>)
    ensures
        opt_text_result(r) == checked_opt(opt_chars(*o), policy_view(*policy)),
{
    match o {
        None => Ok(None),
        Some(p) => match validate_one_tool_path(p, policy) {
            Ok(c) => Ok(Some(c)),
            Err(e) => Err(e),
        },
    }
}

fn normalized_opt_exec(o: &Option<Vec<char>>) -> (r: Result<Option<Vec<char>>, ToolPolicyError>)
    ensures
        opt_text_result(r) == normalized_opt(opt_chars(*o)),
{
    match o {
        None => Ok(None),
        Some(p) => match normalized_exec(p) {
            Ok(c) => Ok(Some(c)),
            Err(e) => Err(e),
        },
    }
}

fn is_model_arg_exec(o: &Option<Vec<char>>) -> (r: bool)
    ensures
        r == is_model_arg(opt_chars(*o)),
{
    match o {
        Some(p) => is_cadquery_model_path_exec(p),
        None => false,
    }
}

fn model_file_check_exec(field: PathField, path: &[char], policy: &AgentToolPathPolicy) -> (r: Result<
    (),
    ToolPolicyError,
>)
    ensures
        unit_result(r) == model_file_check(field, path@, policy_view(*policy)),
{
    if !is_cadquery_model_path_exec(path) {
        return Ok(());
    }
    match policy.cadquery_model_file {
        CadQueryModelFilePolicy::ReadOnly | CadQueryModelFilePolicy::CadQueryToolOnly => Ok(()),
        CadQueryModelFilePolicy::Denied => Err(
            ToolPolicyError::permission_denied("CadQuery model .py files must be modified through CadQuery tools"),
        ),
        CadQueryModelFilePolicy::CopyOnly => if field != PathField::Path {
            Ok(())
        } else {
            Err(ToolPolicyError::permission_denied("CadQuery model .py files can only be copied by copy_file"))
        },
    }
}

fn scope_check_exec(
    tool: &[char],
    field: PathField,
    path: &[char],
    policy: &AgentToolPathPolicy,
    scope: Option<&AgentExecutionScope>,
) -> (r: Result<(), ToolPolicyError>)
    ensures
        unit_result(r) == scope_check(tool@, field, path@, policy_view(*policy), opt_scope_view(scope)),
{
    if !policy.uses_execution_scope || field == PathField::SourcePath {
        return Ok(());
    }
    let sc = match scope {
        None => return Err(ToolPolicyError::permission_denied("tool requires confirmed execution scope")),
        Some(sc) => sc,
    };
    if eq_lit(tool, "patch_file") && field == PathField::Path && !sc.contains_affected_file(path) {
        return Err(ToolPolicyError::permission_denied_chars(
            &surround("patch_file path '", path, "' must be in confirmed affected_files"),
        ));
    }
    if eq_lit(tool, "copy_file") && field == PathField::TargetPath && !sc.contains_new_file(path) {
        return Err(ToolPolicyError::permission_denied_chars(
            &surround("copy_file target_path '", path, "' must be in confirmed new_files"),
        ));
    }
    if policy.cadquery_model_file == CadQueryModelFilePolicy::CopyOnly && field == PathField::TargetPath
        && is_cadquery_model_path_exec(path) && !sc.contains_new_file(path) {
        return Err(ToolPolicyError::permission_denied(
            "copy_file target CadQuery model .py must be in confirmed new_files",
        ));
    }
    if sc.contains_affected_file(path) || sc.contains_new_file(path) {
        Ok(())
    } else {
        Err(ToolPolicyError::permission_denied_chars(
            &surround("path '", path, "' is outside confirmed affected_files / new_files"),
        ))
    }
}

fn field_check_exec(
    tool: &[char],
    field: PathField,
    o: &Option<Vec<char>>,
    policy: &AgentToolPathPolicy,
    scope: Option<&AgentExecutionScope>,
) -> (r: Result<(), ToolPolicyError>)
    ensures
        unit_result(r) == field_check(tool@, field, opt_chars(*o), policy_view(*policy), opt_scope_view(scope)),
{
    match o {
        None => Ok(()),
        Some(p) => match model_file_check_exec(field, p, policy) {
            Err(e) => Err(e),
            Ok(_) => scope_check_exec(tool, field, p, policy, scope),
        },
    }
}

pub open spec fn texts_result(r: Result<Vec<Vec<char>>, ToolPolicyError>) -> Result<
    Seq<Seq<char>>,
    (Seq<char>, Seq<char>),
> {
    match r {
        Ok(v) => Ok(v@.map_values(|x: Vec<char>| x@)),
        Err(e) => Err(e@),
    }
}

fn export_items_exec(items: &Vec<Option<String>>) -> (r: Result<Vec<Vec<char>>, ToolPolicyError>)
    ensures
        texts_result(r) == export_items(items_view(items@)),
{
    let mut out: Vec<Vec<char>> = Vec::new();
    let mut i: usize = 0;
    proof {
        assert(items_view(items@).take(0) =~= Seq::<Option<Seq<char>>>::empty());
        assert(out@.map_values(|x: Vec<char>| x@) =~= Seq::<Seq<char>>::empty());
    }
    while i < items.len()
        invariant
            i <= items.len(),
            export_items(items_view(items@).take(i as int)) == Ok::<Seq<Seq<char>>, (Seq<char>, Seq<char>)>(
                out@.map_values(|x: Vec<char>| x@),
            ),
        decreases items.len() - i,
    {
        let ghost pre = items_view(items@).take(i as int);
        proof {
            assert(items_view(items@).take(i + 1).drop_last() =~= pre);
            assert(items_view(items@).take(i + 1).last() == opt_string(items@[i as int]));
        }
        let n = match &items[i] {
            None => {
                proof {
                    lemma_export_items_err_extends(items_view(items@), i + 1);
                }
                return Err(ToolPolicyError::invalid_arguments(
                    "export_targets must be an array of workspace-relative strings",
                ));
            },
            Some(s) => {
                let c = chars_of(s.as_str());
                match normalized_exec(&c) {
                    Ok(n) => n,
                    Err(e) => {
                        proof {
                            lemma_export_items_err_extends(items_view(items@), i + 1);
                        }
                        return Err(e);
                    },
                }
            },
        };
        let ghost before = out@.map_values(|x: Vec<char>| x@);
        out.push(n);
        proof {
            assert(out@.map_values(|x: Vec<char>| x@) =~= before.push(n@));
        }
        i = i + 1;
    }
    proof {
        assert(items_view(items@).take(items@.len() as int) =~= items_view(items@));
    }
    Ok(out)
}

fn export_scope_check_exec(path: &[char], policy: &AgentToolPathPolicy, scope: Option<&AgentExecutionScope>) -> (r: Result<
    (),
    ToolPolicyError,
>)
    ensures
        unit_result(r) == export_scope_check(path@, policy_view(*policy), opt_scope_view(scope)),
{
    if policy.output_paths == OutputPathPolicy::Denied {
        return Err(ToolPolicyError::permission_denied("export_targets are not allowed for this tool"));
    }
    let root = first_segment_exec(path);
    let under_outputs = eq_lit(&root, "outputs");
    if policy.output_paths == OutputPathPolicy::DeclaredOutputsOnly {
        if under_outputs {
            return Ok(());
        }
        return Err(ToolPolicyError::permission_denied("export target must be under outputs/"));
    }
    if policy.output_paths != OutputPathPolicy::ExecutionScopeOutputs {
        return Ok(());
    }
    if !under_outputs {
        return Err(ToolPolicyError::permission_denied("export target must be under outputs/"));
    }
    match scope {
        None => Err(ToolPolicyError::permission_denied("export target requires confirmed execution scope")),
        Some(sc) => if sc.contains_export_target(path) {
            Ok(())
        } else {
            Err(ToolPolicyError::permission_denied_chars(
                &surround("export target '", path, "' is outside confirmed export_targets"),
            ))
        },
    }
}

fn exports_check_exec(targets: &Vec<Vec<char>>, policy: &AgentToolPathPolicy, scope: Option<&AgentExecutionScope>) -> (r: Result<
    (),
    ToolPolicyError,
>)
    ensures
        unit_result(r) == exports_check(
            targets@.map_values(|x: Vec<char>| x@),
            policy_view(*policy),
            opt_scope_view(scope),
        ),
{
    let ghost all = targets@.map_values(|x: Vec<char>| x@);
    let mut i: usize = 0;
    proof {
        assert(all.take(0) =~= Seq::<Seq<char>>::empty());
    }
    while i < targets.len()
        invariant
            i <= targets.len(),
            all == targets@.map_values(|x: Vec<char>| x@),
            exports_check(all.take(i as int), policy_view(*policy), opt_scope_view(scope)) == Ok::<
                (),
                (Seq<char>, Seq<char>),
            >(()),
        decreases targets.len() - i,
    {
        proof {
            assert(all.take(i + 1).drop_last() =~= all.take(i as int));
            assert(all.take(i + 1).last() == targets@[i as int]@);
        }
        match export_scope_check_exec(&targets[i], policy, scope) {
            Ok(_) => {},
            Err(e) => {
                proof {
                    lemma_exports_check_err_extends(all, i + 1, policy_view(*policy), opt_scope_view(scope));
                }
                return Err(e);
            },
        }
        i = i + 1;
    }
    proof {
        assert(all.take(targets@.len() as int) =~= all);
    }
    Ok(())
}

fn export_policy_exec(a: &ToolArgs, policy: &AgentToolPathPolicy, scope: Option<&AgentExecutionScope>) -> (r: Result<
    (),
    ToolPolicyError,
>)
    ensures
        unit_result(r) == export_policy(*a, policy_view(*policy), opt_scope_view(scope)),
{
    let ex: Option<Vec<Vec<char>>> = match &a.export_targets {
        ExportTargetsArg::Absent => None,
        ExportTargetsArg::NotArray => {
            return Err(ToolPolicyError::invalid_arguments(
                "export_targets must be an array of workspace-relative strings",
            ));
        },
        ExportTargetsArg::Items(v) => match export_items_exec(v) {
            Ok(t) => Some(t),
            Err(e) => {
                return Err(e);
            },
        },
    };
    let none_or_empty = match &ex {
        None => true,
        Some(t) => t.len() == 0,
    };
    if a.export_formats_requested && policy.output_paths == OutputPathPolicy::ExecutionScopeOutputs
        && none_or_empty {
        return Err(ToolPolicyError::permission_denied("export_formats require confirmed export_targets"));
    }
    match &ex {
        None => Ok(()),
        Some(t) => exports_check_exec(t, policy, scope),
    }
}

pub(crate) fn invalid_args_exec(error: &String) -> (e: ToolPolicyError)
    ensures
        e@ == invalid_args_error(error@),
{
    let m = surround("invalid tool arguments: ", &chars_of(error.as_str()), "");
    proof {
        reveal_strlit("");
        assert("invalid tool arguments: "@ + error@ + ""@ =~= "invalid tool arguments: "@ + error@);
    }
    ToolPolicyError { message: string_of(&m), error_type: "invalid_arguments" }
}

/// Holds a call to its tool's path policy and, where the tool needs one, to
/// the confirmed execution scope.
pub fn validate_tool_path_policy(
    tool_name: &str,
    args: &ParsedToolArgs,
    policy: &AgentToolPathPolicy,
    confirmation_scope: Option<&AgentExecutionScope>,
) -> (r: Result<(), ToolPolicyError>)
    ensures
        unit_result(r) == tool_path_policy_of(
            tool_name@,
            *args,
            policy_view(*policy),
            opt_scope_view(confirmation_scope),
        ),
{
    let a = match args {
        ParsedToolArgs::Invalid(e) => return Err(invalid_args_exec(e)),
        ParsedToolArgs::Parsed(a) => a,
    };
    let tool = chars_of(tool_name);
    let raw_path = opt_chars_of(&a.path);
    let raw_source = opt_chars_of(&a.source_path);
    let raw_target = if eq_lit(&tool, "save_cad_plan") {
        None
    } else {
        opt_chars_of(&a.target_path)
    };
    let p = match checked_opt_exec(&raw_path, policy) {
        Ok(p) => p,
        Err(e) => return Err(e),
    };
    let s = match checked_opt_exec(&raw_source, policy) {
        Ok(s) => s,
        Err(e) => return Err(e),
    };
    let t = match checked_opt_exec(&raw_target, policy) {
        Ok(t) => t,
        Err(e) => return Err(e),
    };
    if eq_lit(&tool, "copy_file") && is_model_arg_exec(&t) && !is_model_arg_exec(&s) {
        return Err(ToolPolicyError::permission_denied(
            "CadQuery model .py copy targets require a CadQuery model .py source",
        ));
    }
    match field_check_exec(&tool, PathField::Path, &p, policy, confirmation_scope) {
        Ok(_) => {},
        Err(e) => return Err(e),
    }
    match field_check_exec(&tool, PathField::SourcePath, &s, policy, confirmation_scope) {
        Ok(_) => {},
        Err(e) => return Err(e),
    }
    match field_check_exec(&tool, PathField::TargetPath, &t, policy, confirmation_scope) {
        Ok(_) => {},
        Err(e) => return Err(e),
    }
    export_policy_exec(a, policy, confirmation_scope)
}

fn write_intent_exec(
    tool: &[char],
    path: &Option<Vec<char>>,
    hash: &ExpectedHashArg,
    scope: Option<&AgentExecutionScope>,
) -> (r: Result<(), ToolPolicyError>)
    ensures
        unit_result(r) == write_intent(tool@, opt_chars(*path), *hash, opt_scope_view(scope)),
{
    if !eq_lit(tool, "write_file") {
        return Ok(());
    }
    match (scope, path) {
        (Some(sc), Some(p)) => {
            let present = match hash {
                ExpectedHashArg::Absent => false,
                _ => true,
            };
            let non_empty = match hash {
                ExpectedHashArg::Text(s) => chars_of(s.as_str()).len() > 0,
                _ => false,
            };
            if sc.contains_new_file(p) && present {
                Err(ToolPolicyError::permission_denied(
                    "write_file paths in confirmed new_files must not provide expected_hash",
                ))
            } else if sc.contains_affected_file(p) && !non_empty {
                Err(ToolPolicyError::permission_denied(
                    "write_file paths in confirmed affected_files require expected_hash",
                ))
            } else {
                Ok(())
            }
        },
        _ => Ok(()),
    }
}

/// The registry's check of a call: every path argument normalizes, and a
/// `write_file` call agrees with the confirmed scope about `expected_hash`.
pub fn validate_registry_tool_intent(
    tool_name: &str,
    args: &ParsedToolArgs,
    confirmation_scope: Option<&AgentExecutionScope>,
) -> (r: Result<(), ToolPolicyError>)
    ensures
        unit_result(r) == registry_intent_of(tool_name@, *args, opt_scope_view(confirmation_scope)),
{
    let a = match args {
        ParsedToolArgs::Invalid(e) => return Err(invalid_args_exec(e)),
        ParsedToolArgs::Parsed(a) => a,
    };
    let tool = chars_of(tool_name);
    let p = match normalized_opt_exec(&opt_chars_of(&a.path)) {
        Ok(p) => p,
        Err(e) => return Err(e),
    };
    match normalized_opt_exec(&opt_chars_of(&a.source_path)) {
        Ok(_) => {},
        Err(e) => return Err(e),
    }
    match normalized_opt_exec(&opt_chars_of(&a.target_path)) {
        Ok(_) => {},
        Err(e) => return Err(e),
    }
    write_intent_exec(&tool, &p, &a.expected_hash, confirmation_scope)
}

// ---------------------------------------------------------------------------
// Gates before a tool runs

/// What a registered call meets before it runs: the mode permission, the
/// tool's path policy, then the registry's intent check. `None` lets it run.
pub open spec fn registered_refusal(
    tool: Seq<char>,
    mode: AgentMode,
    args: ParsedToolArgs,
    scope: Option<ScopeView>,
) -> Option<(Seq<char>, Seq<char>)> {
    let perm = permission_for(tool, mode, scope is Some);
    if !perm.0 {
        Some(denied(perm.2))
    } else {
        let policy_result = match find_spec(tool_table(), tool) {
            Some(spec) => tool_path_policy_of(tool, args, spec.path_policy, scope),
            None => Ok(()),
        };
        match policy_result {
            Err(e) => Some(e),
            Ok(_) => match registry_intent_of(tool, args, scope) {
                Err(e) => Some(e),
                Ok(_) => None,
            },
        }
    }
}

/// What the workspace executor itself checks of a registered tool: the mode
/// permission and the path policy. Unregistered names pass through.
pub open spec fn direct_refusal(
    tool: Seq<char>,
    mode: AgentMode,
    args: ParsedToolArgs,
    scope: Option<ScopeView>,
) -> Option<(Seq<char>, Seq<char>)> {
    match find_spec(tool_table(), tool) {
        None => None,
        Some(spec) => {
            let perm = permission_for(tool, mode, scope is Some);
            if !perm.0 {
                Some(denied(perm.2))
            } else {
                match tool_path_policy_of(tool, args, spec.path_policy, scope) {
                    Err(e) => Some(e),
                    Ok(_) => None,
                }
            }
        },
    }
}

pub open spec fn refusal_view(r: Option<ToolPolicyError>) -> Option<(Seq<char>, Seq<char>)> {
    match r {
        Some(e) => Some(e@),
        None => None,
    }
}

fn permission_refusal(tool_name: &str, mode: AgentMode, has_scope: bool) -> (r: Option<ToolPolicyError>)
    ensures
        ({
            let perm = permission_for(tool_name@, mode, has_scope);
            refusal_view(r) == if perm.0 {
                None::<(Seq<char>, Seq<char>)>
            } else {
                Some(denied(perm.2))
            }
        }),
{
    let permission = agent_tool_permission(tool_name, mode, has_scope);
    if permission.allowed {
        None
    } else {
        Some(ToolPolicyError::permission_denied(permission.reason))
    }
}

/// The refusal that a registered call meets before its executor runs, if
/// any: a mode the tool is not allowed in, a breach of its path policy, or
/// a `write_file` whose hash disagrees with the confirmed scope.
pub fn registered_tool_refusal(
    tool_name: &str,
    mode: AgentMode,
    args: &ParsedToolArgs,
    execution_scope: Option<&AgentExecutionScope>,
) -> (r: Option<ToolPolicyError>)
    ensures
        refusal_view(r) == registered_refusal(tool_name@, mode, *args, opt_scope_view(execution_scope)),
{
    if let Some(e) = permission_refusal(tool_name, mode, execution_scope.is_some()) {
        return Some(e);
    }
    let specs = agent_tool_specs();
    let name = chars_of(tool_name);
    match find_spec_index(&specs, &name) {
        Some(i) => match validate_tool_path_policy(tool_name, args, &specs[i].path_policy, execution_scope) {
            Ok(_) => {},
            Err(e) => return Some(e),
        },
        None => {},
    }
    match validate_registry_tool_intent(tool_name, args, execution_scope) {
        Ok(_) => None,
        Err(e) => Some(e),
    }
}

/// The refusal that the workspace executor gives a registered tool by
/// itself, if any; a name the registry does not know passes.
pub fn validate_direct_executor_permission(
    tool_name: &str,
    mode: AgentMode,
    args: &ParsedToolArgs,
    execution_scope: Option<&AgentExecutionScope>,
) -> (r: Option<ToolPolicyError>)
    ensures
        refusal_view(r) == direct_refusal(tool_name@, mode, *args, opt_scope_view(execution_scope)),
{
    let specs = agent_tool_specs();
    let name = chars_of(tool_name);
    match find_spec_index(&specs, &name) {
        None => None,
        Some(i) => {
            if let Some(e) = permission_refusal(tool_name, mode, execution_scope.is_some()) {
                return Some(e);
            }
            match validate_tool_path_policy(tool_name, args, &specs[i].path_policy, execution_scope) {
                Ok(_) => None,
                Err(e) => Some(e),
            }
        },
    }
}

} // verus!
