//! The CadQuery runner process: its command lines, how its failures are
//! classified and reported, and the staging project whose outputs are
//! committed back to the workspace.
use vstd::prelude::*;
use crate::model::{CadQueryExportFormat, format_extension, format_extension_exec};
use crate::plan_package::string_views;
use crate::preview::join_path;
use crate::scope::opt_string;
use crate::text::{
    append_chars, append_lit, chars_of, contains, contains_lit, eq_lit, join, join_exec, replace_char,
    replace_char_exec, split, split_exec, string_of, trim, trim_exec, views,
};
use crate::watch::{path_components, path_components_exec};
use crate::workspace_path::{dot, dot_dot, kept, kept_exec};

verus! {

#[derive(Debug, Clone, Copy, PartialEq, Eq, Structural)]
pub enum CadQueryRunnerErrorKind {
    Build,
    Cancelled,
    FileConflict,
    InvalidProjectPath,
    Io,
    PermissionDenied,
    PythonImport,
    Runner,
    Timeout,
}

/// A failure of the runner or of staging: its kind and message.
#[derive(Debug, Clone, PartialEq, Eq)]
pub struct CadQueryRunnerError {
    pub kind: CadQueryRunnerErrorKind,
    pub message: String,
}

pub open spec fn kind_name(kind: CadQueryRunnerErrorKind) -> Seq<char> {
    match kind {
        CadQueryRunnerErrorKind::Build => "Build"@,
        CadQueryRunnerErrorKind::Cancelled => "Cancelled"@,
        CadQueryRunnerErrorKind::FileConflict => "FileConflict"@,
        CadQueryRunnerErrorKind::InvalidProjectPath => "InvalidProjectPath"@,
        CadQueryRunnerErrorKind::Io => "Io"@,
        CadQueryRunnerErrorKind::PermissionDenied => "PermissionDenied"@,
        CadQueryRunnerErrorKind::PythonImport => "PythonImport"@,
        CadQueryRunnerErrorKind::Runner => "Runner"@,
        CadQueryRunnerErrorKind::Timeout => "Timeout"@,
    }
}

fn kind_name_exec(kind: CadQueryRunnerErrorKind) -> (r: &'static str)
    ensures
        r@ == kind_name(kind),
{
    match kind {
        CadQueryRunnerErrorKind::Build => "Build",
        CadQueryRunnerErrorKind::Cancelled => "Cancelled",
        CadQueryRunnerErrorKind::FileConflict => "FileConflict",
        CadQueryRunnerErrorKind::InvalidProjectPath => "InvalidProjectPath",
        CadQueryRunnerErrorKind::Io => "Io",
        CadQueryRunnerErrorKind::PermissionDenied => "PermissionDenied",
        CadQueryRunnerErrorKind::PythonImport => "PythonImport",
        CadQueryRunnerErrorKind::Runner => "Runner",
        CadQueryRunnerErrorKind::Timeout => "Timeout",
    }
}

impl CadQueryRunnerError {
    pub fn new(kind: CadQueryRunnerErrorKind, message: String) -> (r: Self)
        ensures
            r.kind == kind,
            r.message@ == message@,
    {
        CadQueryRunnerError { kind, message }
    }

    /// The error as it is displayed: `Kind: message`.
    pub fn describe(&self) -> (r: String)
        ensures
            r@ == kind_name(self.kind) + ": "@ + self.message@,
    {
        let mut m = chars_of(kind_name_exec(self.kind));
        append_lit(&mut m, ": ");
        append_chars(&mut m, &chars_of(self.message.as_str()));
        string_of(&m)
    }
}

pub fn error_io(message: String) -> (r: CadQueryRunnerError)
    ensures
        r.kind == CadQueryRunnerErrorKind::Io,
        r.message@ == message@,
{
    CadQueryRunnerError { kind: CadQueryRunnerErrorKind::Io, message }
}

pub fn error_invalid_path(message: String) -> (r: CadQueryRunnerError)
    ensures
        r.kind == CadQueryRunnerErrorKind::InvalidProjectPath,
        r.message@ == message@,
{
    CadQueryRunnerError { kind: CadQueryRunnerErrorKind::InvalidProjectPath, message }
}

pub fn error_permission_denied(message: String) -> (r: CadQueryRunnerError)
    ensures
        r.kind == CadQueryRunnerErrorKind::PermissionDenied,
        r.message@ == message@,
{
    CadQueryRunnerError { kind: CadQueryRunnerErrorKind::PermissionDenied, message }
}

// ---------------------------------------------------------------------------
// Command lines

/// How a model is run: the Python executable, the project and script, where
/// outputs go, what to export, the parameters and a time limit.
#[derive(Debug, Clone, PartialEq, Eq)]
pub struct CadQueryRunConfig {
    pub python: String,
    pub project_root: String,
    pub script: String,
    pub output_dir: String,
    pub export_formats: Vec<CadQueryExportFormat>,
    pub params_json: String,
    pub timeout_ms: u64,
}

/// How a source's contract is checked by the runner.
#[derive(Debug, Clone, PartialEq, Eq)]
pub struct CadQueryContractConfig {
    pub python: String,
    pub code: String,
    pub timeout_ms: u64,
}

/// What the runner found of a source's contract.
#[derive(Debug, Clone, Copy, PartialEq, Eq)]
pub struct CadQueryContractResult {
    pub has_model_description: bool,
}

/// The export formats by extension, joined with commas.
pub open spec fn export_arg(formats: Seq<CadQueryExportFormat>) -> Seq<char>
    decreases formats.len(),
{
    if formats.len() == 0 {
        Seq::empty()
    } else if formats.len() == 1 {
        format_extension(formats[0])
    } else {
        export_arg(formats.drop_last()) + ","@ + format_extension(formats.last())
    }
}

pub fn export_arg_exec(formats: &Vec<CadQueryExportFormat>) -> (r: String)
    ensures
        r@ == export_arg(formats@),
{
    let mut r: Vec<char> = Vec::new();
    let mut i: usize = 0;
    proof {
        assert(formats@.take(0) =~= Seq::<CadQueryExportFormat>::empty());
    }
    while i < formats.len()
        invariant
            i <= formats.len(),
            r@ == export_arg(formats@.take(i as int)),
        decreases formats.len() - i,
    {
        proof {
            assert(formats@.take(i + 1).drop_last() =~= formats@.take(i as int));
            if i == 0 {
                assert(formats@.take(1) =~= seq![formats@[0]]);
            }
        }
        if i > 0 {
            append_lit(&mut r, ",");
        }
        let ghost mid = r@;
        append_lit(&mut r, format_extension_exec(formats[i]));
        proof {
            if i == 0 {
                assert(r@ =~= format_extension(formats@[0]));
            }
        }
        i = i + 1;
    }
    proof {
        assert(formats@.take(formats@.len() as int) =~= formats@);
    }
    string_of(&r)
}

/// The runner's arguments for a run.
pub open spec fn runner_args(c: CadQueryRunConfig) -> Seq<Seq<char>> {
    seq![
        "-B"@,
        "-m"@,
        "budn_cad_runner"@,
        "--script"@,
        c.script@,
        "--project-root"@,
        c.project_root@,
        "--output-dir"@,
        c.output_dir@,
        "--exports"@,
        export_arg(c.export_formats@),
        "--params"@,
        c.params_json@,
    ]
}

pub fn runner_args_exec(config: &CadQueryRunConfig) -> (r: Vec<String>)
    ensures
        string_views(r@) == runner_args(*config),
{
    let r = vec![
        "-B".to_owned(),
        "-m".to_owned(),
        "budn_cad_runner".to_owned(),
        "--script".to_owned(),
        config.script.as_str().to_owned(),
        "--project-root".to_owned(),
        config.project_root.as_str().to_owned(),
        "--output-dir".to_owned(),
        config.output_dir.as_str().to_owned(),
        "--exports".to_owned(),
        export_arg_exec(&config.export_formats),
        "--params".to_owned(),
        config.params_json.as_str().to_owned(),
    ];
    proof {
        assert(string_views(r@) =~= runner_args(*config));
    }
    r
}

/// The runner's arguments for a contract check of the file at `path`.
pub open spec fn contract_args(path: Seq<char>) -> Seq<Seq<char>> {
    seq!["-B"@, "-m"@, "budn_cad_runner"@, "--contract-file"@, path]
}

pub fn contract_args_exec(path: &str) -> (r: Vec<String>)
    ensures
        string_views(r@) == contract_args(path@),
{
    let r = vec![
        "-B".to_owned(),
        "-m".to_owned(),
        "budn_cad_runner".to_owned(),
        "--contract-file".to_owned(),
        path.to_owned(),
    ];
    proof {
        assert(string_views(r@) =~= contract_args(path@));
    }
    r
}

// ---------------------------------------------------------------------------
// Failures

/// The error the runner printed as JSON: status, error type and message.
#[derive(Debug, Clone, PartialEq, Eq)]
pub struct StructuredRunnerError {
    pub status: String,
    pub error_type: String,
    pub error: String,
}

pub open spec fn structured_message(e: StructuredRunnerError) -> Seq<char> {
    e.status@ + ":"@ + e.error_type@ + ":"@ + e.error@
}

impl StructuredRunnerError {
    /// `status:error_type:error`.
    pub fn message(&self) -> (r: String)
        ensures
            r@ == structured_message(*self),
    {
        let mut m = chars_of(self.status.as_str());
        append_lit(&mut m, ":");
        append_chars(&mut m, &chars_of(self.error_type.as_str()));
        append_lit(&mut m, ":");
        append_chars(&mut m, &chars_of(self.error.as_str()));
        string_of(&m)
    }
}

/// The structured error of the runner's JSON output, from its string fields:
/// none without a status; the type defaults to `RunnerError`, the message
/// to empty.
pub fn structured_runner_error(status: Option<String>, error_type: Option<String>, error: Option<String>) -> (r: Option<
    StructuredRunnerError,
>)
    ensures
        match r {
            None => status is None,
            Some(e) => opt_string(status) == Some(e.status@) && e.error_type@ == (match opt_string(error_type) {
                Some(t) => t,
                None => "RunnerError"@,
            }) && e.error@ == (match opt_string(error) {
                Some(t) => t,
                None => Seq::<char>::empty(),
            }),
        },
{
    let status = match status {
        None => return None,
        Some(s) => s,
    };
    let error_type = match error_type {
        Some(t) => t,
        None => "RunnerError".to_owned(),
    };
    let error = match error {
        Some(t) => t,
        None => {
            let e = String::new();
            proof {
                assert(e@ =~= Seq::<char>::empty());
            }
            e
        },
    };
    Some(StructuredRunnerError { status, error_type, error })
}

/// A failed import of a Python module.
pub open spec fn is_python_import_error_of(e: StructuredRunnerError) -> bool {
    e.error_type@ == "ImportError"@ || e.error_type@ == "ModuleNotFoundError"@ || contains(
        e.error@,
        "No module named"@,
    ) || contains(e.error@, "cannot import name"@)
}

pub fn is_python_import_error(e: &StructuredRunnerError) -> (r: bool)
    ensures
        r == is_python_import_error_of(*e),
{
    let t = chars_of(e.error_type.as_str());
    let m = chars_of(e.error.as_str());
    eq_lit(&t, "ImportError") || eq_lit(&t, "ModuleNotFoundError") || contains_lit(&m, "No module named")
        || contains_lit(&m, "cannot import name")
}

/// Exit code 1 is a failed build; anything else a runner failure.
pub open spec fn status_kind(code: Option<i32>) -> CadQueryRunnerErrorKind {
    if code == Some(1i32) {
        CadQueryRunnerErrorKind::Build
    } else {
        CadQueryRunnerErrorKind::Runner
    }
}

pub fn status_error_kind(code: Option<i32>) -> (r: CadQueryRunnerErrorKind)
    ensures
        r == status_kind(code),
{
    match code {
        Some(1) => CadQueryRunnerErrorKind::Build,
        _ => CadQueryRunnerErrorKind::Runner,
    }
}

/// The kind of a failed run: a missing Python module first, else by the
/// exit code.
pub open spec fn runner_kind(code: Option<i32>, parsed: Option<StructuredRunnerError>) -> CadQueryRunnerErrorKind {
    if parsed matches Some(e) && is_python_import_error_of(e) {
        CadQueryRunnerErrorKind::PythonImport
    } else {
        status_kind(code)
    }
}

pub fn runner_error_kind(code: Option<i32>, parsed: Option<&StructuredRunnerError>) -> (r: CadQueryRunnerErrorKind)
    ensures
        r == runner_kind(code, match parsed {
            Some(e) => Some(*e),
            None => None,
        }),
{
    match parsed {
        Some(e) => if is_python_import_error(e) {
            return CadQueryRunnerErrorKind::PythonImport;
        },
        None => {},
    }
    status_error_kind(code)
}

/// The message of a failed run: the structured error and the trimmed
/// standard error, either alone, joined by a line break when both exist.
pub open spec fn runner_message(parsed: Option<StructuredRunnerError>, stderr: Seq<char>) -> Seq<char> {
    let t = trim(stderr);
    match parsed {
        Some(e) => if t.len() == 0 {
            structured_message(e)
        } else {
            structured_message(e) + "\n"@ + t
        },
        None => t,
    }
}

pub fn runner_error_message(parsed: Option<&StructuredRunnerError>, stderr: &str) -> (r: String)
    ensures
        r@ == runner_message(match parsed {
            Some(e) => Some(*e),
            None => None,
        }, stderr@),
{
    let t = trim_exec(&chars_of(stderr));
    match parsed {
        Some(e) => {
            let mut m = chars_of(e.message().as_str());
            if t.len() > 0 {
                append_lit(&mut m, "\n");
                append_chars(&mut m, &t);
            }
            string_of(&m)
        },
        None => string_of(&t),
    }
}

/// The error of a run that exited unsuccessfully.
pub fn runner_failure(code: Option<i32>, parsed: Option<&StructuredRunnerError>, stderr: &str) -> (r: CadQueryRunnerError)
    ensures
        r.kind == runner_kind(code, match parsed {
            Some(e) => Some(*e),
            None => None,
        }),
        r.message@ == runner_message(match parsed {
            Some(e) => Some(*e),
            None => None,
        }, stderr@),
{
    CadQueryRunnerError { kind: runner_error_kind(code, parsed), message: runner_error_message(parsed, stderr) }
}

/// The contract result from the runner's `contract.has_model_description`,
/// which must be there.
pub fn contract_result(has_model_description: Option<bool>) -> (r: Result<CadQueryContractResult, CadQueryRunnerError>)
    ensures
        match has_model_description {
            Some(b) => r == Ok::<CadQueryContractResult, CadQueryRunnerError>(
                CadQueryContractResult { has_model_description: b },
            ),
            None => r matches Err(e) && e.kind == CadQueryRunnerErrorKind::Runner && e.message@
                == "CadQuery contract runner 输出缺少 contract.has_model_description"@,
        },
{
    match has_model_description {
        Some(b) => Ok(CadQueryContractResult { has_model_description: b }),
        None => Err(CadQueryRunnerError {
            kind: CadQueryRunnerErrorKind::Runner,
            message: "CadQuery contract runner 输出缺少 contract.has_model_description".to_owned(),
        }),
    }
}

/// A cancelled run stops.
pub fn ensure_not_cancelled(cancelled: bool) -> (r: Result<(), CadQueryRunnerError>)
    ensures
        r is Ok <==> !cancelled,
        r matches Err(e) ==> e.kind == CadQueryRunnerErrorKind::Cancelled && e.message@ == "CadQuery runner 已取消"@,
{
    if cancelled {
        Err(CadQueryRunnerError { kind: CadQueryRunnerErrorKind::Cancelled, message: "CadQuery runner 已取消".to_owned() })
    } else {
        Ok(())
    }
}

/// The runner's time limit was reached.
pub fn timeout_error() -> (r: CadQueryRunnerError)
    ensures
        r.kind == CadQueryRunnerErrorKind::Timeout,
        r.message@ == "CadQuery runner 执行超时"@,
{
    CadQueryRunnerError { kind: CadQueryRunnerErrorKind::Timeout, message: "CadQuery runner 执行超时".to_owned() }
}

// ---------------------------------------------------------------------------
// Staging

/// A relative path of normal components only, normalized; absolute paths
/// and paths with `.` leading or `..` anywhere escape.
pub open spec fn relative_project_path(path: Seq<char>) -> Result<Seq<char>, Seq<char>> {
    let segs = split(path, '/');
    if path.len() > 0 && path[0] == '/' {
        Err("CadQuery 目标路径必须是相对路径"@)
    } else if (segs[0] == dot() && path.len() > 0) || kept(segs).contains(dot_dot()) {
        Err("CadQuery 目标路径不能逃逸 workspace"@)
    } else {
        Ok(join(kept(segs), '/'))
    }
}

pub open spec fn invalid_path_result(r: Result<String, CadQueryRunnerError>) -> Result<Seq<char>, Seq<char>> {
    match r {
        Ok(s) => Ok(s@),
        Err(e) => Err(e.message@),
    }
}

/// Validates and normalizes a project-relative path.
pub fn validate_relative_path(path: &str) -> (r: Result<String, CadQueryRunnerError>)
    ensures
        invalid_path_result(r) == relative_project_path(path@),
        r matches Err(e) ==> e.kind == CadQueryRunnerErrorKind::InvalidProjectPath,
{
    let p = chars_of(path);
    if p.len() > 0 && p[0] == '/' {
        return Err(error_invalid_path("CadQuery 目标路径必须是相对路径".to_owned()));
    }
    let segs = split_exec(&p, '/');
    proof {
        crate::text::lemma_split_nonempty(p@, '/');
        assert(views(segs@)[0] == segs@[0]@);
        reveal_strlit(".");
        reveal_strlit("..");
        assert("."@ =~= dot());
        assert(".."@ =~= dot_dot());
    }
    let k = kept_exec(&segs);
    let lead_dot = p.len() > 0 && eq_lit(&segs[0], ".");
    let mut parent = false;
    let mut i: usize = 0;
    while i < k.len()
        invariant
            i <= k.len(),
            ".."@ == dot_dot(),
            parent == exists|j: int| 0 <= j < i && #[trigger] views(k@)[j] == dot_dot(),
        decreases k.len() - i,
    {
        proof {
            assert(views(k@)[i as int] == k@[i as int]@);
        }
        if eq_lit(&k[i], "..") {
            parent = true;
        }
        i = i + 1;
    }
    proof {
        assert(parent == views(k@).contains(dot_dot()));
    }
    if lead_dot || parent {
        return Err(error_invalid_path("CadQuery 目标路径不能逃逸 workspace".to_owned()));
    }
    Ok(string_of(&join_exec(&k, '/')))
}

/// A path as it is displayed: backslashes as slashes.
pub fn display_relative_path(path: &str) -> (r: String)
    ensures
        r@ == replace_char(path@, '\\', '/'),
{
    string_of(&replace_char_exec(&chars_of(path), '\\', '/'))
}

/// Which outputs a staged run may commit.
#[derive(Debug, Clone, PartialEq, Eq)]
pub enum CadQueryCommitScope {
    AllOutputs,
    ExactOutputs(Vec<String>),
}

/// Where a staging project lives: the workspace's `.budn_staging`
/// directory, under the staging id.
pub open spec fn staging_root(workspace_root: Seq<char>, staging_id: Seq<char>) -> Seq<char> {
    join_path(join_path(workspace_root, ".budn_staging"@), staging_id)
}

/// A staged run never writes its outputs into the workspace's own
/// `outputs` directory: the staging output directory lies under
/// `.budn_staging`, so it is a longer path.
pub proof fn law_staging_outputs_apart(workspace_root: Seq<char>, staging_id: Seq<char>)
    ensures
        join_path(staging_root(workspace_root, staging_id), "outputs"@) != join_path(workspace_root, "outputs"@),
        join_path(staging_root(workspace_root, staging_id), "outputs"@).len() > join_path(workspace_root, "outputs"@).len(),
{
    reveal_strlit(".budn_staging");
    reveal_strlit("outputs");
    reveal_strlit("/");
}

/// A copy of the workspace in which a model runs before anything is
/// committed.
#[derive(Debug, Clone, PartialEq, Eq)]
pub struct StagedCadQueryProject {
    root: String,
    workspace_root: String,
    target_relative_path: String,
    original_target_path: String,
    baseline: Option<Vec<u8>>,
}

impl StagedCadQueryProject {
    pub closed spec fn root_view(&self) -> Seq<char> {
        self.root@
    }

    pub closed spec fn workspace_view(&self) -> Seq<char> {
        self.workspace_root@
    }

    pub closed spec fn target_view(&self) -> Seq<char> {
        self.target_relative_path@
    }

    pub closed spec fn original_target_view(&self) -> Seq<char> {
        self.original_target_path@
    }

    pub closed spec fn baseline_view(&self) -> Option<Seq<u8>> {
        match self.baseline {
            Some(b) => Some(b@),
            None => None,
        }
    }

    /// A staging project, in the workspace's `.budn_staging` directory under
    /// its staging id, for a model at a project-relative path, with what the
    /// model file held when staging began (`None`: absent).
    pub fn new(staging_id: &str, workspace_root: String, target_relative_path: &str, baseline: Option<Vec<u8>>) -> (r: Result<
        Self,
        CadQueryRunnerError,
    >)
        ensures
            match r {
                Ok(s) => relative_project_path(target_relative_path@) == Ok::<Seq<char>, Seq<char>>(s.target_view())
                    && s.root_view() == staging_root(workspace_root@, staging_id@) && s.workspace_view() == workspace_root@
                    && s.original_target_view() == join_path(workspace_root@, s.target_view())
                    && s.baseline_view() == (match baseline {
                    Some(b) => Some(b@),
                    None => None,
                }),
                Err(e) => relative_project_path(target_relative_path@) == Err::<Seq<char>, Seq<char>>(e.message@),
            },
    {
        let rel = match validate_relative_path(target_relative_path) {
            Ok(r) => r,
            Err(e) => return Err(e),
        };
        let original = crate::preview::join_path_exec(workspace_root.as_str(), &chars_of(rel.as_str()));
        let staging_dir = crate::preview::join_path_exec(workspace_root.as_str(), &chars_of(".budn_staging"));
        let root = crate::preview::join_path_exec(staging_dir.as_str(), &chars_of(staging_id));
        Ok(StagedCadQueryProject {
            root,
            workspace_root,
            target_relative_path: rel,
            original_target_path: original,
            baseline,
        })
    }

    /// The staging directory.
    pub fn root(&self) -> (r: &str)
        ensures
            r@ == self.root_view(),
    {
        self.root.as_str()
    }

    /// Where the run writes its outputs: `outputs` in the staging directory.
    pub fn output_dir(&self) -> (r: String)
        ensures
            r@ == join_path(self.root_view(), "outputs"@),
    {
        crate::preview::join_path_exec(self.root.as_str(), &chars_of("outputs"))
    }

    /// The script argument of the runner: the model's relative path with
    /// slashes.
    pub fn script_arg(&self) -> (r: String)
        ensures
            r@ == replace_char(self.target_view(), '\\', '/'),
    {
        display_relative_path(self.target_relative_path.as_str())
    }

    /// The model file's path in the workspace.
    pub fn original_target_path(&self) -> (r: &str)
        ensures
            r@ == self.original_target_view(),
    {
        self.original_target_path.as_str()
    }

    /// The model file is as it was when staging began (`current`: what it
    /// holds now, `None` when absent).
    pub fn ensure_unchanged(&self, current: &Option<Vec<u8>>) -> (r: Result<(), CadQueryRunnerError>)
        ensures
            r is Ok <==> self.baseline_view() == (match current {
                Some(b) => Some(b@),
                None => None,
            }),
            r matches Err(e) ==> e.kind == CadQueryRunnerErrorKind::FileConflict && e.message@
                == "CadQuery 目标文件已被外部修改"@,
    {
        let same = match (&self.baseline, current) {
            (None, None) => true,
            (Some(a), Some(b)) => bytes_eq(a, b),
            _ => false,
        };
        if same {
            Ok(())
        } else {
            Err(CadQueryRunnerError {
                kind: CadQueryRunnerErrorKind::FileConflict,
                message: "CadQuery 目标文件已被外部修改".to_owned(),
            })
        }
    }
}

fn bytes_eq(a: &Vec<u8>, b: &Vec<u8>) -> (r: bool)
    ensures
        r == (a@ == b@),
{
    if a.len() != b.len() {
        return false;
    }
    let mut i: usize = 0;
    while i < a.len()
        invariant
            a.len() == b.len(),
            i <= a.len(),
            forall|j: int| 0 <= j < i ==> a@[j] == b@[j],
        decreases a.len() - i,
    {
        if a[i] != b[i] {
            return false;
        }
        i = i + 1;
    }
    proof {
        assert(a@ =~= b@);
    }
    true
}

/// The outputs a scope allows, normalized; each must lie under `outputs`.
pub open spec fn allowed_outputs(paths: Seq<Seq<char>>) -> Result<Seq<Seq<char>>, Seq<char>>
    decreases paths.len(),
{
    if paths.len() == 0 {
        Ok(Seq::empty())
    } else {
        match allowed_outputs(paths.drop_last()) {
            Err(e) => Err(e),
            Ok(prev) => match relative_project_path(paths.last()) {
                Err(e) => Err(e),
                Ok(n) => if path_components(n).len() > 0 && path_components(n)[0] == "outputs"@ {
                    Ok(prev.push(n))
                } else {
                    Err("CadQuery export target 必须位于 outputs/ 目录"@)
                },
            },
        }
    }
}

pub proof fn lemma_allowed_outputs_err_extends(paths: Seq<Seq<char>>, k: int)
    requires
        0 <= k <= paths.len(),
        allowed_outputs(paths.take(k)) is Err,
    ensures
        allowed_outputs(paths) == allowed_outputs(paths.take(k)),
    decreases paths.len(),
{
    if k == paths.len() {
        assert(paths.take(k) =~= paths);
    } else {
        assert(paths.drop_last().take(k) =~= paths.take(k));
        lemma_allowed_outputs_err_extends(paths.drop_last(), k);
    }
}

/// The outputs an exact commit scope allows.
pub fn allowed_output_paths(paths: &Vec<String>) -> (r: Result<Vec<String>, CadQueryRunnerError>)
    ensures
        match r {
            Ok(v) => allowed_outputs(string_views(paths@)) == Ok::<Seq<Seq<char>>, Seq<char>>(string_views(v@)),
            Err(e) => allowed_outputs(string_views(paths@)) == Err::<Seq<Seq<char>>, Seq<char>>(e.message@),
        },
{
    let ghost all = string_views(paths@);
    let mut out: Vec<String> = Vec::new();
    let mut i: usize = 0;
    proof {
        assert(all.take(0) =~= Seq::<Seq<char>>::empty());
        assert(string_views(out@) =~= Seq::<Seq<char>>::empty());
    }
    while i < paths.len()
        invariant
            i <= paths.len(),
            all == string_views(paths@),
            allowed_outputs(all.take(i as int)) == Ok::<Seq<Seq<char>>, Seq<char>>(string_views(out@)),
        decreases paths.len() - i,
    {
        proof {
            assert(all.take(i + 1).drop_last() =~= all.take(i as int));
            assert(all.take(i + 1).last() == paths@[i as int]@);
        }
        let n = match validate_relative_path(paths[i].as_str()) {
            Ok(n) => n,
            Err(e) => {
                proof {
                    lemma_allowed_outputs_err_extends(all, i + 1);
                }
                return Err(e);
            },
        };
        let comps = path_components_exec(&chars_of(n.as_str()));
        proof {
            if comps@.len() > 0 {
                assert(views(comps@)[0] == comps@[0]@);
            }
        }
        if !(comps.len() > 0 && eq_lit(&comps[0], "outputs")) {
            proof {
                lemma_allowed_outputs_err_extends(all, i + 1);
            }
            return Err(error_permission_denied("CadQuery export target 必须位于 outputs/ 目录".to_owned()));
        }
        let ghost before = string_views(out@);
        out.push(n);
        proof {
            assert(string_views(out@) =~= before.push(string_views(out@).last()));
        }
        i = i + 1;
    }
    proof {
        assert(all.take(paths@.len() as int) =~= all);
    }
    Ok(out)
}

// ---------------------------------------------------------------------------
// The ready notice of a result

/// How many faces, edges and vertices a part of a mesh result has.
#[derive(Debug, Clone, Copy, PartialEq, Eq)]
pub struct MeshPartCounts {
    pub faces: usize,
    pub edges: usize,
    pub vertices: usize,
}

/// What a ready notice tells of a mesh result: its ids, its counts, and
/// how it relates to its artifacts (`A`).
#[derive(Debug, Clone, PartialEq, Eq)]
pub struct CadQueryResultReady<A> {
    pub result_id: String,
    pub build_id: String,
    pub part_count: u32,
    pub face_count: u32,
    pub edge_count: u32,
    pub vertex_count: u32,
    pub artifact_relation: A,
}

/// A count taken as `u32`, as `as u32` truncates it.
pub open spec fn count32(n: usize) -> u32 {
    n as u32
}

/// The sum of one count over the parts, each taken as `u32`: `which` picks
/// faces (0), edges (1) or vertices (2).
pub open spec fn count_total(parts: Seq<MeshPartCounts>, which: int) -> int
    decreases parts.len(),
{
    if parts.len() == 0 {
        0
    } else {
        let p = parts.last();
        count_total(parts.drop_last(), which) + count32(
            if which == 0 {
                p.faces
            } else if which == 1 {
                p.edges
            } else {
                p.vertices
            },
        )
    }
}

proof fn lemma_count_total_grows(parts: Seq<MeshPartCounts>, k: int, which: int)
    requires
        0 <= k <= parts.len(),
    ensures
        0 <= count_total(parts.take(k), which) <= count_total(parts, which),
    decreases parts.len(),
{
    if parts.len() > 0 {
        if k < parts.len() {
            assert(parts.drop_last().take(k) =~= parts.take(k));
            lemma_count_total_grows(parts.drop_last(), k, which);
        } else {
            assert(parts.take(k) =~= parts);
            lemma_count_total_grows(parts.drop_last(), 0, which);
        }
    } else {
        assert(parts.take(k) =~= parts);
    }
}

fn total_of(parts: &Vec<MeshPartCounts>, which: u8) -> (r: u32)
    requires
        which <= 2,
        count_total(parts@, which as int) <= u32::MAX,
    ensures
        r == count_total(parts@, which as int),
{
    let mut total: u32 = 0;
    let mut i: usize = 0;
    while i < parts.len()
        invariant
            i <= parts.len(),
            which <= 2,
            count_total(parts@, which as int) <= u32::MAX,
            total == count_total(parts@.take(i as int), which as int),
        decreases parts.len() - i,
    {
        proof {
            assert(parts@.take(i + 1).drop_last() =~= parts@.take(i as int));
            lemma_count_total_grows(parts@, i + 1, which as int);
        }
        let p = parts[i];
        let n = if which == 0 {
            p.faces
        } else if which == 1 {
            p.edges
        } else {
            p.vertices
        };
        total = total + (n as u32);
        i = i + 1;
    }
    proof {
        assert(parts@.take(parts.len() as int) =~= parts@);
    }
    total
}

/// The ready notice of a mesh result: the number of parts and the totals of
/// their faces, edges and vertices, each count taken as `u32`. The totals
/// must fit in `u32`, as their sum does not wrap.
pub fn cadquery_result_ready<A>(
    result_id: String,
    build_id: String,
    parts: &Vec<MeshPartCounts>,
    artifact_relation: A,
) -> (r: CadQueryResultReady<A>)
    requires
        count_total(parts@, 0) <= u32::MAX,
        count_total(parts@, 1) <= u32::MAX,
        count_total(parts@, 2) <= u32::MAX,
    ensures
        r.result_id == result_id,
        r.build_id == build_id,
        r.part_count == count32(parts@.len() as usize),
        r.face_count == count_total(parts@, 0),
        r.edge_count == count_total(parts@, 1),
        r.vertex_count == count_total(parts@, 2),
        r.artifact_relation == artifact_relation,
{
    CadQueryResultReady {
        result_id,
        build_id,
        part_count: parts.len() as u32,
        face_count: total_of(parts, 0),
        edge_count: total_of(parts, 1),
        vertex_count: total_of(parts, 2),
        artifact_relation,
    }
}

} // verus!
