//! The arguments of the CadQuery tools and the checks a run request meets:
//! its model path and type, its export formats and targets, the confirmed
//! execution scope and the source contract.
use vstd::prelude::*;
use vstd::multiset::Multiset;
use crate::json_args::{
    FieldView, field_items_or_empty, field_text, field_view, fields_view, json_fields, keys_view, next_field, read_fields,
    take_items, take_text,
};
use crate::model::{AgentMode, CadQueryExportFormat, CadQueryObjectKind, format_extension, format_extension_exec, kind_label, target_type_label};
use crate::model_contract::{
    effective_type, flag, has_build_function, has_model_description, has_refs, import_findings,
    source_contract, unsafe_calls,
};
use crate::plan_package::string_views;
use crate::scope::{AgentExecutionScope, ScopeView, opt_scope_view, opt_string};
use crate::sorted::same_items;
use crate::text::{
    append_chars, append_lit, chars_of, ends_with, ends_with_lit, eq_lit, join_with, lines, lower_exec,
    lower_seq, seq_eq, starts_with, starts_with_lit, string_of, surround,
};
use crate::tool_policy::{ToolPolicyError, denied, invalid, rejection_message, unit_result, items_view};
use crate::workspace_path::{
    PathRejection, file_stem, file_stem_exec, first_piece, first_piece_exec, is_model_path_by_first_piece,
    is_model_path_by_first_piece_exec, normalize_path, normalize_path_exec,
};
use crate::scope::strings_contain;

verus! {

/// A request to check, dry-run or execute CadQuery source.
#[derive(Debug, Clone, PartialEq, Eq)]
pub struct CadQueryToolRunRequest {
    pub target_path: String,
    pub target_type: CadQueryObjectKind,
    pub code: String,
    pub params_json: String,
    pub export_formats: Vec<CadQueryExportFormat>,
    pub export_targets: Vec<String>,
    pub doc_update_path: Option<String>,
    pub plan_ref: Option<String>,
    pub reason: Option<String>,
}

fn err_denied(message: &str) -> (r: ToolPolicyError)
    ensures
        r@ == denied(message@),
{
    ToolPolicyError { message: message.to_owned(), error_type: "permission_denied" }
}

fn err_invalid(message: &str) -> (r: ToolPolicyError)
    ensures
        r@ == invalid(message@),
{
    ToolPolicyError { message: message.to_owned(), error_type: "invalid_arguments" }
}

// ---------------------------------------------------------------------------
// Export targets and formats

/// The export format a target's extension names, ignoring ASCII case.
pub open spec fn target_format(target: Seq<char>) -> Option<CadQueryExportFormat> {
    let lower = lower_seq(target);
    if ends_with(lower, ".step"@) || ends_with(lower, ".stp"@) {
        Some(CadQueryExportFormat::Step)
    } else if ends_with(lower, ".stl"@) {
        Some(CadQueryExportFormat::Stl)
    } else if ends_with(lower, ".3mf"@) {
        Some(CadQueryExportFormat::ThreeMf)
    } else {
        None
    }
}

/// The export format of a target, or the refusal of its extension.
pub fn export_format_for_target(target: &[char]) -> (r: Result<CadQueryExportFormat, ToolPolicyError>)
    ensures
        match r {
            Ok(f) => target_format(target@) == Some(f),
            Err(e) => target_format(target@) is None && e@ == denied(
                "export_targets extensions must be step, stl or 3mf"@,
            ),
        },
{
    let lower = lower_exec(target);
    if ends_with_lit(&lower, ".step") || ends_with_lit(&lower, ".stp") {
        Ok(CadQueryExportFormat::Step)
    } else if ends_with_lit(&lower, ".stl") {
        Ok(CadQueryExportFormat::Stl)
    } else if ends_with_lit(&lower, ".3mf") {
        Ok(CadQueryExportFormat::ThreeMf)
    } else {
        Err(err_denied("export_targets extensions must be step, stl or 3mf"))
    }
}

/// The stem that runner outputs are named after: the model file's stem, or
/// `cadquery` when it has none.
pub open spec fn output_stem(target_path: Seq<char>) -> Seq<char> {
    match file_stem(target_path) {
        Some(s) => if s.len() > 0 {
            s
        } else {
            "cadquery"@
        },
        None => "cadquery"@,
    }
}

/// The output file the runner writes for a model in a format:
/// `outputs/<stem>.<extension>`.
pub open spec fn expected_export_target(target_path: Seq<char>, format: CadQueryExportFormat) -> Seq<char> {
    "outputs/"@ + output_stem(target_path) + "."@ + format_extension(format)
}

/// The output file the runner writes for a model in a format.
pub fn expected_export_target_exec(target_path: &[char], format: CadQueryExportFormat) -> (r: Vec<char>)
    ensures
        r@ == expected_export_target(target_path@, format),
{
    let stem = match file_stem_exec(target_path) {
        Some(s) => if s.len() > 0 {
            s
        } else {
            chars_of("cadquery")
        },
        None => chars_of("cadquery"),
    };
    let mut r = surround("outputs/", &stem, ".");
    append_lit(&mut r, format_extension_exec(format));
    r
}

pub open spec fn all_targets_have_format(targets: Seq<Seq<char>>) -> bool {
    forall|k: int| 0 <= k < targets.len() ==> target_format(#[trigger] targets[k]) is Some
}

/// Some target names the format.
pub open spec fn format_named(targets: Seq<Seq<char>>, f: CadQueryExportFormat) -> bool {
    exists|k: int| 0 <= k < targets.len() && target_format(#[trigger] targets[k]) == Some(f)
}

/// The formats asked for and the formats the targets name are the same set.
pub open spec fn same_format_sets(formats: Seq<CadQueryExportFormat>, targets: Seq<Seq<char>>) -> bool {
    &&& forall|m: int| 0 <= m < formats.len() ==> format_named(targets, #[trigger] formats[m])
    &&& forall|k: int| 0 <= k < targets.len() ==> formats.contains(
        (#[trigger] target_format(targets[k]))->0,
    )
}

/// The target is the runner's output for the model in one of the formats.
pub open spec fn is_output_for(target_path: Seq<char>, formats: Seq<CadQueryExportFormat>, t: Seq<char>) -> bool {
    exists|m: int| 0 <= m < formats.len() && t == expected_export_target(target_path, #[trigger] formats[m])
}

/// Every target is the runner's output for the model in an asked format.
pub open spec fn targets_match_runner_outputs(
    target_path: Seq<char>,
    formats: Seq<CadQueryExportFormat>,
    targets: Seq<Seq<char>>,
) -> bool {
    forall|k: int| 0 <= k < targets.len() ==> is_output_for(target_path, formats, #[trigger] targets[k])
}

/// Export formats and targets come together, name the same formats, and
/// name the runner's own output files.
pub open spec fn export_request_check(
    target_path: Seq<char>,
    formats: Seq<CadQueryExportFormat>,
    targets: Seq<Seq<char>>,
) -> Result<(), (Seq<char>, Seq<char>)> {
    if formats.len() == 0 && targets.len() == 0 {
        Ok(())
    } else if formats.len() == 0 {
        Err(denied("export_targets require export_formats"@))
    } else if targets.len() == 0 {
        Err(denied("export_formats require export_targets"@))
    } else if !all_targets_have_format(targets) {
        Err(denied("export_targets extensions must be step, stl or 3mf"@))
    } else if !same_format_sets(formats, targets) {
        Err(denied("export_formats must match export_targets extensions"@))
    } else if !targets_match_runner_outputs(target_path, formats, targets) {
        Err(denied("export_targets must match runner output filenames"@))
    } else {
        Ok(())
    }
}

fn formats_contain(formats: &Vec<CadQueryExportFormat>, f: CadQueryExportFormat) -> (r: bool)
    ensures
        r == formats@.contains(f),
{
    let mut i: usize = 0;
    while i < formats.len()
        invariant
            i <= formats.len(),
            forall|j: int| 0 <= j < i ==> formats@[j] != f,
        decreases formats.len() - i,
    {
        if formats[i] == f {
            return true;
        }
        i = i + 1;
    }
    false
}

/// Whether a target is the runner's output for the model in one of the
/// formats.
fn is_runner_output(tp: &[char], formats: &Vec<CadQueryExportFormat>, t: &[char]) -> (r: bool)
    ensures
        r == is_output_for(tp@, formats@, t@),
{
    let mut b: usize = 0;
    while b < formats.len()
        invariant
            b <= formats.len(),
            forall|c: int| 0 <= c < b ==> t@ != expected_export_target(tp@, #[trigger] formats@[c]),
        decreases formats.len() - b,
    {
        let e = expected_export_target_exec(tp, formats[b]);
        if seq_eq(t, &e) {
            return true;
        }
        b = b + 1;
    }
    false
}

/// The format of every target, or the refusal of the first bad extension.
fn target_formats_of(targets: &Vec<String>) -> (r: Result<Vec<CadQueryExportFormat>, ToolPolicyError>)
    ensures
        match r {
            Ok(v) => v@.len() == targets@.len() && forall|j: int|
                0 <= j < targets@.len() ==> target_format(#[trigger] string_views(targets@)[j]) == Some(v@[j]),
            Err(e) => !all_targets_have_format(string_views(targets@)) && e@ == denied(
                "export_targets extensions must be step, stl or 3mf"@,
            ),
        },
{
    let ghost ts = string_views(targets@);
    let mut v: Vec<CadQueryExportFormat> = Vec::new();
    let mut k: usize = 0;
    while k < targets.len()
        invariant
            k <= targets.len(),
            ts == string_views(targets@),
            v@.len() == k,
            forall|j: int| 0 <= j < k ==> target_format(#[trigger] ts[j]) == Some(v@[j]),
        decreases targets.len() - k,
    {
        let t = chars_of(targets[k].as_str());
        proof {
            assert(t@ == ts[k as int]);
        }
        match export_format_for_target(&t) {
            Ok(f) => {
                v.push(f);
            },
            Err(e) => {
                proof {
                    assert(target_format(ts[k as int]) is None);
                }
                return Err(e);
            },
        }
        k = k + 1;
    }
    Ok(v)
}

/// Whether the asked formats and the targets' formats are the same set.
fn formats_agree(formats: &Vec<CadQueryExportFormat>, target_formats: &Vec<CadQueryExportFormat>, targets: &Vec<String>) -> (r: bool)
    requires
        target_formats@.len() == targets@.len(),
        forall|j: int| 0 <= j < targets@.len() ==> target_format(#[trigger] string_views(targets@)[j]) == Some(target_formats@[j]),
    ensures
        r == same_format_sets(formats@, string_views(targets@)),
{
    let ghost ts = string_views(targets@);
    let mut m: usize = 0;
    while m < formats.len()
        invariant
            m <= formats.len(),
            ts == string_views(targets@),
            target_formats@.len() == targets@.len(),
            forall|j: int| 0 <= j < targets@.len() ==> target_format(#[trigger] ts[j]) == Some(target_formats@[j]),
            forall|q: int| 0 <= q < m ==> format_named(ts, #[trigger] formats@[q]),
        decreases formats.len() - m,
    {
        if !formats_contain(target_formats, formats[m]) {
            proof {
                assert forall|j: int| 0 <= j < ts.len() implies target_format(ts[j]) != Some(formats@[m as int]) by {
                    assert(target_format(ts[j]) == Some(target_formats@[j]));
                }
            }
            return false;
        }
        proof {
            let j = choose|j: int| 0 <= j < target_formats@.len() && target_formats@[j] == formats@[m as int];
            assert(target_format(ts[j]) == Some(formats@[m as int]));
        }
        m = m + 1;
    }
    let mut j: usize = 0;
    while j < target_formats.len()
        invariant
            j <= target_formats.len(),
            ts == string_views(targets@),
            target_formats@.len() == targets@.len(),
            forall|q: int| 0 <= q < targets@.len() ==> target_format(#[trigger] ts[q]) == Some(target_formats@[q]),
            forall|q: int| 0 <= q < formats@.len() ==> format_named(ts, #[trigger] formats@[q]),
            forall|q: int| 0 <= q < j ==> formats@.contains((#[trigger] target_format(ts[q]))->0),
        decreases target_formats.len() - j,
    {
        if !formats_contain(formats, target_formats[j]) {
            proof {
                assert(target_format(ts[j as int])->0 == target_formats@[j as int]);
            }
            return false;
        }
        j = j + 1;
    }
    true
}

/// Whether every target is a runner output.
fn all_runner_outputs(tp: &[char], formats: &Vec<CadQueryExportFormat>, targets: &Vec<String>) -> (r: bool)
    ensures
        r == targets_match_runner_outputs(tp@, formats@, string_views(targets@)),
{
    let ghost ts = string_views(targets@);
    let mut q: usize = 0;
    while q < targets.len()
        invariant
            q <= targets.len(),
            ts == string_views(targets@),
            forall|a: int| 0 <= a < q ==> is_output_for(tp@, formats@, #[trigger] ts[a]),
        decreases targets.len() - q,
    {
        let t = chars_of(targets[q].as_str());
        proof {
            assert(t@ == ts[q as int]);
        }
        if !is_runner_output(tp, formats, &t) {
            proof {
                assert(!is_output_for(tp@, formats@, ts[q as int]));
            }
            return false;
        }
        q = q + 1;
    }
    true
}

/// Checks that export formats and targets agree with each other and with
/// the runner's output names.
pub fn validate_export_request(request: &CadQueryToolRunRequest) -> (r: Result<(), ToolPolicyError>)
    ensures
        unit_result(r) == export_request_check(
            request.target_path@,
            request.export_formats@,
            string_views(request.export_targets@),
        ),
{
    let formats = &request.export_formats;
    let targets = &request.export_targets;
    if formats.len() == 0 && targets.len() == 0 {
        return Ok(());
    }
    if formats.len() == 0 {
        return Err(err_denied("export_targets require export_formats"));
    }
    if targets.len() == 0 {
        return Err(err_denied("export_formats require export_targets"));
    }
    let target_formats = match target_formats_of(targets) {
        Ok(v) => v,
        Err(e) => return Err(e),
    };
    proof {
        assert(all_targets_have_format(string_views(targets@)));
    }
    if !formats_agree(formats, &target_formats, targets) {
        return Err(err_denied("export_formats must match export_targets extensions"));
    }
    let tp = chars_of(request.target_path.as_str());
    if !all_runner_outputs(&tp, formats, targets) {
        return Err(err_denied("export_targets must match runner output filenames"));
    }
    Ok(())
}

// ---------------------------------------------------------------------------
// Scope of an execution

/// `cadquery_execute` runs in Agent mode; inside a confirmed scope its model
/// path and type are the scope's, its model file is among the scope's files,
/// and its export targets are exactly the scope's (when the scope names any)
/// and within them.
pub open spec fn execute_scope_check(
    target_path: Seq<char>,
    target_type: CadQueryObjectKind,
    targets: Seq<Seq<char>>,
    mode: AgentMode,
    scope: Option<ScopeView>,
) -> Result<(), (Seq<char>, Seq<char>)> {
    if mode != AgentMode::Agent {
        Err(denied("cadquery_execute requires Agent mode"@))
    } else {
        match scope {
            None => Ok(()),
            Some(sc) => if sc.target_path is Some && sc.target_path->0 != target_path {
                Err(denied("target_path does not match execution scope target_path"@))
            } else if sc.target_type is Some && sc.target_type->0 != target_type {
                Err(denied("target_type does not match execution scope target_type"@))
            } else if !sc.affected_files.contains(target_path) && !sc.new_files.contains(target_path) {
                Err(denied("target_path is outside execution affected_files / new_files"@))
            } else if sc.export_targets.len() > 0 && targets.to_multiset() != sc.export_targets.to_multiset() {
                Err(denied("export_targets must match execution scope export_targets"@))
            } else if exists|k: int| 0 <= k < targets.len() && !sc.export_targets.contains(#[trigger] targets[k]) {
                Err(denied("export target is outside execution export_targets"@))
            } else {
                Ok(())
            },
        }
    }
}

/// Checks a `cadquery_execute` request against the mode and the confirmed
/// execution scope.
#[verifier::loop_isolation(false)]
pub fn validate_execute_scope(
    request: &CadQueryToolRunRequest,
    mode: AgentMode,
    execution_scope: Option<&AgentExecutionScope>,
) -> (r: Result<(), ToolPolicyError>)
    ensures
        unit_result(r) == execute_scope_check(
            request.target_path@,
            request.target_type,
            string_views(request.export_targets@),
            mode,
            opt_scope_view(execution_scope),
        ),
{
    if mode != AgentMode::Agent {
        return Err(err_denied("cadquery_execute requires Agent mode"));
    }
    let scope = match execution_scope {
        None => return Ok(()),
        Some(s) => s,
    };
    let tp = chars_of(request.target_path.as_str());
    match &scope.target_path {
        Some(p) => {
            let pc = chars_of(p.as_str());
            if !seq_eq(&pc, &tp) {
                return Err(err_denied("target_path does not match execution scope target_path"));
            }
        },
        None => {},
    }
    match scope.target_type {
        Some(t) => {
            if t != request.target_type {
                return Err(err_denied("target_type does not match execution scope target_type"));
            }
        },
        None => {},
    }
    if !scope.contains_affected_file(&tp) && !scope.contains_new_file(&tp) {
        return Err(err_denied("target_path is outside execution affected_files / new_files"));
    }
    if scope.export_targets.len() > 0 && !same_items(&request.export_targets, &scope.export_targets) {
        return Err(err_denied("export_targets must match execution scope export_targets"));
    }
    let targets = &request.export_targets;
    let ghost ts = string_views(targets@);
    let mut k: usize = 0;
    while k < targets.len()
        invariant
            k <= targets.len(),
            ts == string_views(targets@),
            forall|j: int| 0 <= j < k ==> string_views(scope.export_targets@).contains(#[trigger] ts[j]),
        decreases targets.len() - k,
    {
        let t = chars_of(targets[k].as_str());
        proof {
            assert(t@ == ts[k as int]);
        }
        if !scope.contains_export_target(&t) {
            return Err(err_denied("export target is outside execution export_targets"));
        }
        k = k + 1;
    }
    Ok(())
}

// ---------------------------------------------------------------------------
// Product and source contracts

/// An executed model describes itself and exports a STEP file.
pub open spec fn execute_product_check(
    formats: Seq<CadQueryExportFormat>,
    targets: Seq<Seq<char>>,
    has_description: bool,
) -> Result<(), (Seq<char>, Seq<char>)> {
    if !has_description {
        Err(invalid(
            "CadQuery model source must include MODEL_DESCRIPTION and MODEL_DETAILS fields purpose, key_dimensions, intended_use, assumptions, interaction_notes, and manufacturing_or_placement_constraints."@,
        ))
    } else if formats.len() == 0 || targets.len() == 0 {
        Err(denied(
            "cadquery_execute requires export_formats and export_targets so the committed .py source and derived .step output stay synchronized."@,
        ))
    } else if !formats.contains(CadQueryExportFormat::Step) || !(exists|k: int|
        0 <= k < targets.len() && ends_with(#[trigger] targets[k], ".step"@)) {
        Err(denied("cadquery_execute requires a step export format and matching outputs/*.step export target."@))
    } else {
        Ok(())
    }
}

/// Checks what `cadquery_execute` asks of the product beyond the source
/// shape: a model description and a STEP export.
#[verifier::loop_isolation(false)]
pub fn validate_execute_product_contract(
    request: &CadQueryToolRunRequest,
    has_model_description: bool,
) -> (r: Result<(), ToolPolicyError>)
    ensures
        unit_result(r) == execute_product_check(
            request.export_formats@,
            string_views(request.export_targets@),
            has_model_description,
        ),
{
    if !has_model_description {
        return Err(err_invalid(
            "CadQuery model source must include MODEL_DESCRIPTION and MODEL_DETAILS fields purpose, key_dimensions, intended_use, assumptions, interaction_notes, and manufacturing_or_placement_constraints.",
        ));
    }
    if request.export_formats.len() == 0 || request.export_targets.len() == 0 {
        return Err(err_denied(
            "cadquery_execute requires export_formats and export_targets so the committed .py source and derived .step output stay synchronized.",
        ));
    }
    let has_step_format = formats_contain(&request.export_formats, CadQueryExportFormat::Step);
    let targets = &request.export_targets;
    let ghost ts = string_views(targets@);
    let mut has_step_target = false;
    let mut k: usize = 0;
    while k < targets.len()
        invariant
            k <= targets.len(),
            ts == string_views(targets@),
            has_step_target == exists|j: int| 0 <= j < k && ends_with(#[trigger] ts[j], ".step"@),
        decreases targets.len() - k,
    {
        let t = chars_of(targets[k].as_str());
        proof {
            assert(t@ == ts[k as int]);
        }
        if ends_with_lit(&t, ".step") {
            has_step_target = true;
        }
        k = k + 1;
    }
    if !has_step_format || !has_step_target {
        return Err(err_denied(
            "cadquery_execute requires a step export format and matching outputs/*.step export target.",
        ));
    }
    Ok(())
}

/// The source shape a run needs: `build`, `REFS.features`, the right type,
/// no invalid imports and no unsafe calls.
pub open spec fn source_contract_holds(path: Seq<char>, kind: CadQueryObjectKind, code: Seq<char>) -> bool {
    has_build_function(code) && has_refs(code) && effective_type(path, code) == kind && unsafe_calls(code).len()
        == 0 && import_findings(lines(code)).len() == 0
}

/// What the source lacks, in a fixed order.
pub open spec fn source_contract_failures(path: Seq<char>, kind: CadQueryObjectKind, code: Seq<char>) -> Seq<
    Seq<char>,
> {
    flag(!has_build_function(code), "missing build(params=None)"@) + flag(!has_refs(code), "missing REFS.features"@)
        + flag(effective_type(path, code) != kind, "REFS.type does not match target_type"@) + flag(
        import_findings(lines(code)).len() > 0,
        "invalid imports"@,
    ) + flag(unsafe_calls(code).len() > 0, "unsafe calls"@)
}

pub open spec fn contract_for_run_check(path: Seq<char>, kind: CadQueryObjectKind, code: Seq<char>) -> Result<
    (),
    (Seq<char>, Seq<char>),
> {
    if source_contract_holds(path, kind, code) {
        Ok(())
    } else {
        Err(invalid(
            "CadQuery source contract is not satisfied: "@ + join_with(source_contract_failures(path, kind, code), ", "@)
                + ". Required source shape includes a module-level REFS dict with type '"@ + kind_label(kind)
                + "' and a non-empty \"features\" map chosen from the actual model semantics, plus a build(params=None) function."@,
        ))
    }
}

proof fn lemma_empty_iff_set_empty<A>(s: Seq<A>)
    ensures
        s.len() == 0 <==> s.to_set() == Set::<A>::empty(),
{
    if s.len() > 0 {
        assert(s.to_set().contains(s[0]));
    } else {
        assert(s.to_set() =~= Set::<A>::empty());
    }
}

/// Checks a run request's source against the static model contract.
pub fn validate_contract_for_run(request: &CadQueryToolRunRequest) -> (r: Result<(), ToolPolicyError>)
    ensures
        unit_result(r) == contract_for_run_check(request.target_path@, request.target_type, request.code@),
{
    let contract = source_contract(request.target_path.as_str(), request.target_type, request.code.as_str());
    proof {
        lemma_empty_iff_set_empty(string_views(contract.invalid_imports@));
        lemma_empty_iff_set_empty(import_findings(lines(request.code@)));
        assert(crate::text::str_seq_views(contract.unsafe_calls@).len() == contract.unsafe_calls@.len());
    }
    if contract.has_build_function && contract.has_refs && contract.target_type_matches
        && contract.unsafe_calls.len() == 0 && contract.invalid_imports.len() == 0 {
        return Ok(());
    }
    let summary = crate::model_contract::contract_failure_summary(&contract);
    proof {
        assert(crate::model_contract::contract_failures_of(contract) =~= source_contract_failures(
            request.target_path@,
            request.target_type,
            request.code@,
        ));
    }
    let mut m = chars_of("CadQuery source contract is not satisfied: ");
    append_chars(&mut m, &chars_of(summary.as_str()));
    append_lit(&mut m, ". Required source shape includes a module-level REFS dict with type '");
    append_lit(&mut m, target_type_label(request.target_type));
    append_lit(
        &mut m,
        "' and a non-empty \"features\" map chosen from the actual model semantics, plus a build(params=None) function.",
    );
    Err(ToolPolicyError { message: string_of(&m), error_type: "invalid_arguments" })
}

// ---------------------------------------------------------------------------
// Run arguments

/// What a CadQuery tool reads of its JSON arguments. A field is `Some` where
/// the argument is a string; an export list holds `None` for an item that is
/// not a string, and `export_targets` is `None` when it is not an array.
#[derive(Debug, Clone, PartialEq, Eq)]
pub struct RawRunArgs {
    pub target_path: Option<String>,
    pub target_type: Option<String>,
    pub code: Option<String>,
    pub params_json: Option<String>,
    pub plan_ref: Option<String>,
    pub reason: Option<String>,
    pub export_formats: Vec<Option<String>>,
    pub export_targets: Option<Vec<Option<String>>>,
}

/// The keys a CadQuery tool reads.
pub open spec fn run_arg_keys() -> Seq<Seq<char>> {
    seq![
        "target_path"@,
        "target_type"@,
        "code"@,
        "params_json"@,
        "plan_ref"@,
        "reason"@,
        "export_formats"@,
        "export_targets"@,
    ]
}

/// The run arguments agree with the fields read from the JSON text.
pub open spec fn run_args_match(a: RawRunArgs, f: Seq<FieldView>) -> bool {
    &&& opt_string(a.target_path) == field_text(f[0])
    &&& opt_string(a.target_type) == field_text(f[1])
    &&& opt_string(a.code) == field_text(f[2])
    &&& opt_string(a.params_json) == field_text(f[3])
    &&& opt_string(a.plan_ref) == field_text(f[4])
    &&& opt_string(a.reason) == field_text(f[5])
    &&& items_view(a.export_formats@) == field_items_or_empty(f[6])
    &&& match a.export_targets {
        Some(v) => f[7].2 == Some(items_view(v@)),
        None => f[7].2 is None,
    }
}

/// Reads the JSON arguments of the CadQuery run tools; text that is no JSON
/// gives the parser's message.
pub fn parse_run_args(arguments: &str) -> (r: Result<RawRunArgs, String>)
    ensures
        match (r, json_fields(arguments@, run_arg_keys())) {
            (Ok(a), Ok(f)) => run_args_match(a, f),
            (Err(e), Err(m)) => e@ == m,
            _ => false,
        },
{
    let mut keys: Vec<&str> = Vec::new();
    keys.push("target_path");
    keys.push("target_type");
    keys.push("code");
    keys.push("params_json");
    keys.push("plan_ref");
    keys.push("reason");
    keys.push("export_formats");
    keys.push("export_targets");
    proof {
        assert(keys_view(keys@) =~= run_arg_keys());
    }
    let mut fields = match read_fields(arguments, &keys) {
        Err(e) => return Err(e),
        Ok(v) => v,
    };
    let ghost f = fields_view(fields@);
    let ghost all = fields@;
    let target_path = take_text(next_field(&mut fields));
    let target_type = take_text(next_field(&mut fields));
    let code = take_text(next_field(&mut fields));
    let params_json = take_text(next_field(&mut fields));
    let plan_ref = take_text(next_field(&mut fields));
    let reason = take_text(next_field(&mut fields));
    let export_formats = match take_items(next_field(&mut fields)) {
        Some(v) => v,
        None => Vec::new(),
    };
    let export_targets = take_items(next_field(&mut fields));
    proof {
        assert(f[0] == field_view(all[0]));
        assert(f[1] == field_view(all[1]));
        assert(f[2] == field_view(all[2]));
        assert(f[3] == field_view(all[3]));
        assert(f[4] == field_view(all[4]));
        assert(f[5] == field_view(all[5]));
        assert(f[6] == field_view(all[6]));
        assert(f[7] == field_view(all[7]));
        assert(items_view(Seq::<Option<String>>::empty()) =~= Seq::<Option<Seq<char>>>::empty());
    }
    Ok(RawRunArgs { target_path, target_type, code, params_json, plan_ref, reason, export_formats, export_targets })
}

/// A run request by its views.
pub struct RequestView {
    pub target_path: Seq<char>,
    pub target_type: CadQueryObjectKind,
    pub code: Seq<char>,
    pub params_json: Seq<char>,
    pub export_formats: Seq<CadQueryExportFormat>,
    pub export_targets: Seq<Seq<char>>,
    pub doc_update_path: Option<Seq<char>>,
    pub plan_ref: Option<Seq<char>>,
    pub reason: Option<Seq<char>>,
}

pub open spec fn request_view(r: CadQueryToolRunRequest) -> RequestView {
    RequestView {
        target_path: r.target_path@,
        target_type: r.target_type,
        code: r.code@,
        params_json: r.params_json@,
        export_formats: r.export_formats@,
        export_targets: string_views(r.export_targets@),
        doc_update_path: opt_string(r.doc_update_path),
        plan_ref: opt_string(r.plan_ref),
        reason: opt_string(r.reason),
    }
}

pub open spec fn request_result(r: Result<CadQueryToolRunRequest, ToolPolicyError>) -> Result<
    RequestView,
    (Seq<char>, Seq<char>),
> {
    match r {
        Ok(q) => Ok(request_view(q)),
        Err(e) => Err(e@),
    }
}

/// A required string argument: present and non-empty.
pub open spec fn required_arg(o: Option<Seq<char>>, key: Seq<char>) -> Result<Seq<char>, (Seq<char>, Seq<char>)> {
    match o {
        Some(v) => if v.len() > 0 {
            Ok(v)
        } else {
            Err(invalid("missing required string argument '"@ + key + "'"@))
        },
        None => Err(invalid("missing required string argument '"@ + key + "'"@)),
    }
}

/// A workspace path argument, normalized.
pub open spec fn handle_path(p: Seq<char>) -> Result<Seq<char>, (Seq<char>, Seq<char>)> {
    match normalize_path(p) {
        Ok(n) => Ok(n),
        Err(r) => Err(invalid("invalid workspace path: "@ + rejection_message(r))),
    }
}

/// The model path argument: a CadQuery model source.
pub open spec fn model_path_arg(o: Option<Seq<char>>) -> Result<Seq<char>, (Seq<char>, Seq<char>)> {
    match required_arg(o, "target_path"@) {
        Err(e) => Err(e),
        Ok(v) => match handle_path(v) {
            Err(e) => Err(e),
            Ok(p) => if is_model_path_by_first_piece(p) {
                Ok(p)
            } else {
                Err(invalid("target_path must be a CadQuery .py model source"@))
            },
        },
    }
}

pub open spec fn kind_arg(o: Option<Seq<char>>) -> Result<CadQueryObjectKind, (Seq<char>, Seq<char>)> {
    match required_arg(o, "target_type"@) {
        Err(e) => Err(e),
        Ok(v) => if v == "part"@ {
            Ok(CadQueryObjectKind::Part)
        } else if v == "component"@ {
            Ok(CadQueryObjectKind::Component)
        } else if v == "assembly"@ {
            Ok(CadQueryObjectKind::Assembly)
        } else {
            Err(invalid("target_type must be part, component or assembly"@))
        },
    }
}

pub open spec fn format_item(o: Option<Seq<char>>) -> Result<CadQueryExportFormat, (Seq<char>, Seq<char>)> {
    match o {
        Some(v) => if v == "step"@ {
            Ok(CadQueryExportFormat::Step)
        } else if v == "stl"@ {
            Ok(CadQueryExportFormat::Stl)
        } else if v == "3mf"@ {
            Ok(CadQueryExportFormat::ThreeMf)
        } else {
            Err(invalid("export_formats must contain step, stl or 3mf"@))
        },
        None => Err(invalid("export_formats must contain step, stl or 3mf"@)),
    }
}

/// The export formats, in order; the first bad item decides.
pub open spec fn formats_arg(items: Seq<Option<Seq<char>>>) -> Result<Seq<CadQueryExportFormat>, (Seq<char>, Seq<char>)>
    decreases items.len(),
{
    if items.len() == 0 {
        Ok(Seq::empty())
    } else {
        match formats_arg(items.drop_last()) {
            Err(e) => Err(e),
            Ok(prev) => match format_item(items.last()) {
                Err(e) => Err(e),
                Ok(f) => Ok(prev.push(f)),
            },
        }
    }
}

pub open spec fn target_item(o: Option<Seq<char>>) -> Result<Seq<char>, (Seq<char>, Seq<char>)> {
    match o {
        None => Err(invalid("export_targets must be an array of strings"@)),
        Some(p) => match handle_path(p) {
            Err(e) => Err(e),
            Ok(n) => if first_piece(n) == "outputs"@ {
                Ok(n)
            } else {
                Err(denied("export target must be under outputs/"@))
            },
        },
    }
}

/// The export targets, normalized, in order; the first bad item decides.
pub open spec fn targets_arg(items: Seq<Option<Seq<char>>>) -> Result<Seq<Seq<char>>, (Seq<char>, Seq<char>)>
    decreases items.len(),
{
    if items.len() == 0 {
        Ok(Seq::empty())
    } else {
        match targets_arg(items.drop_last()) {
            Err(e) => Err(e),
            Ok(prev) => match target_item(items.last()) {
                Err(e) => Err(e),
                Ok(t) => Ok(prev.push(t)),
            },
        }
    }
}

pub proof fn lemma_formats_arg_err_extends(items: Seq<Option<Seq<char>>>, k: int)
    requires
        0 <= k <= items.len(),
        formats_arg(items.take(k)) is Err,
    ensures
        formats_arg(items) == formats_arg(items.take(k)),
    decreases items.len(),
{
    if k == items.len() {
        assert(items.take(k) =~= items);
    } else {
        assert(items.drop_last().take(k) =~= items.take(k));
        lemma_formats_arg_err_extends(items.drop_last(), k);
    }
}

pub proof fn lemma_targets_arg_err_extends(items: Seq<Option<Seq<char>>>, k: int)
    requires
        0 <= k <= items.len(),
        targets_arg(items.take(k)) is Err,
    ensures
        targets_arg(items) == targets_arg(items.take(k)),
    decreases items.len(),
{
    if k == items.len() {
        assert(items.take(k) =~= items);
    } else {
        assert(items.drop_last().take(k) =~= items.take(k));
        lemma_targets_arg_err_extends(items.drop_last(), k);
    }
}

pub open spec fn opt_items(v: Seq<Option<String>>) -> Seq<Option<Seq<char>>> {
    v.map_values(|o: Option<String>| opt_string(o))
}

/// The request that `cadquery_check_source` and the runs start from.
pub open spec fn source_request(a: RawRunArgs) -> Result<RequestView, (Seq<char>, Seq<char>)> {
    match model_path_arg(opt_string(a.target_path)) {
        Err(e) => Err(e),
        Ok(tp) => match kind_arg(opt_string(a.target_type)) {
            Err(e) => Err(e),
            Ok(kind) => match required_arg(opt_string(a.code), "code"@) {
                Err(e) => Err(e),
                Ok(code) => Ok(
                    RequestView {
                        target_path: tp,
                        target_type: kind,
                        code,
                        params_json: match opt_string(a.params_json) {
                            Some(p) => p,
                            None => "{}"@,
                        },
                        export_formats: Seq::empty(),
                        export_targets: Seq::empty(),
                        doc_update_path: None,
                        plan_ref: opt_string(a.plan_ref),
                        reason: opt_string(a.reason),
                    },
                ),
            },
        },
    }
}

/// What `serde_json` reports when a text does not parse as JSON.
pub uninterp spec fn json_syntax_error(text: Seq<char>) -> Option<Seq<char>>;

/// `serde_json::from_str::<serde_json::Value>`: `None` when the text parses,
/// else the parser's message. The message is named, not stated.
#[verifier::external_body]
fn json_error_of(text: &str) -> (r: Option<String>)
    ensures
        opt_string(r) == json_syntax_error(text@),
{
    match serde_json::from_str::<serde_json::Value>(text) {
        Ok(_) => None,
        Err(e) => Some(e.to_string()),
    }
}

pub open spec fn params_check(params: Seq<char>) -> Result<(), (Seq<char>, Seq<char>)> {
    match json_syntax_error(params) {
        None => Ok(()),
        Some(e) => Err(invalid("params_json is invalid: "@ + e)),
    }
}

/// The request of a dry run: the source request with parameters that parse.
pub open spec fn dry_run_request(a: RawRunArgs) -> Result<RequestView, (Seq<char>, Seq<char>)> {
    match source_request(a) {
        Err(e) => Err(e),
        Ok(q) => match params_check(q.params_json) {
            Err(e) => Err(e),
            Ok(_) => Ok(q),
        },
    }
}

/// The request of an execution: the source request with its exports, whose
/// parameters parse and whose exports agree.
pub open spec fn execute_request(a: RawRunArgs) -> Result<RequestView, (Seq<char>, Seq<char>)> {
    match source_request(a) {
        Err(e) => Err(e),
        Ok(q) => match formats_arg(opt_items(a.export_formats@)) {
            Err(e) => Err(e),
            Ok(fs) => match (match a.export_targets {
                None => Ok(Seq::<Seq<char>>::empty()),
                Some(v) => targets_arg(opt_items(v@)),
            }) {
                Err(e) => Err(e),
                Ok(ts) => match params_check(q.params_json) {
                    Err(e) => Err(e),
                    Ok(_) => match export_request_check(q.target_path, fs, ts) {
                        Err(e) => Err(e),
                        Ok(_) => Ok(RequestView { export_formats: fs, export_targets: ts, ..q }),
                    },
                },
            },
        },
    }
}

fn opt_text(o: &Option<String>) -> (r: Option<String>)
    ensures
        opt_string(r) == opt_string(*o),
{
    match o {
        Some(s) => Some(s.as_str().to_owned()),
        None => None,
    }
}

fn required_arg_exec(o: &Option<String>, key: &str) -> (r: Result<String, ToolPolicyError>)
    ensures
        match r {
            Ok(v) => required_arg(opt_string(*o), key@) == Ok::<Seq<char>, (Seq<char>, Seq<char>)>(v@),
            Err(e) => required_arg(opt_string(*o), key@) == Err::<Seq<char>, (Seq<char>, Seq<char>)>(e@),
        },
{
    match o {
        Some(v) => {
            let c = chars_of(v.as_str());
            if c.len() > 0 {
                return Ok(v.as_str().to_owned());
            }
        },
        None => {},
    }
    let m = surround("missing required string argument '", &chars_of(key), "'");
    Err(ToolPolicyError { message: string_of(&m), error_type: "invalid_arguments" })
}

fn handle_path_exec(p: &[char]) -> (r: Result<Vec<char>, ToolPolicyError>)
    ensures
        match r {
            Ok(v) => handle_path(p@) == Ok::<Seq<char>, (Seq<char>, Seq<char>)>(v@),
            Err(e) => handle_path(p@) == Err::<Seq<char>, (Seq<char>, Seq<char>)>(e@),
        },
{
    match normalize_path_exec(p) {
        Ok(n) => Ok(n),
        Err(r) => {
            let msg = match r {
                PathRejection::NotWorkspaceRelative => "path must be workspace-relative",
                PathRejection::ParentSegment => "path must not contain '..'",
            };
            let mut m = chars_of("invalid workspace path: ");
            append_lit(&mut m, msg);
            Err(ToolPolicyError { message: string_of(&m), error_type: "invalid_arguments" })
        },
    }
}

fn model_path_arg_exec(o: &Option<String>) -> (r: Result<String, ToolPolicyError>)
    ensures
        match r {
            Ok(v) => model_path_arg(opt_string(*o)) == Ok::<Seq<char>, (Seq<char>, Seq<char>)>(v@),
            Err(e) => model_path_arg(opt_string(*o)) == Err::<Seq<char>, (Seq<char>, Seq<char>)>(e@),
        },
{
    let v = match required_arg_exec(o, "target_path") {
        Ok(v) => v,
        Err(e) => return Err(e),
    };
    let p = match handle_path_exec(&chars_of(v.as_str())) {
        Ok(p) => p,
        Err(e) => return Err(e),
    };
    if is_model_path_by_first_piece_exec(&p) {
        Ok(string_of(&p))
    } else {
        Err(err_invalid("target_path must be a CadQuery .py model source"))
    }
}

fn kind_arg_exec(o: &Option<String>) -> (r: Result<CadQueryObjectKind, ToolPolicyError>)
    ensures
        match r {
            Ok(k) => kind_arg(opt_string(*o)) == Ok::<CadQueryObjectKind, (Seq<char>, Seq<char>)>(k),
            Err(e) => kind_arg(opt_string(*o)) == Err::<CadQueryObjectKind, (Seq<char>, Seq<char>)>(e@),
        },
{
    let v = match required_arg_exec(o, "target_type") {
        Ok(v) => v,
        Err(e) => return Err(e),
    };
    let c = chars_of(v.as_str());
    if eq_lit(&c, "part") {
        Ok(CadQueryObjectKind::Part)
    } else if eq_lit(&c, "component") {
        Ok(CadQueryObjectKind::Component)
    } else if eq_lit(&c, "assembly") {
        Ok(CadQueryObjectKind::Assembly)
    } else {
        Err(err_invalid("target_type must be part, component or assembly"))
    }
}

/// The request that `cadquery_check_source` checks.
pub fn source_request_args(a: &RawRunArgs) -> (r: Result<CadQueryToolRunRequest, ToolPolicyError>)
    ensures
        request_result(r) == source_request(*a),
{
    let target_path = match model_path_arg_exec(&a.target_path) {
        Ok(p) => p,
        Err(e) => return Err(e),
    };
    let target_type = match kind_arg_exec(&a.target_type) {
        Ok(k) => k,
        Err(e) => return Err(e),
    };
    let code = match required_arg_exec(&a.code, "code") {
        Ok(c) => c,
        Err(e) => return Err(e),
    };
    let params_json = match &a.params_json {
        Some(p) => p.as_str().to_owned(),
        None => "{}".to_owned(),
    };
    let r = CadQueryToolRunRequest {
        target_path,
        target_type,
        code,
        params_json,
        export_formats: Vec::new(),
        export_targets: Vec::new(),
        doc_update_path: None,
        plan_ref: opt_text(&a.plan_ref),
        reason: opt_text(&a.reason),
    };
    proof {
        assert(string_views(r.export_targets@) =~= Seq::<Seq<char>>::empty());
        assert(r.export_formats@ =~= Seq::<CadQueryExportFormat>::empty());
    }
    Ok(r)
}

fn params_check_exec(params: &String) -> (r: Result<(), ToolPolicyError>)
    ensures
        unit_result(r) == params_check(params@),
{
    match json_error_of(params.as_str()) {
        None => Ok(()),
        Some(e) => {
            let m = surround("params_json is invalid: ", &chars_of(e.as_str()), "");
            proof {
                reveal_strlit("");
                assert("params_json is invalid: "@ + e@ + ""@ =~= "params_json is invalid: "@ + e@);
            }
            Err(ToolPolicyError { message: string_of(&m), error_type: "invalid_arguments" })
        },
    }
}

/// The request of a dry run.
pub fn dry_run_request_args(a: &RawRunArgs) -> (r: Result<CadQueryToolRunRequest, ToolPolicyError>)
    ensures
        request_result(r) == dry_run_request(*a),
{
    let q = match source_request_args(a) {
        Ok(q) => q,
        Err(e) => return Err(e),
    };
    match params_check_exec(&q.params_json) {
        Ok(_) => Ok(q),
        Err(e) => Err(e),
    }
}

fn formats_arg_exec(items: &Vec<Option<String>>) -> (r: Result<Vec<CadQueryExportFormat>, ToolPolicyError>)
    ensures
        match r {
            Ok(v) => formats_arg(opt_items(items@)) == Ok::<Seq<CadQueryExportFormat>, (Seq<char>, Seq<char>)>(v@),
            Err(e) => formats_arg(opt_items(items@)) == Err::<Seq<CadQueryExportFormat>, (Seq<char>, Seq<char>)>(e@),
        },
{
    let ghost all = opt_items(items@);
    let mut out: Vec<CadQueryExportFormat> = Vec::new();
    let mut i: usize = 0;
    proof {
        assert(all.take(0) =~= Seq::<Option<Seq<char>>>::empty());
    }
    while i < items.len()
        invariant
            i <= items.len(),
            all == opt_items(items@),
            formats_arg(all.take(i as int)) == Ok::<Seq<CadQueryExportFormat>, (Seq<char>, Seq<char>)>(out@),
        decreases items.len() - i,
    {
        proof {
            assert(all.take(i + 1).drop_last() =~= all.take(i as int));
            assert(all.take(i + 1).last() == opt_string(items@[i as int]));
        }
        let f = match &items[i] {
            Some(v) => {
                let c = chars_of(v.as_str());
                if eq_lit(&c, "step") {
                    CadQueryExportFormat::Step
                } else if eq_lit(&c, "stl") {
                    CadQueryExportFormat::Stl
                } else if eq_lit(&c, "3mf") {
                    CadQueryExportFormat::ThreeMf
                } else {
                    proof {
                        lemma_formats_arg_err_extends(all, i + 1);
                    }
                    return Err(err_invalid("export_formats must contain step, stl or 3mf"));
                }
            },
            None => {
                proof {
                    lemma_formats_arg_err_extends(all, i + 1);
                }
                return Err(err_invalid("export_formats must contain step, stl or 3mf"));
            },
        };
        out.push(f);
        i = i + 1;
    }
    proof {
        assert(all.take(items@.len() as int) =~= all);
    }
    Ok(out)
}

fn targets_arg_exec(items: &Vec<Option<String>>) -> (r: Result<Vec<String>, ToolPolicyError>)
    ensures
        match r {
            Ok(v) => targets_arg(opt_items(items@)) == Ok::<Seq<Seq<char>>, (Seq<char>, Seq<char>)>(string_views(v@)),
            Err(e) => targets_arg(opt_items(items@)) == Err::<Seq<Seq<char>>, (Seq<char>, Seq<char>)>(e@),
        },
{
    let ghost all = opt_items(items@);
    let mut out: Vec<String> = Vec::new();
    let mut i: usize = 0;
    proof {
        assert(all.take(0) =~= Seq::<Option<Seq<char>>>::empty());
        assert(string_views(out@) =~= Seq::<Seq<char>>::empty());
    }
    while i < items.len()
        invariant
            i <= items.len(),
            all == opt_items(items@),
            targets_arg(all.take(i as int)) == Ok::<Seq<Seq<char>>, (Seq<char>, Seq<char>)>(string_views(out@)),
        decreases items.len() - i,
    {
        proof {
            assert(all.take(i + 1).drop_last() =~= all.take(i as int));
            assert(all.take(i + 1).last() == opt_string(items@[i as int]));
        }
        let t = match &items[i] {
            None => {
                proof {
                    lemma_targets_arg_err_extends(all, i + 1);
                }
                return Err(err_invalid("export_targets must be an array of strings"));
            },
            Some(v) => {
                match handle_path_exec(&chars_of(v.as_str())) {
                    Err(e) => {
                        proof {
                            lemma_targets_arg_err_extends(all, i + 1);
                        }
                        return Err(e);
                    },
                    Ok(n) => {
                        if !eq_lit(&first_piece_exec(&n), "outputs") {
                            proof {
                                lemma_targets_arg_err_extends(all, i + 1);
                            }
                            return Err(err_denied("export target must be under outputs/"));
                        }
                        n
                    },
                }
            },
        };
        let ghost before = string_views(out@);
        out.push(string_of(&t));
        proof {
            assert(string_views(out@) =~= before.push(t@));
        }
        i = i + 1;
    }
    proof {
        assert(all.take(items@.len() as int) =~= all);
    }
    Ok(out)
}

/// The request of an execution.
pub fn execute_request_args(a: &RawRunArgs) -> (r: Result<CadQueryToolRunRequest, ToolPolicyError>)
    ensures
        request_result(r) == execute_request(*a),
{
    let mut q = match source_request_args(a) {
        Ok(q) => q,
        Err(e) => return Err(e),
    };
    let formats = match formats_arg_exec(&a.export_formats) {
        Ok(f) => f,
        Err(e) => return Err(e),
    };
    let targets = match &a.export_targets {
        None => {
            let v: Vec<String> = Vec::new();
            proof {
                assert(string_views(v@) =~= Seq::<Seq<char>>::empty());
            }
            v
        },
        Some(items) => match targets_arg_exec(items) {
            Ok(t) => t,
            Err(e) => return Err(e),
        },
    };
    match params_check_exec(&q.params_json) {
        Ok(_) => {},
        Err(e) => return Err(e),
    }
    q.export_formats = formats;
    q.export_targets = targets;
    match validate_export_request(&q) {
        Ok(_) => Ok(q),
        Err(e) => Err(e),
    }
}

// ---------------------------------------------------------------------------
// Before a run

/// What a dry run checks before the runtime sees it.
pub open spec fn dry_run_gate(a: RawRunArgs) -> Result<RequestView, (Seq<char>, Seq<char>)> {
    match dry_run_request(a) {
        Err(e) => Err(e),
        Ok(q) => match contract_for_run_check(q.target_path, q.target_type, q.code) {
            Err(e) => Err(e),
            Ok(_) => Ok(q),
        },
    }
}

/// What an execution checks before the runtime sees it: one commit per run,
/// then the arguments, the source contract, the scope and the product.
pub open spec fn execute_gate(
    committed: bool,
    a: RawRunArgs,
    mode: AgentMode,
    scope: Option<ScopeView>,
) -> Result<RequestView, (Seq<char>, Seq<char>)> {
    if committed {
        Err(denied("cadquery_execute already committed in this run"@))
    } else {
        match execute_request(a) {
            Err(e) => Err(e),
            Ok(q) => match contract_for_run_check(q.target_path, q.target_type, q.code) {
                Err(e) => Err(e),
                Ok(_) => match execute_scope_check(q.target_path, q.target_type, q.export_targets, mode, scope) {
                    Err(e) => Err(e),
                    Ok(_) => match execute_product_check(
                        q.export_formats,
                        q.export_targets,
                        has_model_description(q.code),
                    ) {
                        Err(e) => Err(e),
                        Ok(_) => Ok(q),
                    },
                },
            },
        }
    }
}

/// The request of a dry run, checked against the source contract.
pub fn prepare_dry_run(a: &RawRunArgs) -> (r: Result<CadQueryToolRunRequest, ToolPolicyError>)
    ensures
        request_result(r) == dry_run_gate(*a),
{
    let q = match dry_run_request_args(a) {
        Ok(q) => q,
        Err(e) => return Err(e),
    };
    match validate_contract_for_run(&q) {
        Ok(_) => Ok(q),
        Err(e) => Err(e),
    }
}

/// The request of an execution, checked as `cadquery_execute` checks it
/// before it commits anything.
pub fn prepare_execute(
    committed: bool,
    a: &RawRunArgs,
    mode: AgentMode,
    execution_scope: Option<&AgentExecutionScope>,
) -> (r: Result<CadQueryToolRunRequest, ToolPolicyError>)
    ensures
        request_result(r) == execute_gate(committed, *a, mode, opt_scope_view(execution_scope)),
{
    if committed {
        return Err(err_denied("cadquery_execute already committed in this run"));
    }
    let q = match execute_request_args(a) {
        Ok(q) => q,
        Err(e) => return Err(e),
    };
    match validate_contract_for_run(&q) {
        Ok(_) => {},
        Err(e) => return Err(e),
    }
    match validate_execute_scope(&q, mode, execution_scope) {
        Ok(_) => {},
        Err(e) => return Err(e),
    }
    let described = crate::model_contract::has_model_description_exec(&chars_of(q.code.as_str()));
    match validate_execute_product_contract(&q, described) {
        Ok(_) => Ok(q),
        Err(e) => Err(e),
    }
}

/// Whether a run has committed once an execution attempt is over: it had
/// before, or this attempt ran and the runtime reported success.
pub open spec fn committed_step(committed: bool, run_ok: bool) -> bool {
    committed || run_ok
}

/// The run's commit flag after an execution attempt; `run_ok` is whether
/// the attempt passed `prepare_execute` and the runtime's execution
/// succeeded.
pub fn committed_after(committed: bool, run_ok: bool) -> (c: bool)
    ensures
        c == committed_step(committed, run_ok),
{
    committed || run_ok
}

/// How many of a run's execution attempts reach the runtime and succeed,
/// given the runtime's answers in order: an attempt after a commit is
/// refused before the runtime, and a success sets the flag.
pub open spec fn successful_executes(committed: bool, answers: Seq<bool>) -> nat
    decreases answers.len(),
{
    if answers.len() == 0 {
        0
    } else {
        let ran_ok = !committed && answers[0];
        (if ran_ok {
            1nat
        } else {
            0nat
        }) + successful_executes(committed_step(committed, ran_ok), answers.drop_first())
    }
}

/// One successful execution per run: once committed, every execution is
/// refused before it reaches the runtime, so whatever the runtime answers,
/// at most one attempt of a run that starts uncommitted succeeds.
pub proof fn law_one_commit_per_run(answers: Seq<bool>, a: RawRunArgs, mode: AgentMode, scope: Option<ScopeView>)
    ensures
        execute_gate(true, a, mode, scope) == Err::<RequestView, (Seq<char>, Seq<char>)>(
            denied("cadquery_execute already committed in this run"@),
        ),
        successful_executes(true, answers) == 0,
        successful_executes(false, answers) <= 1,
    decreases answers.len(),
{
    lemma_committed_runs_none(answers);
    if answers.len() > 0 {
        lemma_committed_runs_none(answers.drop_first());
        law_one_commit_per_run(answers.drop_first(), a, mode, scope);
    }
}

proof fn lemma_committed_runs_none(answers: Seq<bool>)
    ensures
        successful_executes(true, answers) == 0,
    decreases answers.len(),
{
    if answers.len() > 0 {
        lemma_committed_runs_none(answers.drop_first());
    }
}

/// The paired design note an execution updates: none when the model has no
/// `.md` beside it; inside a scope it must be one of the scope's files.
pub open spec fn doc_update_check(target_path: Seq<char>, doc_exists: bool, scope: Option<ScopeView>) -> Result<
    Option<Seq<char>>,
    (Seq<char>, Seq<char>),
> {
    match crate::refs::paired_doc_path(target_path) {
        None => Ok(None),
        Some(doc) => if !doc_exists {
            Ok(None)
        } else {
            match scope {
                None => Ok(None),
                Some(sc) => if !sc.affected_files.contains(doc) && !sc.new_files.contains(doc) {
                    Err(denied("paired CadQuery document must be in execution affected_files / new_files"@))
                } else {
                    Ok(Some(doc))
                },
            }
        },
    }
}

/// Which paired design note an execution updates, given whether the note
/// beside the model (its `.py` path with `.md`) exists.
pub fn doc_update_path_for_execute(
    target_path: &str,
    doc_exists: bool,
    execution_scope: Option<&AgentExecutionScope>,
) -> (r: Result<Option<String>, ToolPolicyError>)
    ensures
        match r {
            Ok(o) => doc_update_check(target_path@, doc_exists, opt_scope_view(execution_scope)) == Ok::<
                Option<Seq<char>>,
                (Seq<char>, Seq<char>),
            >(opt_string(o)),
            Err(e) => doc_update_check(target_path@, doc_exists, opt_scope_view(execution_scope)) == Err::<
                Option<Seq<char>>,
                (Seq<char>, Seq<char>),
            >(e@),
        },
{
    let doc = match crate::refs::paired_doc_path_exec(&chars_of(target_path)) {
        None => return Ok(None),
        Some(d) => d,
    };
    if !doc_exists {
        return Ok(None);
    }
    match execution_scope {
        None => Ok(None),
        Some(sc) => if !sc.contains_affected_file(&doc) && !sc.contains_new_file(&doc) {
            Err(err_denied("paired CadQuery document must be in execution affected_files / new_files"))
        } else {
            Ok(Some(string_of(&doc)))
        },
    }
}

/// The arguments of `cadquery_resolve_selection`: a visible ref (not an
/// internal selector or subshape ref) and a result id.
pub open spec fn resolve_selection_check(result_id: Option<Seq<char>>, selection_ref: Option<Seq<char>>) -> Result<
    (Seq<char>, Seq<char>),
    (Seq<char>, Seq<char>),
> {
    match required_arg(selection_ref, "selection_ref"@) {
        Err(e) => Err(e),
        Ok(sel) => if starts_with(sel, "@selector["@) || starts_with(sel, "@subshape["@) {
            Err(invalid("selector and subshape refs are internal and cannot be returned as MVP visible refs"@))
        } else {
            match required_arg(result_id, "result_id"@) {
                Err(e) => Err(e),
                Ok(rid) => Ok((rid, sel)),
            }
        },
    }
}

/// The result id and visible ref that a selection is resolved with.
pub fn resolve_selection_args(result_id: &Option<String>, selection_ref: &Option<String>) -> (r: Result<
    (String, String),
    ToolPolicyError,
>)
    ensures
        match r {
            Ok((rid, sel)) => resolve_selection_check(opt_string(*result_id), opt_string(*selection_ref))
                == Ok::<(Seq<char>, Seq<char>), (Seq<char>, Seq<char>)>((rid@, sel@)),
            Err(e) => resolve_selection_check(opt_string(*result_id), opt_string(*selection_ref)) == Err::<
                (Seq<char>, Seq<char>),
                (Seq<char>, Seq<char>),
            >(e@),
        },
{
    let sel = match required_arg_exec(selection_ref, "selection_ref") {
        Ok(s) => s,
        Err(e) => return Err(e),
    };
    let sc = chars_of(sel.as_str());
    if starts_with_lit(&sc, "@selector[") || starts_with_lit(&sc, "@subshape[") {
        return Err(err_invalid(
            "selector and subshape refs are internal and cannot be returned as MVP visible refs",
        ));
    }
    match required_arg_exec(result_id, "result_id") {
        Ok(rid) => Ok((rid, sel)),
        Err(e) => Err(e),
    }
}

/// The model path `cadquery_analyze_source` reads, before it looks at the
/// disk: a normalized CadQuery model source path.
pub fn analyze_target_path(target_path: &Option<String>) -> (r: Result<String, ToolPolicyError>)
    ensures
        match r {
            Ok(v) => model_path_arg(opt_string(*target_path)) == Ok::<Seq<char>, (Seq<char>, Seq<char>)>(v@),
            Err(e) => model_path_arg(opt_string(*target_path)) == Err::<Seq<char>, (Seq<char>, Seq<char>)>(e@),
        },
{
    model_path_arg_exec(target_path)
}

proof fn lemma_lower_keeps_suffix(x: Seq<char>, suffix: Seq<char>)
    requires
        suffix.len() > 0,
        forall|i: int| 0 <= i < suffix.len() ==> crate::text::ascii_lower(#[trigger] suffix[i]) == suffix[i],
    ensures
        ends_with(lower_seq(x + suffix), suffix),
        lower_seq(x + suffix).last() == suffix.last(),
{
    let s = x + suffix;
    let t = lower_seq(s);
    assert(t.subrange(x.len() as int, s.len() as int) =~= suffix) by {
        assert forall|i: int| 0 <= i < suffix.len() implies t.subrange(x.len() as int, s.len() as int)[i] == suffix[i] by {
            assert(s[x.len() + i] == suffix[i]);
        }
    }
    assert(t[s.len() - 1] == crate::text::ascii_lower(s[s.len() - 1]));
    assert(s[s.len() - 1] == suffix[suffix.len() - 1]);
}

proof fn lemma_suffix_last(t: Seq<char>, p: Seq<char>)
    requires
        p.len() > 0,
        ends_with(t, p),
    ensures
        t.last() == p.last(),
{
    assert(t.subrange(t.len() - p.len(), t.len() as int)[p.len() - 1] == t.last());
}

/// Every output the runner names has the format it was named for: the
/// export target `outputs/<stem>.<ext>` of a format reads back as that
/// format, for any model path.
pub proof fn law_runner_output_has_its_format(target_path: Seq<char>, format: CadQueryExportFormat)
    ensures
        target_format(expected_export_target(target_path, format)) == Some(format),
{
    let x = "outputs/"@ + output_stem(target_path);
    let suffix = "."@ + format_extension(format);
    assert(expected_export_target(target_path, format) =~= x + suffix);
    reveal_strlit(".");
    reveal_strlit("step");
    reveal_strlit("stl");
    reveal_strlit("3mf");
    reveal_strlit(".step");
    reveal_strlit(".stp");
    reveal_strlit(".stl");
    reveal_strlit(".3mf");
    assert forall|i: int| 0 <= i < suffix.len() implies crate::text::ascii_lower(#[trigger] suffix[i]) == suffix[i] by {
        match format {
            CadQueryExportFormat::Step => {},
            CadQueryExportFormat::Stl => {},
            CadQueryExportFormat::ThreeMf => {},
        }
    }
    lemma_lower_keeps_suffix(x, suffix);
    let t = lower_seq(x + suffix);
    match format {
        CadQueryExportFormat::Step => {
            assert(suffix =~= ".step"@);
        },
        CadQueryExportFormat::Stl => {
            assert(suffix =~= ".stl"@);
            if ends_with(t, ".step"@) {
                lemma_suffix_last(t, ".step"@);
            }
            if ends_with(t, ".stp"@) {
                lemma_suffix_last(t, ".stp"@);
            }
        },
        CadQueryExportFormat::ThreeMf => {
            assert(suffix =~= ".3mf"@);
            if ends_with(t, ".step"@) {
                lemma_suffix_last(t, ".step"@);
            }
            if ends_with(t, ".stp"@) {
                lemma_suffix_last(t, ".stp"@);
            }
            if ends_with(t, ".stl"@) {
                lemma_suffix_last(t, ".stl"@);
            }
        },
    }
}

/// A request whose export targets are exactly the runner's outputs for its
/// formats, one per format, is accepted.
pub proof fn law_runner_outputs_are_accepted(target_path: Seq<char>, formats: Seq<CadQueryExportFormat>)
    requires
        formats.len() > 0,
    ensures
        export_request_check(
            target_path,
            formats,
            formats.map_values(|f: CadQueryExportFormat| expected_export_target(target_path, f)),
        ) == Ok::<(), (Seq<char>, Seq<char>)>(()),
{
    let targets = formats.map_values(|f: CadQueryExportFormat| expected_export_target(target_path, f));
    assert forall|k: int| 0 <= k < targets.len() implies target_format(#[trigger] targets[k]) == Some(formats[k]) by {
        law_runner_output_has_its_format(target_path, formats[k]);
    }
    assert forall|m: int| 0 <= m < formats.len() implies format_named(targets, #[trigger] formats[m]) by {
        assert(target_format(targets[m]) == Some(formats[m]));
    }
    assert forall|k: int| 0 <= k < targets.len() implies formats.contains((#[trigger] target_format(targets[k]))->0) by {
        assert(target_format(targets[k]) == Some(formats[k]));
    }
    assert forall|k: int| 0 <= k < targets.len() implies is_output_for(target_path, formats, #[trigger] targets[k]) by {
        assert(targets[k] == expected_export_target(target_path, formats[k]));
    }
}

} // verus!
