use app_server_core::cadquery_args::{
    prepare_execute, validate_execute_scope, validate_export_request, CadQueryToolRunRequest,
    RawRunArgs,
};
use app_server_core::file_write::{safe_write_target, target_status, validate_existing_literal_file, PathState, WriteTargetPolicy};
use app_server_core::llm_config::{default_model, require_non_empty, web_search_reason};
use app_server_core::model::{AgentMode, CadQueryExportFormat, CadQueryObjectKind};
use app_server_core::preview::{
    build_cli_args, command_names_for_configured_path, default_openscad_command_names,
    preview_source_kind, CliOutputFormat, PreviewSourceKind,
};
use app_server_core::runner::{
    ensure_not_cancelled, runner_error_message, status_error_kind, CadQueryRunnerErrorKind,
};
use app_server_core::scope::AgentExecutionScope;

fn request(target: &str, formats: Vec<CadQueryExportFormat>, targets: &[&str]) -> CadQueryToolRunRequest {
    CadQueryToolRunRequest {
        target_path: target.to_string(),
        target_type: CadQueryObjectKind::Part,
        code: "import cadquery as cq".to_string(),
        params_json: "{}".to_string(),
        export_formats: formats,
        export_targets: targets.iter().map(|t| t.to_string()).collect(),
        doc_update_path: None,
        plan_ref: None,
        reason: None,
    }
}

fn scope(target: &str, exports: &[&str]) -> AgentExecutionScope {
    AgentExecutionScope {
        target_path: Some(target.to_string()),
        target_type: Some(CadQueryObjectKind::Part),
        affected_files: vec![target.to_string()],
        new_files: Vec::new(),
        export_targets: exports.iter().map(|t| t.to_string()).collect(),
        plan_ref: None,
        plan_result_path: None,
    }
}

#[test]
fn export_requests_must_agree_with_runner_outputs() {
    assert!(validate_export_request(&request("parts/a.py", vec![], &[])).is_ok());
    assert!(validate_export_request(&request(
        "parts/a.py",
        vec![CadQueryExportFormat::Step, CadQueryExportFormat::Stl],
        &["outputs/a.step", "outputs/a.stl"],
    ))
    .is_ok());
    let e = validate_export_request(&request("parts/a.py", vec![], &["outputs/a.step"])).unwrap_err();
    assert_eq!(e.message, "export_targets require export_formats");
    let e = validate_export_request(&request("parts/a.py", vec![CadQueryExportFormat::Step], &[])).unwrap_err();
    assert_eq!(e.message, "export_formats require export_targets");
    let e = validate_export_request(&request("parts/a.py", vec![CadQueryExportFormat::Step], &["outputs/a.obj"]))
        .unwrap_err();
    assert_eq!(e.message, "export_targets extensions must be step, stl or 3mf");
    let e = validate_export_request(&request("parts/a.py", vec![CadQueryExportFormat::Stl], &["outputs/a.step"]))
        .unwrap_err();
    assert_eq!(e.message, "export_formats must match export_targets extensions");
    let e = validate_export_request(&request("parts/a.py", vec![CadQueryExportFormat::Step], &["outputs/b.step"]))
        .unwrap_err();
    assert_eq!(e.message, "export_targets must match runner output filenames");
}

#[test]
fn execution_stays_inside_the_confirmed_scope() {
    let q = request("parts/a.py", vec![CadQueryExportFormat::Step], &["outputs/a.step"]);
    let sc = scope("parts/a.py", &["outputs/a.step"]);
    assert!(validate_execute_scope(&q, AgentMode::Agent, Some(&sc)).is_ok());
    assert!(validate_execute_scope(&q, AgentMode::Agent, None).is_ok());
    let e = validate_execute_scope(&q, AgentMode::Plan, Some(&sc)).unwrap_err();
    assert_eq!(e.message, "cadquery_execute requires Agent mode");
    let other = scope("parts/b.py", &["outputs/a.step"]);
    let e = validate_execute_scope(&q, AgentMode::Agent, Some(&other)).unwrap_err();
    assert_eq!(e.message, "target_path does not match execution scope target_path");
    let more = scope("parts/a.py", &["outputs/a.step", "outputs/a.stl"]);
    let e = validate_execute_scope(&q, AgentMode::Agent, Some(&more)).unwrap_err();
    assert_eq!(e.message, "export_targets must match execution scope export_targets");
}

#[test]
fn execute_runs_once_per_turn() {
    let args = RawRunArgs {
        target_path: Some("parts/a.py".into()),
        target_type: Some("part".into()),
        code: Some("x".into()),
        params_json: None,
        plan_ref: None,
        reason: None,
        export_formats: Vec::new(),
        export_targets: None,
    };
    let e = prepare_execute(true, &args, AgentMode::Agent, None).unwrap_err();
    assert_eq!(e.message, "cadquery_execute already committed in this run");
    assert_eq!(e.error_type, "permission_denied");
}

#[test]
fn write_targets_follow_disk_state() {
    assert_eq!(target_status(&PathState::NotFound("gone".into())).unwrap(), false);
    assert_eq!(target_status(&PathState::File(1)).unwrap(), true);
    let e = target_status(&PathState::File(2)).unwrap_err();
    assert_eq!(e.message, "file write tools reject hard-linked files");
    let e = target_status(&PathState::Symlink).unwrap_err();
    assert_eq!(e.message, "target path must not be a symlink");
    let e = target_status(&PathState::Other).unwrap_err();
    assert_eq!(e.message, "target path must be a file");
    let e = target_status(&PathState::Unreadable("busy".into())).unwrap_err();
    assert_eq!(e.message, "读取目标路径失败: busy");
    assert_eq!(e.error_type, "file_conflict");
    let e = validate_existing_literal_file(&PathState::NotFound("gone".into())).unwrap_err();
    assert_eq!(e.message, "读取源文件失败: gone");
    assert_eq!(e.error_type, "not_found");

    let created = safe_write_target("docs/new.md", &PathState::NotFound("x".into()), None, WriteTargetPolicy::WriteFile);
    assert_eq!(created.unwrap(), false);
    let e = safe_write_target("parts/a.py", &PathState::File(1), None, WriteTargetPolicy::WriteFile).unwrap_err();
    assert_eq!(e.message, "CadQuery model .py files must be modified through CadQuery tools");
}

#[test]
fn runner_failures_are_classified() {
    assert_eq!(status_error_kind(Some(1)), CadQueryRunnerErrorKind::Build);
    assert_eq!(status_error_kind(Some(2)), CadQueryRunnerErrorKind::Runner);
    assert_eq!(status_error_kind(None), CadQueryRunnerErrorKind::Runner);
    assert_eq!(runner_error_message(None, "  boom \n"), "boom");
    let e = ensure_not_cancelled(true).unwrap_err();
    assert_eq!(e.kind, CadQueryRunnerErrorKind::Cancelled);
    assert_eq!(e.message, "CadQuery runner 已取消");
    assert!(ensure_not_cancelled(false).is_ok());
}

#[test]
fn openscad_arguments_and_commands() {
    let args = build_cli_args(
        CliOutputFormat::BinaryStl,
        "/tmp/out.stl",
        &["size=2".to_string()],
        "model.scad",
    );
    assert_eq!(args, vec!["--export-format", "binstl", "-o", "/tmp/out.stl", "-D", "size=2", "model.scad"]);
    assert_eq!(preview_source_kind("a/B.STL"), PreviewSourceKind::Stl);
    assert_eq!(preview_source_kind("a/b.3mf"), PreviewSourceKind::ThreeMf);
    assert_eq!(preview_source_kind("a/b.scad"), PreviewSourceKind::Scad);
    assert_eq!(preview_source_kind("a/b.txt"), PreviewSourceKind::Unsupported);
    assert_eq!(default_openscad_command_names(true), vec!["openscad.exe", "openscad"]);
    assert_eq!(default_openscad_command_names(false), vec!["openscad"]);
    assert_eq!(command_names_for_configured_path("/usr/bin/OpenSCAD", false), vec!["openscad"]);
    assert!(command_names_for_configured_path("/opt/tools/scad-bin", false).is_empty());
}

#[test]
fn configuration_values_are_trimmed_and_explained() {
    assert_eq!(default_model(), "gpt-5.2");
    assert_eq!(require_non_empty("api_key", "  k  ".into()).unwrap(), "k");
    assert_eq!(require_non_empty("api_key", "   ".into()).unwrap_err().message, "api_key cannot be empty");
    assert_eq!(
        web_search_reason("m1", false, None).unwrap(),
        Some("model `m1` does not support provider-native web search".to_string())
    );
    assert_eq!(web_search_reason("m1", true, None).unwrap(), None);
    assert!(web_search_reason("m1", false, Some("  ".into())).is_err());
}
