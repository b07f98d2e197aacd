use app_server_core::chat_index::identifier_from_draw;
use app_server_core::chat_store::ChatErrorCode;
use app_server_core::file_tools::{
    copy_args, patch_args, prepare_copy, prepare_patch, prepare_write, write_args, CopyArgs, ExistingFacts, PatchArgs,
    TargetFacts, WriteArgs,
};
use app_server_core::file_write::{sha256_bytes, PathState};
use app_server_core::runner::{cadquery_result_ready, MeshPartCounts, StagedCadQueryProject};
use app_server_core::readonly::{filter_directory_entries, DirEntrySummary};
use app_server_core::scope::AgentExecutionScope;
use app_server_core::tool_policy::ToolPolicyError;

fn existing(relative: &str) -> Result<ExistingFacts, ToolPolicyError> {
    Ok(ExistingFacts { literal: PathState::File(1), relative: Ok(relative.to_string()) })
}

fn new_target(relative: &str) -> Result<TargetFacts, ToolPolicyError> {
    Ok(TargetFacts { relative: relative.to_string(), state: PathState::NotFound("missing".to_string()) })
}

#[test]
fn file_tool_arguments_are_read_in_order() {
    let w = write_args(r#"{"path":"docs/a.md","contents":"","expected_hash":"sha256:x"}"#).unwrap();
    assert_eq!(w, WriteArgs { path: "docs/a.md".into(), contents: String::new(), expected_hash: Some("sha256:x".into()) });
    assert_eq!(write_args(r#"{"path":"","contents":"x"}"#).unwrap_err().message, "missing required string argument 'path'");
    assert_eq!(
        write_args(r#"{"path":"a","contents":"x","expected_hash":3}"#).unwrap_err().message,
        "'expected_hash' must be a string"
    );
    assert!(write_args("nope").unwrap_err().message.starts_with("invalid tool arguments: "));
    let p = patch_args(r#"{"path":"docs/a.md","expected_hash":"h","search":"a","replace":""}"#).unwrap();
    assert_eq!(p.replace, "");
    assert_eq!(
        patch_args(r#"{"path":"docs/a.md","expected_hash":"h","search":""}"#).unwrap_err().message,
        "missing required string argument 'search'"
    );
    let c = copy_args(r#"{"source_path":"docs/a.md","target_path":"docs/b.md"}"#).unwrap();
    assert_eq!(c.expected_source_hash, None);
    let e = copy_args(r#"{"source_path":"docs/a.md"}"#).unwrap_err();
    assert_eq!(e.message, "missing required string argument 'target_path'");
    assert_eq!(e.error_type, "invalid_arguments");
}

#[test]
fn copy_plans_the_source_bytes_for_a_new_target() {
    let args = CopyArgs { source_path: "docs/a.md".into(), target_path: "docs/b.md".into(), expected_source_hash: None };
    let bytes = Ok(b"hello".to_vec());
    let plan = prepare_copy(&args, &existing("docs/a.md"), &new_target("docs/b.md"), false, &bytes, None).unwrap();
    assert_eq!(plan.bytes, b"hello".to_vec());
    assert_eq!(plan.path, "docs/b.md");
    assert_eq!(plan.hash, sha256_bytes(b"hello"));
    assert!(plan.created);

    let existed = Ok(TargetFacts { relative: "docs/b.md".into(), state: PathState::File(1) });
    let e = prepare_copy(&args, &existing("docs/a.md"), &existed, false, &bytes, None).unwrap_err();
    assert_eq!(e.message, "copy target already exists or equals source");
    let model = prepare_copy(&args, &existing("docs/a.md"), &new_target("parts/b.py"), false, &bytes, None).unwrap_err();
    assert_eq!(model.message, "CadQuery model .py copy targets require a CadQuery model .py source");
    let unread = prepare_copy(&args, &existing("docs/a.md"), &new_target("docs/b.md"), false, &Err("gone".into()), None)
        .unwrap_err();
    assert_eq!(unread.message, "读取文件失败: gone");
    assert_eq!(unread.error_type, "file_conflict");
    let scope = AgentExecutionScope::new(Vec::new(), Vec::new(), Vec::new());
    let outside = prepare_copy(&args, &existing("docs/a.md"), &new_target("docs/b.md"), false, &bytes, Some(&scope))
        .unwrap_err();
    assert_eq!(outside.message, "copy_file target must be in execution new_files");
}

#[test]
fn write_checks_the_hash_of_an_existing_target() {
    let old = b"old".to_vec();
    let existed = Ok(TargetFacts { relative: "docs/a.md".into(), state: PathState::File(1) });
    let args = WriteArgs { path: "docs/a.md".into(), contents: "new".into(), expected_hash: Some(sha256_bytes(&old)) };
    let plan = prepare_write(&args, &existed, &Ok(old.clone()), None).unwrap();
    assert_eq!(plan.bytes, b"new".to_vec());
    assert!(!plan.created);
    let stale = WriteArgs { expected_hash: Some("sha256:00".into()), ..args.clone() };
    assert_eq!(prepare_write(&stale, &existed, &Ok(old), None).unwrap_err().message, "expected_hash does not match current file");
    let fresh = WriteArgs { path: "docs/n.md".into(), contents: "x".into(), expected_hash: None };
    assert!(prepare_write(&fresh, &new_target("docs/n.md"), &Err(String::new()), None).unwrap().created);
    let denied = prepare_write(&fresh, &new_target("outputs/n.md"), &Err(String::new()), None).unwrap_err();
    assert_eq!(denied.error_type, "permission_denied");
}

#[test]
fn patch_replaces_one_occurrence() {
    let text = b"a = 1\nb = 2\n".to_vec();
    let args = PatchArgs {
        path: "docs/a.md".into(),
        expected_hash: sha256_bytes(&text),
        search: "b = 2".into(),
        replace: "b = 3".into(),
    };
    let plan = prepare_patch(&args, &existing("docs/a.md"), &Ok(text.clone()), None).unwrap();
    assert_eq!(plan.bytes, b"a = 1\nb = 3\n".to_vec());
    assert!(!plan.created);
    let model = prepare_patch(&args, &existing("parts/a.py"), &Ok(text.clone()), None).unwrap_err();
    assert_eq!(model.message, "CadQuery model .py files must be modified through CadQuery tools");
    let linked = Ok(ExistingFacts { literal: PathState::File(2), relative: Ok("docs/a.md".into()) });
    assert_eq!(
        prepare_patch(&args, &linked, &Ok(text), None).unwrap_err().message,
        "file write tools reject hard-linked files"
    );
}

#[test]
fn identifier_is_prefix_and_hex_of_the_draw() {
    assert_eq!(identifier_from_draw("chat", Ok(vec![0x00, 0xab, 0x10])).unwrap(), "chat-00ab10");
    let e = identifier_from_draw("chat", Err("no entropy".into())).unwrap_err();
    assert_eq!(e.code, ChatErrorCode::Internal);
    assert_eq!(e.message, "生成随机 id 失败: no entropy");
}

#[test]
fn listing_keeps_the_first_entries_by_path() {
    let entry = |path: &str, kind: &'static str| DirEntrySummary {
        path: path.to_string(),
        name: path.to_string(),
        kind,
        size_bytes: None,
    };
    let entries = vec![entry("d.txt", "file"), entry("b.txt", "file"), entry("dir", "directory"), entry("a.txt", "file")];
    let (kept, truncated) = filter_directory_entries(entries, "file", &None, 2, false);
    assert!(truncated);
    let paths: Vec<&str> = kept.iter().map(|e| e.path.as_str()).collect();
    assert_eq!(paths, vec!["a.txt", "b.txt"]);
}

#[test]
fn staging_lives_under_budn_staging() {
    let staged = StagedCadQueryProject::new("stage-1", "/ws".to_string(), "parts/a.py", None).unwrap();
    assert_eq!(staged.root(), "/ws/.budn_staging/stage-1");
    assert_eq!(staged.output_dir(), "/ws/.budn_staging/stage-1/outputs");
    assert_eq!(staged.original_target_path(), "/ws/parts/a.py");
}

#[test]
fn ready_notice_counts_parts_and_elements() {
    let parts = vec![
        MeshPartCounts { faces: 6, edges: 12, vertices: 8 },
        MeshPartCounts { faces: 1, edges: 2, vertices: 3 },
    ];
    let ready = cadquery_result_ready("r1".to_string(), "b1".to_string(), &parts, "relation");
    assert_eq!(ready.result_id, "r1");
    assert_eq!(ready.build_id, "b1");
    assert_eq!(ready.part_count, 2);
    assert_eq!(ready.face_count, 7);
    assert_eq!(ready.edge_count, 14);
    assert_eq!(ready.vertex_count, 11);
    assert_eq!(ready.artifact_relation, "relation");
}
