use app_server_core::chat_store::{
    legacy_chat_file, validate_relative_storage_path, validate_session_id, ChatErrorCode,
    ChatIndexListeners, ChatStore, register_chat_index_listener, trim_to_limit,
};
use app_server_core::plan_package::{
    allocate_plan_id, extract_plan_title_exec, looks_like_plan_id_exec, markdown_list_exec,
    next_daily_sequence_exec, package_paths, plan_id_from_ref_exec, sequence_for_date_exec,
    slugify_plan_title, yaml_array_exec, yaml_array_or_empty_exec,
};
use app_server_core::front_matter::parse_plan_metadata_exec;
use app_server_core::model::CadQueryObjectKind;
use app_server_core::plan_package::{render_plan_markdown_exec, SaveCadPlanPackageInput};
use app_server_core::plan_parse::PlanPackageCollection;
use app_server_core::plan_package::PlanPackageError;
use app_server_core::plan_result::{plan_result_failure_record, validate_plan_result_path};
use app_server_core::settings::preset_path_for_source;

fn chars(s: &str) -> Vec<char> {
    s.chars().collect()
}

fn text(v: Vec<char>) -> String {
    v.into_iter().collect()
}

fn strings(v: &[&str]) -> Vec<String> {
    v.iter().map(|s| s.to_string()).collect()
}

#[test]
fn plan_titles_become_slugs() {
    assert_eq!(slugify_plan_title("Big Bracket v2!"), "big-bracket-v2");
    assert_eq!(slugify_plan_title("  --  "), "cad-plan");
    assert_eq!(slugify_plan_title(""), "cad-plan");
    assert_eq!(slugify_plan_title("ÄB"), "b");
}

#[test]
fn plan_ids_count_per_day() {
    let names = strings(&["2025010100-a", "2025010107-b", "20250101xy-c", "2025010205-d", "notes"]);
    assert_eq!(next_daily_sequence_exec(&names, "20250101").unwrap(), 8);
    assert_eq!(next_daily_sequence_exec(&Vec::new(), "20250101").unwrap(), 0);
    let e = next_daily_sequence_exec(&strings(&["2025010199-z"]), "20250101").unwrap_err();
    assert_eq!(e.message, "daily plan sequence is exhausted");
    assert_eq!(e.error_type, "file_conflict");
    assert_eq!(sequence_for_date_exec(&chars("2025010112-x"), &chars("20250101")), Some(12));
    assert_eq!(sequence_for_date_exec(&chars("2025010112x"), &chars("20250101")), None);
    assert_eq!(allocate_plan_id("20250101", 3, "Big Bracket"), "2025010103-big-bracket");
}

#[test]
fn package_paths_live_under_plans() {
    let p = package_paths("2025010103-big");
    assert_eq!(p.plan_id, "2025010103-big");
    assert_eq!(p.plan_ref, "plans/2025010103-big");
    assert_eq!(p.request_path, "plans/2025010103-big/request.md");
    assert_eq!(p.plan_path, "plans/2025010103-big/plan.md");
    assert_eq!(p.result_path, "plans/2025010103-big/plan-result.md");
}

#[test]
fn plan_refs_name_plan_ids() {
    assert!(looks_like_plan_id_exec(&chars("2025010103-big")));
    assert!(!looks_like_plan_id_exec(&chars("2025010103-")));
    assert!(!looks_like_plan_id_exec(&chars("20250101ab-big")));
    assert_eq!(text(plan_id_from_ref_exec(&chars("plans/2025010103-big")).unwrap()), "2025010103-big");
    let e = plan_id_from_ref_exec(&chars("plans/x/y")).unwrap_err();
    assert_eq!(e.message, "plan_ref must be plans/YYYYmmddnn-name");
    assert_eq!(e.error_type, "invalid_arguments");
}

#[test]
fn markdown_helpers_render_lists() {
    assert_eq!(text(yaml_array_exec(&strings(&["a", "b"]))), "  - a\n  - b\n");
    assert_eq!(text(yaml_array_or_empty_exec(&Vec::new())), " []\n");
    assert_eq!(text(yaml_array_or_empty_exec(&strings(&["a"]))), "\n  - a\n");
    assert_eq!(text(markdown_list_exec(&Vec::new())), "- none");
    assert_eq!(text(markdown_list_exec(&strings(&["x", "y"]))), "- x\n- y");
    assert_eq!(
        extract_plan_title_exec(&chars("intro\n# CAD Plan:  Bracket  \nmore")).map(text),
        Some("Bracket".to_string())
    );
    assert_eq!(extract_plan_title_exec(&chars("# CAD Plan:   \n")), None);
}

#[test]
fn plan_result_records_and_paths() {
    assert_eq!(
        plan_result_failure_record(Some("run-1"), "syntax_error", "bad"),
        "\n## Agent Run run-1\n\n- status: failed\n- run_id: `run-1`\n- error_type: `syntax_error`\n- message: bad\n"
    );
    assert!(plan_result_failure_record(None, "x", "y").starts_with("\n## Agent Run unknown\n"));
    assert!(validate_plan_result_path("plans/p1/plan-result.md").is_ok());
    assert_eq!(
        validate_plan_result_path("/plans/p1/plan-result.md").unwrap_err(),
        "plan-result path must be workspace-relative"
    );
    assert_eq!(
        validate_plan_result_path("plans/p1/other.md").unwrap_err(),
        "plan-result path must be plans/<id>/plan-result.md"
    );
}

#[test]
fn chat_storage_paths_and_ids() {
    assert!(validate_session_id("chat-0a1B").is_ok());
    let e = validate_session_id("chat/1").unwrap_err();
    assert_eq!(e.code, ChatErrorCode::InvalidCommand);
    assert!(validate_session_id("").is_err());
    assert!(validate_relative_storage_path("chats/a.jsonl").is_ok());
    assert!(validate_relative_storage_path("").is_err());
    assert!(validate_relative_storage_path("/abs").is_err());
    assert!(validate_relative_storage_path("chats/../x").is_err());
    assert!(legacy_chat_file("chats/old.jsonl"));
    assert!(!legacy_chat_file("chats/index.json"));
    let store = ChatStore::new("/ws".to_string());
    assert!(store.relative_path("../escape").is_err());

    let mut v = vec![1, 2, 3, 4, 5];
    trim_to_limit(&mut v, 3);
    assert_eq!(v, vec![3, 4, 5]);
}

#[test]
fn chat_index_listeners_register_and_unregister() {
    let mut listeners = ChatIndexListeners::new();
    let a = register_chat_index_listener(&mut listeners, "/ws");
    let b = register_chat_index_listener(&mut listeners, "/ws");
    let _c = register_chat_index_listener(&mut listeners, "/other");
    assert_eq!(listeners.ids_for("/ws").len(), 2);
    listeners.unregister(&a);
    let left = listeners.ids_for("/ws");
    assert_eq!(left.len(), 1);
    listeners.unregister(&b);
    assert!(listeners.ids_for("/ws").is_empty());
    assert_eq!(listeners.ids_for("/other").len(), 1);
}

#[test]
fn presets_sit_beside_their_source() {
    assert_eq!(preset_path_for_source("models/cube.scad"), "models/cube.scad.json");
    assert_eq!(preset_path_for_source("models/cube"), "models/cube.scad.json");
}

fn bracket_input(new_files: &[&str]) -> SaveCadPlanPackageInput {
    SaveCadPlanPackageInput {
        title: "Bracket".to_string(),
        request: " make a bracket ".to_string(),
        target_ref: "@parts/bracket.py".to_string(),
        target_path: "parts/bracket.py".to_string(),
        target_type: CadQueryObjectKind::Part,
        affected_files: strings(&["parts/bracket.py"]),
        new_files: strings(new_files),
        export_targets: strings(&["outputs/bracket.step"]),
        strategy: "extrude".to_string(),
        risks: Vec::new(),
        acceptance: strings(&["fits"]),
        execution_scope: "edit bracket".to_string(),
        source_chat_session: Some("chat-1".to_string()),
    }
}

#[test]
fn plan_front_matter_reads_metadata() {
    let md = "---\nplan_id: 2025010103-big\nmode: plan\ntarget_path: ./parts//bracket.py\ntarget_type: part\naffected_files:\n  - parts/bracket.py\n  - docs/notes.md\nnew_files: []\nexport_targets:\n  - outputs/bracket.stl\nstatus: planned\n---\n# CAD Plan: Big\n";
    let m = parse_plan_metadata_exec(&chars(md), &chars("2025010103-big")).unwrap();
    assert_eq!(text(m.status), "planned");
    assert_eq!(text(m.target_path), "parts/bracket.py");
    assert_eq!(m.target_type, CadQueryObjectKind::Part);
    assert_eq!(m.affected_files.into_iter().map(text).collect::<Vec<_>>(), strings(&["parts/bracket.py", "docs/notes.md"]));
    assert!(m.new_files.is_empty());
    assert_eq!(m.export_targets.into_iter().map(text).collect::<Vec<_>>(), strings(&["outputs/bracket.stl"]));

    let e = parse_plan_metadata_exec(&chars(md), &chars("2025010104-big")).unwrap_err();
    assert_eq!(e.message, "plan_id does not match plan package");
    assert_eq!(e.error_type, "invalid_arguments");
    let e = parse_plan_metadata_exec(&chars("# no front matter"), &chars("x")).unwrap_err();
    assert_eq!(e.message, "plan.md missing YAML front matter");
    let e = parse_plan_metadata_exec(&chars("---\nplan_id: x\n"), &chars("x")).unwrap_err();
    assert_eq!(e.message, "plan.md front matter is not closed");
    let kinds = md.replace("target_type: part", "target_type: assembly");
    let e = parse_plan_metadata_exec(&chars(&kinds), &chars("2025010103-big")).unwrap_err();
    assert_eq!(e.message, "target_type does not match target_path");
}

#[test]
fn saved_plan_markdown_is_refused_by_reader() {
    for new_files in [&[][..], &["parts/extra.py"][..]] {
        let md = render_plan_markdown_exec(&bracket_input(new_files), "2025010103-bracket", "2025-01-01T00:00:00Z");
        assert!(md.starts_with("---\nplan_id: 2025010103-bracket\nmode: plan\ntarget_path: parts/bracket.py\n"));
        assert!(md.contains("# CAD Plan: Bracket\n\n## Goal\n\nmake a bracket\n"));
        assert!(md.contains("## Risks\n- none\n\n## Acceptance\n- fits\n"));
        let e = parse_plan_metadata_exec(&chars(&md), &chars("2025010103-bracket")).unwrap_err();
        assert_eq!(e.message, "invalid front matter line");
        assert_eq!(e.error_type, "invalid_arguments");
    }
}

fn plan_md(plan_id: &str) -> String {
    format!(
        "---\nplan_id: {plan_id}\nmode: plan\ntarget_path: parts/bracket.py\ntarget_type: part\naffected_files:\n  - parts/bracket.py\nnew_files: []\nexport_targets:\n  - outputs/bracket.step\nstatus: planned\n---\n# CAD Plan: Bracket {plan_id}\n"
    )
}

#[test]
fn plan_folder_entries_collect_in_ref_order() {
    let mut c = PlanPackageCollection::new();
    c.add_entry("notes", Ok("anything".to_string()));
    c.add_entry("2025010102-b", Ok(plan_md("2025010102-b")));
    c.add_entry("2025010101-a", Ok(plan_md("2025010101-a")));
    c.add_entry(
        "2025010103-c",
        Err(PlanPackageError { message: "plan package missing plan.md".to_string(), error_type: "invalid_arguments" }),
    );
    c.add_entry("2025010104-d", Ok(plan_md("2025010109-z")));
    c.add_entry("2025010105-e:x", Ok(plan_md("2025010105-e:x")));
    let refs: Vec<String> = c.packages.iter().map(|p| p.plan_ref.clone()).collect();
    assert_eq!(refs, strings(&["plans/2025010101-a", "plans/2025010102-b"]));
    assert_eq!(c.packages[0].title, "Bracket 2025010101-a");
    assert_eq!(c.packages[1].result_path, "plans/2025010102-b/plan-result.md");
    assert_eq!(
        c.warnings,
        strings(&[
            "plans/2025010103-c: plan package missing plan.md",
            "plans/2025010104-d: plan_id does not match plan package",
            "plans/2025010105-e:x: plan_ref must be workspace-relative",
        ])
    );
}
