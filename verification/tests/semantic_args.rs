use app_server_core::model::{AgentMode, CadQueryObjectKind};
use app_server_core::semantic::{
    chat_summary_args, matches_runner_export_target, normalize_export_target,
    normalize_workspace_path, require_chat_session, save_plan_args, RawChatSummaryArgs,
    RawPlanArgs, StringArrayArg,
};
use app_server_core::skills::{
    active_skill_names, collect_skill_injections, SkillInjectionContext,
    ENGINEERING_DEFAULTS_SKILL, FAILURE_RECOVERY_COMPACT_SKILL, FAILURE_RECOVERY_FULL_SKILL,
    STRUCTURED_BRIEF_SKILL,
};

fn s(v: &str) -> Option<String> {
    Some(v.to_string())
}

fn items(v: &[&str]) -> StringArrayArg {
    StringArrayArg::Items(v.iter().map(|x| Some(x.to_string())).collect())
}

fn plan() -> RawPlanArgs {
    RawPlanArgs {
        title: s("Bracket"),
        request: s("Make a bracket"),
        target_ref: s("@part[bracket]"),
        target_path: s(" parts\\bracket.py "),
        target_type: s("part"),
        affected_files: items(&["parts/./bracket.py"]),
        new_files: StringArrayArg::Absent,
        export_targets: items(&["outputs/bracket.step"]),
        strategy: s("  extrude a box  "),
        risks: StringArrayArg::Absent,
        acceptance: items(&["fits M3"]),
        execution_scope: s("single file"),
    }
}

#[test]
fn valid_plan_arguments_are_normalized() {
    let input = save_plan_args(&plan()).unwrap();
    assert_eq!(input.target_path, "parts/bracket.py");
    assert_eq!(input.affected_files, vec!["parts/bracket.py".to_string()]);
    assert_eq!(input.target_type, CadQueryObjectKind::Part);
    assert_eq!(input.strategy, "extrude a box");
    assert!(input.new_files.is_empty());
    assert!(input.risks.is_empty());
    assert_eq!(input.acceptance, vec!["fits M3".to_string()]);
    assert_eq!(input.export_targets, vec!["outputs/bracket.step".to_string()]);
    assert_eq!(input.source_chat_session, None);
}

fn error_of(args: RawPlanArgs) -> (String, &'static str) {
    let e = save_plan_args(&args).unwrap_err();
    (e.message, e.error_type)
}

#[test]
fn plan_argument_errors_come_in_check_order() {
    let mut a = plan();
    a.title = s("   ");
    assert_eq!(
        error_of(a),
        ("missing required string argument 'title'".to_string(), "invalid_arguments")
    );

    let mut a = plan();
    a.target_path = s("docs/bracket.py");
    assert_eq!(
        error_of(a),
        ("path root 'docs' is not allowed for this tool".to_string(), "permission_denied")
    );

    let mut a = plan();
    a.target_path = s("parts/bracket.txt");
    assert_eq!(
        error_of(a),
        ("target_path must be a CadQuery .py model source".to_string(), "invalid_arguments")
    );

    let mut a = plan();
    a.affected_files = StringArrayArg::Items(Vec::new());
    assert_eq!(
        error_of(a),
        ("'affected_files' must contain at least one path".to_string(), "invalid_arguments")
    );

    let mut a = plan();
    a.affected_files = items(&["outputs/x.step"]);
    assert_eq!(
        error_of(a),
        ("path root 'outputs' is denied for this tool".to_string(), "permission_denied")
    );

    let mut a = plan();
    a.target_type = s("widget");
    assert_eq!(
        error_of(a),
        ("target_type must be part, component, or assembly".to_string(), "invalid_arguments")
    );

    let mut a = plan();
    a.export_targets = items(&["exports/bracket.step"]);
    assert_eq!(
        error_of(a),
        ("export_targets must be under outputs/".to_string(), "permission_denied")
    );

    let mut a = plan();
    a.export_targets = items(&["outputs/bracket.obj"]);
    assert_eq!(
        error_of(a),
        ("export_targets must use .step, .stl, or .3mf".to_string(), "invalid_arguments")
    );

    let mut a = plan();
    a.risks = StringArrayArg::NotArray;
    assert_eq!(
        error_of(a),
        ("'risks' must be an array of strings".to_string(), "invalid_arguments")
    );

    let mut a = plan();
    a.acceptance = StringArrayArg::Items(vec![Some("ok".into()), None]);
    assert_eq!(
        error_of(a),
        ("'acceptance' must be an array of strings".to_string(), "invalid_arguments")
    );

    let mut a = plan();
    a.target_type = s("component");
    assert_eq!(
        error_of(a),
        ("target_type does not match target_path".to_string(), "invalid_arguments")
    );

    let mut a = plan();
    a.affected_files = items(&["docs/notes.md"]);
    assert_eq!(
        error_of(a),
        (
            "target_path must be included in affected_files or new_files".to_string(),
            "invalid_arguments"
        )
    );

    let mut a = plan();
    a.export_targets = items(&["outputs/other.step"]);
    assert_eq!(
        error_of(a),
        (
            "export_targets must match runner output names for target_path".to_string(),
            "invalid_arguments"
        )
    );
}

#[test]
fn workspace_paths_are_refused_when_absolute_or_escaping() {
    let e = normalize_workspace_path("/etc/passwd").unwrap_err();
    assert_eq!(e.message, "path must be workspace-relative");
    let e = normalize_workspace_path("C:/x").unwrap_err();
    assert_eq!(e.message, "path must be workspace-relative");
    let e = normalize_workspace_path("parts/../x").unwrap_err();
    assert_eq!(e.message, "path must not contain '..'");
    assert_eq!(normalize_workspace_path(" a//b/./c/ ").unwrap(), "a/b/c");
    assert_eq!(normalize_export_target("outputs/A.STL").unwrap(), "outputs/A.STL");
}

#[test]
fn runner_export_names_follow_target_stem() {
    assert!(matches_runner_export_target("parts/bracket.py", "outputs/bracket.3mf"));
    assert!(!matches_runner_export_target("parts/bracket.py", "outputs/bracket.STEP"));
    assert!(matches_runner_export_target("", "outputs/cadquery.stl"));
}

#[test]
fn chat_summary_arguments_are_checked() {
    let args = RawChatSummaryArgs {
        summary: s(" done "),
        goal: s("bracket"),
        related_files: items(&["outputs/bracket.step", "parts/bracket.py"]),
        open_questions: StringArrayArg::Absent,
    };
    let checked = chat_summary_args(&args).unwrap();
    assert_eq!(checked.summary, "done");
    assert_eq!(
        checked.related_files,
        vec!["outputs/bracket.step".to_string(), "parts/bracket.py".to_string()]
    );
    let mut bad = args.clone();
    bad.related_files = items(&["chats/x.jsonl"]);
    let e = chat_summary_args(&bad).unwrap_err();
    assert_eq!(e.message, "path root 'chats' is denied for this tool");
    let mut bad = args.clone();
    bad.related_files = items(&["src/x.rs"]);
    let e = chat_summary_args(&bad).unwrap_err();
    assert_eq!(e.message, "path root 'src' is not allowed for this tool");

    let e = require_chat_session(&None).unwrap_err();
    assert_eq!(e.message, "update_chat_summary requires an active Chat session");
    assert!(require_chat_session(&s("chat_1")).is_ok());
}

#[test]
fn skills_are_injected_only_for_cadquery_agent_turns() {
    let ctx = SkillInjectionContext {
        mode: AgentMode::Agent,
        cadquery_execution_tools_registered: true,
        last_turn_cadquery_error: false,
    };
    assert_eq!(
        active_skill_names(&ctx),
        vec!["failure-recovery", "engineering-defaults", "structured-brief"]
    );
    let text = collect_skill_injections(&ctx);
    assert_eq!(
        text,
        format!(
            "Active skills:\n[Skill: failure-recovery]\n{FAILURE_RECOVERY_COMPACT_SKILL}\n\n[Skill: engineering-defaults]\n{ENGINEERING_DEFAULTS_SKILL}\n\n[Skill: structured-brief]\n{STRUCTURED_BRIEF_SKILL}"
        )
    );
    let after_error = SkillInjectionContext {
        last_turn_cadquery_error: true,
        ..ctx
    };
    assert!(collect_skill_injections(&after_error).contains(FAILURE_RECOVERY_FULL_SKILL));

    let plan = SkillInjectionContext {
        mode: AgentMode::Plan,
        ..ctx
    };
    assert!(active_skill_names(&plan).is_empty());
    assert_eq!(collect_skill_injections(&plan), "");
    let no_tools = SkillInjectionContext {
        cadquery_execution_tools_registered: false,
        ..ctx
    };
    assert_eq!(collect_skill_injections(&no_tools), "");
}
