use app_server_core::model::{AgentMode, CadQueryObjectKind};
use app_server_core::scope::AgentExecutionScope;
use app_server_core::selection::{SelectionKind, SelectionRef};
use app_server_core::turn::{
    build_rig_prompt_and_history, build_turn_context, collect_effective_history,
    execution_scope_context, extract_cadquery_code, extract_latest_chat_summary, rig_history,
    selection_context, AgentTurnInput, ChatMessageRecord, ChatRole,
};

fn msg(role: ChatRole, content: &str) -> ChatMessageRecord {
    ChatMessageRecord {
        role,
        content: content.to_string(),
        tool_call_count: 0,
    }
}

fn selection(kind: SelectionKind, ref_text: &str) -> SelectionRef {
    SelectionRef {
        kind,
        ref_text: ref_text.to_string(),
        owner_ref_text: None,
        owner_object_kind: None,
        instance_path: None,
        candidate_feature_ref: None,
        build_id: None,
        result_id: None,
        ambiguous: false,
    }
}

fn input(mode: AgentMode) -> AgentTurnInput {
    AgentTurnInput {
        mode,
        prompt: "make it taller".to_string(),
        history: Vec::new(),
        selections: Vec::new(),
        active_selection_index: None,
        plan_ref: None,
        context_refs: Vec::new(),
        execution_scope: None,
    }
}

#[test]
fn python_fence_is_preferred_and_trimmed() {
    let reply = "Here:\n```python\n  import cadquery as cq\nresult = 1\n```\nDone";
    assert_eq!(extract_cadquery_code(reply), "import cadquery as cq\nresult = 1");
}

#[test]
fn plain_fence_skips_newline_after_fence() {
    let reply = "```\nbox = 2\n```";
    assert_eq!(extract_cadquery_code(reply), "box = 2");
}

#[test]
fn reply_without_closed_fence_is_returned_whole() {
    assert_eq!(extract_cadquery_code("no code here"), "no code here");
    assert_eq!(extract_cadquery_code("```python\nunclosed"), "```python\nunclosed");
}

#[test]
fn effective_history_merges_roles_and_drops_noise() {
    let mut placeholder = msg(ChatRole::Assistant, "agent tool started");
    placeholder.tool_call_count = 0;
    let mut with_calls = msg(ChatRole::Assistant, "calling tools");
    with_calls.tool_call_count = 2;
    let history = vec![
        msg(ChatRole::User, "  first  "),
        msg(ChatRole::User, "second"),
        msg(ChatRole::Tool, "tool output"),
        msg(ChatRole::Meta, "{}"),
        placeholder,
        with_calls,
        msg(ChatRole::Assistant, "   "),
        msg(ChatRole::Assistant, "answer"),
        msg(ChatRole::User, "thanks"),
    ];
    let effective = collect_effective_history(&history);
    assert_eq!(
        effective,
        vec![
            ("user", "first\n\nsecond".to_string()),
            ("assistant", "answer".to_string()),
            ("user", "thanks".to_string()),
        ]
    );
    for pair in effective.windows(2) {
        assert_ne!(pair[0].0, pair[1].0);
    }
}

#[test]
fn latest_chat_summary_comes_from_meta_messages() {
    let history = vec![
        msg(ChatRole::Meta, "{\"type\":\"chat_summary\",\"summary\":\"old\"}"),
        msg(ChatRole::User, "{\"type\":\"chat_summary\",\"summary\":\"not meta\"}"),
        msg(ChatRole::Meta, "{\"type\":\"chat_summary\",\"summary\":\"new\"}"),
        msg(ChatRole::Meta, "{\"type\":\"other\",\"summary\":\"ignored\"}"),
        msg(ChatRole::Meta, "not json"),
    ];
    assert_eq!(extract_latest_chat_summary(&history), Some("new".to_string()));
    assert_eq!(extract_latest_chat_summary(&[msg(ChatRole::User, "hi")].to_vec()), None);
}

#[test]
fn rig_history_keeps_summary_and_last_sixteen_entries() {
    let mut history = vec![msg(ChatRole::Meta, "{\"type\":\"chat_summary\",\"summary\":\"S\"}")];
    for i in 0..20 {
        let role = if i % 2 == 0 { ChatRole::User } else { ChatRole::Assistant };
        history.push(msg(role, &format!("m{i}")));
    }
    let messages = rig_history(&history);
    assert_eq!(messages.len(), 18);
    assert_eq!(messages[0], ("user", "[Chat summary]\nS".to_string()));
    assert_eq!(messages[1], ("assistant", "Understood.".to_string()));
    assert_eq!(messages[2], ("user", "m4".to_string()));
    assert_eq!(messages[17], ("assistant", "m19".to_string()));
}

#[test]
fn turn_context_lists_mode_plan_refs_and_selection() {
    let mut turn = input(AgentMode::Agent);
    turn.plan_ref = Some("plans/p1/plan.md".to_string());
    turn.context_refs = vec!["@part[a]".to_string(), "@part[b]".to_string()];
    turn.selections = vec![selection(SelectionKind::Part, "@part[bracket]")];
    let context = build_turn_context(&turn);
    assert_eq!(
        context,
        "Mode: Agent\nPlan ref: plans/p1/plan.md\nUser-attached context refs: @part[a], @part[b]\nCurrent Web preview selection:\n- index=0; kind=part; ref_text=@part[bracket]; owner_ref_text=none; owner_object_kind=none; instance_path=none; candidate_feature_ref=none; build_id=none; result_id=none; ambiguous=false"
    );
    let (prompt, history) = build_rig_prompt_and_history(&turn);
    assert_eq!(prompt, format!("{context}\n\nmake it taller"));
    assert!(history.is_empty());
}

#[test]
fn plan_mode_context_is_only_the_mode() {
    assert_eq!(build_turn_context(&input(AgentMode::Plan)), "Mode: Plan");
}

#[test]
fn execution_scope_block_lists_every_field() {
    let scope = AgentExecutionScope {
        target_path: Some("parts/a.py".to_string()),
        target_type: Some(CadQueryObjectKind::Part),
        affected_files: vec!["parts/a.py".to_string(), "docs/a.md".to_string()],
        new_files: Vec::new(),
        export_targets: vec!["outputs/a.step".to_string()],
        plan_ref: None,
        plan_result_path: Some("plans/p/result.md".to_string()),
    };
    assert_eq!(
        execution_scope_context(&scope),
        "- plan_ref=none\n- target_path=parts/a.py\n- target_type=part\n- affected_files=parts/a.py, docs/a.md\n- new_files=\n- export_targets=outputs/a.step\n- plan_result_path=plans/p/result.md"
    );
}

#[test]
fn selection_block_numbers_lines_and_marks_ambiguity() {
    assert_eq!(selection_context(&Vec::new()), "- none");
    let mut second = selection(SelectionKind::Face, "face#3");
    second.owner_ref_text = Some("@component[bracket]".to_string());
    second.owner_object_kind = Some(CadQueryObjectKind::Component);
    second.ambiguous = true;
    let text = selection_context(&vec![selection(SelectionKind::Edge, "edge#1"), second]);
    let lines: Vec<&str> = text.split('\n').collect();
    assert_eq!(lines.len(), 2);
    assert!(lines[0].starts_with("- index=0; kind=edge; ref_text=edge#1;"));
    assert!(lines[1].starts_with("- index=1; kind=face; ref_text=face#3; owner_ref_text=@component[bracket]; owner_object_kind=component;"));
    assert!(lines[1].ends_with("ambiguous=true"));
}
