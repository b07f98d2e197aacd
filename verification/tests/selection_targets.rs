use app_server_core::model::CadQueryObjectKind;
use app_server_core::refs::{resolve_ref_target, RefObjectKind, RefTarget};
use app_server_core::selection::{
    active_selection, affected_paths_text, edit_goal, export_target_path, preferred_selection_ref,
    python_string, selection_target_decision, target_identifier, SelectionKind, SelectionRef,
    SelectionTargetDecision,
};

fn selection(kind: SelectionKind, ref_text: &str) -> SelectionRef {
    SelectionRef {
        kind,
        ref_text: ref_text.to_string(),
        owner_ref_text: None,
        owner_object_kind: None,
        instance_path: None,
        candidate_feature_ref: None,
        build_id: None,
        result_id: None,
        ambiguous: false,
    }
}

#[test]
fn identifier_is_lowercased_squeezed_and_trimmed() {
    assert_eq!(target_identifier("parts/My Bracket--v2.py"), "my_bracket_v2");
    assert_eq!(target_identifier("parts/__Odd__.py"), "odd");
    assert_eq!(target_identifier("parts/3d-mount.py"), "part_3d_mount");
    assert_eq!(target_identifier("parts/---.py"), "part");
    assert_eq!(target_identifier("plain"), "plain");
}

#[test]
fn python_string_escapes_backslash_and_quote() {
    assert_eq!(python_string(r#"a\b"c"#), r#"a\\b\"c"#);
    assert_eq!(python_string("plain"), "plain");
}

#[test]
fn export_target_follows_the_model_stem() {
    assert_eq!(export_target_path("parts/bracket.py"), "outputs/bracket.step");
    assert_eq!(export_target_path("parts/archive.tar.py"), "outputs/archive.step");
    assert_eq!(export_target_path("parts/"), "outputs/agent_model.step");
}

#[test]
fn active_selection_prefers_index_then_last() {
    let selections = vec![
        selection(SelectionKind::Part, "@part[a]"),
        selection(SelectionKind::Part, "@part[b]"),
    ];
    assert_eq!(active_selection(&selections, Some(0)), Some(0));
    assert_eq!(active_selection(&selections, Some(7)), Some(1));
    assert_eq!(active_selection(&selections, None), Some(1));
    assert_eq!(active_selection(&Vec::new(), Some(0)), None);
}

#[test]
fn decision_uses_owner_path_and_feature_ref() {
    let mut face = selection(SelectionKind::Face, "face#2");
    face.owner_ref_text = Some("@component[ Arm ]".to_string());
    face.owner_object_kind = Some(CadQueryObjectKind::Component);
    face.candidate_feature_ref = Some("@feature[Arm.top]".to_string());
    let decision = selection_target_decision(&vec![face], None).unwrap();
    assert_eq!(
        decision,
        SelectionTargetDecision {
            selection_ref: "@feature[Arm.top]".to_string(),
            target_path: Some("components/Arm.py".to_string()),
            affected_paths: vec!["components/Arm.py".to_string()],
            edit_goal: "component geometry",
        }
    );
    assert_eq!(affected_paths_text(&decision), "components/Arm.py");
}

#[test]
fn decision_without_path_reports_unconfirmed_target() {
    let edge = selection(SelectionKind::Edge, "edge#9");
    let decision = selection_target_decision(&vec![edge], None).unwrap();
    assert_eq!(decision.target_path, None);
    assert!(decision.affected_paths.is_empty());
    assert_eq!(decision.edit_goal, "part geometry");
    assert_eq!(affected_paths_text(&decision), "未确认 CadQuery 目标文件");
    assert!(selection_target_decision(&Vec::new(), None).is_none());
}

#[test]
fn ambiguous_selection_keeps_raw_text_and_asks_for_confirmation() {
    let mut s = selection(SelectionKind::Assembly, "@assembly[rig]");
    s.candidate_feature_ref = Some("@feature[rig.base]".to_string());
    s.ambiguous = true;
    assert_eq!(preferred_selection_ref(&s), "@assembly[rig]");
    assert_eq!(edit_goal(&s), "ambiguous selection confirmation required");
    s.ambiguous = false;
    assert_eq!(preferred_selection_ref(&s), "@feature[rig.base]");
    assert_eq!(edit_goal(&s), "assembly coordination");
    s.candidate_feature_ref = Some("   ".to_string());
    assert_eq!(preferred_selection_ref(&s), "@assembly[rig]");
    let d = selection_target_decision(&vec![s], None).unwrap();
    assert_eq!(d.target_path, Some("assemblies/rig.py".to_string()));
}

#[test]
fn refs_resolve_to_objects_features_selections_or_raw() {
    let selections = vec![selection(SelectionKind::Face, "face#1")];
    assert_eq!(
        resolve_ref_target("@part[bracket]", &selections).unwrap(),
        RefTarget::Object(RefObjectKind::Part, "bracket".chars().collect())
    );
    assert_eq!(
        resolve_ref_target("@feature[bracket.top]", &selections).unwrap(),
        RefTarget::Feature("bracket".chars().collect(), "top".chars().collect())
    );
    assert_eq!(resolve_ref_target("face#1", &selections).unwrap(), RefTarget::Selection(0));
    assert_eq!(resolve_ref_target("edge#4", &selections).unwrap(), RefTarget::Raw);
    let e = resolve_ref_target("@part[../x]", &selections).unwrap_err();
    assert_eq!(e.message, "ref name must be a safe identifier");
    assert_eq!(e.error_type, "permission_denied");
}
