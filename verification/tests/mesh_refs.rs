use app_server_core::mesh_refs::{
    feature_keys, parse_face_ref_exec, parse_u32_exec, resolve_face_ref, resolve_feature_ref,
    resolved_selection_target, MeshFeature, MeshPart,
};

fn chars(s: &str) -> Vec<char> {
    s.chars().collect()
}

fn parts() -> Vec<MeshPart> {
    vec![
        MeshPart {
            name: "bracket".into(),
            ref_text: "@part[bracket]".into(),
            feature_map: vec![
                MeshFeature { feature: "base".into(), face_indices: vec![0, 1] },
                MeshFeature { feature: "hole".into(), face_indices: vec![2, 1] },
            ],
        },
        MeshPart {
            name: "lid_part".into(),
            ref_text: "@part[lid]".into(),
            feature_map: vec![MeshFeature { feature: "top".into(), face_indices: vec![5] }],
        },
    ]
}

#[test]
fn numbers_parse_like_str_parse() {
    assert_eq!(parse_u32_exec(&chars("42")), Some(42));
    assert_eq!(parse_u32_exec(&chars("+7")), Some(7));
    assert_eq!(parse_u32_exec(&chars("4294967295")), Some(u32::MAX));
    assert_eq!(parse_u32_exec(&chars("4294967296")), None);
    assert_eq!(parse_u32_exec(&chars("")), None);
    assert_eq!(parse_u32_exec(&chars("+")), None);
    assert_eq!(parse_u32_exec(&chars("1a")), None);
    assert_eq!(parse_u32_exec(&chars("-1")), None);
}

#[test]
fn face_refs_split_at_the_face_marker() {
    let (owner, face) = parse_face_ref_exec(&chars("@face[bracket:f_12]")).unwrap();
    assert_eq!(owner.iter().collect::<String>(), "bracket");
    assert_eq!(face, 12);
    assert!(parse_face_ref_exec(&chars("@face[bracket:12]")).is_none());
    assert!(parse_face_ref_exec(&chars("@face[bracket:f_x]")).is_none());
}

#[test]
fn face_refs_resolve_to_the_first_covering_feature() {
    assert_eq!(
        resolve_face_ref(&parts(), "@face[bracket:f_1]"),
        Some(("@part[bracket]".to_string(), "@feature[bracket.base]".to_string()))
    );
    assert_eq!(
        resolve_face_ref(&parts(), "@face[lid:f_5]"),
        Some(("@part[lid]".to_string(), "@feature[lid.top]".to_string()))
    );
    assert_eq!(resolve_face_ref(&parts(), "@face[bracket:f_9]"), None);
    assert_eq!(resolve_face_ref(&parts(), "@face[ghost:f_1]"), None);
}

#[test]
fn feature_refs_resolve_when_the_part_has_the_feature() {
    assert_eq!(
        resolve_feature_ref(&parts(), "@feature[lid_part.top]"),
        Some(("@part[lid]".to_string(), "@feature[lid_part.top]".to_string()))
    );
    assert_eq!(resolve_feature_ref(&parts(), "@feature[bracket.slot]"), None);
    assert_eq!(
        resolved_selection_target(&parts(), "@feature[bracket.hole]"),
        Some(("@part[bracket]".to_string(), "@feature[bracket.hole]".to_string()))
    );
    assert_eq!(resolved_selection_target(&parts(), "edge#3"), None);
}

#[test]
fn feature_keys_follow_the_features_entry() {
    let source = "REFS = {\n  \"type\": \"part\",\n  \"features\": {\n    \"base\": {\"description\": \"x\"},\n    'hole': {},\n    \"selector\": {},\n    \"late\": {}\n  }\n}\n";
    let keys = feature_keys(source);
    assert_eq!(keys, vec!["base", "description", "x", "hole"]);
    assert!(feature_keys("no refs here").is_empty());
    let many: String = (0..30).map(|i| format!("\"k{i}\": 1, ")).collect();
    let source = format!("REFS = {{\"features\": {{{many}}}}}");
    assert_eq!(feature_keys(&source).len(), 20);
}
