use app_server_core::file_write::{
    apply_exact_patch, patch_text, sha256_bytes, sha256_text, validate_actual_write_path,
    validate_copy_model_boundary, validate_copy_request, validate_existing_affected_scope,
    validate_text_bytes, validate_write_conflict, validate_write_execution_scope,
    WriteTargetPolicy,
};
use app_server_core::scope::AgentExecutionScope;

const EMPTY_HASH: &str = "sha256:e3b0c44298fc1c149afbf4c8996fb92427ae41e4649b934ca495991b7852b855";
const ABC_HASH: &str = "sha256:ba7816bf8f01cfea414140de5dae2223b00361a396177a9cb410ff61f20015ad";

fn scope(affected: &[&str], new: &[&str]) -> AgentExecutionScope {
    AgentExecutionScope {
        target_path: None,
        target_type: None,
        affected_files: affected.iter().map(|s| s.to_string()).collect(),
        new_files: new.iter().map(|s| s.to_string()).collect(),
        export_targets: Vec::new(),
        plan_ref: None,
        plan_result_path: None,
    }
}

#[test]
fn hashes_are_prefixed_lowercase_sha256() {
    assert_eq!(sha256_text(""), EMPTY_HASH);
    assert_eq!(sha256_text("abc"), ABC_HASH);
    assert_eq!(sha256_bytes(b"abc"), ABC_HASH);
}

#[test]
fn write_roots_and_model_sources_are_guarded() {
    assert!(validate_actual_write_path("docs/notes.md", false).is_ok());
    let e = validate_actual_write_path("outputs/a.step", false).unwrap_err();
    assert_eq!(e.message, "path root 'outputs' is not allowed for file write tools");
    assert_eq!(e.error_type, "permission_denied");
    let e = validate_actual_write_path("src/main.rs", false).unwrap_err();
    assert_eq!(e.message, "path root 'src' is not allowed for file write tools");
    let e = validate_actual_write_path("parts/a.py", false).unwrap_err();
    assert_eq!(e.message, "CadQuery model .py files must be modified through CadQuery tools");
    assert!(validate_actual_write_path("parts/a.py", true).is_ok());
}

#[test]
fn write_scope_matches_file_state() {
    let sc = scope(&["docs/a.md"], &["docs/b.md"]);
    assert!(validate_write_execution_scope("docs/a.md", true, Some(&sc), WriteTargetPolicy::WriteFile).is_ok());
    assert!(validate_write_execution_scope("docs/b.md", false, Some(&sc), WriteTargetPolicy::WriteFile).is_ok());
    let e = validate_write_execution_scope("docs/a.md", false, Some(&sc), WriteTargetPolicy::WriteFile).unwrap_err();
    assert_eq!(e.message, "execution scope file state does not match workspace");
    assert_eq!(e.error_type, "file_conflict");
    let e = validate_write_execution_scope("docs/c.md", false, Some(&sc), WriteTargetPolicy::WriteFile).unwrap_err();
    assert_eq!(e.message, "path is outside execution scope");
    let e = validate_write_execution_scope("docs/a.md", false, Some(&sc), WriteTargetPolicy::CopyTarget).unwrap_err();
    assert_eq!(e.message, "copy_file target must be in execution new_files");
    assert!(validate_write_execution_scope("anything", true, None, WriteTargetPolicy::WriteFile).is_ok());

    let e = validate_existing_affected_scope("docs/b.md", Some(&sc)).unwrap_err();
    assert_eq!(e.message, "execution new_files cannot patch existing files");
    assert!(validate_existing_affected_scope("docs/a.md", Some(&sc)).is_ok());
}

#[test]
fn overwrite_needs_the_current_hash() {
    assert!(validate_write_conflict(false, None, b"").is_ok());
    let e = validate_write_conflict(false, Some(EMPTY_HASH), b"").unwrap_err();
    assert_eq!(e.message, "expected_hash was provided but target does not exist");
    let e = validate_write_conflict(true, None, b"abc").unwrap_err();
    assert_eq!(e.message, "expected_hash is required when overwriting an existing file");
    assert!(validate_write_conflict(true, Some(ABC_HASH), b"abc").is_ok());
    let e = validate_write_conflict(true, Some(EMPTY_HASH), b"abc").unwrap_err();
    assert_eq!(e.message, "expected_hash does not match current file");
    let e = validate_write_conflict(true, Some(ABC_HASH), &[0xff, 0xfe]).unwrap_err();
    assert_eq!(e.message, "file contents must be UTF-8 text");
    assert_eq!(e.error_type, "invalid_arguments");
}

#[test]
fn text_bytes_reject_nul_and_invalid_utf8() {
    assert!(validate_text_bytes("héllo".as_bytes()).is_ok());
    assert!(validate_text_bytes(b"a\0b").is_err());
    assert!(validate_text_bytes(&[0xc3]).is_err());
}

#[test]
fn copy_requests_check_hash_and_target() {
    assert!(validate_copy_request(false, false, b"abc", Some(ABC_HASH)).is_ok());
    let e = validate_copy_request(false, false, b"abc", Some(EMPTY_HASH)).unwrap_err();
    assert_eq!(e.message, "expected_source_hash does not match source");
    let e = validate_copy_request(true, false, b"abc", None).unwrap_err();
    assert_eq!(e.message, "copy target already exists or equals source");
    let e = validate_copy_model_boundary("docs/a.md", "parts/a.py").unwrap_err();
    assert_eq!(e.message, "CadQuery model .py copy targets require a CadQuery model .py source");
    assert!(validate_copy_model_boundary("parts/a.py", "parts/b.py").is_ok());
}

#[test]
fn exact_patch_replaces_a_single_match() {
    assert_eq!(apply_exact_patch("a = 1\nb = 2\n", "b = 2", "b = 3").unwrap(), "a = 1\nb = 3\n");
    let e = apply_exact_patch("x x", "x", "y").unwrap_err();
    assert_eq!(e.message, "patch search text must match exactly once");
    let e = apply_exact_patch("abc", "z", "y").unwrap_err();
    assert_eq!(e.message, "patch search text must match exactly once");
    assert_eq!(patch_text("abc", ABC_HASH, "b", "B").unwrap(), "aBc");
    let e = patch_text("abc", EMPTY_HASH, "b", "B").unwrap_err();
    assert_eq!(e.message, "expected_hash does not match current file");
}
