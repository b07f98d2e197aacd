use app_server_core::readonly::{
    check_resolved_path, filter_directory_entries, is_denied_path, is_probably_binary,
    is_searchable_bytes, limit_arg, matches_kind_text, matches_pattern, push_file_matches,
    readable_relative_path, text_slice, workspace_relative_path, DirEntrySummary,
    DirectoryCollector, SearchMatch, Visit,
};
use app_server_core::web_search::{is_html_content_type, truncate_response};

fn entry(path: &str, kind: &'static str) -> DirEntrySummary {
    DirEntrySummary {
        path: path.to_string(),
        name: path.rsplit('/').next().unwrap().to_string(),
        kind,
        size_bytes: if kind == "file" { Some(3) } else { None },
    }
}

#[test]
fn text_slice_stops_on_character_boundaries() {
    let s = text_slice("héllo", 6, 0, 2).unwrap();
    assert_eq!(s.text, "h");
    assert_eq!(s.bytes_read, 1);
    assert!(s.truncated);
    assert_eq!(s.file_size, 6);

    let s = text_slice("héllo", 6, 3, 100).unwrap();
    assert_eq!(s.text, "llo");
    assert_eq!(s.offset, 3);
    assert!(!s.truncated);

    let e = text_slice("héllo", 6, 2, 10).unwrap_err();
    assert_eq!(e.message, "offset must be on a UTF-8 character boundary");
    assert_eq!(e.error_type, "invalid_arguments");

    let s = text_slice("abc", 3, 10, 5).unwrap();
    assert_eq!(s.text, "");
    assert_eq!(s.offset, 3);
    assert_eq!(s.bytes_read, 0);
}

#[test]
fn denied_roots_and_binary_bytes() {
    assert!(is_denied_path("outputs/x.step"));
    assert!(is_denied_path(".git/config"));
    assert!(!is_denied_path("parts/a.py"));
    assert!(is_probably_binary(&[b'a', 0, b'b']));
    assert!(is_probably_binary(&[0x07]));
    assert!(!is_probably_binary(b"line\r\n\tx"));
    assert!(is_searchable_bytes(b"text"));
    assert!(!is_searchable_bytes(&vec![b'a'; 262145]));
}

#[test]
fn limits_fall_back_and_cap() {
    assert_eq!(limit_arg(None, 200, 500), 200);
    assert_eq!(limit_arg(Some(10), 200, 500), 10);
    assert_eq!(limit_arg(Some(9000), 200, 500), 500);
}

#[test]
fn readable_paths_are_normalized_and_guarded() {
    let p = readable_relative_path("./parts//a.py").unwrap();
    assert_eq!(p.iter().collect::<String>(), "parts/a.py");
    let e = readable_relative_path("target/debug/x").unwrap_err();
    assert_eq!(e.message, "path root 'target' is denied for this tool");
    let e = readable_relative_path("/abs").unwrap_err();
    assert_eq!(e.message, "path must be workspace-relative");
    assert_eq!(
        workspace_relative_path("/ws", "/ws/parts/a.py"),
        Some("parts/a.py".to_string())
    );
    assert_eq!(workspace_relative_path("/ws", "/other/a.py"), None);
    assert!(check_resolved_path("/ws", "/ws/docs/a.md").is_ok());
    assert!(check_resolved_path("/ws", "/elsewhere/a.md").is_err());
}

#[test]
fn kind_and_pattern_filters() {
    assert!(matches_kind_text("file", "any"));
    assert!(matches_kind_text("directory", "directory"));
    assert!(!matches_kind_text("file", "directory"));
    assert!(matches_pattern("parts/a.py", &None));
    assert!(matches_pattern("parts/a.py", &Some(".py".to_string())));
    assert!(!matches_pattern("parts/a.py", &Some(".md".to_string())));
}

#[test]
fn listing_is_filtered_sorted_and_capped() {
    let entries = vec![
        entry("parts/b.py", "file"),
        entry("parts", "directory"),
        entry("parts/a.py", "file"),
        entry("docs/a.md", "file"),
    ];
    let (listed, truncated) =
        filter_directory_entries(entries.clone(), "file", &Some(".py".to_string()), 10, false);
    assert!(!truncated);
    let paths: Vec<&str> = listed.iter().map(|e| e.path.as_str()).collect();
    assert_eq!(paths, ["parts/a.py", "parts/b.py"]);

    let (listed, truncated) = filter_directory_entries(entries, "any", &None, 2, false);
    assert!(truncated);
    let paths: Vec<&str> = listed.iter().map(|e| e.path.as_str()).collect();
    assert_eq!(paths, ["docs/a.md", "parts"]);
}

#[test]
fn collector_stops_when_full_and_skips_denied_entries() {
    let mut c = DirectoryCollector::new(true, None, "any".to_string(), 1);
    assert_eq!(
        c.visit(Some("outputs".into()), "outputs".into(), true, None),
        Visit::Continue { descend: false }
    );
    assert_eq!(
        c.visit(None, "link".into(), false, Some(1)),
        Visit::Continue { descend: false }
    );
    assert_eq!(
        c.visit(Some("parts".into()), "parts".into(), true, None),
        Visit::Continue { descend: true }
    );
    assert_eq!(c.entries.len(), 1);
    assert_eq!(c.entries[0].kind, "directory");
    assert_eq!(
        c.visit(Some("parts/a.py".into()), "a.py".into(), false, Some(5)),
        Visit::Stop
    );
    assert!(c.truncated);
    assert_eq!(c.entries.len(), 1);
}

#[test]
fn search_matches_number_lines_and_stop_at_the_limit() {
    let mut matches: Vec<SearchMatch> = Vec::new();
    let full = push_file_matches("a.txt", "foo\nbar foo\r\nbaz", "foo", 50, &mut matches);
    assert!(!full);
    assert_eq!(
        matches,
        vec![
            SearchMatch { path: "a.txt".into(), line_number: 1, line: "foo".into() },
            SearchMatch { path: "a.txt".into(), line_number: 2, line: "bar foo".into() },
        ]
    );
    let full = push_file_matches("b.txt", "foo", "foo", 2, &mut matches);
    assert!(full);
    assert_eq!(matches.len(), 2);
}

#[test]
fn web_responses_are_cut_on_character_boundaries() {
    assert_eq!(truncate_response("héllo", Some(2)), "h");
    assert_eq!(truncate_response("héllo", Some(3)), "hé");
    assert_eq!(truncate_response("héllo", None), "héllo");
    assert_eq!(truncate_response("abc", Some(10)), "abc");
    assert!(is_html_content_type("Text/HTML; charset=utf-8"));
    assert!(is_html_content_type("application/xhtml+xml"));
    assert!(!is_html_content_type("application/json"));
}
