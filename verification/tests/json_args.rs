use app_server_core::cadquery_args::{committed_after, parse_run_args};
use app_server_core::file_write::apply_exact_patch;
use app_server_core::plan_package::slugify_plan_title;
use app_server_core::plan_result::error_fields;
use app_server_core::readonly::{list_directory_args, read_file_args, search_files_args, MAX_DIR_ENTRIES, MAX_FILE_READ_BYTES, MAX_SEARCH_RESULTS};
use app_server_core::registry::{agent_tool_definitions_for_mode, agent_tool_specs};
use app_server_core::model::AgentMode;
use app_server_core::semantic::{parse_chat_summary_args, parse_plan_args, StringArrayArg};
use app_server_core::sse::{extract_delta_content, parse_stream_delta};
use app_server_core::tool_policy::{parse_tool_args, ExpectedHashArg, ExportTargetsArg, ParsedToolArgs};

#[test]
fn tool_args_read_paths_exports_and_hash() {
    let parsed = parse_tool_args(
        r#"{"path":"docs/a.md","target_path":7,"export_targets":["outputs/a.step",3],"export_formats":["step"],"expected_hash":"sha256:ab"}"#,
    );
    let ParsedToolArgs::Parsed(a) = parsed else { panic!("arguments should parse") };
    assert_eq!(a.path.as_deref(), Some("docs/a.md"));
    assert_eq!(a.source_path, None);
    assert_eq!(a.target_path, None);
    assert_eq!(a.export_targets, ExportTargetsArg::Items(vec![Some("outputs/a.step".to_string()), None]));
    assert!(a.export_formats_requested);
    assert_eq!(a.expected_hash, ExpectedHashArg::Text("sha256:ab".to_string()));
}

#[test]
fn tool_args_tell_missing_from_malformed() {
    let ParsedToolArgs::Parsed(a) = parse_tool_args(r#"{"export_targets":"x","export_formats":[],"expected_hash":null}"#)
    else {
        panic!("arguments should parse")
    };
    assert_eq!(a.export_targets, ExportTargetsArg::NotArray);
    assert!(!a.export_formats_requested);
    assert_eq!(a.expected_hash, ExpectedHashArg::Other);
    let ParsedToolArgs::Parsed(b) = parse_tool_args("[1, 2]") else { panic!("an array is JSON") };
    assert_eq!(b.path, None);
    assert_eq!(b.export_targets, ExportTargetsArg::Absent);
    assert_eq!(b.expected_hash, ExpectedHashArg::Absent);
    assert!(matches!(parse_tool_args("{not json"), ParsedToolArgs::Invalid(_)));
}

#[test]
fn run_args_read_code_and_exports() {
    let a = parse_run_args(
        r#"{"target_path":"parts/a.py","target_type":"part","code":"x=1","export_formats":["step","stl"],"export_targets":"no"}"#,
    )
    .unwrap();
    assert_eq!(a.target_path.as_deref(), Some("parts/a.py"));
    assert_eq!(a.target_type.as_deref(), Some("part"));
    assert_eq!(a.code.as_deref(), Some("x=1"));
    assert_eq!(a.params_json, None);
    assert_eq!(a.export_formats, vec![Some("step".to_string()), Some("stl".to_string())]);
    assert_eq!(a.export_targets, None);
    let b = parse_run_args(r#"{"export_formats":"step","export_targets":[]}"#).unwrap();
    assert!(b.export_formats.is_empty());
    assert_eq!(b.export_targets, Some(Vec::new()));
    assert!(parse_run_args("").is_err());
}

#[test]
fn plan_and_summary_args_read_lists() {
    let p = parse_plan_args(r#"{"title":"Bracket","affected_files":["parts/a.py"],"new_files":5,"risks":[1]}"#).unwrap();
    assert_eq!(p.title.as_deref(), Some("Bracket"));
    assert_eq!(p.affected_files, StringArrayArg::Items(vec![Some("parts/a.py".to_string())]));
    assert_eq!(p.new_files, StringArrayArg::NotArray);
    assert_eq!(p.export_targets, StringArrayArg::Absent);
    assert_eq!(p.risks, StringArrayArg::Items(vec![None]));
    assert_eq!(p.execution_scope, None);
    let s = parse_chat_summary_args(r#"{"summary":"done","goal":"cube","open_questions":[]}"#).unwrap();
    assert_eq!(s.summary.as_deref(), Some("done"));
    assert_eq!(s.goal.as_deref(), Some("cube"));
    assert_eq!(s.related_files, StringArrayArg::Absent);
    assert_eq!(s.open_questions, StringArrayArg::Items(Vec::new()));
    assert!(parse_chat_summary_args("{").is_err());
}

#[test]
fn delta_content_is_first_choice_text() {
    assert_eq!(
        extract_delta_content(r#"{"choices":[{"delta":{"content":"hi"}}]}"#).as_deref(),
        Some("hi")
    );
    assert_eq!(extract_delta_content(r#"{"choices":[{"delta":{"content":""}}]}"#), None);
    assert_eq!(extract_delta_content(r#"{"choices":[]}"#), None);
    assert_eq!(extract_delta_content(r#"{"choices":{"0":{"delta":{"content":"x"}}}}"#), None);
    assert_eq!(extract_delta_content("not json"), None);
}

#[test]
fn stream_delta_reads_reasoning_and_tool_calls() {
    let d = parse_stream_delta(
        r#"{"choices":[{"delta":{"reasoning_content":"think","tool_calls":[{"index":1,"id":"c1","function":{"name":"read_file","arguments":"{}"}}]}}]}"#,
    )
    .unwrap()
    .unwrap();
    assert_eq!(d.reasoning.as_deref(), Some("think"));
    assert_eq!(d.content, None);
    let calls = d.tool_calls.unwrap();
    assert_eq!(calls.len(), 1);
    assert_eq!(calls[0].index, Some(1));
    assert_eq!(calls[0].id.as_deref(), Some("c1"));
    assert_eq!(calls[0].name.as_deref(), Some("read_file"));
    assert_eq!(calls[0].arguments.as_deref(), Some("{}"));
    assert_eq!(parse_stream_delta(r#"{"other":1}"#).unwrap(), None);
    let e = parse_stream_delta(r#"{"choices":[{"delta":{"tool_calls":[{"index":18446744073709551615}]}}]}"#)
        .unwrap_err();
    assert_eq!(e, "tool call index is out of range");
}

#[test]
fn error_reply_fields_have_defaults() {
    assert_eq!(
        error_fields(r#"{"error_type":"file_conflict","message":"stale"}"#),
        Some(("file_conflict".to_string(), "stale".to_string()))
    );
    assert_eq!(
        error_fields(r#"{"status":"error"}"#),
        Some(("unknown_error".to_string(), "Agent tool failed".to_string()))
    );
    assert_eq!(error_fields("oops"), None);
}

#[test]
fn commit_flag_is_set_by_a_successful_run_only() {
    assert!(!committed_after(false, false));
    assert!(committed_after(false, true));
    assert!(committed_after(true, false));
}

#[test]
fn empty_search_patches_only_empty_text() {
    assert_eq!(apply_exact_patch("", "", "new").unwrap(), "new");
    let e = apply_exact_patch("abc", "", "new").unwrap_err();
    assert_eq!(e.error_type, "file_conflict");
}

#[test]
fn slugs_are_clean_and_stable() {
    for title in ["Big  Bracket -- v2!", "--x--", "A_B", "ÄB", ""] {
        let slug = slugify_plan_title(title);
        assert!(!slug.is_empty());
        assert!(!slug.starts_with('-') && !slug.ends_with('-') && !slug.contains("--"));
        assert_eq!(slugify_plan_title(&slug), slug);
    }
    assert_eq!(slugify_plan_title("Big  Bracket -- v2!"), "big-bracket-v2");
}

#[test]
fn tool_definitions_carry_descriptions() {
    let specs = agent_tool_specs();
    assert_eq!(specs[0].description, "Read a bounded UTF-8 text file from the workspace.");
    let defs = agent_tool_definitions_for_mode(AgentMode::Plan);
    let save = defs.iter().find(|d| d.name == "save_cad_plan").unwrap();
    assert_eq!(save.description, "Persist a structured Markdown CAD Plan under plans/.");
    assert!(defs.iter().all(|d| d.name != "write_file"));
}

#[test]
fn read_only_tool_args_have_defaults_and_caps() {
    let r = read_file_args(r#"{"path":"a.txt","offset":5,"max_bytes":99999999}"#).unwrap();
    assert_eq!(r.path, "a.txt");
    assert_eq!(r.offset, 5);
    assert_eq!(r.max_bytes, MAX_FILE_READ_BYTES);
    let r = read_file_args(r#"{"path":"a.txt","offset":-1,"max_bytes":10}"#).unwrap();
    assert_eq!(r.offset, 0);
    assert_eq!(r.max_bytes, 10);
    let e = read_file_args(r#"{"path":3}"#).unwrap_err();
    assert_eq!(e.message, "missing required string argument 'path'");
    assert_eq!(e.error_type, "invalid_arguments");
    let e = read_file_args("{").unwrap_err();
    assert!(e.message.starts_with("invalid tool arguments: "));

    let l = list_directory_args(r#"{"path":"parts","recursive":true,"pattern":"*.py"}"#).unwrap();
    assert!(l.recursive);
    assert_eq!(l.pattern.as_deref(), Some("*.py"));
    assert_eq!(l.kind, "any");
    assert_eq!(l.max_entries, MAX_DIR_ENTRIES);
    let l = list_directory_args(r#"{"path":"parts","recursive":"yes","kind":"file","max_entries":3}"#).unwrap();
    assert!(!l.recursive);
    assert_eq!(l.kind, "file");
    assert_eq!(l.max_entries, 3);

    let q = search_files_args(r#"{"query":"cube"}"#).unwrap();
    assert_eq!(q.query, "cube");
    assert_eq!(q.path, "");
    assert_eq!(q.pattern, None);
    assert_eq!(q.max_results, MAX_SEARCH_RESULTS);
    assert_eq!(search_files_args(r#"{"path":"x"}"#).unwrap_err().message, "missing required string argument 'query'");
}

#[test]
fn search_results_follow_result_map() {
    let map = app_server_core::llm_config::WebSearchResultMap {
        results_path: "data.items".to_string(),
        title: "name".to_string(),
        url: "link".to_string(),
        snippet: "text".to_string(),
        date: Some("when".to_string()),
        source: None,
    };
    let body = r#"{"data":{"items":[{"name":"A","link":"http://a","when":"2024","site":"s"},{"name":"B"},{"name":"C","link":"http://c","text":"c text"}]}}"#;
    let results = app_server_core::web_search::extract_results(body, &map).unwrap();
    assert_eq!(results.len(), 2);
    assert_eq!(results[0].title, "A");
    assert_eq!(results[0].snippet, "");
    assert_eq!(results[0].date.as_deref(), Some("2024"));
    assert_eq!(results[0].source, None);
    assert_eq!(results[1].url, "http://c");
    assert_eq!(results[1].snippet, "c text");
    let e = app_server_core::web_search::extract_results(r#"{"data":{}}"#, &map).unwrap_err();
    assert_eq!(e.message, "result_map.results path `data.items` did not resolve to an array");
    let e = app_server_core::web_search::extract_results("<html>", &map).unwrap_err();
    assert!(e.message.starts_with("search response is not valid JSON: "));
}

#[test]
fn search_results_path_does_not_index_arrays() {
    let map = app_server_core::llm_config::WebSearchResultMap {
        results_path: "data.0".to_string(),
        title: "name".to_string(),
        url: "link".to_string(),
        snippet: "text".to_string(),
        date: None,
        source: None,
    };
    let e = app_server_core::web_search::extract_results(r#"{"data":[[{"name":"A","link":"x"}]]}"#, &map).unwrap_err();
    assert_eq!(e.message, "result_map.results path `data.0` did not resolve to an array");
    let keyed = app_server_core::llm_config::WebSearchResultMap { results_path: "a/b.~c".to_string(), ..map };
    let found = app_server_core::web_search::extract_results(r#"{"a/b":{"~c":[{"name":"A","link":"x"},[1]]}}"#, &keyed)
        .unwrap();
    assert_eq!(found.len(), 1);
    assert_eq!(found[0].title, "A");
}
