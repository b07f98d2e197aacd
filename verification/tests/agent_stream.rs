use app_server_core::executor::{
    plan_tool_execution, route_error, tool_route, PendingToolCalls, RigStreamState, StreamAction,
    StreamEvent, ToolRoute,
};
use app_server_core::model::AgentMode;
use app_server_core::tool_policy::{ParsedToolArgs, ToolArgs, ExportTargetsArg, ExpectedHashArg};
use app_server_core::tool_runtime::AgentToolCall;

struct Sinks {
    tokens: Vec<String>,
    reasoning: Vec<String>,
    starts: Vec<AgentToolCall>,
    results: Vec<(String, String)>,
    pending: PendingToolCalls,
}

fn apply(state: &mut RigStreamState, sinks: &mut Sinks, event: StreamEvent) {
    match state.handle(event) {
        StreamAction::Token(t) => sinks.tokens.push(t),
        StreamAction::Reasoning(v) => sinks.reasoning.extend(v),
        StreamAction::ToolStarted(call) => {
            sinks.starts.push(call.clone());
            sinks.pending.push_back(call);
        }
        StreamAction::ToolFinished(call, text) => sinks.results.push((call.id.clone(), text)),
        StreamAction::Nothing => {}
    }
}

fn call(id: &str, name: &str, args: &str) -> AgentToolCall {
    AgentToolCall {
        id: id.to_string(),
        function_name: name.to_string(),
        arguments: args.to_string(),
    }
}

#[test]
fn rig_stream_mapping_forwards_text_reasoning_and_tool_events() {
    let mut sinks = Sinks {
        tokens: Vec::new(),
        reasoning: Vec::new(),
        starts: Vec::new(),
        results: Vec::new(),
        pending: PendingToolCalls::new(),
    };
    let mut state = RigStreamState::new();

    apply(&mut state, &mut sinks, StreamEvent::Text("hello".into()));
    apply(&mut state, &mut sinks, StreamEvent::ReasoningDelta("thinking".into()));
    apply(
        &mut state,
        &mut sinks,
        StreamEvent::ToolCall(call("call_1", "read_file", "{\"path\":\"a.py\"}")),
    );
    apply(
        &mut state,
        &mut sinks,
        StreamEvent::ToolResult {
            id: "call_1".into(),
            text: "{\"status\":\"ok\"}".into(),
        },
    );

    assert_eq!(sinks.tokens.as_slice(), ["hello"]);
    assert_eq!(sinks.reasoning.as_slice(), ["thinking"]);
    assert_eq!(state.text, "hello");
    assert_eq!(sinks.starts[0].function_name, "read_file");
    assert_eq!(
        sinks.results.as_slice(),
        [("call_1".to_string(), "{\"status\":\"ok\"}".to_string())]
    );
    assert_eq!(sinks.pending.calls[0].id, "call_1");
}

#[test]
fn final_response_replaces_streamed_text() {
    let mut state = RigStreamState::new();
    state.handle(StreamEvent::Text("partial".into()));
    state.handle(StreamEvent::Final("complete answer".into()));
    assert_eq!(state.final_text(), "complete answer");

    let mut state = RigStreamState::new();
    state.handle(StreamEvent::Text("a".into()));
    state.handle(StreamEvent::Text("b".into()));
    assert_eq!(state.final_text(), "ab");
}

#[test]
fn reasoning_block_forwards_only_parts_with_text() {
    let mut state = RigStreamState::new();
    let action = state.handle(StreamEvent::Reasoning(vec![
        Some("one".into()),
        None,
        Some("two".into()),
    ]));
    assert_eq!(
        action,
        StreamAction::Reasoning(vec!["one".to_string(), "two".to_string()])
    );
    assert_eq!(state.text, "");
}

#[test]
fn tool_result_for_unknown_call_is_ignored() {
    let mut state = RigStreamState::new();
    state.handle(StreamEvent::ToolCall(call("call_1", "read_file", "{}")));
    let action = state.handle(StreamEvent::ToolResult {
        id: "other".into(),
        text: "x".into(),
    });
    assert_eq!(action, StreamAction::Nothing);
    assert_eq!(state.handle(StreamEvent::Other), StreamAction::Nothing);
}

#[test]
fn pending_call_is_taken_by_tool_name_with_new_arguments() {
    let mut pending = PendingToolCalls::new();
    pending.push_back(call("call_a", "read_file", "{}"));
    pending.push_back(call("call_b", "write_file", "{}"));
    pending.push_back(call("call_c", "read_file", "{}"));

    let taken = pending.take("read_file", "{\"path\":\"x\"}".into());
    assert_eq!(taken, call("call_a", "read_file", "{\"path\":\"x\"}"));
    assert_eq!(pending.calls.len(), 2);
    assert_eq!(pending.calls[0].id, "call_b");
    assert_eq!(pending.calls[1].id, "call_c");

    let fresh = pending.take("list_directory", "{}".into());
    assert_eq!(fresh, call("rig_list_directory", "list_directory", "{}"));
    assert_eq!(pending.calls.len(), 2);
}

#[test]
fn executor_routes_each_tool_name() {
    assert_eq!(tool_route("read_file", false), ToolRoute::ReadFile);
    assert_eq!(tool_route("cadquery_execute", false), ToolRoute::CadQueryExecute);
    assert_eq!(tool_route("web_search", true), ToolRoute::WebSearch);
    assert_eq!(tool_route("web_search", false), ToolRoute::WebSearchNotConfigured);
    assert_eq!(tool_route("mystery", true), ToolRoute::NotImplemented);

    let e = route_error(ToolRoute::WebSearchNotConfigured).unwrap();
    assert_eq!(e.message, "web search provider not configured");
    assert_eq!(e.error_type, "web_search_error");
    let e = route_error(ToolRoute::NotImplemented).unwrap();
    assert_eq!(e.error_type, "unsupported_tool");
    assert!(route_error(ToolRoute::ReadFile).is_none());
}

fn args_with_path(path: &str) -> ParsedToolArgs {
    ParsedToolArgs::Parsed(ToolArgs {
        path: Some(path.to_string()),
        source_path: None,
        target_path: None,
        export_targets: ExportTargetsArg::Absent,
        export_formats_requested: false,
        expected_hash: ExpectedHashArg::Absent,
    })
}

#[test]
fn executor_refuses_write_tools_in_plan_mode() {
    let result = plan_tool_execution(
        "write_file",
        AgentMode::Plan,
        &args_with_path("parts/a.py"),
        None,
        false,
    );
    let error = result.unwrap_err();
    assert_eq!(error.error_type, "permission_denied");

    let ok = plan_tool_execution(
        "read_file",
        AgentMode::Plan,
        &args_with_path("parts/a.py"),
        None,
        false,
    );
    assert_eq!(ok.unwrap(), ToolRoute::ReadFile);
}
