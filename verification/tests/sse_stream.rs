use app_server_core::sse::{
    classify_sse_line, LlmToolCall, SseAction, SseLine, SseStream, StreamDelta, ToolCallAccumulator,
    ToolCallDelta,
};

fn fragment(index: Option<u64>, id: Option<&str>, name: Option<&str>, args: Option<&str>) -> ToolCallDelta {
    ToolCallDelta {
        index,
        id: id.map(str::to_string),
        name: name.map(str::to_string),
        arguments: args.map(str::to_string),
    }
}

fn delta(reasoning: Option<&str>, content: Option<&str>, tools: Option<Vec<ToolCallDelta>>) -> StreamDelta {
    StreamDelta {
        reasoning: reasoning.map(str::to_string),
        content: content.map(str::to_string),
        tool_calls: tools,
    }
}

#[test]
fn lines_are_classified_by_data_prefix() {
    assert_eq!(classify_sse_line(": keep-alive"), SseLine::Skip);
    assert_eq!(classify_sse_line("data: [DONE]"), SseLine::Done);
    assert_eq!(classify_sse_line("data:  [DONE]  "), SseLine::Done);
    assert_eq!(
        classify_sse_line("data:  {\"a\":1} "),
        SseLine::Data("{\"a\":1}".to_string())
    );
    assert_eq!(classify_sse_line("data:{}"), SseLine::Skip);
}

#[test]
fn tool_call_fragments_accumulate_by_index() {
    let mut acc = ToolCallAccumulator::new();
    acc.process_delta(&vec![
        fragment(Some(1), Some("call_b"), Some("list_directory"), Some("{\"pa")),
        fragment(None, Some("call_a"), Some("read_file"), Some("{}")),
    ]);
    acc.process_delta(&vec![fragment(Some(1), None, None, Some("th\":\"x\"}"))]);
    acc.process_delta(&vec![fragment(Some(3), None, Some("orphan"), None)]);
    let calls = acc.finish();
    assert_eq!(
        calls,
        vec![
            LlmToolCall {
                id: "call_a".into(),
                function_name: "read_file".into(),
                arguments: "{}".into(),
            },
            LlmToolCall {
                id: "call_b".into(),
                function_name: "list_directory".into(),
                arguments: "{\"path\":\"x\"}".into(),
            },
        ]
    );
}

#[test]
fn stream_hands_out_reasoning_then_content_then_takes_tools() {
    let mut stream = SseStream::new();
    let action = stream.take_delta(Some(delta(
        Some("think"),
        Some("Hello"),
        Some(vec![fragment(Some(0), Some("c1"), Some("read_file"), Some("{}"))]),
    )));
    assert_eq!(action, SseAction::Reasoning("think".into()));
    assert_eq!(stream.resume(true), SseAction::Token("Hello".into()));
    assert_eq!(stream.resume(true), SseAction::ReadNext);
    assert_eq!(stream.take_delta(None), SseAction::ReadNext);
    assert_eq!(
        stream.take_delta(Some(delta(Some(""), Some(" world"), None))),
        SseAction::Token(" world".into())
    );
    assert_eq!(stream.resume(true), SseAction::ReadNext);
    let response = stream.finish();
    assert_eq!(response.content, "Hello world");
    assert_eq!(response.reasoning_content, Some("think".to_string()));
    assert_eq!(response.tool_calls.len(), 1);
    assert_eq!(response.tool_calls[0].id, "c1");
}

#[test]
fn callback_refusal_stops_the_stream() {
    let mut stream = SseStream::new();
    assert_eq!(
        stream.take_delta(Some(delta(None, Some("first"), None))),
        SseAction::Token("first".into())
    );
    assert_eq!(stream.resume(false), SseAction::Finish);
    assert_eq!(stream.resume(true), SseAction::Finish);
    let response = stream.finish();
    assert_eq!(response.content, "first");
    assert_eq!(response.reasoning_content, None);
    assert!(response.tool_calls.is_empty());
}

#[test]
fn empty_delta_reads_on() {
    let mut stream = SseStream::new();
    assert_eq!(
        stream.take_delta(Some(delta(Some(""), Some(""), None))),
        SseAction::ReadNext
    );
    assert_eq!(stream.finish().content, "");
}
