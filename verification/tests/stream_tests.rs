use asi::agent::AgentEvent;
use asi::chat::sse_events;
use asi::stream::sse_frame;
use asi::types::Usage;

#[test]
fn frames_name_and_data() {
    assert_eq!(sse_frame(&AgentEvent::TextDelta { content: "hi".into() }), ("text".into(), "hi".into()));
    assert_eq!(sse_frame(&AgentEvent::Error { message: "bad".into() }), ("error".into(), "bad".into()));
    assert_eq!(sse_frame(&AgentEvent::Done { usage: None }), ("done".into(), "".into()));
}

#[test]
fn tool_events_are_json_objects() {
    let (name, data) = sse_frame(&AgentEvent::ToolCall { name: "read".into(), arguments: "{\"p\":1}".into() });
    assert_eq!(name, "tool_call");
    assert_eq!(data, r#"{"arguments":"{\"p\":1}","name":"read"}"#);
    let v: serde_json::Value = serde_json::from_str(&data).unwrap();
    assert_eq!(v["name"], "read");
    let (name, data) =
        sse_frame(&AgentEvent::ToolResult { name: "read".into(), result: "line\n".into(), truncated: true });
    assert_eq!(name, "tool_result");
    assert_eq!(data, r#"{"name":"read","result":"line\n","truncated":true}"#);
}

#[test]
fn done_carries_usage() {
    let u = Usage { prompt_tokens: 1, completion_tokens: 22, total_tokens: 23 };
    let (_, data) = sse_frame(&AgentEvent::Done { usage: Some(u) });
    assert_eq!(data, r#"{"prompt_tokens":1,"completion_tokens":22,"total_tokens":23}"#);
}

#[test]
fn framed_events_read_back_in_order() {
    let events = vec![
        AgentEvent::TextDelta { content: "Hello".into() },
        AgentEvent::ToolCall { name: "read".into(), arguments: "{\"path\":\"a\"}".into() },
        AgentEvent::ToolResult { name: "read".into(), result: "ok".into(), truncated: false },
        AgentEvent::Done { usage: None },
    ];
    let frames: Vec<(String, String)> = events.iter().map(sse_frame).collect();
    let mut wire = String::new();
    for (name, data) in &frames {
        if !data.is_empty() {
            wire.push_str(&format!("data: {}\n", data));
        }
        wire.push_str(&format!("event: {}\n\n", name));
    }
    assert_eq!(sse_events(&wire), frames);
}

#[test]
fn multi_line_data_keeps_only_its_last_line() {
    assert_eq!(sse_events("data: a\ndata: b\nevent: text\n\n"), vec![("text".to_string(), "b".to_string())]);
}

#[test]
fn tool_call_strings_are_escaped_as_json() {
    let args = "a\"b\\c\nd\te\u{1}f\u{1f}g\u{8}\u{c}\rh\u{7f}é/";
    let (_, data) = sse_frame(&AgentEvent::ToolCall { name: "t".into(), arguments: args.into() });
    assert_eq!(
        data,
        "{\"arguments\":\"a\\\"b\\\\c\\nd\\te\\u0001f\\u001fg\\b\\f\\rh\u{7f}é/\",\"name\":\"t\"}"
    );
}
