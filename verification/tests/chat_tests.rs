use asi::chat::{
    chat_wire_messages, handle_sse_event, message_part_color, parse_sse_into_messages, role_style, sse_events,
    shows_cursor, submit_message, submits_on_key, submitted_text, ChatMessage, MessagePart,
};
use asi::json::JsonValue;

fn texts(m: &ChatMessage) -> Vec<String> {
    m.parts
        .iter()
        .map(|p| match p {
            MessagePart::Text(s) => format!("T:{}", s),
            MessagePart::Reasoning(s) => format!("R:{}", s),
            MessagePart::ToolCall { id, name, result, .. } => format!("C:{}:{}:{:?}", id, name, result),
        })
        .collect()
}

#[test]
fn new_messages() {
    let u = ChatMessage::new_user("u1".into(), "hi".into());
    assert_eq!(u.role, "user");
    assert_eq!(u.content, "hi");
    assert_eq!(texts(&u), vec!["T:hi"]);
    let a = ChatMessage::new_assistant("a1".into());
    assert_eq!(a.role, "assistant");
    assert!(a.content.is_empty() && a.parts.is_empty());
}

#[test]
fn text_deltas_join_the_last_text_part() {
    let mut m = ChatMessage::new_assistant("a".into());
    m.push_text("Hel");
    m.push_text("lo");
    assert_eq!(m.content, "Hello");
    assert_eq!(texts(&m), vec!["T:Hello"]);
    m.push_reasoning("think");
    m.push_reasoning("ing");
    m.push_text("!");
    assert_eq!(texts(&m), vec!["T:Hello", "R:thinking", "T:!"]);
    assert_eq!(m.content, "Hello!");
}

#[test]
fn tool_results_go_to_the_latest_open_call_of_that_tool() {
    let mut m = ChatMessage::new_assistant("a".into());
    m.push_tool_call("1".into(), "read".into(), JsonValue::Null);
    m.push_tool_call("2".into(), "read".into(), JsonValue::Null);
    m.push_tool_call("3".into(), "write".into(), JsonValue::Null);
    m.push_tool_result("read", "second".into());
    m.push_tool_result("read", "first".into());
    m.push_tool_result("read", "none left".into());
    m.push_tool_result("grep", "no such call".into());
    assert_eq!(
        texts(&m),
        vec!["C:1:read:Some(\"first\")", "C:2:read:Some(\"second\")", "C:3:write:None"]
    );
}

#[test]
fn colours_by_role() {
    assert_eq!(message_part_color("user"), "text-blue-600");
    assert_eq!(message_part_color("assistant"), "text-gray-800");
    assert_eq!(message_part_color("system"), "text-gray-500");
    assert_eq!(role_style("user"), "bg-blue-50 border border-blue-100");
    assert_eq!(role_style("other"), "bg-gray-50 border border-gray-200");
}

#[test]
fn sse_text_splits_into_events() {
    let text = "event: text\r\ndata: Hello\r\n\r\nevent: tool_call\ndata: {\"name\":\"read\"}\n\nignored line\nevent: done\ndata: x";
    let evs = sse_events(text);
    assert_eq!(
        evs,
        vec![
            ("text".to_string(), "Hello".to_string()),
            ("tool_call".to_string(), "{\"name\":\"read\"}".to_string()),
            ("done".to_string(), "x".to_string()),
        ]
    );
    assert!(sse_events("").is_empty());
    assert!(sse_events("data: orphan\n\n").is_empty());
}

#[test]
fn sse_stream_fills_the_last_assistant_message() {
    let mut msgs = vec![ChatMessage::new_user("u".into(), "q".into()), ChatMessage::new_assistant("a".into())];
    let text = "event: text\ndata: Hi\n\nevent: reasoning\ndata: hmm\n\nevent: tool_call\ndata: {\"id\":\"t1\",\"name\":\"read\",\"arguments\":{\"path\":\"a\"}}\n\nevent: tool_result\ndata: {\"name\":\"read\",\"result\":\"ok\"}\n\nevent: error\ndata: boom\n\n";
    parse_sse_into_messages(text, &mut msgs);
    assert_eq!(msgs[0].content, "q");
    assert_eq!(msgs[1].content, "Hi\n[Error: boom]");
    assert_eq!(
        texts(&msgs[1]),
        vec!["T:Hi", "R:hmm", "C:t1:read:Some(\"ok\")", "T:\n[Error: boom]"]
    );
    match &msgs[1].parts[2] {
        MessagePart::ToolCall { arguments: JsonValue::Object(members), .. } => {
            assert_eq!(members.len(), 1);
            assert_eq!(members[0].0, "path");
        }
        _ => panic!("expected a tool call with object arguments"),
    }
}

#[test]
fn tool_call_defaults_and_bad_json() {
    let mut msgs = vec![ChatMessage::new_assistant("a".into())];
    handle_sse_event("tool_call", "{}", &mut msgs);
    handle_sse_event("tool_call", "not json", &mut msgs);
    handle_sse_event("unknown", "x", &mut msgs);
    assert_eq!(texts(&msgs[0]), vec!["C:tc-0:unknown:None"]);
    match &msgs[0].parts[0] {
        MessagePart::ToolCall { arguments: JsonValue::Null, .. } => {}
        _ => panic!("expected null arguments"),
    }
}

#[test]
fn events_without_an_assistant_message_are_dropped() {
    let mut msgs = vec![ChatMessage::new_user("u".into(), "q".into())];
    handle_sse_event("text", "lost", &mut msgs);
    assert_eq!(msgs[0].content, "q");
    assert_eq!(texts(&msgs[0]), vec!["T:q"]);
}

#[test]
fn wire_messages_skip_empty_assistant_messages() {
    let msgs = vec![
        ChatMessage::new_user("u".into(), "".into()),
        ChatMessage::new_assistant("a".into()),
        ChatMessage::new_user("u2".into(), "more".into()),
    ];
    let wire = chat_wire_messages(&msgs);
    assert_eq!(wire, vec![("user".to_string(), "".to_string()), ("user".to_string(), "more".to_string())]);
}

#[test]
fn input_is_trimmed_on_submit() {
    assert_eq!(submitted_text("  hello \n", false), Some("hello".to_string()));
    assert_eq!(submitted_text(" \t\n ", false), None);
    assert_eq!(submitted_text("", false), None);
    assert_eq!(submitted_text("hello", true), None);
}

#[test]
fn submit_appends_user_and_assistant_messages() {
    let mut messages = vec![ChatMessage::new_user("user-0".into(), "hi".into())];
    assert!(submit_message(&mut messages, "next".into(), false));
    assert_eq!(messages.len(), 3);
    assert_eq!(messages[1].id, "user-1");
    assert_eq!(messages[1].role, "user");
    assert_eq!(messages[1].content, "next");
    assert_eq!(texts(&messages[1]), vec!["T:next".to_string()]);
    assert_eq!(messages[2].id, "assistant-1");
    assert_eq!(messages[2].role, "assistant");
    assert!(messages[2].content.is_empty());
    assert!(messages[2].parts.is_empty());
}

#[test]
fn submit_refuses_blank_text_or_while_loading() {
    let mut messages: Vec<ChatMessage> = Vec::new();
    assert!(!submit_message(&mut messages, "   ".into(), false));
    assert!(!submit_message(&mut messages, "hi".into(), true));
    assert!(messages.is_empty());
    assert!(submit_message(&mut messages, "hi".into(), false));
    assert_eq!(messages[0].id, "user-0");
    assert_eq!(messages[1].id, "assistant-0");
}

#[test]
fn enter_without_shift_submits() {
    assert!(submits_on_key("Enter", false));
    assert!(!submits_on_key("Enter", true));
    assert!(!submits_on_key("a", false));
    assert!(!submits_on_key("enter", false));
}

#[test]
fn cursor_shows_while_the_reply_is_empty() {
    let mut messages = vec![ChatMessage::new_user("user-0".into(), "hi".into())];
    assert!(!shows_cursor(&messages));
    messages.push(ChatMessage::new_assistant("assistant-0".into()));
    assert!(shows_cursor(&messages));
    messages[1].content.push_str("hello");
    assert!(!shows_cursor(&messages));
    assert!(!shows_cursor(&Vec::new()));
}
