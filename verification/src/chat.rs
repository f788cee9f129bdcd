//! Chat messages as the dashboard streams them: text, reasoning and tool-call
//! parts, the server-sent-event stream that fills them, and the styling
//! helpers of the message list.
use vstd::prelude::*;
use crate::json::{JsonValue, json_field, json_str, serde_json_parse, parse_json, get_field, as_str, into_field};
use crate::text::{
    push_str, str_eq, concat, starts_with, char_views, has_prefix, string_from_range, text_lines,
    lines_of, trim, to_chars, trim_vec, string_from_chars, decimal, push_decimal,
};

verus! {

/// A single part inside a chat message.
#[derive(Debug)]
pub enum MessagePart {
    /// Plain text content.
    Text(String),
    /// Model reasoning.
    Reasoning(String),
    /// A tool call, with its result once it arrived.
    ToolCall { id: String, name: String, arguments: JsonValue, result: Option<String> },
}

/// What a message part holds, as text.
pub enum PartView {
    Text(Seq<char>),
    Reasoning(Seq<char>),
    ToolCall { id: Seq<char>, name: Seq<char>, arguments: JsonValue, result: Option<Seq<char>> },
}

impl View for MessagePart {
    type V = PartView;

    open spec fn view(&self) -> PartView {
        match self {
            MessagePart::Text(s) => PartView::Text(s@),
            MessagePart::Reasoning(s) => PartView::Reasoning(s@),
            MessagePart::ToolCall { id, name, arguments, result } => PartView::ToolCall {
                id: id@,
                name: name@,
                arguments: *arguments,
                result: match result {
                    Some(r) => Some(r@),
                    None => None,
                },
            },
        }
    }
}

/// A single chat message in the conversation.
#[derive(Debug)]
pub struct ChatMessage {
    pub id: String,
    pub role: String,
    pub content: String,
    pub parts: Vec<MessagePart>,
}

/// What a chat message holds, as text.
pub struct MessageView {
    pub id: Seq<char>,
    pub role: Seq<char>,
    pub content: Seq<char>,
    pub parts: Seq<PartView>,
}

/// The views of a list of parts.
pub open spec fn parts_view(parts: Seq<MessagePart>) -> Seq<PartView> {
    parts.map_values(|p: MessagePart| p@)
}

impl View for ChatMessage {
    type V = MessageView;

    open spec fn view(&self) -> MessageView {
        MessageView { id: self.id@, role: self.role@, content: self.content@, parts: parts_view(self.parts@) }
    }
}

/// The views of a list of messages.
pub open spec fn messages_view(ms: Seq<ChatMessage>) -> Seq<MessageView> {
    ms.map_values(|m: ChatMessage| m@)
}

/// `parts` with `delta` appended to a last text part, or with a new text part.
pub open spec fn append_text(parts: Seq<PartView>, delta: Seq<char>) -> Seq<PartView> {
    if parts.len() > 0 {
        match parts.last() {
            PartView::Text(e) => parts.update(parts.len() - 1, PartView::Text(e + delta)),
            _ => parts.push(PartView::Text(delta)),
        }
    } else {
        parts.push(PartView::Text(delta))
    }
}

/// `parts` with `delta` appended to a last reasoning part, or with a new one.
pub open spec fn append_reasoning(parts: Seq<PartView>, delta: Seq<char>) -> Seq<PartView> {
    if parts.len() > 0 {
        match parts.last() {
            PartView::Reasoning(e) => parts.update(parts.len() - 1, PartView::Reasoning(e + delta)),
            _ => parts.push(PartView::Reasoning(delta)),
        }
    } else {
        parts.push(PartView::Reasoning(delta))
    }
}

/// Whether `p` is a call of the tool `name` that has no result yet.
pub open spec fn is_open_call(p: PartView, name: Seq<char>) -> bool {
    p matches PartView::ToolCall { name: n, result: None, .. } && n == name
}

/// The index of the last call of the tool `name` without a result.
pub open spec fn last_open_call(parts: Seq<PartView>, name: Seq<char>) -> Option<int>
    decreases parts.len(),
{
    if parts.len() == 0 {
        None
    } else if is_open_call(parts.last(), name) {
        Some(parts.len() - 1)
    } else {
        last_open_call(parts.drop_last(), name)
    }
}

/// `parts` with `result` attached to the last open call of `name`; unchanged
/// when there is none.
pub open spec fn attach_result(parts: Seq<PartView>, name: Seq<char>, result: Seq<char>) -> Seq<PartView> {
    match last_open_call(parts, name) {
        Some(i) => match parts[i] {
            PartView::ToolCall { id, name: n, arguments, .. } => parts.update(
                i,
                PartView::ToolCall { id, name: n, arguments, result: Some(result) },
            ),
            _ => parts,
        },
        None => parts,
    }
}

proof fn lemma_last_open_call(parts: Seq<PartView>, name: Seq<char>)
    ensures
        match last_open_call(parts, name) {
            Some(i) => 0 <= i < parts.len() && is_open_call(parts[i], name) && forall|k: int|
                i < k < parts.len() ==> !is_open_call(#[trigger] parts[k], name),
            None => forall|k: int| 0 <= k < parts.len() ==> !is_open_call(#[trigger] parts[k], name),
        },
    decreases parts.len(),
{
    if parts.len() > 0 {
        lemma_last_open_call(parts.drop_last(), name);
        assert forall|k: int| 0 <= k < parts.len() - 1 implies parts.drop_last()[k] == parts[k] by {}
    }
}

/// Streaming text in two pieces leaves the same parts as streaming it at once.
pub proof fn lemma_text_deltas_concatenate(parts: Seq<PartView>, a: Seq<char>, b: Seq<char>)
    ensures
        append_text(append_text(parts, a), b) == append_text(parts, a + b),
{
    if parts.len() > 0 {
        match parts.last() {
            PartView::Text(e) => {
                assert(e + a + b =~= e + (a + b));
                assert(append_text(append_text(parts, a), b) =~= append_text(parts, a + b));
            },
            _ => {
                assert(append_text(append_text(parts, a), b) =~= append_text(parts, a + b));
            },
        }
    } else {
        assert(append_text(append_text(parts, a), b) =~= append_text(parts, a + b));
    }
}

impl ChatMessage {
    /// A user message whose one text part is its content.
    pub fn new_user(id: String, content: String) -> (m: Self)
        ensures
            m@.id == id@,
            m@.role == "user"@,
            m@.content == content@,
            m@.parts == seq![PartView::Text(content@)],
    {
        let mut parts: Vec<MessagePart> = Vec::new();
        parts.push(MessagePart::Text(content.clone()));
        let m = ChatMessage { id, role: "user".to_owned(), content, parts };
        assert(m@.parts =~= seq![PartView::Text(m.content@)]);
        m
    }

    /// An empty assistant message.
    pub fn new_assistant(id: String) -> (m: Self)
        ensures
            m@.id == id@,
            m@.role == "assistant"@,
            m@.content.len() == 0,
            m@.parts.len() == 0,
    {
        let m = ChatMessage { id, role: "assistant".to_owned(), content: String::new(), parts: Vec::new() };
        assert(m@.parts =~= Seq::<PartView>::empty());
        m
    }

    /// Appends a text delta to the content and to the last text part, or
    /// starts a new text part.
    pub fn push_text(&mut self, delta: &str)
        ensures
            final(self)@.id == old(self)@.id,
            final(self)@.role == old(self)@.role,
            final(self)@.content == old(self)@.content + delta@,
            final(self)@.parts == append_text(old(self)@.parts, delta@),
    {
        let ghost before = parts_view(self.parts@);
        push_str(&mut self.content, delta);
        let last = self.parts.pop();
        match last {
            Some(MessagePart::Text(mut e)) => {
                push_str(&mut e, delta);
                self.parts.push(MessagePart::Text(e));
                assert(parts_view(self.parts@) =~= before.update(before.len() - 1, PartView::Text(before.last()->Text_0 + delta@)));
            },
            Some(other) => {
                self.parts.push(other);
                self.parts.push(MessagePart::Text(delta.to_owned()));
                assert(parts_view(self.parts@) =~= before.push(PartView::Text(delta@)));
            },
            None => {
                self.parts.push(MessagePart::Text(delta.to_owned()));
                assert(parts_view(self.parts@) =~= before.push(PartView::Text(delta@)));
            },
        }
    }

    /// Appends a reasoning segment to the last reasoning part, or starts a new one.
    pub fn push_reasoning(&mut self, content: &str)
        ensures
            final(self)@.id == old(self)@.id,
            final(self)@.role == old(self)@.role,
            final(self)@.content == old(self)@.content,
            final(self)@.parts == append_reasoning(old(self)@.parts, content@),
    {
        let ghost before = parts_view(self.parts@);
        let last = self.parts.pop();
        match last {
            Some(MessagePart::Reasoning(mut e)) => {
                push_str(&mut e, content);
                self.parts.push(MessagePart::Reasoning(e));
                assert(parts_view(self.parts@) =~= before.update(
                    before.len() - 1,
                    PartView::Reasoning(before.last()->Reasoning_0 + content@),
                ));
            },
            Some(other) => {
                self.parts.push(other);
                self.parts.push(MessagePart::Reasoning(content.to_owned()));
                assert(parts_view(self.parts@) =~= before.push(PartView::Reasoning(content@)));
            },
            None => {
                self.parts.push(MessagePart::Reasoning(content.to_owned()));
                assert(parts_view(self.parts@) =~= before.push(PartView::Reasoning(content@)));
            },
        }
    }

    /// Appends a tool-call part without a result.
    pub fn push_tool_call(&mut self, id: String, name: String, arguments: JsonValue)
        ensures
            final(self)@.id == old(self)@.id,
            final(self)@.role == old(self)@.role,
            final(self)@.content == old(self)@.content,
            final(self)@.parts == old(self)@.parts.push(
                PartView::ToolCall { id: id@, name: name@, arguments, result: None },
            ),
    {
        let ghost before = parts_view(self.parts@);
        let ghost part = PartView::ToolCall { id: id@, name: name@, arguments, result: None };
        self.parts.push(MessagePart::ToolCall { id, name, arguments, result: None });
        assert(parts_view(self.parts@) =~= before.push(part));
    }

    /// Attaches a result to the last call of the tool `name` that has none;
    /// does nothing when there is no such call.
    pub fn push_tool_result(&mut self, name: &str, result: String)
        ensures
            final(self)@.id == old(self)@.id,
            final(self)@.role == old(self)@.role,
            final(self)@.content == old(self)@.content,
            final(self)@.parts == attach_result(old(self)@.parts, name@, result@),
    {
        let ghost before = parts_view(self.parts@);
        proof {
            lemma_last_open_call(before, name@);
        }
        let mut i: usize = self.parts.len();
        while i > 0
            invariant
                i <= self.parts.len(),
                before == parts_view(self.parts@),
                forall|k: int| i <= k < before.len() ==> !is_open_call(#[trigger] before[k], name@),
            ensures
                i <= self.parts.len(),
                before == parts_view(self.parts@),
                forall|k: int| i <= k < before.len() ==> !is_open_call(#[trigger] before[k], name@),
                i > 0 ==> is_open_call(before[i - 1], name@),
            decreases i,
        {
            let open = match &self.parts[i - 1] {
                MessagePart::ToolCall { name: n, result: None, .. } => str_eq(n.as_str(), name),
                _ => false,
            };
            if open {
                break;
            }
            i = i - 1;
        }
        if i > 0 {
            let k = i - 1;
            proof {
                assert(is_open_call(before[k as int], name@));
                match last_open_call(before, name@) {
                    Some(j) => {
                        if j < k {
                        } else if j > k {
                            assert(!is_open_call(before[j], name@));
                        }
                    },
                    None => {
                        assert(!is_open_call(before[k as int], name@));
                    },
                }
                assert(last_open_call(before, name@) == Some(k as int));
            }
            let part = self.parts.remove(k);
            match part {
                MessagePart::ToolCall { id, name: n, arguments, .. } => {
                    self.parts.insert(k, MessagePart::ToolCall { id, name: n, arguments, result: Some(result) });
                },
                other => {
                    self.parts.insert(k, other);
                },
            }
            assert(parts_view(self.parts@) =~= attach_result(before, name@, result@));
        } else {
            proof {
                match last_open_call(before, name@) {
                    Some(j) => {
                        assert(!is_open_call(before[j], name@));
                    },
                    None => {},
                }
            }
        }
    }
}

/// The text colour class for a role.
pub open spec fn part_color(role: Seq<char>) -> Seq<char> {
    if role == "user"@ {
        "text-blue-600"@
    } else if role == "assistant"@ {
        "text-gray-800"@
    } else {
        "text-gray-500"@
    }
}

/// Returns the text colour class for a given role.
pub fn message_part_color(role: &str) -> (r: &'static str)
    ensures
        r@ == part_color(role@),
{
    if str_eq(role, "user") {
        "text-blue-600"
    } else if str_eq(role, "assistant") {
        "text-gray-800"
    } else {
        "text-gray-500"
    }
}

/// The bubble background classes for a role.
pub open spec fn bubble_style(role: Seq<char>) -> Seq<char> {
    if role == "user"@ {
        "bg-blue-50 border border-blue-100"@
    } else if role == "assistant"@ {
        "bg-white border border-gray-200"@
    } else {
        "bg-gray-50 border border-gray-200"@
    }
}

/// Returns the bubble background classes for a given role.
pub fn role_style(role: &str) -> (r: &'static str)
    ensures
        r@ == bubble_style(role@),
{
    if str_eq(role, "user") {
        "bg-blue-50 border border-blue-100"
    } else if str_eq(role, "assistant") {
        "bg-white border border-gray-200"
    } else {
        "bg-gray-50 border border-gray-200"
    }
}


// ---------------------------------------------------------------------------
// The event stream
// ---------------------------------------------------------------------------

/// The reader's state between lines: the pending event name, its data, and
/// the events dispatched so far (name, data).
pub struct SseState {
    pub event: Option<Seq<char>>,
    pub data: Seq<char>,
    pub events: Seq<(Seq<char>, Seq<char>)>,
}

/// One line read: `event: <name>` sets the pending name, `data: <text>` its
/// data, a blank line dispatches a pending event and clears both; other lines
/// are ignored.
pub open spec fn sse_step(st: SseState, line: Seq<char>) -> SseState {
    if starts_with(line, "event: "@) {
        SseState { event: Some(line.skip("event: "@.len() as int)), data: st.data, events: st.events }
    } else if starts_with(line, "data: "@) {
        SseState { event: st.event, data: line.skip("data: "@.len() as int), events: st.events }
    } else if line.len() == 0 {
        SseState {
            event: None,
            data: Seq::empty(),
            events: match st.event {
                Some(e) => st.events.push((e, st.data)),
                None => st.events,
            },
        }
    } else {
        st
    }
}

/// The state after reading `lines` from the start.
pub open spec fn sse_run(lines: Seq<Seq<char>>) -> SseState
    decreases lines.len(),
{
    if lines.len() == 0 {
        SseState { event: None, data: Seq::empty(), events: Seq::empty() }
    } else {
        sse_step(sse_run(lines.drop_last()), lines.last())
    }
}

/// The events of a server-sent-event text, a trailing event without a blank
/// line after it included.
pub open spec fn sse_event_list(text: Seq<char>) -> Seq<(Seq<char>, Seq<char>)> {
    let st = sse_run(text_lines(text));
    match st.event {
        Some(e) => st.events.push((e, st.data)),
        None => st.events,
    }
}

/// The views of a list of (name, data) pairs.
pub open spec fn pair_views(v: Seq<(String, String)>) -> Seq<(Seq<char>, Seq<char>)> {
    v.map_values(|p: (String, String)| (p.0@, p.1@))
}

/// The events of a server-sent-event text, in order: (event name, data).
pub fn sse_events(text: &str) -> (r: Vec<(String, String)>)
    ensures
        pair_views(r@) == sse_event_list(text@),
{
    let lines_v = lines_of(text);
    let n = lines_v.len();
    let ghost lines = text_lines(text@);
    let mut event: Option<String> = None;
    let mut data = String::new();
    let mut out: Vec<(String, String)> = Vec::new();
    let mut i: usize = 0;
    proof {
        reveal_strlit("event: ");
        reveal_strlit("data: ");
    }
    assert(lines.take(0) =~= Seq::<Seq<char>>::empty());
    assert(pair_views(out@) =~= Seq::<(Seq<char>, Seq<char>)>::empty());
    while i < n
        invariant
            i <= n,
            n == lines.len(),
            lines == text_lines(text@),
            char_views(lines_v@) == lines,
            "event: "@.len() == 7,
            "data: "@.len() == 6,
            sse_run(lines.take(i as int)) == (SseState {
                event: match event {
                    Some(e) => Some(e@),
                    None => None,
                },
                data: data@,
                events: pair_views(out@),
            }),
        decreases n - i,
    {
        let line = &lines_v[i];
        assert(line@ == lines[i as int]);
        assert(lines.take(i + 1).drop_last() =~= lines.take(i as int));
        assert(lines.take(i + 1).last() == lines[i as int]);
        if has_prefix(line, "event: ") {
            let e = string_from_range(line, 7, line.len());
            assert(e@ =~= line@.skip(7));
            event = Some(e);
        } else if has_prefix(line, "data: ") {
            let d = string_from_range(line, 6, line.len());
            assert(d@ =~= line@.skip(6));
            data = d;
        } else if line.len() == 0 {
            let ghost before = pair_views(out@);
            match event {
                Some(e) => {
                    let ghost pair = (e@, data@);
                    out.push((e, data));
                    assert(pair_views(out@) =~= before.push(pair));
                },
                None => {},
            }
            event = None;
            data = String::new();
        }
        i = i + 1;
    }
    assert(lines.take(n as int) =~= lines);
    let ghost before = pair_views(out@);
    match event {
        Some(e) => {
            let ghost pair = (e@, data@);
            out.push((e, data));
            assert(pair_views(out@) =~= before.push(pair));
        },
        None => {},
    }
    out
}

// ---------------------------------------------------------------------------
// Applying events to the conversation
// ---------------------------------------------------------------------------

/// `v`'s text, or `default` when there is none.
pub open spec fn str_or(v: Option<Seq<char>>, default: Seq<char>) -> Seq<char> {
    match v {
        Some(s) => s,
        None => default,
    }
}

/// The text an `error` event appends.
pub open spec fn error_text(data: Seq<char>) -> Seq<char> {
    "\n[Error: "@ + data + "]"@
}

/// `m` after one event: `text` and `reasoning` append their data, `tool_call`
/// adds the call its JSON data describes (`id` `tc-0` and name `unknown` by
/// default, `null` arguments), `tool_result` attaches the result its JSON
/// data carries, `error` appends the error as text; data that is not JSON,
/// and other events, change nothing.
pub open spec fn event_update(m: MessageView, event: Seq<char>, data: Seq<char>) -> MessageView {
    if event == "text"@ {
        MessageView { id: m.id, role: m.role, content: m.content + data, parts: append_text(m.parts, data) }
    } else if event == "reasoning"@ {
        MessageView { id: m.id, role: m.role, content: m.content, parts: append_reasoning(m.parts, data) }
    } else if event == "tool_call"@ {
        match serde_json_parse(data) {
            Some(payload) => MessageView {
                id: m.id,
                role: m.role,
                content: m.content,
                parts: m.parts.push(
                    PartView::ToolCall {
                        id: str_or(json_str(json_field(payload, "id"@)), "tc-0"@),
                        name: str_or(json_str(json_field(payload, "name"@)), "unknown"@),
                        arguments: match json_field(payload, "arguments"@) {
                            Some(a) => a,
                            None => JsonValue::Null,
                        },
                        result: None,
                    },
                ),
            },
            None => m,
        }
    } else if event == "tool_result"@ {
        match serde_json_parse(data) {
            Some(payload) => MessageView {
                id: m.id,
                role: m.role,
                content: m.content,
                parts: attach_result(
                    m.parts,
                    str_or(json_str(json_field(payload, "name"@)), "unknown"@),
                    str_or(json_str(json_field(payload, "result"@)), ""@),
                ),
            },
            None => m,
        }
    } else if event == "error"@ {
        MessageView {
            id: m.id,
            role: m.role,
            content: m.content + error_text(data),
            parts: append_text(m.parts, error_text(data)),
        }
    } else {
        m
    }
}

/// The index of the last assistant message.
pub open spec fn last_assistant(ms: Seq<MessageView>) -> Option<int>
    decreases ms.len(),
{
    if ms.len() == 0 {
        None
    } else if ms.last().role == "assistant"@ {
        Some(ms.len() - 1)
    } else {
        last_assistant(ms.drop_last())
    }
}

proof fn lemma_last_assistant(ms: Seq<MessageView>)
    ensures
        match last_assistant(ms) {
            Some(i) => 0 <= i < ms.len() && ms[i].role == "assistant"@ && forall|k: int|
                i < k < ms.len() ==> (#[trigger] ms[k]).role != "assistant"@,
            None => forall|k: int| 0 <= k < ms.len() ==> (#[trigger] ms[k]).role != "assistant"@,
        },
    decreases ms.len(),
{
    if ms.len() > 0 {
        lemma_last_assistant(ms.drop_last());
        assert forall|k: int| 0 <= k < ms.len() - 1 implies ms.drop_last()[k] == ms[k] by {}
    }
}

/// The conversation after one event, which goes to the last assistant
/// message; without one nothing changes.
pub open spec fn apply_event(ms: Seq<MessageView>, event: Seq<char>, data: Seq<char>) -> Seq<MessageView> {
    match last_assistant(ms) {
        Some(i) => ms.update(i, event_update(ms[i], event, data)),
        None => ms,
    }
}

/// The conversation after a list of events, in order.
pub open spec fn apply_events(ms: Seq<MessageView>, events: Seq<(Seq<char>, Seq<char>)>) -> Seq<MessageView>
    decreases events.len(),
{
    if events.len() == 0 {
        ms
    } else {
        apply_event(apply_events(ms, events.drop_last()), events.last().0, events.last().1)
    }
}

/// Applies one event to a message.
fn update_message(m: &mut ChatMessage, event: &str, data: &str)
    ensures
        final(m)@ == event_update(old(m)@, event@, data@),
{
    if str_eq(event, "text") {
        m.push_text(data);
    } else if str_eq(event, "reasoning") {
        m.push_reasoning(data);
    } else if str_eq(event, "tool_call") {
        match parse_json(data) {
            Some(payload) => {
                let id = match as_str(get_field(&payload, "id")) {
                    Some(s) => s.clone(),
                    None => "tc-0".to_owned(),
                };
                let name = match as_str(get_field(&payload, "name")) {
                    Some(s) => s.clone(),
                    None => "unknown".to_owned(),
                };
                let arguments = match into_field(payload, "arguments") {
                    Some(a) => a,
                    None => JsonValue::Null,
                };
                m.push_tool_call(id, name, arguments);
            },
            None => {},
        }
    } else if str_eq(event, "tool_result") {
        match parse_json(data) {
            Some(payload) => {
                let name = match as_str(get_field(&payload, "name")) {
                    Some(s) => s.clone(),
                    None => "unknown".to_owned(),
                };
                let result = match as_str(get_field(&payload, "result")) {
                    Some(s) => s.clone(),
                    None => "".to_owned(),
                };
                m.push_tool_result(name.as_str(), result);
            },
            None => {},
        }
    } else if str_eq(event, "error") {
        let mut t = concat("\n[Error: ", data);
        push_str(&mut t, "]");
        m.push_text(t.as_str());
    }
}

/// Applies one server-sent event to the last assistant message of the
/// conversation; does nothing without one.
pub fn handle_sse_event(event: &str, data: &str, messages: &mut Vec<ChatMessage>)
    ensures
        messages_view(final(messages)@) == apply_event(messages_view(old(messages)@), event@, data@),
{
    let ghost before = messages_view(messages@);
    proof {
        lemma_last_assistant(before);
    }
    let mut i: usize = messages.len();
    while i > 0
        invariant
            i <= messages.len(),
            before == messages_view(messages@),
            forall|k: int| i <= k < before.len() ==> (#[trigger] before[k]).role != "assistant"@,
        ensures
            i <= messages.len(),
            before == messages_view(messages@),
            forall|k: int| i <= k < before.len() ==> (#[trigger] before[k]).role != "assistant"@,
            i > 0 ==> before[i - 1].role == "assistant"@,
        decreases i,
    {
        if str_eq(messages[i - 1].role.as_str(), "assistant") {
            break;
        }
        i = i - 1;
    }
    if i > 0 {
        let k = i - 1;
        proof {
            match last_assistant(before) {
                Some(j) => {
                    if j < k {
                        assert(before[k as int].role != "assistant"@);
                    } else if j > k {
                        assert(before[j].role != "assistant"@);
                    }
                },
                None => {
                    assert(before[k as int].role != "assistant"@);
                },
            }
            assert(last_assistant(before) == Some(k as int));
        }
        let m = &mut messages[k];
        update_message(m, event, data);
        assert(messages_view(messages@) =~= before.update(k as int, event_update(before[k as int], event@, data@)));
    } else {
        proof {
            match last_assistant(before) {
                Some(j) => {
                    assert(before[j].role != "assistant"@);
                },
                None => {},
            }
        }
    }
}

/// Reads a server-sent-event text and applies its events to the
/// conversation, in order.
pub fn parse_sse_into_messages(sse_text: &str, messages: &mut Vec<ChatMessage>)
    ensures
        messages_view(final(messages)@) == apply_events(messages_view(old(messages)@), sse_event_list(sse_text@)),
{
    let ghost start = messages_view(messages@);
    let events = sse_events(sse_text);
    let ghost evs = pair_views(events@);
    let mut i: usize = 0;
    assert(evs.take(0) =~= Seq::<(Seq<char>, Seq<char>)>::empty());
    while i < events.len()
        invariant
            i <= events.len(),
            evs == pair_views(events@),
            messages_view(messages@) == apply_events(start, evs.take(i as int)),
        decreases events.len() - i,
    {
        assert(evs.take(i + 1).drop_last() =~= evs.take(i as int));
        assert(evs.take(i + 1).last() == evs[i as int]);
        handle_sse_event(events[i].0.as_str(), events[i].1.as_str(), messages);
        i = i + 1;
    }
    assert(evs.take(events.len() as int) =~= evs);
}

/// The messages sent to the chat endpoint: (role, content) of each message
/// that has content or is the user's, in order.
pub open spec fn wire_messages(ms: Seq<MessageView>) -> Seq<(Seq<char>, Seq<char>)>
    decreases ms.len(),
{
    if ms.len() == 0 {
        Seq::empty()
    } else {
        let w = wire_messages(ms.drop_last());
        if ms.last().content.len() > 0 || ms.last().role == "user"@ {
            w.push((ms.last().role, ms.last().content))
        } else {
            w
        }
    }
}

/// The request body for two stretches of conversation is the body for the
/// first followed by the body for the second: each message is judged alone
/// and keeps its place.
pub proof fn law_wire_messages_concat(a: Seq<MessageView>, b: Seq<MessageView>)
    ensures
        wire_messages(a + b) == wire_messages(a) + wire_messages(b),
    decreases b.len(),
{
    if b.len() == 0 {
        assert(a + b =~= a);
        assert(wire_messages(a) + wire_messages(b) =~= wire_messages(a));
    } else {
        law_wire_messages_concat(a, b.drop_last());
        assert((a + b).drop_last() =~= a + b.drop_last());
        assert((a + b).last() == b.last());
        let w = wire_messages(a) + wire_messages(b.drop_last());
        assert(w.push((b.last().role, b.last().content)) =~= wire_messages(a) + wire_messages(b.drop_last()).push(
            (b.last().role, b.last().content),
        ));
    }
}

/// A single message goes into the request body as its (role, content) when
/// it has content, whatever its role, or is the user's; an empty message of
/// another role is left out.
pub proof fn law_wire_message_one(m: MessageView)
    ensures
        m.content.len() > 0 ==> wire_messages(seq![m]) == seq![(m.role, m.content)],
        m.role == "user"@ ==> wire_messages(seq![m]) == seq![(m.role, m.content)],
        m.content.len() == 0 && m.role != "user"@ ==> wire_messages(seq![m]).len() == 0,
{
    assert(seq![m].drop_last() =~= Seq::<MessageView>::empty());
    assert(seq![m].last() == m);
    assert(wire_messages(Seq::<MessageView>::empty()) =~= Seq::<(Seq<char>, Seq<char>)>::empty());
    assert(Seq::<(Seq<char>, Seq<char>)>::empty().push((m.role, m.content)) =~= seq![(m.role, m.content)]);
}

/// When every message has content, the request body carries every message
/// of the conversation, user's and assistant's alike, in order.
pub proof fn law_wire_keeps_every_message_with_content(ms: Seq<MessageView>)
    requires
        forall|i: int| 0 <= i < ms.len() ==> (#[trigger] ms[i]).content.len() > 0,
    ensures
        wire_messages(ms).len() == ms.len(),
        forall|i: int| 0 <= i < ms.len() ==> #[trigger] wire_messages(ms)[i] == (ms[i].role, ms[i].content),
    decreases ms.len(),
{
    if ms.len() > 0 {
        let p = ms.drop_last();
        assert forall|i: int| 0 <= i < p.len() implies (#[trigger] p[i]).content.len() > 0 by {
            assert(p[i] == ms[i]);
        }
        law_wire_keeps_every_message_with_content(p);
        assert(ms.last() == ms[ms.len() - 1]);
        assert forall|i: int| 0 <= i < ms.len() implies #[trigger] wire_messages(ms)[i] == (ms[i].role, ms[i].content) by {
            if i < ms.len() - 1 {
                assert(p[i] == ms[i]);
            }
        }
    }
}

/// The (role, content) pairs of the request body for the chat endpoint.
pub fn chat_wire_messages(messages: &Vec<ChatMessage>) -> (r: Vec<(String, String)>)
    ensures
        pair_views(r@) == wire_messages(messages_view(messages@)),
{
    let ghost all = messages_view(messages@);
    let mut r: Vec<(String, String)> = Vec::new();
    let mut i: usize = 0;
    assert(all.take(0) =~= Seq::<MessageView>::empty());
    assert(pair_views(r@) =~= Seq::<(Seq<char>, Seq<char>)>::empty());
    while i < messages.len()
        invariant
            i <= messages.len(),
            all == messages_view(messages@),
            pair_views(r@) == wire_messages(all.take(i as int)),
        decreases messages.len() - i,
    {
        assert(all.take(i + 1).drop_last() =~= all.take(i as int));
        assert(all.take(i + 1).last() == all[i as int]);
        let m = &messages[i];
        if !m.content.as_str().is_empty() || str_eq(m.role.as_str(), "user") {
            let ghost before = pair_views(r@);
            r.push((m.role.clone(), m.content.clone()));
            assert(pair_views(r@) =~= before.push((m.role@, m.content@)));
        }
        i = i + 1;
    }
    assert(all.take(messages.len() as int) =~= all);
    r
}


// ---------------------------------------------------------------------------
// Submitting a message
// ---------------------------------------------------------------------------

/// The text a chat input sends: the input trimmed, when that leaves
/// something and no reply is loading; nothing otherwise.
pub open spec fn submitted(input: Seq<char>, loading: bool) -> Option<Seq<char>> {
    if loading || trim(input).len() == 0 {
        None
    } else {
        Some(trim(input))
    }
}

/// The text a chat input sends on submit, if it sends any.
pub fn submitted_text(input: &str, loading: bool) -> (r: Option<String>)
    ensures
        match r {
            Some(t) => submitted(input@, loading) == Some(t@),
            None => submitted(input@, loading) is None,
        },
{
    let chars = to_chars(input);
    let t = trim_vec(&chars);
    if loading || t.len() == 0 {
        None
    } else {
        Some(string_from_chars(&t))
    }
}

/// The message list shows a typing cursor while a reply streams in: its
/// last message is the assistant's and has no content yet.
pub fn shows_cursor(messages: &Vec<ChatMessage>) -> (b: bool)
    ensures
        b == (messages@.len() > 0 && messages@.last().role@ == "assistant"@ && messages@.last().content@.len()
            == 0),
{
    if messages.len() == 0 {
        return false;
    }
    let last = &messages[messages.len() - 1];
    str_eq(last.role.as_str(), "assistant") && last.content.as_str().is_empty()
}

/// A key press submits the input: Enter without Shift (Shift+Enter starts a
/// new line instead).
pub fn submits_on_key(key: &str, shift: bool) -> (b: bool)
    ensures
        b == (key@ == "Enter"@ && !shift),
{
    !shift && str_eq(key, "Enter")
}

/// The user message and the empty assistant reply that a submit at position
/// `n` of the conversation appends: ids `user-n` and `assistant-n`.
pub open spec fn submitted_pair(n: nat, text: Seq<char>) -> Seq<MessageView> {
    seq![
        MessageView {
            id: "user-"@ + decimal(n),
            role: "user"@,
            content: text,
            parts: seq![PartView::Text(text)],
        },
        MessageView {
            id: "assistant-"@ + decimal(n),
            role: "assistant"@,
            content: Seq::empty(),
            parts: Seq::empty(),
        },
    ]
}

/// Submits a message to the conversation: unless its trimmed text is empty
/// or a reply is loading, appends it as a user message and an empty
/// assistant message to stream the reply into. Whether it did so is
/// returned.
pub fn submit_message(messages: &mut Vec<ChatMessage>, text: String, loading: bool) -> (sent: bool)
    requires
        old(messages)@.len() + 2 <= usize::MAX,
    ensures
        sent == !(loading || trim(text@).len() == 0),
        sent ==> messages_view(final(messages)@) == messages_view(old(messages)@) + submitted_pair(
            old(messages)@.len() as nat,
            text@,
        ),
        !sent ==> final(messages)@ == old(messages)@,
{
    let chars = to_chars(text.as_str());
    let t = trim_vec(&chars);
    if loading || t.len() == 0 {
        return false;
    }
    let n = messages.len();
    let mut user_id = String::new();
    push_str(&mut user_id, "user-");
    push_decimal(&mut user_id, n as u64);
    let mut assistant_id = String::new();
    push_str(&mut assistant_id, "assistant-");
    push_decimal(&mut assistant_id, n as u64);
    let ghost before = messages_view(messages@);
    let ghost content = text@;
    let um = ChatMessage::new_user(user_id, text);
    let am = ChatMessage::new_assistant(assistant_id);
    let ghost pair = submitted_pair(n as nat, content);
    assert(um@ == pair[0]) by {
        assert(Seq::<char>::empty() + "user-"@ == "user-"@);
    }
    assert(am@ == pair[1]) by {
        assert(Seq::<char>::empty() + "assistant-"@ == "assistant-"@);
        assert(am@.content =~= Seq::<char>::empty());
        assert(am@.parts =~= Seq::<PartView>::empty());
    }
    messages.push(um);
    messages.push(am);
    assert(messages_view(messages@) =~= before + pair);
    true
}

} // verus!
