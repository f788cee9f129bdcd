//! Server-sent-event framing of agent events: each event becomes an event
//! name and a data line.
use vstd::prelude::*;
use crate::agent::AgentEvent;
use crate::chat::{SseState, sse_event_list, sse_run, sse_step};
use crate::text::{
    decimal, push_decimal, push_str, single_line, starts_with, terminated, lemma_lines_of_terminated,
};
use crate::types::Usage;

verus! {

/// The lowercase hexadecimal digit of `d` (below 16).
pub open spec fn hex_digit(d: int) -> char {
    if d < 10 {
        ('0' as int + d) as char
    } else {
        ('a' as int + d - 10) as char
    }
}

/// How serde_json writes one character inside a JSON string: quote and
/// backslash behind a backslash, the five short control escapes, other
/// control characters below 0x20 as `\u00XX` in lowercase hex, and every
/// other character as it is.
pub open spec fn json_char_escape(c: char) -> Seq<char> {
    let code = c as int;
    if c == '"' {
        seq!['\\', '"']
    } else if c == '\\' {
        seq!['\\', '\\']
    } else if code == 8 {
        seq!['\\', 'b']
    } else if code == 9 {
        seq!['\\', 't']
    } else if code == 10 {
        seq!['\\', 'n']
    } else if code == 12 {
        seq!['\\', 'f']
    } else if code == 13 {
        seq!['\\', 'r']
    } else if code < 32 {
        seq!['\\', 'u', '0', '0', hex_digit(code / 16), hex_digit(code % 16)]
    } else {
        seq![c]
    }
}

/// The escaped contents of a JSON string, character by character.
pub open spec fn json_escaped(s: Seq<char>) -> Seq<char>
    decreases s.len(),
{
    if s.len() == 0 {
        Seq::empty()
    } else {
        json_escaped(s.drop_last()) + json_char_escape(s.last())
    }
}

/// The JSON text of the string `s`, quoted and escaped as `serde_json::to_string` writes it.
pub open spec fn json_string_text(s: Seq<char>) -> Seq<char> {
    seq!['"'] + json_escaped(s) + seq!['"']
}

/// The JSON text of a boolean.
pub open spec fn bool_text(b: bool) -> Seq<char> {
    if b {
        "true"@
    } else {
        "false"@
    }
}

/// A member value of a flat JSON object: a string or a boolean.
#[derive(Debug)]
pub enum FlatValue {
    Str(String),
    Bool(bool),
}

/// The JSON text of a member value.
pub open spec fn flat_value_text(v: FlatValue) -> Seq<char> {
    match v {
        FlatValue::Str(s) => json_string_text(s@),
        FlatValue::Bool(b) => bool_text(b),
    }
}

/// The members of a JSON object as text, `"key":value`, separated by commas.
pub open spec fn members_text(ms: Seq<(String, FlatValue)>) -> Seq<char>
    decreases ms.len(),
{
    if ms.len() == 0 {
        Seq::empty()
    } else if ms.len() == 1 {
        json_string_text(ms[0].0@) + ":"@ + flat_value_text(ms[0].1)
    } else {
        members_text(ms.drop_last()) + ","@ + json_string_text(ms.last().0@) + ":"@ + flat_value_text(
            ms.last().1,
        )
    }
}

/// `a` comes before `b` in the order of Rust strings: by code point, a
/// proper prefix first.
pub open spec fn text_before(a: Seq<char>, b: Seq<char>) -> bool
    decreases a.len(),
{
    if a.len() == 0 {
        b.len() > 0
    } else if b.len() == 0 {
        false
    } else if a[0] != b[0] {
        (a[0] as u32) < (b[0] as u32)
    } else {
        text_before(a.drop_first(), b.drop_first())
    }
}

/// The keys of the members are in strictly ascending order.
pub open spec fn keys_ascending(ms: Seq<(String, FlatValue)>) -> bool {
    forall|i: int, j: int| 0 <= i < j < ms.len() ==> text_before(#[trigger] ms[i].0@, #[trigger] ms[j].0@)
}

/// Serialises a flat JSON object with serde_json: the members go into a
/// `serde_json::Map` (ordered by key) and `serde_json::to_string` writes the
/// object. When the keys are already strictly ascending, the map keeps the
/// members in the order given and the text is `{` members `}`; for other
/// key orders the text is left unsaid. Serialising into memory does not
/// fail; the empty string stands for the error it cannot report.
#[verifier::external_body]
fn flat_object_text(members: Vec<(String, FlatValue)>) -> (r: String)
    ensures
        keys_ascending(members@) ==> r@ == "{"@ + members_text(members@) + "}"@,
{
    let map: serde_json::Map<String, serde_json::Value> = members
        .into_iter()
        .map(|(k, v)| (k, flat_to_serde(v)))
        .collect();
    serde_json::to_string(&serde_json::Value::Object(map)).unwrap_or_default()
}

/// Converts a member value to serde_json's value, variant by variant.
#[verifier::external_body]
fn flat_to_serde(v: FlatValue) -> serde_json::Value {
    match v {
        FlatValue::Str(s) => serde_json::Value::String(s),
        FlatValue::Bool(b) => serde_json::Value::Bool(b),
    }
}

/// A text of plain characters (no quote, backslash or control character)
/// escapes to itself.
proof fn lemma_plain_text_escapes_to_itself(s: Seq<char>)
    requires
        forall|i: int| 0 <= i < s.len() ==> (#[trigger] s[i] as int) >= 32 && s[i] != '"' && s[i] != '\\',
    ensures
        json_escaped(s) == s,
    decreases s.len(),
{
    if s.len() > 0 {
        lemma_plain_text_escapes_to_itself(s.drop_last());
        assert(json_char_escape(s.last()) == seq![s.last()]);
        assert(s.drop_last().push(s.last()) =~= s);
    }
}

/// The JSON text of token usage, fields in declaration order.
pub open spec fn usage_text(u: Usage) -> Seq<char> {
    "{\"prompt_tokens\":"@ + decimal(u.prompt_tokens as nat) + ",\"completion_tokens\":"@ + decimal(
        u.completion_tokens as nat,
    ) + ",\"total_tokens\":"@ + decimal(u.total_tokens as nat) + "}"@
}

/// The event name and data of an agent event. Text and errors go as they
/// are; a tool call is the object `{"arguments", "name"}` and a tool result
/// the object `{"name", "result", "truncated"}` (keys in the sorted order of
/// serde_json's map); `done` carries the usage, or nothing.
pub open spec fn frame_spec(event: AgentEvent) -> (Seq<char>, Seq<char>) {
    match event {
        AgentEvent::TextDelta { content } => ("text"@, content@),
        AgentEvent::ToolCall { name, arguments } => (
            "tool_call"@,
            "{\"arguments\":"@ + json_string_text(arguments@) + ",\"name\":"@ + json_string_text(name@) + "}"@,
        ),
        AgentEvent::ToolResult { name, result, truncated } => (
            "tool_result"@,
            "{\"name\":"@ + json_string_text(name@) + ",\"result\":"@ + json_string_text(result@)
                + ",\"truncated\":"@ + bool_text(truncated) + "}"@,
        ),
        AgentEvent::Done { usage } => (
            "done"@,
            match usage {
                Some(u) => usage_text(u),
                None => Seq::empty(),
            },
        ),
        AgentEvent::Error { message } => ("error"@, message@),
    }
}

/// The event name and data line of an agent event.
pub fn sse_frame(event: &AgentEvent) -> (r: (String, String))
    ensures
        (r.0@, r.1@) == frame_spec(*event),
{
    match event {
        AgentEvent::TextDelta { content } => ("text".to_owned(), content.clone()),
        AgentEvent::ToolCall { name, arguments } => {
            let members = vec![
                ("arguments".to_owned(), FlatValue::Str(arguments.clone())),
                ("name".to_owned(), FlatValue::Str(name.clone())),
            ];
            proof {
                reveal_strlit("arguments");
                reveal_strlit("name");
                reveal_strlit("{\"arguments\":");
                reveal_strlit(",\"name\":");
                reveal_strlit("}");
                reveal_strlit(":");
                reveal_strlit(",");
                reveal_strlit("{");
                lemma_plain_text_escapes_to_itself("arguments"@);
                lemma_plain_text_escapes_to_itself("name"@);
                assert(text_before(members@[0].0@, members@[1].0@));
                assert(members@.drop_last() =~= seq![members@[0]]);
            }
            let ghost ms = members@;
            let d = flat_object_text(members);
            proof {
                let first = json_string_text("arguments"@) + ":"@ + json_string_text(arguments@);
                assert(members_text(ms.drop_last()) == first);
                assert(members_text(ms) == first + ","@ + json_string_text("name"@) + ":"@ + json_string_text(
                    name@,
                ));
                assert(json_string_text("arguments"@) =~= seq!['"'] + "arguments"@ + seq!['"']);
                assert(json_string_text("name"@) =~= seq!['"'] + "name"@ + seq!['"']);
                assert(d@ =~= "{\"arguments\":"@ + json_string_text(arguments@) + ",\"name\":"@
                    + json_string_text(name@) + "}"@);
            }
            ("tool_call".to_owned(), d)
        },
        AgentEvent::ToolResult { name, result, truncated } => {
            let members = vec![
                ("name".to_owned(), FlatValue::Str(name.clone())),
                ("result".to_owned(), FlatValue::Str(result.clone())),
                ("truncated".to_owned(), FlatValue::Bool(*truncated)),
            ];
            proof {
                reveal_strlit("name");
                reveal_strlit("result");
                reveal_strlit("truncated");
                reveal_strlit("{\"name\":");
                reveal_strlit(",\"result\":");
                reveal_strlit(",\"truncated\":");
                reveal_strlit("}");
                reveal_strlit(":");
                reveal_strlit(",");
                reveal_strlit("{");
                lemma_plain_text_escapes_to_itself("name"@);
                lemma_plain_text_escapes_to_itself("result"@);
                lemma_plain_text_escapes_to_itself("truncated"@);
                assert(text_before(members@[0].0@, members@[1].0@));
                assert(text_before(members@[1].0@, members@[2].0@));
                assert(text_before(members@[0].0@, members@[2].0@));
                assert(members@.drop_last() =~= seq![members@[0], members@[1]]);
                assert(members@.drop_last().drop_last() =~= seq![members@[0]]);
            }
            let ghost ms = members@;
            let d = flat_object_text(members);
            proof {
                let first = json_string_text("name"@) + ":"@ + json_string_text(name@);
                let second = first + ","@ + json_string_text("result"@) + ":"@ + json_string_text(result@);
                assert(members_text(ms.drop_last().drop_last()) == first);
                assert(members_text(ms.drop_last()) == second);
                assert(members_text(ms) == second + ","@ + json_string_text("truncated"@) + ":"@ + bool_text(
                    *truncated,
                ));
                assert(json_string_text("name"@) =~= seq!['"'] + "name"@ + seq!['"']);
                assert(json_string_text("result"@) =~= seq!['"'] + "result"@ + seq!['"']);
                assert(json_string_text("truncated"@) =~= seq!['"'] + "truncated"@ + seq!['"']);
                assert(d@ =~= "{\"name\":"@ + json_string_text(name@) + ",\"result\":"@ + json_string_text(result@)
                    + ",\"truncated\":"@ + bool_text(*truncated) + "}"@);
            }
            ("tool_result".to_owned(), d)
        },
        AgentEvent::Done { usage } => {
            let mut d = String::new();
            match usage {
                Some(u) => {
                    push_str(&mut d, "{\"prompt_tokens\":");
                    push_decimal(&mut d, u.prompt_tokens as u64);
                    push_str(&mut d, ",\"completion_tokens\":");
                    push_decimal(&mut d, u.completion_tokens as u64);
                    push_str(&mut d, ",\"total_tokens\":");
                    push_decimal(&mut d, u.total_tokens as u64);
                    push_str(&mut d, "}");
                    assert(Seq::<char>::empty() + "{\"prompt_tokens\":"@ == "{\"prompt_tokens\":"@);
                },
                None => {},
            }
            ("done".to_owned(), d)
        },
        AgentEvent::Error { message } => ("error".to_owned(), message.clone()),
    }
}

// ---------------------------------------------------------------------------
// What the reader gets back of the wire
// ---------------------------------------------------------------------------

/// The lines an event goes out as: `data: <data>` (left out for empty
/// data), then `event: <name>`, then a blank line.
pub open spec fn block_lines(name: Seq<char>, data: Seq<char>) -> Seq<Seq<char>> {
    if data.len() > 0 {
        seq!["data: "@ + data, "event: "@ + name, Seq::<char>::empty()]
    } else {
        seq!["event: "@ + name, Seq::<char>::empty()]
    }
}

/// The lines of a sequence of events (name, data), in order.
pub open spec fn wire_lines(frames: Seq<(Seq<char>, Seq<char>)>) -> Seq<Seq<char>>
    decreases frames.len(),
{
    if frames.len() == 0 {
        Seq::empty()
    } else {
        wire_lines(frames.drop_last()) + block_lines(frames.last().0, frames.last().1)
    }
}

/// The text of a sequence of events as the server sends it: each event's
/// lines, each line ended by a newline.
pub open spec fn sse_wire(frames: Seq<(Seq<char>, Seq<char>)>) -> Seq<char> {
    terminated(wire_lines(frames))
}

/// The reader between events: no pending name or data, these events read.
pub open spec fn idle(events: Seq<(Seq<char>, Seq<char>)>) -> SseState {
    SseState { event: None, data: Seq::empty(), events }
}

proof fn lemma_wire_lines_single(frames: Seq<(Seq<char>, Seq<char>)>)
    requires
        forall|k: int| 0 <= k < frames.len() ==> single_line(#[trigger] frames[k].0) && single_line(frames[k].1),
    ensures
        forall|k: int| 0 <= k < wire_lines(frames).len() ==> single_line(#[trigger] wire_lines(frames)[k]),
    decreases frames.len(),
{
    reveal_strlit("data: ");
    reveal_strlit("event: ");
    if frames.len() > 0 {
        let front = frames.drop_last();
        assert forall|k: int| 0 <= k < front.len() implies single_line(#[trigger] front[k].0) && single_line(
            front[k].1,
        ) by {
            assert(front[k] == frames[k]);
        }
        lemma_wire_lines_single(front);
        let (n, d) = frames.last();
        assert(single_line(frames[frames.len() - 1].0) && single_line(frames[frames.len() - 1].1));
        let b = block_lines(n, d);
        assert forall|k: int| 0 <= k < b.len() implies single_line(#[trigger] b[k]) by {
            if d.len() > 0 && k == 0 {
                assert forall|i: int| 0 <= i < b[k].len() implies b[k][i] != '\n' && b[k][i] != '\r' by {
                    if i >= 6 {
                        assert(b[k][i] == d[i - 6]);
                    }
                }
            } else if (d.len() > 0 && k == 1) || (d.len() == 0 && k == 0) {
                assert forall|i: int| 0 <= i < b[k].len() implies b[k][i] != '\n' && b[k][i] != '\r' by {
                    if i >= 7 {
                        assert(b[k][i] == n[i - 7]);
                    }
                }
            }
        }
        let w = wire_lines(frames);
        assert forall|k: int| 0 <= k < w.len() implies single_line(#[trigger] w[k]) by {
            if k < wire_lines(front).len() {
                assert(w[k] == wire_lines(front)[k]);
            } else {
                assert(w[k] == b[k - wire_lines(front).len()]);
            }
        }
    }
}

proof fn lemma_run_block(prefix: Seq<Seq<char>>, events: Seq<(Seq<char>, Seq<char>)>, n: Seq<char>, d: Seq<char>)
    requires
        sse_run(prefix) == idle(events),
    ensures
        sse_run(prefix + block_lines(n, d)) == idle(events.push((n, d))),
{
    reveal_strlit("data: ");
    reveal_strlit("event: ");
    let ev = "event: "@ + n;
    let empty = Seq::<char>::empty();
    assert(starts_with(ev, "event: "@)) by {
        assert(ev.take(7) =~= "event: "@);
    }
    assert(ev.skip(7) =~= n);
    assert(!starts_with(empty, "event: "@) && !starts_with(empty, "data: "@));
    if d.len() > 0 {
        let da = "data: "@ + d;
        assert(!starts_with(da, "event: "@)) by {
            if starts_with(da, "event: "@) {
                assert(da.take(7)[0] == da[0]);
                assert(da[0] == 'd');
            }
        }
        assert(starts_with(da, "data: "@)) by {
            assert(da.take(6) =~= "data: "@);
        }
        assert(da.skip(6) =~= d);
        let l1 = prefix.push(da);
        let l2 = l1.push(ev);
        let l3 = l2.push(empty);
        assert(prefix + block_lines(n, d) =~= l3);
        assert(l1.drop_last() =~= prefix);
        assert(l2.drop_last() =~= l1);
        assert(l3.drop_last() =~= l2);
        assert(sse_run(l1) == (SseState { event: None, data: d, events }));
        assert(sse_run(l2) == (SseState { event: Some(n), data: d, events }));
    } else {
        let l1 = prefix.push(ev);
        let l2 = l1.push(empty);
        assert(prefix + block_lines(n, d) =~= l2);
        assert(l1.drop_last() =~= prefix);
        assert(l2.drop_last() =~= l1);
        assert(sse_run(l1) == (SseState { event: Some(n), data: Seq::<char>::empty(), events }));
        assert(d =~= Seq::<char>::empty());
    }
}

proof fn lemma_run_wire(frames: Seq<(Seq<char>, Seq<char>)>)
    ensures
        sse_run(wire_lines(frames)) == idle(frames),
    decreases frames.len(),
{
    if frames.len() == 0 {
        assert(frames =~= Seq::<(Seq<char>, Seq<char>)>::empty());
        assert(sse_run(wire_lines(frames)) == idle(frames));
    } else {
        let front = frames.drop_last();
        lemma_run_wire(front);
        let (n, d) = frames.last();
        lemma_run_block(wire_lines(front), front, n, d);
        assert(front.push((n, d)) =~= frames);
    }
}

/// What the dashboard reads of the server's event stream is exactly the
/// events sent, in order, when no event name or data holds a line break.
/// (Axum splits data holding a line break over several `data:` lines, of
/// which the reader keeps the last.)
pub proof fn lemma_sse_round_trip(frames: Seq<(Seq<char>, Seq<char>)>)
    requires
        forall|k: int| 0 <= k < frames.len() ==> single_line(#[trigger] frames[k].0) && single_line(frames[k].1),
    ensures
        sse_event_list(sse_wire(frames)) == frames,
{
    lemma_wire_lines_single(frames);
    lemma_lines_of_terminated(wire_lines(frames));
    lemma_run_wire(frames);
}

} // verus!
