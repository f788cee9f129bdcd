//! Agent building blocks: events, tool results, chain-of-thought reasoning,
//! self-reflection and the decisions of the tool-calling loop.
use vstd::prelude::*;
use crate::json::{JsonValue, get_field, json_field, parse_json, serde_json_parse};
use crate::provider::{ProviderError, provider_error_text};
use crate::text::{
    decimal, push_decimal, push_str, remove_first, remove_first_vec, starts_with, has_prefix,
    string_from_chars, strip_prefixes, strip_suffixes, to_chars, to_uppercase, trim, trim_end_matches,
    trim_start_matches, trim_vec, unicode_uppercase, utf8_len, char_len_utf8, lemma_utf8_len_prefix,
    sub_vec, concat, trim_start, trim_end, is_white_space, ends_with,
};
use crate::types::{Message, Role, ToolCall, Usage};

verus! {

// ---------------------------------------------------------------------------
// Events
// ---------------------------------------------------------------------------

/// Event emitted during agent execution (for SSE streaming).
#[derive(Debug, Clone)]
pub enum AgentEvent {
    TextDelta { content: String },
    ToolCall { name: String, arguments: String },
    ToolResult { name: String, result: String, truncated: bool },
    Done { usage: Option<Usage> },
    Error { message: String },
}

/// Stages of the deep agent execution cycle.
#[derive(Debug, Clone, Copy, PartialEq, Eq)]
pub enum DeepStage {
    /// Analyze and decompose.
    Plan,
    /// Run tools and generate.
    Execute,
    /// Self-assess quality.
    Reflect,
    /// Improve based on reflection.
    Revise,
    /// Done — output meets the quality bar.
    Complete,
    /// Maximum iterations reached without convergence.
    Abandoned,
}

// ---------------------------------------------------------------------------
// Tool results
// ---------------------------------------------------------------------------

/// Errors reported by a tool.
#[derive(Debug, Clone, PartialEq, Eq)]
pub enum ToolError {
    Execution(String),
    InvalidArgs(String),
}

/// The display text of a tool error.
pub open spec fn tool_error_text(e: ToolError) -> Seq<char> {
    match e {
        ToolError::Execution(m) => "Tool execution failed: "@ + m@,
        ToolError::InvalidArgs(m) => "Invalid arguments: "@ + m@,
    }
}

impl ToolError {
    /// The display text of the error.
    pub fn message(&self) -> (r: String)
        ensures
            r@ == tool_error_text(*self),
    {
        let mut r = String::new();
        match self {
            ToolError::Execution(m) => {
                push_str(&mut r, "Tool execution failed: ");
                push_str(&mut r, m.as_str());
            },
            ToolError::InvalidArgs(m) => {
                push_str(&mut r, "Invalid arguments: ");
                push_str(&mut r, m.as_str());
            },
        }
        assert(r@ =~= tool_error_text(*self));
        r
    }
}

/// Maximum result length, in bytes, before truncation.
pub const MAX_RESULT_LEN: usize = 8000;

/// Byte offset `n` of the UTF-8 encoding of `s` falls between two characters.
pub open spec fn is_char_boundary_at(s: Seq<char>, n: nat) -> bool {
    exists|k: int| 0 <= k <= s.len() && utf8_len(#[trigger] s.take(k)) == n
}

/// The tool output as shown: cut to its first `MAX_RESULT_LEN` bytes when
/// longer, with a flag telling whether it was cut.
pub open spec fn truncated_output(s: Seq<char>) -> (Seq<char>, bool) {
    if utf8_len(s) > MAX_RESULT_LEN {
        let k = choose|k: int| 0 <= k <= s.len() && utf8_len(#[trigger] s.take(k)) == MAX_RESULT_LEN;
        (s.take(k), true)
    } else {
        (s, false)
    }
}

/// Cuts a tool output to `MAX_RESULT_LEN` bytes. The cut must fall between
/// two characters (slicing a string elsewhere panics).
pub fn truncate_output(output: &str) -> (r: (String, bool))
    requires
        utf8_len(output@) > MAX_RESULT_LEN ==> is_char_boundary_at(output@, MAX_RESULT_LEN as nat),
    ensures
        r.0@ == truncated_output(output@).0,
        r.1 == truncated_output(output@).1,
{
    let cs = to_chars(output);
    let mut i: usize = 0;
    let mut acc: usize = 0;
    while i < cs.len() && acc < MAX_RESULT_LEN
        invariant
            i <= cs.len(),
            cs@ == output@,
            acc == utf8_len(cs@.take(i as int)),
            acc <= MAX_RESULT_LEN + 4,
            i > 0 ==> utf8_len(cs@.take(i - 1)) < MAX_RESULT_LEN,
        decreases cs.len() - i,
    {
        assert(cs@.take(i + 1).drop_last() =~= cs@.take(i as int));
        assert(cs@.take(i + 1).last() == cs@[i as int]);
        acc = acc + char_len_utf8(cs[i]);
        i = i + 1;
    }
    let ghost s = cs@;
    if i == cs.len() && acc <= MAX_RESULT_LEN {
        assert(s.take(i as int) =~= s);
        return (output.to_owned(), false);
    }
    proof {
        // The whole text is longer than the limit.
        if i < s.len() {
            lemma_utf8_len_prefix(s, i as int, s.len() as int);
        }
        assert(s.take(s.len() as int) =~= s);
        assert(utf8_len(s) > MAX_RESULT_LEN);
        let k = choose|k: int| 0 <= k <= s.len() && utf8_len(#[trigger] s.take(k)) == MAX_RESULT_LEN;
        // The boundary is exactly at `i`.
        if k < i {
            if k < i - 1 {
                lemma_utf8_len_prefix(s, k, i - 1);
            }
        } else if k > i {
            lemma_utf8_len_prefix(s, i as int, k);
        }
        assert(k == i);
    }
    (string_from_chars(&sub_vec(&cs, 0, i)), true)
}

/// What a tool call yields for the conversation: the (possibly truncated)
/// output, the error text, or an unknown-tool notice; with the truncation flag.
pub open spec fn tool_result_spec(
    name: Seq<char>,
    outcome: Option<Result<String, ToolError>>,
) -> (Seq<char>, bool) {
    match outcome {
        Some(Ok(o)) => truncated_output(o@),
        Some(Err(e)) => ("Tool error: "@ + tool_error_text(e), false),
        None => ("Unknown tool: "@ + name, false),
    }
}

/// The result of one tool call: `outcome` is `None` when no tool has that
/// name, else what the tool returned.
pub fn tool_result(name: &str, outcome: Option<Result<String, ToolError>>) -> (r: (String, bool))
    requires
        outcome matches Some(Ok(o)) ==> (utf8_len(o@) > MAX_RESULT_LEN ==> is_char_boundary_at(
            o@,
            MAX_RESULT_LEN as nat,
        )),
    ensures
        r.0@ == tool_result_spec(name@, outcome).0,
        r.1 == tool_result_spec(name@, outcome).1,
{
    match outcome {
        Some(Ok(o)) => truncate_output(o.as_str()),
        Some(Err(e)) => {
            let mut r = String::new();
            push_str(&mut r, "Tool error: ");
            let m = e.message();
            push_str(&mut r, m.as_str());
            assert(r@ =~= "Tool error: "@ + tool_error_text(e));
            (r, false)
        },
        None => {
            let mut r = String::new();
            push_str(&mut r, "Unknown tool: ");
            push_str(&mut r, name);
            assert(r@ =~= "Unknown tool: "@ + name@);
            (r, false)
        },
    }
}

// ---------------------------------------------------------------------------
// The tool-calling loop
// ---------------------------------------------------------------------------

/// What the loop does after a model response.
#[derive(Debug, Clone, Copy, PartialEq, Eq)]
pub enum TurnOutcome {
    /// The agent is finished.
    Finish,
    /// Run the requested tool calls, then call the model again.
    RunTools,
}

/// The model asked for at least one tool call.
pub open spec fn has_tool_calls(m: Message) -> bool {
    m.tool_calls matches Some(calls) && calls@.len() > 0
}

/// The events the loop emits for a model response and what it does next: the
/// text (when not empty); then either the tool calls are run, or the loop
/// finishes with `Done` and the usage. A response without choices finishes
/// at once.
pub open spec fn turn_spec(
    choice: Option<Message>,
    usage: Option<Usage>,
    events: Seq<AgentEvent>,
    outcome: TurnOutcome,
) -> bool {
    match choice {
        None => outcome == TurnOutcome::Finish && events.len() == 1 && events[0] == (AgentEvent::Done {
            usage,
        }),
        Some(m) => {
            let text_events: int = if m.content@.len() > 0 { 1 } else { 0 };
            &&& (m.content@.len() > 0 ==> (events[0] matches AgentEvent::TextDelta { content } && content@
                == m.content@))
            &&& if has_tool_calls(m) {
                outcome == TurnOutcome::RunTools && events.len() == text_events
            } else {
                &&& outcome == TurnOutcome::Finish
                &&& events.len() == text_events + 1
                &&& events[text_events] == (AgentEvent::Done { usage })
            }
        },
    }
}

/// Decides what follows a model response (the first choice, if any).
pub fn assistant_turn(choice: Option<&Message>, usage: Option<Usage>) -> (r: (Vec<AgentEvent>, TurnOutcome))
    ensures
        turn_spec(
            match choice {
                Some(m) => Some(*m),
                None => None,
            },
            usage,
            r.0@,
            r.1,
        ),
{
    let mut events: Vec<AgentEvent> = Vec::new();
    match choice {
        None => {
            events.push(AgentEvent::Done { usage });
            (events, TurnOutcome::Finish)
        },
        Some(m) => {
            if !m.content.as_str().is_empty() {
                events.push(AgentEvent::TextDelta { content: m.content.clone() });
            }
            let calls = match &m.tool_calls {
                Some(calls) => calls.len() > 0,
                None => false,
            };
            if calls {
                (events, TurnOutcome::RunTools)
            } else {
                events.push(AgentEvent::Done { usage });
                (events, TurnOutcome::Finish)
            }
        },
    }
}

/// The event announcing a tool call.
pub fn tool_call_event(tc: &ToolCall) -> (e: AgentEvent)
    ensures
        e matches AgentEvent::ToolCall { name, arguments } && name@ == tc.function.name@ && arguments@
            == tc.function.arguments@,
{
    AgentEvent::ToolCall { name: tc.function.name.clone(), arguments: tc.function.arguments.clone() }
}

/// The event reporting a tool's result.
pub fn tool_result_event(name: &str, result: &str, truncated: bool) -> (e: AgentEvent)
    ensures
        e matches AgentEvent::ToolResult { name: n, result: r, truncated: t } && n@ == name@ && r@
            == result@ && t == truncated,
{
    AgentEvent::ToolResult { name: name.to_owned(), result: result.to_owned(), truncated }
}

/// The conversation message that carries a tool's result back to the model.
pub fn tool_message(tc: &ToolCall, result: String) -> (m: Message)
    ensures
        m.role == Role::Tool,
        m.content == result,
        m.tool_calls is None,
        (m.tool_call_id matches Some(id) && id@ == tc.id@),
{
    Message { role: Role::Tool, content: result, tool_calls: None, tool_call_id: Some(tc.id.clone()) }
}

/// The system message that opens a conversation with the agent's instructions.
pub fn system_message(instructions: &str) -> (m: Message)
    ensures
        m.role == Role::System,
        m.content@ == instructions@,
        m.tool_calls is None,
        m.tool_call_id is None,
{
    Message { role: Role::System, content: instructions.to_owned(), tool_calls: None, tool_call_id: None }
}

/// The error event for a failed provider call.
pub fn provider_error_event(e: &ProviderError) -> (ev: AgentEvent)
    ensures
        ev matches AgentEvent::Error { message } && message@ == "Provider error: "@ + provider_error_text(*e),
{
    let mut m = String::new();
    push_str(&mut m, "Provider error: ");
    let t = e.message();
    push_str(&mut m, t.as_str());
    assert(m@ =~= "Provider error: "@ + provider_error_text(*e));
    AgentEvent::Error { message: m }
}

/// The error event when the loop runs out of steps.
pub fn max_steps_event(max_steps: usize) -> (ev: AgentEvent)
    ensures
        ev matches AgentEvent::Error { message } && message@ == "Agent reached maximum steps ("@
            + decimal(max_steps as nat) + ") without completing the task."@,
{
    let mut m = String::new();
    push_str(&mut m, "Agent reached maximum steps (");
    push_decimal(&mut m, max_steps as u64);
    push_str(&mut m, ") without completing the task.");
    assert(m@ =~= "Agent reached maximum steps ("@ + decimal(max_steps as nat)
        + ") without completing the task."@);
    AgentEvent::Error { message: m }
}

/// A run of the tool-calling loop: the conversation so far, the model calls
/// made and the number allowed.
pub struct AgentRun {
    pub conversation: Vec<Message>,
    pub steps_taken: usize,
    pub max_steps: usize,
}

impl AgentRun {
    /// A run whose conversation is the instructions as a system message,
    /// then `messages`.
    pub fn new(instructions: &str, messages: Vec<Message>, max_steps: usize) -> (r: Self)
        ensures
            r.conversation@.len() == messages@.len() + 1,
            r.conversation@[0].role == Role::System,
            r.conversation@[0].content@ == instructions@,
            r.conversation@[0].tool_calls is None,
            r.conversation@[0].tool_call_id is None,
            r.conversation@.skip(1) == messages@,
            r.steps_taken == 0,
            r.max_steps == max_steps,
    {
        let mut conversation: Vec<Message> = Vec::new();
        conversation.push(system_message(instructions));
        let mut rest = messages;
        conversation.append(&mut rest);
        assert(conversation@.skip(1) =~= messages@);
        AgentRun { conversation, steps_taken: 0, max_steps }
    }

    /// Starts a model call: `None` while calls remain (one is counted);
    /// otherwise the error that ends the run.
    pub fn begin_step(&mut self) -> (r: Option<AgentEvent>)
        ensures
            final(self).conversation == old(self).conversation,
            final(self).max_steps == old(self).max_steps,
            old(self).steps_taken < old(self).max_steps ==> r is None && final(self).steps_taken
                == old(self).steps_taken + 1,
            old(self).steps_taken >= old(self).max_steps ==> final(self).steps_taken == old(self).steps_taken
                && (r matches Some(AgentEvent::Error { message }) && message@ == "Agent reached maximum steps ("@
                + decimal(old(self).max_steps as nat) + ") without completing the task."@),
    {
        if self.steps_taken < self.max_steps {
            self.steps_taken = self.steps_taken + 1;
            None
        } else {
            Some(max_steps_event(self.max_steps))
        }
    }

    /// The model's response (its first choice, if any): the events to send
    /// and whether tools are to run. A response that calls tools joins the
    /// conversation.
    pub fn on_response(&mut self, choice: Option<Message>, usage: Option<Usage>) -> (r: (Vec<AgentEvent>, bool))
        ensures
            final(self).steps_taken == old(self).steps_taken,
            final(self).max_steps == old(self).max_steps,
            turn_spec(choice, usage, r.0@, if r.1 { TurnOutcome::RunTools } else { TurnOutcome::Finish }),
            r.1 == (choice matches Some(m) && has_tool_calls(m)),
            r.1 ==> final(self).conversation@ == old(self).conversation@.push(choice->0),
            !r.1 ==> final(self).conversation == old(self).conversation,
    {
        let (events, outcome) = assistant_turn(choice.as_ref(), usage);
        match outcome {
            TurnOutcome::RunTools => {
                match choice {
                    Some(m) => {
                        self.conversation.push(m);
                    },
                    None => {},
                }
                (events, true)
            },
            TurnOutcome::Finish => (events, false),
        }
    }

    /// A tool's result joins the conversation as a tool message.
    pub fn on_tool_result(&mut self, tc: &ToolCall, result: String)
        ensures
            final(self).steps_taken == old(self).steps_taken,
            final(self).max_steps == old(self).max_steps,
            final(self).conversation@.len() == old(self).conversation@.len() + 1,
            final(self).conversation@.drop_last() == old(self).conversation@,
            final(self).conversation@.last().role == Role::Tool,
            final(self).conversation@.last().content == result,
            final(self).conversation@.last().tool_calls is None,
            (final(self).conversation@.last().tool_call_id matches Some(id) && id@ == tc.id@),
    {
        let m = tool_message(tc, result);
        self.conversation.push(m);
        assert(self.conversation@.drop_last() =~= old(self).conversation@);
    }
}

// ---------------------------------------------------------------------------
// Chain-of-thought reasoning
// ---------------------------------------------------------------------------

/// A single reasoning step in a chain-of-thought.
#[derive(Debug, Clone)]
pub struct ReasoningStep {
    pub thought: String,
    pub action: Option<String>,
    pub observation: Option<String>,
}

/// The answer a thought gives: when the thought, uppercased, starts with
/// `ANSWER:`, the thought with its first `ANSWER:` removed and trimmed.
pub open spec fn answer_spec(thought: Seq<char>, upper: Seq<char>) -> Option<Seq<char>> {
    if starts_with(upper, "ANSWER:"@) {
        Some(trim(remove_first(thought, "ANSWER:"@)))
    } else {
        None
    }
}

/// The answer in a thought, given the thought's uppercase form.
pub fn answer_from(thought: &str, upper: &str) -> (r: Option<String>)
    ensures
        match r {
            Some(a) => answer_spec(thought@, upper@) == Some(a@),
            None => answer_spec(thought@, upper@) is None,
        },
{
    let uc = to_chars(upper);
    if has_prefix(&uc, "ANSWER:") {
        let tc = to_chars(thought);
        let removed = remove_first_vec(&tc, "ANSWER:");
        let trimmed = trim_vec(&removed);
        Some(string_from_chars(&trimmed))
    } else {
        None
    }
}

/// The answer in a thought, if it gives one.
pub fn answer_of(thought: &str) -> (r: Option<String>)
    ensures
        match r {
            Some(a) => answer_spec(thought@, unicode_uppercase(thought@)) == Some(a@),
            None => answer_spec(thought@, unicode_uppercase(thought@)) is None,
        },
{
    let upper = to_uppercase(thought);
    answer_from(thought, upper.as_str())
}

/// The `- thought` lines of the steps so far, one per line.
pub open spec fn step_lines(steps: Seq<ReasoningStep>) -> Seq<char>
    decreases steps.len(),
{
    if steps.len() == 0 {
        Seq::empty()
    } else if steps.len() == 1 {
        "- "@ + steps[0].thought@
    } else {
        step_lines(steps.drop_last()) + "\n"@ + "- "@ + steps.last().thought@
    }
}

/// The prompt for reasoning step `i`: the problem at the first step, the
/// reasoning so far at later steps.
pub open spec fn reasoning_prompt_spec(i: nat, problem: Seq<char>, steps: Seq<ReasoningStep>) -> Seq<char> {
    if i == 0 {
        "Think step by step to solve this problem:\n\n"@ + problem
            + "\n\nFirst, what is the key insight? Reply with just your reasoning."@
    } else {
        "Previous reasoning:\n"@ + step_lines(steps)
            + "\n\nBased on this, what is the next step? If you have the final answer, start your response with ANSWER:"@
    }
}

fn push_step_lines(r: &mut String, steps: &Vec<ReasoningStep>)
    ensures
        final(r)@ == old(r)@ + step_lines(steps@),
{
    let ghost r0 = r@;
    let mut i: usize = 0;
    assert(steps@.take(0) =~= Seq::<ReasoningStep>::empty());
    while i < steps.len()
        invariant
            i <= steps.len(),
            r@ == r0 + step_lines(steps@.take(i as int)),
        decreases steps.len() - i,
    {
        assert(steps@.take(i + 1).drop_last() =~= steps@.take(i as int));
        assert(steps@.take(i + 1).last() == steps@[i as int]);
        if i > 0 {
            push_str(r, "\n");
        }
        push_str(r, "- ");
        push_str(r, steps[i].thought.as_str());
        assert(r@ =~= r0 + step_lines(steps@.take(i + 1)));
        i = i + 1;
    }
    assert(steps@.take(steps.len() as int) =~= steps@);
}

/// The prompt for reasoning step `i`.
pub fn reasoning_prompt(i: usize, problem: &str, steps: &Vec<ReasoningStep>) -> (r: String)
    ensures
        r@ == reasoning_prompt_spec(i as nat, problem@, steps@),
{
    let mut r = String::new();
    if i == 0 {
        push_str(&mut r, "Think step by step to solve this problem:\n\n");
        push_str(&mut r, problem);
        push_str(&mut r, "\n\nFirst, what is the key insight? Reply with just your reasoning.");
    } else {
        push_str(&mut r, "Previous reasoning:\n");
        push_step_lines(&mut r, steps);
        push_str(
            &mut r,
            "\n\nBased on this, what is the next step? If you have the final answer, start your response with ANSWER:",
        );
    }
    assert(r@ =~= reasoning_prompt_spec(i as nat, problem@, steps@));
    r
}

/// The conclusion when the steps run out: the last thought, or a notice.
pub fn final_thought(steps: &Vec<ReasoningStep>) -> (r: String)
    ensures
        steps@.len() > 0 ==> r@ == steps@.last().thought@,
        steps@.len() == 0 ==> r@ == "Unable to reach conclusion"@,
{
    if steps.len() > 0 {
        steps[steps.len() - 1].thought.clone()
    } else {
        "Unable to reach conclusion".to_owned()
    }
}

/// The reasoning trace: `Step <n>: <thought>` per step, separated by blank lines.
pub open spec fn trace_spec(steps: Seq<ReasoningStep>) -> Seq<char>
    decreases steps.len(),
{
    if steps.len() == 0 {
        Seq::empty()
    } else if steps.len() == 1 {
        "Step 1: "@ + steps[0].thought@
    } else {
        trace_spec(steps.drop_last()) + "\n\n"@ + "Step "@ + decimal(steps.len()) + ": "@
            + steps.last().thought@
    }
}

/// Chain-of-thought reasoning engine over a provider.
pub struct ChainOfThought<P> {
    pub provider: P,
}

impl<P> ChainOfThought<P> {
    /// A reasoning engine over `provider`.
    pub fn new(provider: P) -> (c: Self)
        ensures
            c.provider == provider,
    {
        ChainOfThought { provider }
    }

    /// The reasoning trace of the given steps.
    pub fn trace(&self, steps: &[ReasoningStep]) -> (r: String)
        requires
            steps@.len() < u64::MAX,
        ensures
            r@ == trace_spec(steps@),
    {
        let mut r = String::new();
        let mut i: usize = 0;
        assert(steps@.take(0) =~= Seq::<ReasoningStep>::empty());
        while i < steps.len()
            invariant
                i <= steps.len(),
                steps@.len() < u64::MAX,
                r@ == trace_spec(steps@.take(i as int)),
            decreases steps.len() - i,
        {
            assert(steps@.take(i + 1).drop_last() =~= steps@.take(i as int));
            assert(steps@.take(i + 1).last() == steps@[i as int]);
            if i > 0 {
                push_str(&mut r, "\n\n");
            }
            push_str(&mut r, "Step ");
            push_decimal(&mut r, (i + 1) as u64);
            push_str(&mut r, ": ");
            push_str(&mut r, steps[i].thought.as_str());
            proof {
                if i == 0 {
                    reveal_strlit("1");
                    reveal_strlit("Step 1: ");
                    reveal_strlit("Step ");
                    reveal_strlit(": ");
                    assert(decimal(1) =~= "1"@);
                    assert("Step "@ + decimal(1) + ": "@ =~= "Step 1: "@);
                }
            }
            assert(r@ =~= trace_spec(steps@.take(i + 1)));
            i = i + 1;
        }
        assert(steps@.take(steps.len() as int) =~= steps@);
        r
    }
}

/// The system prompt of a reasoning request.
pub open spec fn reasoning_system_text() -> Seq<char> {
    "You are a reasoning engine. Think step by step. Be concise."@
}

/// The system message that opens a reasoning request.
pub fn reasoning_system_message() -> (m: Message)
    ensures
        m.role == Role::System,
        m.content@ == reasoning_system_text(),
        m.tool_calls is None,
        m.tool_call_id is None,
{
    system_message("You are a reasoning engine. Think step by step. Be concise.")
}

/// One reply of the model during chain-of-thought reasoning. A reply that
/// gives the answer is recorded as a step holding just the answer, which is
/// returned; any other reply is recorded as a step and reasoning goes on.
pub fn record_thought(steps: &mut Vec<ReasoningStep>, thought: String) -> (r: Option<String>)
    ensures
        final(steps)@.len() == old(steps)@.len() + 1,
        forall|k: int| 0 <= k < old(steps)@.len() ==> final(steps)@[k] == old(steps)@[k],
        final(steps)@.last().action is None,
        final(steps)@.last().observation is None,
        match answer_spec(thought@, unicode_uppercase(thought@)) {
            Some(a) => (r matches Some(x) && x@ == a) && final(steps)@.last().thought@ == a,
            None => r is None && final(steps)@.last().thought == thought,
        },
{
    match answer_of(thought.as_str()) {
        Some(a) => {
            steps.push(ReasoningStep { thought: a.clone(), action: None, observation: None });
            Some(a)
        },
        None => {
            steps.push(ReasoningStep { thought, action: None, observation: None });
            None
        },
    }
}

/// What chain-of-thought reasoning does next: ask the model for a step with
/// this prompt, or conclude with this answer.
#[derive(Debug)]
pub enum ReasoningAction {
    Ask(String),
    Conclude(String),
}

/// Chain-of-thought reasoning as a state machine: the steps recorded so far,
/// the step limit, and the answer once a reply gives one.
pub struct Reasoning {
    pub steps: Vec<ReasoningStep>,
    pub max_steps: usize,
    pub answer: Option<String>,
}

impl Reasoning {
    /// Reasoning that has not started, with a step limit.
    pub fn new(max_steps: usize) -> (r: Self)
        ensures
            r.steps@.len() == 0,
            r.max_steps == max_steps,
            r.answer is None,
    {
        Reasoning { steps: Vec::new(), max_steps, answer: None }
    }

    /// The next action: with an answer, conclude with it; with steps left,
    /// ask for the next one; with the steps run out, conclude with the last
    /// thought (or the notice that there is none).
    pub fn next_action(&self, problem: &str) -> (a: ReasoningAction)
        ensures
            self.answer matches Some(x) ==> (a matches ReasoningAction::Conclude(c) && c@ == x@),
            self.answer is None && self.steps@.len() < self.max_steps ==> (a matches ReasoningAction::Ask(p)
                && p@ == reasoning_prompt_spec(self.steps@.len(), problem@, self.steps@)),
            self.answer is None && self.steps@.len() >= self.max_steps && self.steps@.len() > 0 ==> (a matches ReasoningAction::Conclude(c)
                && c@ == self.steps@.last().thought@),
            self.answer is None && self.steps@.len() >= self.max_steps && self.steps@.len() == 0 ==> (a matches ReasoningAction::Conclude(c)
                && c@ == "Unable to reach conclusion"@),
    {
        match &self.answer {
            Some(x) => ReasoningAction::Conclude(x.clone()),
            None => {
                if self.steps.len() < self.max_steps {
                    ReasoningAction::Ask(reasoning_prompt(self.steps.len(), problem, &self.steps))
                } else {
                    ReasoningAction::Conclude(final_thought(&self.steps))
                }
            },
        }
    }

    /// Records the model's reply to the last prompt as a step; a reply that
    /// gives the answer ends the reasoning with it.
    pub fn on_reply(&mut self, reply: String)
        requires
            old(self).answer is None,
        ensures
            final(self).max_steps == old(self).max_steps,
            final(self).steps@.len() == old(self).steps@.len() + 1,
            forall|k: int| 0 <= k < old(self).steps@.len() ==> final(self).steps@[k] == old(self).steps@[k],
            final(self).steps@.last().action is None,
            final(self).steps@.last().observation is None,
            match answer_spec(reply@, unicode_uppercase(reply@)) {
                Some(a) => (final(self).answer matches Some(x) && x@ == a) && final(self).steps@.last().thought@ == a,
                None => final(self).answer is None && final(self).steps@.last().thought == reply,
            },
    {
        let answer = record_thought(&mut self.steps, reply);
        self.answer = answer;
    }
}

/// A provider failure as the agents report it: `<prefix>: <error>`.
pub fn provider_failure(prefix: &str, e: &ProviderError) -> (r: String)
    ensures
        r@ == prefix@ + ": "@ + provider_error_text(*e),
{
    let mut r = prefix.to_owned();
    push_str(&mut r, ": ");
    let m = e.message();
    push_str(&mut r, m.as_str());
    r
}

// ---------------------------------------------------------------------------
// Self-reflection
// ---------------------------------------------------------------------------

/// Result of self-reflection on an agent output.
#[derive(Debug, Clone)]
pub struct ReflectionResult {
    pub is_acceptable: bool,
    /// 1-10
    pub score: u8,
    pub issues: Vec<String>,
    pub improved_output: Option<String>,
}

/// The reply with markdown fences removed: trimmed, leading `` ```json `` and
/// `` ``` `` runs and trailing `` ``` `` runs stripped, trimmed again.
pub open spec fn unfenced(reply: Seq<char>) -> Seq<char> {
    trim(
        trim_end_matches(
            trim_start_matches(trim_start_matches(trim(reply), "```json"@), "```"@),
            "```"@,
        ),
    )
}

/// A reply that is already bare (no surrounding whitespace, not starting
/// or ending with a backtick, as a JSON object does not) is read as it is.
pub proof fn law_bare_reply_is_read_as_is(j: Seq<char>)
    requires
        j.len() > 0,
        !is_white_space(j[0]),
        !is_white_space(j.last()),
        j[0] != '`',
        j.last() != '`',
    ensures
        unfenced(j) == j,
{
    reveal_strlit("```json");
    reveal_strlit("```");
    assert(trim_start(j) == j);
    assert(trim_end(j) == j);
    assert(trim(j) == j);
    assert(!starts_with(j, "```json"@)) by {
        if starts_with(j, "```json"@) {
            assert(j.take(7)[0] == j[0]);
        }
    }
    assert(trim_start_matches(j, "```json"@) == j);
    assert(!starts_with(j, "```"@)) by {
        if starts_with(j, "```"@) {
            assert(j.take(3)[0] == j[0]);
        }
    }
    assert(trim_start_matches(j, "```"@) == j);
    assert(!ends_with(j, "```"@)) by {
        if ends_with(j, "```"@) {
            assert(j.skip(j.len() - 3)[2] == j.last());
        }
    }
    assert(trim_end_matches(j, "```"@) == j);
}

/// A reply wrapped in a plain markdown fence (a line of three backticks
/// before and after, with no language tag) is read exactly as the bare
/// reply inside it: the same text goes to the JSON parser, so the same
/// score, issues and improved output come out.
pub proof fn law_plain_fence_reads_as_bare(j: Seq<char>)
    requires
        j.len() > 0,
        !is_white_space(j[0]),
        !is_white_space(j.last()),
        j[0] != '`',
        j.last() != '`',
    ensures
        unfenced("```\n"@ + j + "\n```"@) == unfenced(j),
        unfenced("```\n"@ + j + "\n```"@) == j,
{
    law_bare_reply_is_read_as_is(j);
    reveal_strlit("```json");
    reveal_strlit("```");
    reveal_strlit("```\n");
    reveal_strlit("\n```");
    let f = "```\n"@ + j + "\n```"@;
    assert(f[0] == '`');
    assert(f.last() == '`');
    assert(trim_start(f) == f);
    assert(trim_end(f) == f);
    assert(trim(f) == f);
    assert(!starts_with(f, "```json"@)) by {
        if starts_with(f, "```json"@) {
            assert(f.take(7)[3] == f[3]);
            assert(f[3] == '\n');
        }
    }
    assert(trim_start_matches(f, "```json"@) == f);
    let g = f.skip(3);
    assert(f.take(3) =~= "```"@);
    assert(starts_with(f, "```"@));
    assert(g =~= "\n"@ + j + "\n```"@) by {
        reveal_strlit("\n");
    }
    assert(g[0] == '\n');
    assert(!starts_with(g, "```"@)) by {
        if starts_with(g, "```"@) {
            assert(g.take(3)[0] == g[0]);
        }
    }
    assert(trim_start_matches(g, "```"@) == g);
    assert(trim_start_matches(f, "```"@) == g);
    let h = g.take(g.len() - 3);
    assert(g.skip(g.len() - 3) =~= "```"@);
    assert(ends_with(g, "```"@));
    assert(h.len() == j.len() + 2);
    assert(h[h.len() - 1] == '\n');
    assert(!ends_with(h, "```"@)) by {
        if ends_with(h, "```"@) {
            assert(h.skip(h.len() - 3)[2] == h[h.len() - 1]);
        }
    }
    assert(trim_end_matches(h, "```"@) == h);
    assert(trim_end_matches(g, "```"@) == h);
    assert(is_white_space(h[0]));
    assert(h.drop_first() =~= j.push('\n'));
    assert(trim_start(h.drop_first()) == h.drop_first());
    assert(trim_start(h) == j.push('\n'));
    assert(is_white_space(j.push('\n').last()));
    assert(j.push('\n').drop_last() =~= j);
    assert(trim_end(j) == j);
    assert(trim_end(j.push('\n')) == j);
    assert(trim(h) == j);
}

/// A reply wrapped in a `json`-tagged markdown fence is read exactly as the
/// bare reply inside it.
pub proof fn law_json_fence_reads_as_bare(j: Seq<char>)
    requires
        j.len() > 0,
        !is_white_space(j[0]),
        !is_white_space(j.last()),
        j[0] != '`',
        j.last() != '`',
    ensures
        unfenced("```json\n"@ + j + "\n```"@) == unfenced(j),
        unfenced("```json\n"@ + j + "\n```"@) == j,
{
    law_bare_reply_is_read_as_is(j);
    reveal_strlit("```json");
    reveal_strlit("```");
    reveal_strlit("```json\n");
    reveal_strlit("\n```");
    let f = "```json\n"@ + j + "\n```"@;
    assert(f[0] == '`');
    assert(f.last() == '`');
    assert(trim_start(f) == f);
    assert(trim_end(f) == f);
    assert(trim(f) == f);
    assert(f.take(7) =~= "```json"@);
    assert(starts_with(f, "```json"@));
    let g = f.skip(7);
    assert(g =~= "\n"@ + j + "\n```"@) by {
        reveal_strlit("\n");
    }
    assert(g[0] == '\n');
    assert(!starts_with(g, "```json"@)) by {
        if starts_with(g, "```json"@) {
            assert(g.take(7)[0] == g[0]);
        }
    }
    assert(trim_start_matches(g, "```json"@) == g);
    assert(trim_start_matches(f, "```json"@) == g);
    assert(!starts_with(g, "```"@)) by {
        if starts_with(g, "```"@) {
            assert(g.take(3)[0] == g[0]);
        }
    }
    assert(trim_start_matches(g, "```"@) == g);
    let h = g.take(g.len() - 3);
    assert(g.skip(g.len() - 3) =~= "```"@);
    assert(ends_with(g, "```"@));
    assert(h.len() == j.len() + 2);
    assert(h[h.len() - 1] == '\n');
    assert(!ends_with(h, "```"@)) by {
        if ends_with(h, "```"@) {
            assert(h.skip(h.len() - 3)[2] == h[h.len() - 1]);
        }
    }
    assert(trim_end_matches(h, "```"@) == h);
    assert(trim_end_matches(g, "```"@) == h);
    assert(is_white_space(h[0]));
    assert(h.drop_first() =~= j.push('\n'));
    assert(trim_start(h.drop_first()) == h.drop_first());
    assert(trim_start(h) == j.push('\n'));
    assert(is_white_space(j.push('\n').last()));
    assert(j.push('\n').drop_last() =~= j);
    assert(trim_end(j.push('\n')) == j);
    assert(trim(h) == j);
}

/// The texts of the string items of a JSON array, in order.
pub open spec fn string_items(items: Seq<JsonValue>) -> Seq<Seq<char>>
    decreases items.len(),
{
    if items.len() == 0 {
        Seq::empty()
    } else {
        let rest = string_items(items.drop_last());
        match items.last() {
            JsonValue::String(s) => rest.push(s@),
            _ => rest,
        }
    }
}

/// The score a parsed reply gives: its `score` member when a non-negative
/// integer (kept modulo 256, as the cast to `u8` does), else 5.
pub open spec fn reply_score(val: JsonValue) -> u8 {
    match json_field(val, "score"@) {
        Some(JsonValue::Number(Some(n))) => (n % 256) as u8,
        _ => 5,
    }
}

/// The issues a parsed reply lists: the strings of its `issues` array.
pub open spec fn reply_issues(val: JsonValue) -> Seq<Seq<char>> {
    match json_field(val, "issues"@) {
        Some(JsonValue::Array(items)) => string_items(items@),
        _ => Seq::empty(),
    }
}

/// The improved output a parsed reply offers: its `improved` member when a
/// non-empty string.
pub open spec fn reply_improved(val: JsonValue) -> Option<Seq<char>> {
    match json_field(val, "improved"@) {
        Some(JsonValue::String(s)) => if s@.len() > 0 {
            Some(s@)
        } else {
            None
        },
        _ => None,
    }
}

/// `r` is the reflection read from a parsed reply (`None`: not JSON, which
/// is taken as acceptable with score 5 and no issues).
pub open spec fn reflection_from(parsed: Option<JsonValue>, r: ReflectionResult) -> bool {
    match parsed {
        Some(val) => {
            &&& r.score == reply_score(val)
            &&& r.is_acceptable == (reply_score(val) >= 7)
            &&& r.issues@.map_values(|s: String| s@) == reply_issues(val)
            &&& match r.improved_output {
                Some(s) => reply_improved(val) == Some(s@),
                None => reply_improved(val) is None,
            }
        },
        None => {
            &&& r.is_acceptable
            &&& r.score == 5
            &&& r.issues@.len() == 0
            &&& r.improved_output is None
        },
    }
}

/// A readable review is acceptable exactly when its score is at least 7;
/// an unreadable one is taken as acceptable, with the middle score 5, no
/// issues and no improved output.
pub proof fn law_acceptable_means_score_at_least_seven(parsed: Option<JsonValue>, r: ReflectionResult)
    requires
        reflection_from(parsed, r),
    ensures
        parsed is Some ==> (r.is_acceptable <==> r.score >= 7),
        parsed is None ==> r.is_acceptable && r.score == 5 && r.issues@.len() == 0 && r.improved_output is None,
{
}

/// Reads a reflection from an already parsed reply.
pub fn reflection_of(parsed: Option<JsonValue>) -> (r: ReflectionResult)
    ensures
        reflection_from(parsed, r),
{
    match parsed {
        None => ReflectionResult { is_acceptable: true, score: 5, issues: Vec::new(), improved_output: None },
        Some(val) => {
            let score: u8 = match get_field(&val, "score") {
                Some(JsonValue::Number(Some(n))) => (*n % 256) as u8,
                _ => 5,
            };
            let mut issues: Vec<String> = Vec::new();
            match get_field(&val, "issues") {
                Some(JsonValue::Array(items)) => {
                    let mut i: usize = 0;
                    assert(items@.take(0) =~= Seq::<JsonValue>::empty());
                    while i < items.len()
                        invariant
                            i <= items.len(),
                            issues@.map_values(|s: String| s@) == string_items(items@.take(i as int)),
                        decreases items.len() - i,
                    {
                        assert(items@.take(i + 1).drop_last() =~= items@.take(i as int));
                        assert(items@.take(i + 1).last() == items@[i as int]);
                        let ghost before = issues@;
                        match &items[i] {
                            JsonValue::String(s) => {
                                issues.push(s.clone());
                                assert(issues@.map_values(|s: String| s@) =~= before.map_values(
                                    |s: String| s@,
                                ).push(s@));
                            },
                            _ => {},
                        }
                        i = i + 1;
                    }
                    assert(items@.take(items.len() as int) =~= items@);
                },
                _ => {
                    assert(issues@.map_values(|s: String| s@) =~= Seq::<Seq<char>>::empty());
                },
            }
            let improved_output: Option<String> = match get_field(&val, "improved") {
                Some(JsonValue::String(s)) => if !s.as_str().is_empty() {
                    Some(s.clone())
                } else {
                    None
                },
                _ => None,
            };
            ReflectionResult { is_acceptable: score >= 7, score, issues, improved_output }
        },
    }
}

/// Parses a self-reflection reply: JSON, possibly wrapped in a markdown
/// fence, with `score`, `issues` and `improved` members. Always succeeds.
pub fn parse_reflection(json_str: &str) -> (r: Result<ReflectionResult, String>)
    ensures
        (r matches Ok(res) && reflection_from(serde_json_parse(unfenced(json_str@)), res)),
{
    let cs = to_chars(json_str);
    let a = trim_vec(&cs);
    let b = strip_prefixes(&a, "```json");
    let c = strip_prefixes(&b, "```");
    let d = strip_suffixes(&c, "```");
    let e = trim_vec(&d);
    let body = string_from_chars(&e);
    let parsed = parse_json(body.as_str());
    Ok(reflection_of(parsed))
}

/// The output to keep after reflection: the improved version when the
/// reflection offers a non-empty one and scored below 7, else the given output.
pub fn output_after_reflection(reflection: &ReflectionResult, output: &str) -> (r: String)
    ensures
        (reflection.improved_output matches Some(s) && s@.len() > 0 && reflection.score < 7) ==> r@
            == reflection.improved_output->0@,
        !(reflection.improved_output matches Some(s) && s@.len() > 0 && reflection.score < 7) ==> r@
            == output@,
{
    match &reflection.improved_output {
        Some(s) => if !s.as_str().is_empty() && reflection.score < 7 {
            s.clone()
        } else {
            output.to_owned()
        },
        None => output.to_owned(),
    }
}

/// The prompt that asks the model to review an output for a task.
pub open spec fn review_prompt_spec(task: Seq<char>, output: Seq<char>) -> Seq<char> {
    "Review this AI agent output for the task: \""@ + task + "\"\n\nOutput:\n"@ + output
        + "\n\nEvaluate on: correctness, completeness, clarity, safety.\nReply in JSON format:\n{\"score\": <1-10>, \"issues\": [\"issue1\", ...], \"improved\": \"<improved output or empty if perfect>\"}"@
}

/// The prompt that asks the model to review an output for a task.
pub fn review_prompt(task: &str, output: &str) -> (r: String)
    ensures
        r@ == review_prompt_spec(task@, output@),
{
    let mut r = concat("Review this AI agent output for the task: \"", task);
    push_str(&mut r, "\"\n\nOutput:\n");
    push_str(&mut r, output);
    push_str(
        &mut r,
        "\n\nEvaluate on: correctness, completeness, clarity, safety.\nReply in JSON format:\n{\"score\": <1-10>, \"issues\": [\"issue1\", ...], \"improved\": \"<improved output or empty if perfect>\"}",
    );
    r
}

/// Self-reflection engine over a provider.
pub struct Reflector<P> {
    pub provider: P,
}

impl<P> Reflector<P> {
    /// A reflector over `provider`.
    pub fn new(provider: P) -> (r: Self)
        ensures
            r.provider == provider,
    {
        Reflector { provider }
    }
}

} // verus!
