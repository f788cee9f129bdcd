//! The multi-agent coordinator's decisions: which requests go through a plan,
//! and the plan run as a state machine that a driver feeds with the events of
//! the agents it hands tasks to.
use vstd::prelude::*;
use crate::agent::AgentEvent;
use crate::planner::{
    AgentType, Plan, SubTask, TaskStatus, decompose_goal, is_linear_plan, is_ready, progress_spec,
    status_set, template_for, law_making_goals_get_code_steps,
};
use crate::text::{concat, contains_seq, decimal, push_decimal, push_str, unicode_lowercase};
use crate::types::{Message, Role};

verus! {

/// A plan with at least this many tasks is run task by task; shorter ones go
/// straight to the code agent.
pub const MULTI_AGENT_MIN_TASKS: usize = 3;

/// The goal of a conversation: the content of its last message, empty without one.
pub open spec fn goal_of(messages: Seq<Message>) -> Seq<char> {
    if messages.len() == 0 {
        Seq::empty()
    } else {
        messages.last().content@
    }
}

/// Plans a request: the plan decomposed from the conversation's last message,
/// and whether it is run task by task (`true`) or handed to the code agent.
pub fn coordinate(messages: &[Message]) -> (r: (Plan, bool))
    ensures
        is_linear_plan(
            r.0,
            goal_of(messages@),
            template_for(unicode_lowercase(goal_of(messages@))).0,
            template_for(unicode_lowercase(goal_of(messages@))).1,
        ),
        r.1 == (r.0.tasks@.len() >= MULTI_AGENT_MIN_TASKS),
{
    let plan = if messages.len() == 0 {
        let empty = String::new();
        decompose_goal(empty.as_str())
    } else {
        decompose_goal(messages[messages.len() - 1].content.as_str())
    };
    let multi = plan.tasks.len() >= MULTI_AGENT_MIN_TASKS;
    (plan, multi)
}

/// The plan answers the latest message: whatever came before, a
/// conversation that ends with message `m` is planned for `m`'s content.
pub proof fn law_plan_follows_latest_message(earlier: Seq<Message>, m: Message, p: Plan)
    requires
        is_linear_plan(
            p,
            goal_of(earlier.push(m)),
            template_for(unicode_lowercase(goal_of(earlier.push(m)))).0,
            template_for(unicode_lowercase(goal_of(earlier.push(m)))).1,
        ),
    ensures
        p.goal@ == m.content@,
        goal_of(earlier.push(m)) == goal_of(seq![m]),
{
    assert(earlier.push(m).last() == m);
    assert(seq![m].last() == m);
}

/// A conversation whose latest message asks to build, create or write
/// something is run task by task, over the four code steps, whatever the
/// earlier messages said.
pub proof fn law_making_requests_run_task_by_task(earlier: Seq<Message>, m: Message, r: (Plan, bool))
    requires
        contains_seq(unicode_lowercase(m.content@), "build"@) || contains_seq(unicode_lowercase(m.content@), "create"@)
            || contains_seq(unicode_lowercase(m.content@), "write"@),
        is_linear_plan(
            r.0,
            goal_of(earlier.push(m)),
            template_for(unicode_lowercase(goal_of(earlier.push(m)))).0,
            template_for(unicode_lowercase(goal_of(earlier.push(m)))).1,
        ),
        r.1 == (r.0.tasks@.len() >= MULTI_AGENT_MIN_TASKS),
    ensures
        r.0.goal@ == m.content@,
        r.0.tasks@.len() == 4,
        r.1,
{
    assert(earlier.push(m).last() == m);
    law_making_goals_get_code_steps(m.content@, r.0);
}

/// `ev` is a text delta with the content `s`.
pub open spec fn is_text(ev: AgentEvent, s: Seq<char>) -> bool {
    ev matches AgentEvent::TextDelta { content } && content@ == s
}

/// The first text of a plan run: `📋 **Plan:** <goal>`, then the task count.
pub open spec fn header_text(goal: Seq<char>, n: nat) -> Seq<char> {
    "📋 **Plan:** "@ + goal + "\n"@ + decimal(n) + " tasks to execute.\n\n"@
}

/// The text that announces a task.
pub open spec fn executing_text(description: Seq<char>) -> Seq<char> {
    "\n🔄 **Executing:** "@ + description + "\n"@
}

/// The text that closes a plan run, with its progress line.
pub open spec fn complete_text(tasks: Seq<SubTask>) -> Seq<char> {
    "\n✅ **Plan complete:** "@ + progress_spec(tasks) + "\n"@
}

/// The first event of a plan run.
pub fn plan_header(plan: &Plan) -> (e: AgentEvent)
    ensures
        is_text(e, header_text(plan.goal@, plan.tasks@.len())),
{
    let mut s = concat("📋 **Plan:** ", plan.goal.as_str());
    push_str(&mut s, "\n");
    push_decimal(&mut s, plan.tasks.len() as u64);
    push_str(&mut s, " tasks to execute.\n\n");
    AgentEvent::TextDelta { content: s }
}

/// Every task is completed or failed.
pub open spec fn plan_done(tasks: Seq<SubTask>) -> bool {
    forall|j: int| 0 <= j < tasks.len() ==> (#[trigger] tasks[j]).status is Completed || tasks[j].status is Failed
}

/// `j` is the first ready task.
pub open spec fn first_ready(tasks: Seq<SubTask>, j: int) -> bool {
    &&& 0 <= j < tasks.len()
    &&& is_ready(tasks, j)
    &&& forall|k: int| 0 <= k < j ==> !is_ready(tasks, k)
}

/// The events that end a plan run: the closing text, then `Done`.
pub open spec fn finish_events(events: Seq<AgentEvent>, tasks: Seq<SubTask>) -> bool {
    &&& events.len() == 2
    &&& is_text(events[0], complete_text(tasks))
    &&& events[1] == AgentEvent::Done { usage: None }
}

/// What the driver of a plan run does next.
pub enum PlanStep {
    /// The run was cancelled: stop without another event.
    Stop,
    /// The plan is over: send these events and stop.
    Finish(Vec<AgentEvent>),
    /// Send `announce`, then run the current task on the review agent
    /// (`review`) or the code agent, with the run's conversation.
    Run { announce: AgentEvent, review: bool },
}

/// A plan being run: the plan, the conversation handed to the agents, the
/// task being run and the text its agent produced so far.
pub struct PlanRun {
    pub plan: Plan,
    pub messages: Vec<Message>,
    pub task_id: String,
    pub output: String,
}

impl PlanRun {
    /// A run of `plan` that starts from the conversation `messages`.
    pub fn new(plan: Plan, messages: Vec<Message>) -> (r: Self)
        ensures
            r.plan == plan,
            r.messages == messages,
            r.task_id@.len() == 0,
            r.output@.len() == 0,
    {
        PlanRun { plan, messages, task_id: String::new(), output: String::new() }
    }

    fn finish_events(&self) -> (r: Vec<AgentEvent>)
        ensures
            finish_events(r@, self.plan.tasks@),
    {
        let mut s = concat("\n✅ **Plan complete:** ", self.plan.progress().as_str());
        push_str(&mut s, "\n");
        let mut r: Vec<AgentEvent> = Vec::new();
        r.push(AgentEvent::TextDelta { content: s });
        r.push(AgentEvent::Done { usage: None });
        r
    }

    /// The next step. A finished plan ends the run; otherwise a cancelled run
    /// stops; otherwise the first ready task becomes the current one: its
    /// description joins the conversation as a user message and it is
    /// announced; with no ready task the run ends.
    pub fn next(&mut self, cancelled: bool) -> (step: PlanStep)
        ensures
            final(self).plan == old(self).plan,
            plan_done(old(self).plan.tasks@) ==> {
                &&& step matches PlanStep::Finish(evs) && finish_events(evs@, old(self).plan.tasks@)
                &&& *final(self) == *old(self)
            },
            !plan_done(old(self).plan.tasks@) && cancelled ==> step is Stop && *final(self) == *old(self),
            !plan_done(old(self).plan.tasks@) && !cancelled && (forall|j: int|
                0 <= j < old(self).plan.tasks@.len() ==> !is_ready(old(self).plan.tasks@, j)) ==> {
                &&& step matches PlanStep::Finish(evs) && finish_events(evs@, old(self).plan.tasks@)
                &&& *final(self) == *old(self)
            },
            forall|j: int|
                !plan_done(old(self).plan.tasks@) && !cancelled && #[trigger] first_ready(
                    old(self).plan.tasks@,
                    j,
                ) ==> {
                    let t = old(self).plan.tasks@[j];
                    &&& step matches PlanStep::Run { announce, review } && is_text(
                        announce,
                        executing_text(t.description@),
                    ) && review == (t.agent_type == AgentType::Review)
                    &&& final(self).messages@ == old(self).messages@.push(
                        Message { role: Role::User, content: t.description, tool_calls: None, tool_call_id: None },
                    )
                    &&& final(self).task_id == t.id
                    &&& final(self).output@.len() == 0
                },
    {
        if self.plan.is_done() {
            return PlanStep::Finish(self.finish_events());
        }
        if cancelled {
            return PlanStep::Stop;
        }
        match self.plan.next_ready() {
            None => PlanStep::Finish(self.finish_events()),
            Some(t) => {
                let ghost j = choose|j: int|
                    0 <= j < self.plan.tasks@.len() && #[trigger] is_ready(self.plan.tasks@, j) && *t
                        == self.plan.tasks@[j] && forall|k: int| 0 <= k < j ==> !is_ready(self.plan.tasks@, k);
                let id = t.id.clone();
                let description = t.description.clone();
                let review = match t.agent_type {
                    AgentType::Review => true,
                    _ => false,
                };
                let announce = {
                    let mut s = concat("\n🔄 **Executing:** ", description.as_str());
                    push_str(&mut s, "\n");
                    AgentEvent::TextDelta { content: s }
                };
                self.messages.push(
                    Message { role: Role::User, content: description, tool_calls: None, tool_call_id: None },
                );
                self.task_id = id;
                self.output = String::new();
                proof {
                    assert forall|i: int|
                        !plan_done(old(self).plan.tasks@) && !cancelled && #[trigger] first_ready(
                            old(self).plan.tasks@,
                            i,
                        ) implies i == j by {
                        if i < j {
                            assert(!is_ready(old(self).plan.tasks@, i));
                        } else if j < i {
                            assert(!is_ready(old(self).plan.tasks@, j));
                        }
                    }
                }
                PlanStep::Run { announce, review }
            },
        }
    }

    /// One event from the current task's agent: what to forward, and whether
    /// the task's stream ends. Text is collected and forwarded; tool calls and
    /// results are forwarded; `Done` ends the stream; an error fails the task,
    /// is forwarded and ends the stream.
    pub fn on_event(&mut self, event: AgentEvent) -> (r: (Option<AgentEvent>, bool))
        ensures
            final(self).messages == old(self).messages,
            final(self).task_id == old(self).task_id,
            final(self).plan.goal == old(self).plan.goal,
            match event {
                AgentEvent::TextDelta { content } => {
                    &&& r == (Some(event), false)
                    &&& final(self).output@ == old(self).output@ + content@
                    &&& final(self).plan == old(self).plan
                },
                AgentEvent::ToolCall { .. } => r == (Some(event), false) && final(self).output == old(
                    self,
                ).output && final(self).plan == old(self).plan,
                AgentEvent::ToolResult { .. } => r == (Some(event), false) && final(self).output == old(
                    self,
                ).output && final(self).plan == old(self).plan,
                AgentEvent::Done { .. } => r == (None::<AgentEvent>, true) && final(self).output == old(
                    self,
                ).output && final(self).plan == old(self).plan,
                AgentEvent::Error { message } => {
                    &&& r == (Some(event), true)
                    &&& final(self).output == old(self).output
                    &&& status_set(
                        old(self).plan.tasks@,
                        final(self).plan.tasks@,
                        old(self).task_id@,
                        |s: TaskStatus| s matches TaskStatus::Failed(e) && e@ == message@,
                    )
                },
            },
    {
        match event {
            AgentEvent::TextDelta { content } => {
                push_str(&mut self.output, content.as_str());
                (Some(AgentEvent::TextDelta { content }), false)
            },
            AgentEvent::ToolCall { name, arguments } => (Some(AgentEvent::ToolCall { name, arguments }), false),
            AgentEvent::ToolResult { name, result, truncated } => (
                Some(AgentEvent::ToolResult { name, result, truncated }),
                false,
            ),
            AgentEvent::Done { usage: _ } => (None, true),
            AgentEvent::Error { message } => {
                self.plan.fail(self.task_id.as_str(), message.as_str());
                (Some(AgentEvent::Error { message }), true)
            },
        }
    }

    /// The current task's stream has ended: its text, if any, joins the
    /// conversation as an assistant message, and the task is marked
    /// completed (also after an error).
    pub fn finish_task(&mut self)
        ensures
            final(self).task_id == old(self).task_id,
            final(self).plan.goal == old(self).plan.goal,
            old(self).output@.len() > 0 ==> final(self).messages@ == old(self).messages@.push(
                Message { role: Role::Assistant, content: old(self).output, tool_calls: None, tool_call_id: None },
            ),
            old(self).output@.len() == 0 ==> final(self).messages == old(self).messages,
            final(self).output@.len() == 0,
            status_set(
                old(self).plan.tasks@,
                final(self).plan.tasks@,
                old(self).task_id@,
                (|s: TaskStatus| s is Completed),
            ),
    {
        let mut output = String::new();
        std::mem::swap(&mut output, &mut self.output);
        if !output.as_str().is_empty() {
            self.messages.push(Message { role: Role::Assistant, content: output, tool_calls: None, tool_call_id: None });
        }
        self.plan.complete(self.task_id.as_str());
    }

    /// The current task's agent could not start: the task fails with the
    /// error, which is returned as an event to forward.
    pub fn task_failed(&mut self, error: String) -> (e: AgentEvent)
        ensures
            final(self).messages == old(self).messages,
            final(self).task_id == old(self).task_id,
            final(self).output == old(self).output,
            final(self).plan.goal == old(self).plan.goal,
            e == (AgentEvent::Error { message: error }),
            status_set(
                old(self).plan.tasks@,
                final(self).plan.tasks@,
                old(self).task_id@,
                |s: TaskStatus| s matches TaskStatus::Failed(m) && m@ == error@,
            ),
    {
        self.plan.fail(self.task_id.as_str(), error.as_str());
        AgentEvent::Error { message: error }
    }
}

} // verus!
