//! The deep agent's Plan → Execute → Reflect → Revise cycle as a state
//! machine: each step says what to send and what to ask the model next, and
//! the driver reports the model's replies back.
use vstd::prelude::*;
use crate::agent::{AgentEvent, DeepStage};
use crate::text::{
    char_views, concat, decimal, push_decimal, push_str, string_from_chars, text_lines, lines_of,
    trim, trim_vec,
};

verus! {

/// The opening text of a cycle.
pub open spec fn intro_text(task: Seq<char>) -> Seq<char> {
    "## Deep Agent: Plan → Execute → Reflect → Revise\n\n**Task:** "@ + task + "\n\n"@
}

/// The prompt that asks for a plan.
pub open spec fn plan_prompt(task: Seq<char>) -> Seq<char> {
    "You have a task: \""@ + task
        + "\"\n\nBreak it down into clear steps. Be specific about what needs to be done."@
}

/// The prompt of an iteration: the first executes the plan, later ones revise
/// the previous output.
pub open spec fn exec_prompt(task: Seq<char>, iteration: nat, plan: Seq<char>, previous: Seq<char>) -> Seq<char> {
    if iteration == 1 {
        "Task: "@ + task + "\n\nPlan:\n"@ + plan + "\n\nExecute the plan. Produce the best output you can."@
    } else {
        "Task: "@ + task + "\n\nPrevious output:\n"@ + previous
            + "\n\nReflect on what could be improved, then produce a revised version. Be specific about what you changed."@
    }
}

/// The prompt that asks the model to rate an output.
pub open spec fn reflect_prompt(task: Seq<char>, output: Seq<char>) -> Seq<char> {
    "Rate this output quality from 0.0 to 1.0 (just the number):\n\nTask: "@ + task + "\n\nOutput:\n"@
        + output + "\n\nScore:"@
}

/// The text that shows an iteration's output.
pub open spec fn iteration_text(iteration: nat, output: Seq<char>) -> Seq<char> {
    "\n### Iteration "@ + decimal(iteration) + ": "@ + output + "\n"@
}

/// The closing text of a cycle, complete or abandoned, with its final output.
pub open spec fn final_text(complete: bool, output: Seq<char>) -> Seq<char> {
    "\n### "@ + (if complete {
        "✅ Complete"@
    } else {
        "⚠️ Max iterations reached"@
    }) + "\n\n**Final output:**\n\n"@ + output
}

/// `events` are text deltas with the contents `texts`, in order.
pub open spec fn texts_are(events: Seq<AgentEvent>, texts: Seq<Seq<char>>) -> bool {
    &&& events.len() == texts.len()
    &&& forall|i: int|
        0 <= i < texts.len() ==> ((#[trigger] events[i]) matches AgentEvent::TextDelta { content } && content@
            == texts[i])
}

/// The non-blank lines among `lines`, in order.
pub open spec fn nonblank(lines: Seq<Seq<char>>) -> Seq<Seq<char>>
    decreases lines.len(),
{
    if lines.len() == 0 {
        Seq::empty()
    } else if trim(lines.last()).len() > 0 {
        nonblank(lines.drop_last()).push(lines.last())
    } else {
        nonblank(lines.drop_last())
    }
}

/// The lines of a plan that become thoughts: its first five non-blank lines.
pub open spec fn plan_thoughts_spec(plan: Seq<char>) -> Seq<Seq<char>> {
    let ls = nonblank(text_lines(plan));
    if ls.len() > 5 {
        ls.take(5)
    } else {
        ls
    }
}

proof fn lemma_nonblank_len(lines: Seq<Seq<char>>)
    ensures
        nonblank(lines).len() <= lines.len(),
    decreases lines.len(),
{
    if lines.len() > 0 {
        lemma_nonblank_len(lines.drop_last());
    }
}

/// The first five non-blank lines of a plan, each as written.
pub fn plan_thoughts(plan: &str) -> (r: Vec<String>)
    ensures
        r@.map_values(|s: String| s@) == plan_thoughts_spec(plan@),
{
    let lines = lines_of(plan);
    let ghost ls = text_lines(plan@);
    let mut all: Vec<String> = Vec::new();
    let mut i: usize = 0;
    assert(ls.take(0) =~= Seq::<Seq<char>>::empty());
    assert(all@.map_values(|s: String| s@) =~= Seq::<Seq<char>>::empty());
    while i < lines.len()
        invariant
            i <= lines.len(),
            char_views(lines@) == ls,
            all@.map_values(|s: String| s@) == nonblank(ls.take(i as int)),
        decreases lines.len() - i,
    {
        assert(ls.take(i + 1).drop_last() =~= ls.take(i as int));
        assert(ls.take(i + 1).last() == ls[i as int]);
        assert(lines@[i as int]@ == ls[i as int]);
        let t = trim_vec(&lines[i]);
        if t.len() > 0 {
            let ghost before = all@.map_values(|s: String| s@);
            all.push(string_from_chars(&lines[i]));
            assert(all@.map_values(|s: String| s@) =~= before.push(ls[i as int]));
        }
        i = i + 1;
    }
    assert(ls.take(lines.len() as int) =~= ls);
    if all.len() > 5 {
        let ghost full = all@.map_values(|s: String| s@);
        let mut r: Vec<String> = Vec::new();
        let mut k: usize = 0;
        while k < 5
            invariant
                k <= 5 < all.len(),
                full == all@.map_values(|s: String| s@),
                r@.map_values(|s: String| s@) == full.take(k as int),
            decreases 5 - k,
        {
            let ghost before = r@.map_values(|s: String| s@);
            r.push(all[k].clone());
            assert(r@.map_values(|s: String| s@) =~= before.push(full[k as int]));
            assert(full.take(k + 1) =~= full.take(k as int).push(full[k as int]));
            k = k + 1;
        }
        r
    } else {
        all
    }
}

/// What the driver of a cycle does next.
pub enum DeepAction {
    /// Send `events`, ask the model `prompt` and report its reply.
    Ask { events: Vec<AgentEvent>, prompt: String },
    /// Send `events` and stop.
    Finish { events: Vec<AgentEvent> },
    /// The cycle was cancelled: stop without another event.
    Stop,
}

/// A deep-agent cycle: the task, the iteration budget, the plan, the
/// iterations run, the latest output and the stage reached.
pub struct DeepCycle {
    pub task: String,
    pub max_iterations: u32,
    pub plan: String,
    pub iteration: u32,
    pub output: String,
    pub stage: DeepStage,
}

fn text_event(s: String) -> (e: AgentEvent)
    ensures
        e == (AgentEvent::TextDelta { content: s }),
{
    AgentEvent::TextDelta { content: s }
}

impl DeepCycle {
    /// Starts a cycle in the plan stage: announce the task and the plan
    /// stage, and ask for a plan.
    pub fn start(task: &str, max_iterations: u32) -> (r: (Self, DeepAction))
        ensures
            r.0.task@ == task@,
            r.0.max_iterations == max_iterations,
            r.0.plan@.len() == 0,
            r.0.iteration == 0,
            r.0.output@.len() == 0,
            r.0.stage == DeepStage::Plan,
            r.1 matches DeepAction::Ask { events, prompt } && texts_are(
                events@,
                seq![intro_text(task@), "### 1. Plan\n"@],
            ) && prompt@ == plan_prompt(task@),
    {
        let mut intro = concat("## Deep Agent: Plan → Execute → Reflect → Revise\n\n**Task:** ", task);
        push_str(&mut intro, "\n\n");
        let mut events: Vec<AgentEvent> = Vec::new();
        events.push(text_event(intro));
        events.push(text_event("### 1. Plan\n".to_owned()));
        let mut prompt = concat("You have a task: \"", task);
        push_str(&mut prompt, "\"\n\nBreak it down into clear steps. Be specific about what needs to be done.");
        let cycle = DeepCycle {
            task: task.to_owned(),
            max_iterations,
            plan: String::new(),
            iteration: 0,
            output: String::new(),
            stage: DeepStage::Plan,
        };
        proof {
            reveal_strlit("### 1. Plan\n");
        }
        (cycle, DeepAction::Ask { events, prompt })
    }

    /// The model's plan: it is kept, and the event that shows it returned.
    pub fn on_plan(&mut self, plan: String) -> (e: AgentEvent)
        ensures
            final(self).plan == plan,
            final(self).task == old(self).task,
            final(self).max_iterations == old(self).max_iterations,
            final(self).iteration == old(self).iteration,
            final(self).output == old(self).output,
            final(self).stage == old(self).stage,
            e matches AgentEvent::TextDelta { content } && content@ == plan@ + "\n\n"@,
    {
        let shown = concat(plan.as_str(), "\n\n");
        self.plan = plan;
        text_event(shown)
    }

    /// The next iteration: with iterations left, a cancelled cycle stops and
    /// otherwise the execute stage asks for an output; with none left the
    /// cycle ends without another event.
    pub fn next_iteration(&mut self, cancelled: bool) -> (a: DeepAction)
        ensures
            final(self).task == old(self).task,
            final(self).max_iterations == old(self).max_iterations,
            final(self).plan == old(self).plan,
            final(self).output == old(self).output,
            old(self).iteration >= old(self).max_iterations ==> (a matches DeepAction::Finish { events } && events@.len()
                == 0) && *final(self) == *old(self),
            old(self).iteration < old(self).max_iterations && cancelled ==> a is Stop && *final(self) == *old(
                self,
            ),
            old(self).iteration < old(self).max_iterations && !cancelled ==> {
                &&& final(self).iteration == old(self).iteration + 1
                &&& final(self).stage == DeepStage::Execute
                &&& a matches DeepAction::Ask { events, prompt } && events@.len() == 0 && prompt@ == exec_prompt(
                    old(self).task@,
                    final(self).iteration as nat,
                    old(self).plan@,
                    old(self).output@,
                )
            },
    {
        if self.iteration >= self.max_iterations {
            return DeepAction::Finish { events: Vec::new() };
        }
        if cancelled {
            return DeepAction::Stop;
        }
        self.iteration = self.iteration + 1;
        self.stage = DeepStage::Execute;
        let prompt = if self.iteration == 1 {
            let mut p = concat("Task: ", self.task.as_str());
            push_str(&mut p, "\n\nPlan:\n");
            push_str(&mut p, self.plan.as_str());
            push_str(&mut p, "\n\nExecute the plan. Produce the best output you can.");
            p
        } else {
            let mut p = concat("Task: ", self.task.as_str());
            push_str(&mut p, "\n\nPrevious output:\n");
            push_str(&mut p, self.output.as_str());
            push_str(
                &mut p,
                "\n\nReflect on what could be improved, then produce a revised version. Be specific about what you changed.",
            );
            p
        };
        DeepAction::Ask { events: Vec::new(), prompt }
    }

    /// The model's output for this iteration: it becomes the latest output,
    /// the reflect stage shows it and asks for its score.
    pub fn on_output(&mut self, output: String) -> (a: DeepAction)
        ensures
            final(self).task == old(self).task,
            final(self).max_iterations == old(self).max_iterations,
            final(self).plan == old(self).plan,
            final(self).iteration == old(self).iteration,
            final(self).output == output,
            final(self).stage == DeepStage::Reflect,
            a matches DeepAction::Ask { events, prompt } && texts_are(
                events@,
                seq![iteration_text(old(self).iteration as nat, output@)],
            ) && prompt@ == reflect_prompt(old(self).task@, output@),
    {
        let mut shown = String::new();
        push_str(&mut shown, "\n### Iteration ");
        push_decimal(&mut shown, self.iteration as u64);
        push_str(&mut shown, ": ");
        push_str(&mut shown, output.as_str());
        push_str(&mut shown, "\n");
        let mut prompt = concat(
            "Rate this output quality from 0.0 to 1.0 (just the number):\n\nTask: ",
            self.task.as_str(),
        );
        push_str(&mut prompt, "\n\nOutput:\n");
        push_str(&mut prompt, output.as_str());
        push_str(&mut prompt, "\n\nScore:");
        self.output = output;
        self.stage = DeepStage::Reflect;
        let mut events: Vec<AgentEvent> = Vec::new();
        events.push(text_event(shown));
        assert(Seq::<char>::empty() + "\n### Iteration "@ == "\n### Iteration "@);
        DeepAction::Ask { events, prompt }
    }

    /// Whether the latest output met the quality bar (as the driver judged
    /// its score): then, or when no iteration is left, the cycle ends,
    /// complete or abandoned, with the final output and `Done`; otherwise it
    /// goes on to revise (`None`).
    pub fn on_verdict(&mut self, meets_bar: bool) -> (a: Option<DeepAction>)
        ensures
            final(self).task == old(self).task,
            final(self).max_iterations == old(self).max_iterations,
            final(self).plan == old(self).plan,
            final(self).iteration == old(self).iteration,
            final(self).output == old(self).output,
            (meets_bar || old(self).iteration >= old(self).max_iterations) ==> {
                &&& final(self).stage == (if meets_bar {
                    DeepStage::Complete
                } else {
                    DeepStage::Abandoned
                })
                &&& a matches Some(DeepAction::Finish { events }) && events@.len() == 2 && is_final_text(
                    events@[0],
                    final_text(meets_bar, old(self).output@),
                ) && events@[1] == AgentEvent::Done { usage: None }
            },
            !(meets_bar || old(self).iteration >= old(self).max_iterations) ==> a is None && final(self).stage
                == DeepStage::Revise,
    {
        if meets_bar || self.iteration >= self.max_iterations {
            let head = if meets_bar {
                "✅ Complete"
            } else {
                "⚠️ Max iterations reached"
            };
            self.stage = if meets_bar {
                DeepStage::Complete
            } else {
                DeepStage::Abandoned
            };
            let mut shown = concat("\n### ", head);
            push_str(&mut shown, "\n\n**Final output:**\n\n");
            push_str(&mut shown, self.output.as_str());
            let mut events: Vec<AgentEvent> = Vec::new();
            events.push(text_event(shown));
            events.push(AgentEvent::Done { usage: None });
            Some(DeepAction::Finish { events })
        } else {
            self.stage = DeepStage::Revise;
            None
        }
    }
}

/// `e` is a text delta with the content `s`.
pub open spec fn is_final_text(e: AgentEvent, s: Seq<char>) -> bool {
    e matches AgentEvent::TextDelta { content } && content@ == s
}

} // verus!
