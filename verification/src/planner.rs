//! Goal planning: a plan is a list of sub-tasks forming a dependency DAG.
use vstd::prelude::*;
use crate::text::{
    concat, contains, contains_seq, decimal, push_decimal, push_str, to_chars, to_lowercase,
    unicode_lowercase,
};

verus! {

/// The kind of agent a sub-task is routed to.
#[derive(Debug, Clone, Copy, PartialEq, Eq)]
pub enum AgentType {
    Code,
    Review,
    Architect,
    Search,
}

/// The state of a sub-task.
#[derive(Debug, Clone, PartialEq, Eq)]
pub enum TaskStatus {
    Pending,
    InProgress,
    Completed,
    Failed(String),
}

/// A sub-task in a goal decomposition plan.
#[derive(Debug, Clone)]
pub struct SubTask {
    pub id: String,
    pub description: String,
    pub agent_type: AgentType,
    /// IDs of tasks that must complete before this one.
    pub depends_on: Vec<String>,
    pub status: TaskStatus,
}

/// A goal plan: a DAG of sub-tasks.
#[derive(Debug, Clone)]
pub struct Plan {
    pub goal: String,
    pub tasks: Vec<SubTask>,
}

/// The identifier of the `i`-th task of a linear plan: `task_<i>`.
pub open spec fn task_id_spec(i: nat) -> Seq<char> {
    "task_"@ + decimal(i)
}

/// The views of a vector of strings.
pub open spec fn string_views(v: Seq<String>) -> Seq<Seq<char>> {
    v.map_values(|s: String| s@)
}

/// The dependencies of the `i`-th task of a linear plan: the previous task, if any.
pub open spec fn linear_deps(i: nat) -> Seq<Seq<char>> {
    if i == 0 {
        Seq::empty()
    } else {
        seq![task_id_spec((i - 1) as nat)]
    }
}

/// `plan` is the linear plan for `goal` with one pending task per description,
/// each depending on the one before it.
pub open spec fn is_linear_plan(
    plan: Plan,
    goal: Seq<char>,
    descriptions: Seq<Seq<char>>,
    agent_type: AgentType,
) -> bool {
    &&& plan.goal@ == goal
    &&& plan.tasks@.len() == descriptions.len()
    &&& forall|i: int|
        0 <= i < descriptions.len() ==> {
            let t = #[trigger] plan.tasks@[i];
            &&& t.id@ == task_id_spec(i as nat)
            &&& t.description@ == descriptions[i]
            &&& t.agent_type == agent_type
            &&& string_views(t.depends_on@) == linear_deps(i as nat)
            &&& t.status is Pending
        }
}

/// Some task has identifier `dep` and is completed.
pub open spec fn dep_met(tasks: Seq<SubTask>, dep: Seq<char>) -> bool {
    exists|m: int| 0 <= m < tasks.len() && (#[trigger] tasks[m]).id@ == dep && tasks[m].status is Completed
}

/// Task `j` is pending and each of its dependencies is met.
pub open spec fn is_ready(tasks: Seq<SubTask>, j: int) -> bool {
    &&& tasks[j].status is Pending
    &&& forall|d: int| 0 <= d < tasks[j].depends_on@.len() ==> dep_met(tasks, #[trigger] tasks[j].depends_on@[d]@)
}

/// `j` is the first task with identifier `id`.
pub open spec fn is_first_with_id(tasks: Seq<SubTask>, id: Seq<char>, j: int) -> bool {
    &&& 0 <= j < tasks.len()
    &&& tasks[j].id@ == id
    &&& forall|k: int| 0 <= k < j ==> (#[trigger] tasks[k]).id@ != id
}

/// `b` is `a` with only its status changed.
pub open spec fn same_but_status(a: SubTask, b: SubTask) -> bool {
    &&& b.id == a.id
    &&& b.description == a.description
    &&& b.agent_type == a.agent_type
    &&& b.depends_on == a.depends_on
}

/// The tasks after setting the status of the first task with identifier `id`:
/// the task changes by its status alone, which `st` describes; nothing changes
/// when no task has that identifier.
pub open spec fn status_set(
    before: Seq<SubTask>,
    after: Seq<SubTask>,
    id: Seq<char>,
    st: spec_fn(TaskStatus) -> bool,
) -> bool {
    &&& after.len() == before.len()
    &&& (forall|j: int| !is_first_with_id(before, id, j)) ==> after == before
    &&& forall|j: int|
        #[trigger] is_first_with_id(before, id, j) ==> {
            &&& same_but_status(before[j], after[j])
            &&& st(after[j].status)
            &&& forall|k: int| 0 <= k < before.len() && k != j ==> after[k] == before[k]
        }
}

/// Number of tasks still pending.
pub open spec fn pending_count(tasks: Seq<SubTask>) -> nat
    decreases tasks.len(),
{
    if tasks.len() == 0 {
        0
    } else {
        pending_count(tasks.drop_last()) + if tasks.last().status is Pending {
            1nat
        } else {
            0nat
        }
    }
}

/// Changing one task leaves the pending count as it was, less one for a
/// pending task that stops being pending, plus one for the reverse.
proof fn lemma_pending_count_update(tasks: Seq<SubTask>, j: int, t: SubTask)
    requires
        0 <= j < tasks.len(),
    ensures
        pending_count(tasks.update(j, t)) + (if tasks[j].status is Pending { 1int } else { 0int }) == pending_count(
            tasks,
        ) + (if t.status is Pending { 1int } else { 0int }),
    decreases tasks.len(),
{
    let u = tasks.update(j, t);
    if j == tasks.len() - 1 {
        assert(u.drop_last() =~= tasks.drop_last());
    } else {
        lemma_pending_count_update(tasks.drop_last(), j, t);
        assert(u.drop_last() =~= tasks.drop_last().update(j, t));
    }
}

/// Settling a task never adds a pending one: setting the status of the
/// first task with an identifier to a status that is not pending leaves at
/// most as many pending tasks, and one fewer when that task was pending.
/// So a plan run, which dispatches only pending tasks and settles each one
/// it dispatches, dispatches at most as many tasks as the plan holds when
/// the identifiers are unique.
pub proof fn lemma_settling_a_task(
    before: Seq<SubTask>,
    after: Seq<SubTask>,
    id: Seq<char>,
    st: spec_fn(TaskStatus) -> bool,
)
    requires
        status_set(before, after, id, st),
        forall|s: TaskStatus| #[trigger] st(s) ==> !(s is Pending),
    ensures
        pending_count(after) <= pending_count(before),
        forall|j: int|
            #[trigger] is_first_with_id(before, id, j) && before[j].status is Pending ==> pending_count(after) + 1
                == pending_count(before),
{
    if exists|j: int| is_first_with_id(before, id, j) {
        let j = choose|j: int| is_first_with_id(before, id, j);
        assert(after =~= before.update(j, after[j]));
        assert(st(after[j].status));
        lemma_pending_count_update(before, j, after[j]);
        assert forall|i: int| #[trigger] is_first_with_id(before, id, i) implies i == j by {
            if i < j {
                assert(before[i].id@ != id);
            } else if j < i {
                assert(before[j].id@ != id);
            }
        }
    } else {
        assert(after == before);
    }
}

/// Number of tasks that are completed.
pub open spec fn completed_count(tasks: Seq<SubTask>) -> nat {
    tasks.filter(|t: SubTask| t.status is Completed).len()
}

/// Number of tasks that failed.
pub open spec fn failed_count(tasks: Seq<SubTask>) -> nat {
    tasks.filter(|t: SubTask| t.status is Failed).len()
}

/// The progress line: `<completed>/<total> done, <failed> failed`.
pub open spec fn progress_spec(tasks: Seq<SubTask>) -> Seq<char> {
    decimal(completed_count(tasks)) + "/"@ + decimal(tasks.len()) + " done, "@ + decimal(
        failed_count(tasks),
    ) + " failed"@
}

/// The identifier `task_<i>`.
pub fn task_id(i: usize) -> (r: String)
    ensures
        r@ == task_id_spec(i as nat),
{
    let mut r = "task_".to_owned();
    push_decimal(&mut r, i as u64);
    r
}

proof fn lemma_decimal_len(n: nat)
    ensures
        decimal(n).len() >= 1,
    decreases n,
{
    if n >= 10 {
        lemma_decimal_len(n / 10);
    }
}

proof fn lemma_digit_char_injective(a: int, b: int)
    requires
        0 <= a < 10,
        0 <= b < 10,
        crate::text::digit_char(a) == crate::text::digit_char(b),
    ensures
        a == b,
{
}

/// Distinct numbers have distinct decimal representations.
pub proof fn lemma_decimal_injective(a: nat, b: nat)
    requires
        decimal(a) == decimal(b),
    ensures
        a == b,
    decreases a + b,
{
    let da = decimal(a);
    let db = decimal(b);
    if a < 10 && b < 10 {
        assert(da[0] == db[0]);
        lemma_digit_char_injective(a as int, b as int);
    } else if a < 10 {
        lemma_decimal_len(b / 10);
        assert(db.len() >= 2);
    } else if b < 10 {
        lemma_decimal_len(a / 10);
        assert(da.len() >= 2);
    } else {
        assert(da.last() == db.last());
        lemma_digit_char_injective((a % 10) as int, (b % 10) as int);
        assert(da.drop_last() == decimal(a / 10));
        assert(db.drop_last() == decimal(b / 10));
        lemma_decimal_injective(a / 10, b / 10);
    }
}

/// Distinct task indices give distinct task identifiers.
pub proof fn lemma_task_id_injective(a: nat, b: nat)
    requires
        task_id_spec(a) == task_id_spec(b),
    ensures
        a == b,
{
    let p = "task_"@;
    assert(task_id_spec(a).skip(p.len() as int) =~= decimal(a));
    assert(task_id_spec(b).skip(p.len() as int) =~= decimal(b));
    lemma_decimal_injective(a, b);
}

impl Plan {
    /// Create a simple linear plan: one pending task per description, each
    /// depending on the previous one.
    pub fn linear(goal: &str, descriptions: &[&str], agent_type: AgentType) -> (p: Self)
        ensures
            is_linear_plan(p, goal@, descriptions@.map_values(|d: &str| d@), agent_type),
    {
        let mut tasks: Vec<SubTask> = Vec::new();
        let ghost ds = descriptions@.map_values(|d: &str| d@);
        let mut i: usize = 0;
        while i < descriptions.len()
            invariant
                i <= descriptions.len(),
                ds == descriptions@.map_values(|d: &str| d@),
                tasks@.len() == i,
                forall|k: int|
                    0 <= k < i ==> {
                        let t = #[trigger] tasks@[k];
                        &&& t.id@ == task_id_spec(k as nat)
                        &&& t.description@ == ds[k]
                        &&& t.agent_type == agent_type
                        &&& string_views(t.depends_on@) == linear_deps(k as nat)
                        &&& t.status is Pending
                    },
            decreases descriptions.len() - i,
        {
            let mut deps: Vec<String> = Vec::new();
            if i > 0 {
                deps.push(task_id(i - 1));
            }
            assert(string_views(deps@) =~= linear_deps(i as nat));
            let t = SubTask {
                id: task_id(i),
                description: descriptions[i].to_owned(),
                agent_type,
                depends_on: deps,
                status: TaskStatus::Pending,
            };
            tasks.push(t);
            i = i + 1;
        }
        Plan { goal: goal.to_owned(), tasks }
    }

    /// Whether some task has identifier `dep` and is completed.
    fn dependency_met(&self, dep: &String) -> (b: bool)
        ensures
            b == dep_met(self.tasks@, dep@),
    {
        let mut m: usize = 0;
        while m < self.tasks.len()
            invariant
                m <= self.tasks.len(),
                forall|k: int|
                    0 <= k < m ==> !((#[trigger] self.tasks@[k]).id@ == dep@ && self.tasks@[k].status is Completed),
            decreases self.tasks.len() - m,
        {
            let t = &self.tasks[m];
            if t.id == *dep {
                if let TaskStatus::Completed = t.status {
                    return true;
                }
            }
            m = m + 1;
        }
        false
    }

    /// Whether task `j` is ready.
    fn task_ready(&self, j: usize) -> (b: bool)
        requires
            j < self.tasks.len(),
        ensures
            b == is_ready(self.tasks@, j as int),
    {
        let t = &self.tasks[j];
        match t.status {
            TaskStatus::Pending => {},
            _ => return false,
        }
        let mut d: usize = 0;
        while d < t.depends_on.len()
            invariant
                d <= t.depends_on.len(),
                *t == self.tasks@[j as int],
                forall|e: int| 0 <= e < d ==> dep_met(self.tasks@, #[trigger] t.depends_on@[e]@),
            decreases t.depends_on.len() - d,
        {
            if !self.dependency_met(&t.depends_on[d]) {
                return false;
            }
            d = d + 1;
        }
        true
    }

    /// The first ready task: pending, with every dependency completed.
    pub fn next_ready(&self) -> (r: Option<&SubTask>)
        ensures
            match r {
                Some(t) => exists|j: int|
                    0 <= j < self.tasks@.len() && #[trigger] is_ready(self.tasks@, j) && *t == self.tasks@[j]
                        && forall|k: int| 0 <= k < j ==> !is_ready(self.tasks@, k),
                None => forall|j: int| 0 <= j < self.tasks@.len() ==> !is_ready(self.tasks@, j),
            },
    {
        let mut j: usize = 0;
        while j < self.tasks.len()
            invariant
                j <= self.tasks.len(),
                forall|k: int| 0 <= k < j ==> !is_ready(self.tasks@, k),
            decreases self.tasks.len() - j,
        {
            if self.task_ready(j) {
                return Some(&self.tasks[j]);
            }
            j = j + 1;
        }
        None
    }

    /// The index of the first task with identifier `id`.
    fn find(&self, id: &str) -> (r: Option<usize>)
        ensures
            match r {
                Some(j) => is_first_with_id(self.tasks@, id@, j as int),
                None => forall|j: int| !is_first_with_id(self.tasks@, id@, j),
            },
    {
        let want = id.to_owned();
        let mut j: usize = 0;
        while j < self.tasks.len()
            invariant
                j <= self.tasks.len(),
                want@ == id@,
                forall|k: int| 0 <= k < j ==> (#[trigger] self.tasks@[k]).id@ != id@,
            decreases self.tasks.len() - j,
        {
            if self.tasks[j].id == want {
                return Some(j);
            }
            j = j + 1;
        }
        None
    }

    /// Sets the status of task `j`.
    fn set_status(&mut self, j: usize, status: TaskStatus)
        requires
            j < old(self).tasks.len(),
        ensures
            final(self).goal == old(self).goal,
            final(self).tasks@.len() == old(self).tasks@.len(),
            same_but_status(old(self).tasks@[j as int], final(self).tasks@[j as int]),
            final(self).tasks@[j as int].status == status,
            forall|k: int| 0 <= k < old(self).tasks@.len() && k != j ==> final(self).tasks@[k] == old(self).tasks@[k],
    {
        let t = self.tasks.remove(j);
        let SubTask { id, description, agent_type, depends_on, status: _ } = t;
        self.tasks.insert(j, SubTask { id, description, agent_type, depends_on, status });
    }

    /// Mark a task as completed: the first task with that identifier, if any.
    pub fn complete(&mut self, task_id: &str)
        ensures
            final(self).goal == old(self).goal,
            status_set(old(self).tasks@, final(self).tasks@, task_id@, |s: TaskStatus| s is Completed),
    {
        match self.find(task_id) {
            Some(j) => self.set_status(j, TaskStatus::Completed),
            None => {},
        }
    }

    /// Mark a task as failed with the given error: the first task with that
    /// identifier, if any.
    pub fn fail(&mut self, task_id: &str, error: &str)
        ensures
            final(self).goal == old(self).goal,
            status_set(
                old(self).tasks@,
                final(self).tasks@,
                task_id@,
                |s: TaskStatus| s matches TaskStatus::Failed(e) && e@ == error@,
            ),
    {
        match self.find(task_id) {
            Some(j) => self.set_status(j, TaskStatus::Failed(error.to_owned())),
            None => {},
        }
    }

    /// Whether all tasks are resolved (completed or failed).
    pub fn is_done(&self) -> (b: bool)
        ensures
            b == forall|j: int|
                0 <= j < self.tasks@.len() ==> (#[trigger] self.tasks@[j]).status is Completed
                    || self.tasks@[j].status is Failed,
    {
        let mut j: usize = 0;
        while j < self.tasks.len()
            invariant
                j <= self.tasks.len(),
                forall|k: int|
                    0 <= k < j ==> (#[trigger] self.tasks@[k]).status is Completed
                        || self.tasks@[k].status is Failed,
            decreases self.tasks.len() - j,
        {
            match self.tasks[j].status {
                TaskStatus::Completed => {},
                TaskStatus::Failed(_) => {},
                _ => return false,
            }
            j = j + 1;
        }
        true
    }

    /// Progress summary: `<completed>/<total> done, <failed> failed`.
    pub fn progress(&self) -> (r: String)
        ensures
            r@ == progress_spec(self.tasks@),
    {
        let ghost ts = self.tasks@;
        let mut completed: usize = 0;
        let mut failed: usize = 0;
        let mut j: usize = 0;
        while j < self.tasks.len()
            invariant
                j <= self.tasks.len(),
                ts == self.tasks@,
                completed == ts.take(j as int).filter(|t: SubTask| t.status is Completed).len(),
                failed == ts.take(j as int).filter(|t: SubTask| t.status is Failed).len(),
                completed <= j,
                failed <= j,
            decreases self.tasks.len() - j,
        {
            proof {
                reveal_with_fuel(Seq::filter, 1);
                assert(ts.take(j + 1).drop_last() == ts.take(j as int));
                assert(ts.take(j + 1).last() == ts[j as int]);
            }
            match self.tasks[j].status {
                TaskStatus::Completed => {
                    completed = completed + 1;
                },
                TaskStatus::Failed(_) => {
                    failed = failed + 1;
                },
                _ => {},
            }
            j = j + 1;
        }
        assert(ts.take(ts.len() as int) == ts);
        let mut r = String::new();
        push_decimal(&mut r, completed as u64);
        push_str(&mut r, "/");
        push_decimal(&mut r, self.tasks.len() as u64);
        push_str(&mut r, " done, ");
        push_decimal(&mut r, failed as u64);
        push_str(&mut r, " failed");
        assert(r@ =~= progress_spec(self.tasks@));
        r
    }
}

/// The steps and agent type that the heuristic decomposition picks for a
/// lowercased goal.
pub open spec fn template_for(lowered: Seq<char>) -> (Seq<Seq<char>>, AgentType) {
    if contains_seq(lowered, "build"@) || contains_seq(lowered, "create"@) || contains_seq(
        lowered,
        "write"@,
    ) {
        (
            seq![
                "Analyze requirements and design architecture"@,
                "Implement the core logic"@,
                "Write tests"@,
                "Review and refine"@,
            ],
            AgentType::Code,
        )
    } else if contains_seq(lowered, "fix"@) || contains_seq(lowered, "debug"@) || contains_seq(
        lowered,
        "bug"@,
    ) {
        (
            seq![
                "Search codebase for relevant code"@,
                "Identify root cause"@,
                "Implement fix"@,
                "Verify fix with tests"@,
            ],
            AgentType::Code,
        )
    } else if contains_seq(lowered, "review"@) || contains_seq(lowered, "audit"@) {
        (
            seq!["Scan codebase structure"@, "Review for issues"@, "Generate report"@],
            AgentType::Review,
        )
    } else {
        (seq!["Execute request"@], AgentType::Code)
    }
}

/// Decompose a goal into a plan, given the goal's lowercase form.
pub fn decompose_lowered(goal: &str, lowered: &str) -> (p: Plan)
    ensures
        is_linear_plan(p, goal@, template_for(lowered@).0, template_for(lowered@).1),
{
    let lc = to_chars(lowered);
    if contains(&lc, "build") || contains(&lc, "create") || contains(&lc, "write") {
        let steps = [
            "Analyze requirements and design architecture",
            "Implement the core logic",
            "Write tests",
            "Review and refine",
        ];
        let p = Plan::linear(goal, &steps, AgentType::Code);
        assert(steps@.map_values(|d: &str| d@) =~= template_for(lowered@).0);
        p
    } else if contains(&lc, "fix") || contains(&lc, "debug") || contains(&lc, "bug") {
        let steps = [
            "Search codebase for relevant code",
            "Identify root cause",
            "Implement fix",
            "Verify fix with tests",
        ];
        let p = Plan::linear(goal, &steps, AgentType::Code);
        assert(steps@.map_values(|d: &str| d@) =~= template_for(lowered@).0);
        p
    } else if contains(&lc, "review") || contains(&lc, "audit") {
        let steps = ["Scan codebase structure", "Review for issues", "Generate report"];
        let p = Plan::linear(goal, &steps, AgentType::Review);
        assert(steps@.map_values(|d: &str| d@) =~= template_for(lowered@).0);
        p
    } else {
        let steps = ["Execute request"];
        let p = Plan::linear(goal, &steps, AgentType::Code);
        assert(steps@.map_values(|d: &str| d@) =~= template_for(lowered@).0);
        p
    }
}

/// Decompose a user goal into a plan using simple keyword heuristics on its
/// lowercase form.
pub fn decompose_goal(goal: &str) -> (p: Plan)
    ensures
        is_linear_plan(
            p,
            goal@,
            template_for(unicode_lowercase(goal@)).0,
            template_for(unicode_lowercase(goal@)).1,
        ),
{
    let lowered = to_lowercase(goal);
    decompose_lowered(goal, lowered.as_str())
}

/// A goal that asks to build, create or write something (in any letter
/// case) is planned as the four code steps: analyse and design, implement,
/// write tests, review; each for the code agent, in that order, for that goal.
pub proof fn law_making_goals_get_code_steps(goal: Seq<char>, p: Plan)
    requires
        contains_seq(unicode_lowercase(goal), "build"@) || contains_seq(unicode_lowercase(goal), "create"@)
            || contains_seq(unicode_lowercase(goal), "write"@),
        is_linear_plan(p, goal, template_for(unicode_lowercase(goal)).0, template_for(unicode_lowercase(goal)).1),
    ensures
        p.goal@ == goal,
        p.tasks@.len() == 4,
        p.tasks@[0].description@ == "Analyze requirements and design architecture"@,
        p.tasks@[1].description@ == "Implement the core logic"@,
        p.tasks@[2].description@ == "Write tests"@,
        p.tasks@[3].description@ == "Review and refine"@,
        forall|i: int| 0 <= i < 4 ==> (#[trigger] p.tasks@[i]).agent_type == AgentType::Code,
{
}

/// A goal that asks to fix or debug something (and not to build, create or
/// write) is planned as the four debugging steps for the code agent.
pub proof fn law_fixing_goals_get_debug_steps(goal: Seq<char>, p: Plan)
    requires
        !contains_seq(unicode_lowercase(goal), "build"@),
        !contains_seq(unicode_lowercase(goal), "create"@),
        !contains_seq(unicode_lowercase(goal), "write"@),
        contains_seq(unicode_lowercase(goal), "fix"@) || contains_seq(unicode_lowercase(goal), "debug"@)
            || contains_seq(unicode_lowercase(goal), "bug"@),
        is_linear_plan(p, goal, template_for(unicode_lowercase(goal)).0, template_for(unicode_lowercase(goal)).1),
    ensures
        p.goal@ == goal,
        p.tasks@.len() == 4,
        p.tasks@[0].description@ == "Search codebase for relevant code"@,
        p.tasks@[1].description@ == "Identify root cause"@,
        p.tasks@[2].description@ == "Implement fix"@,
        p.tasks@[3].description@ == "Verify fix with tests"@,
        forall|i: int| 0 <= i < 4 ==> (#[trigger] p.tasks@[i]).agent_type == AgentType::Code,
{
}

/// A goal that asks only for a review or an audit is planned as the three
/// review steps for the review agent.
pub proof fn law_review_goals_get_review_steps(goal: Seq<char>, p: Plan)
    requires
        !contains_seq(unicode_lowercase(goal), "build"@),
        !contains_seq(unicode_lowercase(goal), "create"@),
        !contains_seq(unicode_lowercase(goal), "write"@),
        !contains_seq(unicode_lowercase(goal), "fix"@),
        !contains_seq(unicode_lowercase(goal), "debug"@),
        !contains_seq(unicode_lowercase(goal), "bug"@),
        contains_seq(unicode_lowercase(goal), "review"@) || contains_seq(unicode_lowercase(goal), "audit"@),
        is_linear_plan(p, goal, template_for(unicode_lowercase(goal)).0, template_for(unicode_lowercase(goal)).1),
    ensures
        p.goal@ == goal,
        p.tasks@.len() == 3,
        p.tasks@[0].description@ == "Scan codebase structure"@,
        p.tasks@[1].description@ == "Review for issues"@,
        p.tasks@[2].description@ == "Generate report"@,
        forall|i: int| 0 <= i < 3 ==> (#[trigger] p.tasks@[i]).agent_type == AgentType::Review,
{
}

/// Any other goal is a single code task that executes the request.
pub proof fn law_other_goals_get_one_step(goal: Seq<char>, p: Plan)
    requires
        !contains_seq(unicode_lowercase(goal), "build"@),
        !contains_seq(unicode_lowercase(goal), "create"@),
        !contains_seq(unicode_lowercase(goal), "write"@),
        !contains_seq(unicode_lowercase(goal), "fix"@),
        !contains_seq(unicode_lowercase(goal), "debug"@),
        !contains_seq(unicode_lowercase(goal), "bug"@),
        !contains_seq(unicode_lowercase(goal), "review"@),
        !contains_seq(unicode_lowercase(goal), "audit"@),
        is_linear_plan(p, goal, template_for(unicode_lowercase(goal)).0, template_for(unicode_lowercase(goal)).1),
    ensures
        p.goal@ == goal,
        p.tasks@.len() == 1,
        p.tasks@[0].description@ == "Execute request"@,
        p.tasks@[0].agent_type == AgentType::Code,
{
}

/// The tasks of a linear plan whose first `k` tasks are completed and whose
/// other tasks are pending.
pub open spec fn linear_progress(tasks: Seq<SubTask>, k: int) -> bool {
    &&& 0 <= k <= tasks.len()
    &&& forall|i: int|
        0 <= i < tasks.len() ==> {
            let t = #[trigger] tasks[i];
            &&& t.id@ == task_id_spec(i as nat)
            &&& string_views(t.depends_on@) == linear_deps(i as nat)
            &&& (i < k ==> t.status is Completed)
            &&& (i >= k ==> t.status is Pending)
        }
}

/// A fresh linear plan is at the start of its progression.
pub proof fn lemma_linear_plan_starts(plan: Plan, goal: Seq<char>, descriptions: Seq<Seq<char>>, agent_type: AgentType)
    requires
        is_linear_plan(plan, goal, descriptions, agent_type),
    ensures
        linear_progress(plan.tasks@, 0),
{
}

/// In a linear plan whose first `k` tasks are completed and the others pending,
/// the next ready task is task `k`; when all are completed none is ready.
pub proof fn lemma_linear_next_ready(tasks: Seq<SubTask>, k: int)
    requires
        linear_progress(tasks, k),
    ensures
        k < tasks.len() ==> is_ready(tasks, k),
        forall|j: int| 0 <= j < tasks.len() && j != k ==> !is_ready(tasks, j),
{
    if 0 <= k < tasks.len() {
        let t = tasks[k];
        assert(string_views(t.depends_on@).len() == t.depends_on@.len());
        assert forall|d: int| 0 <= d < t.depends_on@.len() implies dep_met(tasks, #[trigger] t.depends_on@[d]@) by {
            assert(d == 0);
            assert(string_views(t.depends_on@)[0] == t.depends_on@[0]@);
            assert(t.depends_on@[0]@ == task_id_spec((k - 1) as nat));
            assert(tasks[k - 1].id@ == task_id_spec((k - 1) as nat));
            assert(tasks[k - 1].status is Completed);
        }
    }
    assert forall|j: int| 0 <= j < tasks.len() && j != k implies !is_ready(tasks, j) by {
        if j > k {
            let t = tasks[j];
            assert(string_views(t.depends_on@).len() == t.depends_on@.len());
            assert(string_views(t.depends_on@)[0] == t.depends_on@[0]@);
            let dep = t.depends_on@[0]@;
            assert(dep == task_id_spec((j - 1) as nat));
            if dep_met(tasks, dep) {
                let m = choose|m: int| 0 <= m < tasks.len() && (#[trigger] tasks[m]).id@ == dep && tasks[m].status is Completed;
                assert(tasks[m].id@ == task_id_spec(m as nat));
                lemma_task_id_injective(m as nat, (j - 1) as nat);
            }
        }
    }
}

/// Completing the next task of a linear plan by its identifier advances the
/// progression by one task.
pub proof fn lemma_linear_complete_advances(before: Seq<SubTask>, after: Seq<SubTask>, k: int)
    requires
        linear_progress(before, k),
        k < before.len(),
        status_set(before, after, task_id_spec(k as nat), |s: TaskStatus| s is Completed),
    ensures
        linear_progress(after, k + 1),
{
    assert(is_first_with_id(before, task_id_spec(k as nat), k)) by {
        assert forall|m: int| 0 <= m < k implies (#[trigger] before[m]).id@ != task_id_spec(k as nat) by {
            if before[m].id@ == task_id_spec(k as nat) {
                lemma_task_id_injective(m as nat, k as nat);
            }
        }
    }
    assert forall|i: int| 0 <= i < after.len() implies {
        let t = #[trigger] after[i];
        &&& t.id@ == task_id_spec(i as nat)
        &&& string_views(t.depends_on@) == linear_deps(i as nat)
        &&& (i < k + 1 ==> t.status is Completed)
        &&& (i >= k + 1 ==> t.status is Pending)
    } by {
        if i != k {
            assert(after[i] == before[i]);
        }
    }
}

/// A plan whose tasks are all completed is done.
pub proof fn lemma_all_completed_done(tasks: Seq<SubTask>)
    requires
        linear_progress(tasks, tasks.len() as int),
    ensures
        forall|j: int| 0 <= j < tasks.len() ==> (#[trigger] tasks[j]).status is Completed || tasks[j].status is Failed,
{
}

} // verus!
