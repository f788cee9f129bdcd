use asi::agent::AgentEvent;
use asi::coordinator::{coordinate, plan_header, PlanRun, PlanStep};
use asi::planner::{AgentType, Plan, TaskStatus};
use asi::types::{Message, Role};

fn text_of(e: &AgentEvent) -> String {
    match e {
        AgentEvent::TextDelta { content } => content.clone(),
        _ => panic!("expected text"),
    }
}

fn user(s: &str) -> Message {
    Message { role: Role::User, content: s.into(), tool_calls: None, tool_call_id: None }
}

#[test]
fn coordinate_routes_by_plan_size() {
    let (plan, multi) = coordinate(&[user("build a CLI")]);
    assert_eq!(plan.goal, "build a CLI");
    assert_eq!(plan.tasks.len(), 4);
    assert!(multi);
    let (plan, multi) = coordinate(&[user("hello")]);
    assert_eq!(plan.tasks.len(), 1);
    assert!(!multi);
    let (plan, _) = coordinate(&[]);
    assert_eq!(plan.goal, "");
}

#[test]
fn plan_header_counts_tasks() {
    let plan = Plan::linear("g", &["A", "B"], AgentType::Code);
    assert_eq!(text_of(&plan_header(&plan)), "📋 **Plan:** g\n2 tasks to execute.\n\n");
}

#[test]
fn a_plan_runs_task_by_task() {
    let plan = Plan::linear("g", &["A", "B"], AgentType::Review);
    let mut run = PlanRun::new(plan, vec![user("start")]);
    match run.next(false) {
        PlanStep::Run { announce, review } => {
            assert_eq!(text_of(&announce), "\n🔄 **Executing:** A\n");
            assert!(review);
        }
        _ => panic!("expected a task"),
    }
    assert_eq!(run.task_id, "task_0");
    assert_eq!(run.messages.len(), 2);
    assert_eq!(run.messages[1].content, "A");
    let (fwd, stop) = run.on_event(AgentEvent::TextDelta { content: "out".into() });
    assert!(matches!(fwd, Some(AgentEvent::TextDelta { .. })) && !stop);
    let (fwd, stop) = run.on_event(AgentEvent::Done { usage: None });
    assert!(fwd.is_none() && stop);
    run.finish_task();
    assert_eq!(run.messages.len(), 3);
    assert_eq!(run.messages[2].role, Role::Assistant);
    assert_eq!(run.messages[2].content, "out");
    assert_eq!(run.plan.tasks[0].status, TaskStatus::Completed);

    assert!(matches!(run.next(true), PlanStep::Stop));
    assert!(matches!(run.next(false), PlanStep::Run { .. }));
    let ev = run.task_failed("agent down".into());
    assert!(matches!(ev, AgentEvent::Error { ref message } if message == "agent down"));
    assert_eq!(run.plan.tasks[1].status, TaskStatus::Failed("agent down".into()));
    match run.next(false) {
        PlanStep::Finish(evs) => {
            assert_eq!(evs.len(), 2);
            assert_eq!(text_of(&evs[0]), "\n✅ **Plan complete:** 1/2 done, 1 failed\n");
            assert!(matches!(evs[1], AgentEvent::Done { usage: None }));
        }
        _ => panic!("expected the end"),
    }
}

#[test]
fn an_agent_error_fails_then_completes_the_task() {
    let plan = Plan::linear("g", &["A"], AgentType::Code);
    let mut run = PlanRun::new(plan, vec![]);
    assert!(matches!(run.next(false), PlanStep::Run { review: false, .. }));
    let (fwd, stop) = run.on_event(AgentEvent::Error { message: "bad".into() });
    assert!(stop);
    assert!(matches!(fwd, Some(AgentEvent::Error { .. })));
    assert_eq!(run.plan.tasks[0].status, TaskStatus::Failed("bad".into()));
    run.finish_task();
    assert_eq!(run.plan.tasks[0].status, TaskStatus::Completed);
    assert_eq!(run.messages.len(), 1);
}

#[test]
fn a_plan_run_dispatches_each_task_once() {
    let plan = Plan::linear("g", &["A", "B", "C"], AgentType::Code);
    let mut run = PlanRun::new(plan, vec![user("start")]);
    let mut dispatched = 0;
    loop {
        match run.next(false) {
            PlanStep::Run { .. } => {
                dispatched += 1;
                assert!(dispatched <= 3);
                if dispatched == 2 {
                    run.on_event(AgentEvent::Error { message: "boom".into() });
                }
                run.finish_task();
            }
            PlanStep::Finish(_) => break,
            PlanStep::Stop => panic!("not cancelled"),
        }
    }
    assert_eq!(dispatched, 3);
    assert!(run.plan.tasks.iter().all(|t| t.status != TaskStatus::Pending));
}
