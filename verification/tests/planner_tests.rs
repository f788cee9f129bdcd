use asi::planner::{decompose_goal, AgentType, Plan, TaskStatus};

#[test]
fn test_linear_plan_dependencies() {
    let plan = Plan::linear("test", &["A", "B", "C"], AgentType::Code);
    assert_eq!(plan.tasks.len(), 3);
    assert!(plan.tasks[0].depends_on.is_empty());
    assert_eq!(plan.tasks[1].depends_on, vec!["task_0"]);
    assert_eq!(plan.tasks[2].depends_on, vec!["task_1"]);
}

#[test]
fn test_next_ready_respects_deps() {
    let mut plan = Plan::linear("test", &["A", "B"], AgentType::Code);
    let first = plan.next_ready().unwrap();
    assert_eq!(first.id, "task_0");
    plan.complete("task_0");
    let second = plan.next_ready().unwrap();
    assert_eq!(second.id, "task_1");
}

#[test]
fn test_decompose_build_goal() {
    let plan = decompose_goal("build a REST API");
    assert!(plan.tasks.len() >= 3);
}

#[test]
fn decompose_picks_templates_by_keyword() {
    let fix = decompose_goal("Fix the login BUG");
    assert_eq!(fix.tasks.len(), 4);
    assert_eq!(fix.tasks[0].description, "Search codebase for relevant code");
    let review = decompose_goal("please audit this");
    assert_eq!(review.tasks.len(), 3);
    assert_eq!(review.tasks[0].agent_type, AgentType::Review);
    let other = decompose_goal("hello");
    assert_eq!(other.tasks.len(), 1);
    assert_eq!(other.tasks[0].description, "Execute request");
    assert_eq!(other.goal, "hello");
}

#[test]
fn failed_task_blocks_its_dependents_and_progress_counts() {
    let mut plan = Plan::linear("g", &["A", "B", "C"], AgentType::Code);
    assert_eq!(plan.progress(), "0/3 done, 0 failed");
    assert!(!plan.is_done());
    plan.complete("task_0");
    plan.fail("task_1", "broken");
    assert_eq!(plan.tasks[1].status, TaskStatus::Failed("broken".into()));
    assert!(plan.next_ready().is_none());
    assert_eq!(plan.progress(), "1/3 done, 1 failed");
    plan.fail("task_2", "skipped");
    assert!(plan.is_done());
}

#[test]
fn unknown_ids_change_nothing() {
    let mut plan = Plan::linear("g", &["A"], AgentType::Code);
    plan.complete("task_9");
    assert_eq!(plan.tasks[0].status, TaskStatus::Pending);
    plan.complete("task_0");
    assert!(plan.is_done());
    assert_eq!(plan.progress(), "1/1 done, 0 failed");
}
