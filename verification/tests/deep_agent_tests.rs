use asi::agent::{AgentEvent, DeepStage};
use asi::deep_agent::{plan_thoughts, DeepAction, DeepCycle};

fn texts(events: &[AgentEvent]) -> Vec<String> {
    events
        .iter()
        .map(|e| match e {
            AgentEvent::TextDelta { content } => content.clone(),
            AgentEvent::Done { .. } => "<done>".to_string(),
            _ => "<other>".to_string(),
        })
        .collect()
}

#[test]
fn a_cycle_that_meets_the_bar_completes() {
    let (mut c, a) = DeepCycle::start("sort a list", 3);
    match a {
        DeepAction::Ask { events, prompt } => {
            assert_eq!(
                texts(&events),
                vec!["## Deep Agent: Plan → Execute → Reflect → Revise\n\n**Task:** sort a list\n\n", "### 1. Plan\n"]
            );
            assert_eq!(
                prompt,
                "You have a task: \"sort a list\"\n\nBreak it down into clear steps. Be specific about what needs to be done."
            );
        }
        _ => panic!("expected a question"),
    }
    let shown = c.on_plan("1. read\n2. sort".into());
    assert_eq!(texts(&[shown]), vec!["1. read\n2. sort\n\n"]);
    match c.next_iteration(false) {
        DeepAction::Ask { events, prompt } => {
            assert!(events.is_empty());
            assert_eq!(
                prompt,
                "Task: sort a list\n\nPlan:\n1. read\n2. sort\n\nExecute the plan. Produce the best output you can."
            );
        }
        _ => panic!("expected a question"),
    }
    assert_eq!(c.stage, DeepStage::Execute);
    match c.on_output("sorted!".into()) {
        DeepAction::Ask { events, prompt } => {
            assert_eq!(texts(&events), vec!["\n### Iteration 1: sorted!\n"]);
            assert!(prompt.ends_with("Output:\nsorted!\n\nScore:"));
        }
        _ => panic!("expected a question"),
    }
    match c.on_verdict(true) {
        Some(DeepAction::Finish { events }) => {
            assert_eq!(texts(&events), vec!["\n### ✅ Complete\n\n**Final output:**\n\nsorted!", "<done>"]);
        }
        _ => panic!("expected the end"),
    }
    assert_eq!(c.stage, DeepStage::Complete);
}

#[test]
fn a_cycle_that_never_meets_the_bar_is_abandoned() {
    let (mut c, _) = DeepCycle::start("t", 2);
    c.on_plan("p".into());
    assert!(matches!(c.next_iteration(false), DeepAction::Ask { .. }));
    c.on_output("v1".into());
    assert!(c.on_verdict(false).is_none());
    assert_eq!(c.stage, DeepStage::Revise);
    match c.next_iteration(false) {
        DeepAction::Ask { prompt, .. } => assert!(prompt.contains("Previous output:\nv1")),
        _ => panic!("expected a question"),
    }
    c.on_output("v2".into());
    match c.on_verdict(false) {
        Some(DeepAction::Finish { events }) => {
            assert_eq!(texts(&events)[0], "\n### ⚠️ Max iterations reached\n\n**Final output:**\n\nv2");
        }
        _ => panic!("expected the end"),
    }
    assert_eq!(c.stage, DeepStage::Abandoned);
}

#[test]
fn cancelled_or_empty_budget() {
    let (mut c, _) = DeepCycle::start("t", 1);
    assert!(matches!(c.next_iteration(true), DeepAction::Stop));
    assert_eq!(c.iteration, 0);
    let (mut z, _) = DeepCycle::start("t", 0);
    assert!(matches!(z.next_iteration(false), DeepAction::Finish { ref events } if events.is_empty()));
}

#[test]
fn plan_thoughts_are_the_first_five_nonblank_lines() {
    let t = plan_thoughts("a\n\n  \nb\r\nc\nd\ne\nf\n");
    assert_eq!(t, vec!["a", "b", "c", "d", "e"]);
    assert!(plan_thoughts("\n \n").is_empty());
}
