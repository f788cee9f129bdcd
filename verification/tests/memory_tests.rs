use asi::memory::{jaccard_similarity, tokenize, AgentMemory};
use asi::types::{Message, Role};
use std::time::{Duration, Instant};

#[test]
fn test_remember_and_recall() {
    let mut mem = AgentMemory::new(Duration::from_secs(3600), 100);
    mem.remember("Rust is a systems programming language", "user");
    mem.remember("Python is great for data science", "user");
    mem.remember("Axum is a Rust web framework", "assistant");

    let results = mem.recall("Rust web framework", 3);
    assert!(!results.is_empty());
    // Most relevant should be about Axum/Rust.
    assert!(results[0].contains("Axum") || results[0].contains("Rust"));
}

#[test]
fn test_jaccard() {
    let a = tokenize("hello world rust programming");
    let b = tokenize("hello world python programming");
    let sim = jaccard_similarity(&a, &b);
    let value = sim.shared as f64 / sim.total as f64;
    assert!(value > 0.4);
    assert!(value < 1.0);
}

#[test]
fn tokenize_lowercases_and_drops_short_words() {
    let t = tokenize("Hello, World! a an Rust-lang");
    let expected: Vec<String> = vec!["hello".into(), "world".into(), "an".into(), "rust".into(), "lang".into()];
    assert_eq!(t, expected);
}

#[test]
fn jaccard_counts_shared_and_union() {
    let a = tokenize("alpha beta gamma");
    let b = tokenize("beta gamma delta epsilon");
    let sim = jaccard_similarity(&a, &b);
    assert_eq!(sim.shared, 2);
    assert_eq!(sim.total, 5);
    let empty = jaccard_similarity(&vec![], &vec![]);
    assert_eq!(empty.total, 0);
}

#[test]
fn recall_ranks_by_similarity_and_limits_results() {
    let mut mem = AgentMemory::new(Duration::from_secs(3600), 100);
    mem.remember("cats purr softly", "user");
    mem.remember("dogs bark loudly at cats", "user");
    mem.remember("unrelated text here", "user");
    let r = mem.recall("dogs bark", 1);
    assert_eq!(r, vec!["dogs bark loudly at cats".to_string()]);
    assert!(mem.recall("zebra", 3).is_empty());
}

#[test]
fn capacity_keeps_newest_entries() {
    let mut mem = AgentMemory::new(Duration::from_secs(3600), 2);
    mem.remember("first entry words", "user");
    mem.remember("second entry words", "user");
    mem.remember("third entry words", "user");
    assert_eq!(mem.size(), 2);
    let ctx = mem.context(10);
    assert!(!ctx.contains("first"));
    assert!(ctx.contains("second"));
    assert!(ctx.contains("third"));
}

#[test]
fn import_conversation_remembers_every_message_with_its_role_name() {
    let mut mem = AgentMemory::new(Duration::from_secs(3600), 10);
    let msgs = vec![
        Message { role: Role::System, content: "system prompt".into(), tool_calls: None, tool_call_id: None },
        Message { role: Role::User, content: "hello there".into(), tool_calls: None, tool_call_id: None },
        Message { role: Role::Assistant, content: "general kenobi".into(), tool_calls: None, tool_call_id: None },
    ];
    mem.import_conversation(&msgs);
    assert_eq!(mem.size(), 3);
    assert_eq!(mem.context(1), "[Assistant]: general kenobi");
}

#[test]
fn import_equals_remembering_each_message_in_turn() {
    let msgs = vec![
        Message { role: Role::User, content: "first words".into(), tool_calls: None, tool_call_id: None },
        Message { role: Role::Assistant, content: "second words".into(), tool_calls: None, tool_call_id: None },
        Message { role: Role::Tool, content: "third words".into(), tool_calls: None, tool_call_id: None },
    ];
    let mut imported = AgentMemory::new(Duration::from_secs(3600), 2);
    imported.remember("earlier", "User");
    imported.import_conversation(&msgs);
    let mut remembered = AgentMemory::new(Duration::from_secs(3600), 2);
    remembered.remember("earlier", "User");
    for m in &msgs {
        remembered.remember(&m.content, &format!("{:?}", m.role));
    }
    assert_eq!(imported.size(), remembered.size());
    assert_eq!(imported.context(10), remembered.context(10));
    assert_eq!(imported.context(10), "[Tool]: third words\n[Assistant]: second words");
}

#[test]
fn expiry_is_measured_on_the_clock_readings() {
    let mut mem = AgentMemory::new(Duration::from_nanos(100), 10);
    assert_eq!(mem.ttl_nanos(), 100);
    assert_eq!(mem.clock_nanos(), 0);
    mem.remember_at("alpha words", "user", Instant::now(), 0, 0);
    mem.remember_at("beta words", "user", Instant::now(), 50, 120);
    assert_eq!(mem.clock_nanos(), 120);
    assert_eq!(mem.size(), 1);
    assert_eq!(mem.context(10), "[user]: beta words");
}

#[test]
fn nothing_expires_within_the_time_to_live() {
    let mut mem = AgentMemory::new(Duration::from_secs(3600), 2);
    mem.remember_at("first entry words", "user", Instant::now(), 10, 10);
    mem.remember_at("second entry words", "user", Instant::now(), 20, 20);
    mem.remember_at("third entry words", "user", Instant::now(), 30, 30);
    assert_eq!(mem.size(), 2);
    assert_eq!(mem.context(10), "[user]: third entry words\n[user]: second entry words");
}

#[test]
fn the_clock_never_runs_backwards() {
    let mut mem = AgentMemory::new(Duration::from_nanos(100), 10);
    mem.remember_at("early words", "user", Instant::now(), 500, 500);
    mem.remember_at("late words", "user", Instant::now(), 10, 20);
    assert_eq!(mem.clock_nanos(), 500);
    assert_eq!(mem.size(), 2);
}

#[test]
fn a_new_entry_older_than_the_time_to_live_is_dropped_too() {
    let mut mem = AgentMemory::new(Duration::from_nanos(100), 10);
    mem.remember_at("kept words", "user", Instant::now(), 0, 0);
    mem.remember_at("stale words", "user", Instant::now(), 10, 200);
    assert_eq!(mem.size(), 0);
}

#[test]
fn recall_after_remembering_on_a_fixed_clock() {
    let mut mem = AgentMemory::new(Duration::from_secs(3600), 100);
    mem.remember_at("Rust is a systems programming language", "user", Instant::now(), 1, 1);
    mem.remember_at("Python is great for data science", "user", Instant::now(), 2, 2);
    mem.remember_at("Axum is a Rust web framework", "assistant", Instant::now(), 3, 3);
    assert_eq!(
        mem.recall("Rust web framework", 3),
        vec!["Axum is a Rust web framework".to_string(), "Rust is a systems programming language".to_string()]
    );
}
