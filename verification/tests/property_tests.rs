use asi::types::{Message, Role};
use std::collections::hash_map::DefaultHasher;
use std::hash::{Hash, Hasher};

fn conversation_hash(messages: &[Message]) -> String {
    let mut hasher = DefaultHasher::new();
    for msg in messages {
        msg.role.hash(&mut hasher);
        msg.content.hash(&mut hasher);
    }
    format!("{:x}", hasher.finish())
}

#[test]
fn property_same_input_same_hash() {
    let msgs1 = vec![
        Message { role: Role::User, content: "hello".into(), tool_calls: None, tool_call_id: None },
        Message { role: Role::Assistant, content: "hi".into(), tool_calls: None, tool_call_id: None },
    ];
    let msgs2 = msgs1.clone();
    assert_eq!(conversation_hash(&msgs1), conversation_hash(&msgs2));
}

#[test]
fn property_different_input_different_hash() {
    let msgs1 = vec![Message { role: Role::User, content: "hello".into(), tool_calls: None, tool_call_id: None }];
    let msgs2 = vec![Message { role: Role::User, content: "world".into(), tool_calls: None, tool_call_id: None }];
    assert_ne!(conversation_hash(&msgs1), conversation_hash(&msgs2));
}

#[test]
fn property_order_matters() {
    let msgs1 = vec![
        Message { role: Role::User, content: "a".into(), tool_calls: None, tool_call_id: None },
        Message { role: Role::User, content: "b".into(), tool_calls: None, tool_call_id: None },
    ];
    let msgs2 = vec![
        Message { role: Role::User, content: "b".into(), tool_calls: None, tool_call_id: None },
        Message { role: Role::User, content: "a".into(), tool_calls: None, tool_call_id: None },
    ];
    // Different order should produce different hash
    assert_ne!(conversation_hash(&msgs1), conversation_hash(&msgs2));
}

#[test]
fn property_empty_gives_consistent_hash() {
    let empty: Vec<Message> = vec![];
    assert_eq!(conversation_hash(&empty), conversation_hash(&empty));
    assert!(!conversation_hash(&empty).is_empty());
}

#[test]
fn bench_conversation_clone() {
    let conversation: Vec<Message> = (0..20)
        .map(|i| Message {
            role: if i % 2 == 0 { Role::User } else { Role::Assistant },
            content: format!("message {}", i),
            tool_calls: None,
            tool_call_id: None,
        })
        .collect();

    let start = std::time::Instant::now();
    for _ in 0..1000 {
        let _ = conversation.clone();
    }
    let elapsed = start.elapsed();
    let per_clone = elapsed / 1000;
    println!("20-msg conversation clone: {:?} ({} clones in {:?})", per_clone, 1000, elapsed);
    assert!(per_clone < std::time::Duration::from_millis(1));
}

#[test]
fn role_names_print_like_debug() {
    assert_eq!(asi::types::role_name(Role::User), format!("{:?}", Role::User));
    assert_eq!(asi::types::role_name(Role::Tool), "Tool");
}
