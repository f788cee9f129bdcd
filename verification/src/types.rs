//! Chat API types shared by providers, agents and memory.
use vstd::prelude::*;

verus! {

/// The author of a chat message.
#[derive(Debug, Clone, Copy, PartialEq, Eq, Hash)]
pub enum Role {
    System,
    User,
    Assistant,
    Tool,
}

/// The name of a role as `{:?}` prints it.
pub open spec fn role_name_spec(role: Role) -> Seq<char> {
    match role {
        Role::System => "System"@,
        Role::User => "User"@,
        Role::Assistant => "Assistant"@,
        Role::Tool => "Tool"@,
    }
}

/// The name of a role as `{:?}` prints it.
pub fn role_name(role: Role) -> (r: String)
    ensures
        r@ == role_name_spec(role),
{
    match role {
        Role::System => "System".to_owned(),
        Role::User => "User".to_owned(),
        Role::Assistant => "Assistant".to_owned(),
        Role::Tool => "Tool".to_owned(),
    }
}

/// The function part of a tool call requested by the model.
#[derive(Debug, Clone)]
pub struct FunctionCall {
    pub name: String,
    /// JSON-encoded arguments.
    pub arguments: String,
}

/// A tool call requested by the model.
#[derive(Debug, Clone)]
pub struct ToolCall {
    pub id: String,
    pub function: FunctionCall,
}

/// A chat message.
#[derive(Debug, Clone)]
pub struct Message {
    pub role: Role,
    pub content: String,
    pub tool_calls: Option<Vec<ToolCall>>,
    pub tool_call_id: Option<String>,
}

/// Token accounting reported by a provider.
#[derive(Debug, Clone, Copy, PartialEq, Eq)]
pub struct Usage {
    pub prompt_tokens: u32,
    pub completion_tokens: u32,
    pub total_tokens: u32,
}

} // verus!
