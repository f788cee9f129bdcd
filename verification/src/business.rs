//! Customer tiers and usage records for billing.
use vstd::prelude::*;

verus! {

/// Customer tier with resource limits.
#[derive(Debug, Clone)]
pub struct CustomerTier {
    pub name: String,
    pub max_tokens: u64,
    pub max_sessions: u32,
    pub max_agents: u32,
}

/// Usage record for billing.
#[derive(Debug, Clone)]
pub struct UsageRecord {
    pub customer_id: String,
    pub tokens_used: u64,
    pub sessions: u32,
    pub timestamp: u64,
}

impl CustomerTier {
    /// The free tier: 100 000 tokens, 10 sessions, 1 agent.
    pub fn free() -> (t: Self)
        ensures
            t.name@ == "Free"@,
            t.max_tokens == 100_000,
            t.max_sessions == 10,
            t.max_agents == 1,
    {
        CustomerTier { name: "Free".to_owned(), max_tokens: 100_000, max_sessions: 10, max_agents: 1 }
    }

    /// The pro tier: 1 000 000 tokens, 100 sessions, 5 agents.
    pub fn pro() -> (t: Self)
        ensures
            t.name@ == "Pro"@,
            t.max_tokens == 1_000_000,
            t.max_sessions == 100,
            t.max_agents == 5,
    {
        CustomerTier { name: "Pro".to_owned(), max_tokens: 1_000_000, max_sessions: 100, max_agents: 5 }
    }

    /// The enterprise tier: unlimited tokens and sessions, 50 agents.
    pub fn enterprise() -> (t: Self)
        ensures
            t.name@ == "Enterprise"@,
            t.max_tokens == u64::MAX,
            t.max_sessions == u32::MAX,
            t.max_agents == 50,
    {
        CustomerTier {
            name: "Enterprise".to_owned(),
            max_tokens: u64::MAX,
            max_sessions: u32::MAX,
            max_agents: 50,
        }
    }
}

} // verus!
