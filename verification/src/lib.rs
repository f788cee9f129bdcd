//! Verified core logic of the ASI agent platform.
use vstd::prelude::*;

pub mod agent;
pub mod analytics;
pub mod auth;
pub mod automation;
pub mod backup;
pub mod business;
pub mod chat;
pub mod cli;
pub mod compliance;
pub mod coordinator;
pub mod deep_agent;
pub mod cortex;
pub mod json;
pub mod memory;
pub mod planner;
pub mod provider;
pub mod recovery;
pub mod self_heal;
pub mod stream;
pub mod text;
pub mod token;
pub mod types;
pub mod watchdog;

verus! {
} // verus!
