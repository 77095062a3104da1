//! The agent: turn driving and conversation preparation.
pub mod context;
pub mod loop_agent;
pub mod runner;

pub use context::ContextBuilder;
pub use runner::AgentRunner;
