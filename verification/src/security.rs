//! Safety rules: the prompt budget and the sandbox.
pub mod context_governance;
pub mod sandbox;

pub use context_governance::ContextGovernance;
pub use sandbox::SecurityPolicy;
