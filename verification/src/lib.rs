//! The governed runtime's decision core: policy evaluation, guards, approvals, budgets,
//! orchestration planning, recovery and observability redaction.

pub mod text;
pub mod time;
pub mod crypto;
pub mod json_text;
pub mod policy;
pub mod observability;
pub mod runtime;
