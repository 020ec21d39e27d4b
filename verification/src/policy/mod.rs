//! Policy, RBAC, privacy guards, content-trust escalation and approval verification.

pub mod capability;
pub mod error;
pub mod escalation;
pub mod guards;
pub mod rbac;
pub mod rules;
pub mod approval;
pub mod evaluation;
pub mod lifecycle;
pub mod inputs;
