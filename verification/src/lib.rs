//! Planning handoff validation, branch ownership policy and the goals schema
//! of an agentic CI/CD orchestrator, with their contracts proved by Verus.
pub mod branch_policy;
pub mod goals;
pub mod handoff;
pub mod json;
pub mod text;
