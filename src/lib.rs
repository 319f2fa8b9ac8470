//! Audit-to-action reconciliation for repository policy: findings, planning
//! and execution of remediation actions.

pub mod model;
pub mod audit;
pub mod planner;
pub mod state;
pub mod executor;
pub mod text;
pub mod branch_protection;
pub mod init;
pub mod report;
pub mod render;
