//! The interfaces that renderers implement.

use vstd::prelude::*;
use crate::audit::AuditResults;
use crate::planner::ActionPlan;

verus! {

/// The error type of renderers: `anyhow::Error`, carried through unread.
#[verifier::external_type_specification]
#[verifier::external_body]
pub struct ExAnyhowError(anyhow::Error);

/// Renders a plan and the audit it came from.
pub trait OutputRenderer {
    fn render_plan(&self, results: &AuditResults, plan: &ActionPlan) -> Result<String, anyhow::Error>;
}

/// Renders audit results.
pub trait ReportRenderer {
    fn render_report(&self, results: &AuditResults) -> Result<String, anyhow::Error>;
}

} // verus!
