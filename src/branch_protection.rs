//! Branch protection as the hosting provider's API takes it, and the
//! classification of the provider's refusals.

use vstd::prelude::*;
use crate::executor::ErrorClass;
use crate::model::BranchProtectionSettings;
use crate::text::{contains_text, occurs_in};

verus! {

/// The fields of one branch protection update.
#[derive(Clone, Copy, Debug, PartialEq, Eq, Structural)]
pub struct ProtectionRequest {
    /// Status checks are required (strict, with no fixed contexts); otherwise null.
    pub strict_status_checks: bool,
    pub enforce_admins: bool,
    /// Pull request reviews with this many approvals and stale reviews
    /// dismissed; `None` sends null.
    pub required_approving_review_count: Option<u32>,
    pub required_linear_history: bool,
    pub allow_force_pushes: bool,
    pub allow_deletions: bool,
    pub required_conversation_resolution: bool,
    /// A second call enables required commit signatures.
    pub require_signatures: bool,
}

pub open spec fn spec_protection_request(s: BranchProtectionSettings) -> ProtectionRequest {
    ProtectionRequest {
        strict_status_checks: s.require_status_checks,
        enforce_admins: s.enforce_admins,
        required_approving_review_count: if s.required_approvals > 0 {
            Some(s.required_approvals)
        } else {
            None
        },
        required_linear_history: s.require_linear_history,
        allow_force_pushes: !s.block_force_push,
        allow_deletions: !s.block_deletions,
        required_conversation_resolution: s.require_conversation_resolution,
        require_signatures: s.require_signed_commits,
    }
}

/// The update that puts `settings` in force.
pub fn protection_request(settings: &BranchProtectionSettings) -> (r: ProtectionRequest)
    ensures
        r == spec_protection_request(*settings),
{
    ProtectionRequest {
        strict_status_checks: settings.require_status_checks,
        enforce_admins: settings.enforce_admins,
        required_approving_review_count: if settings.required_approvals > 0 {
            Some(settings.required_approvals)
        } else {
            None
        },
        required_linear_history: settings.require_linear_history,
        allow_force_pushes: !settings.block_force_push,
        allow_deletions: !settings.block_deletions,
        required_conversation_resolution: settings.require_conversation_resolution,
        require_signatures: settings.require_signed_commits,
    }
}

/// The provider's answer when the feature is not available to this
/// repository (plan tier, or no admin access): benign, the run goes on.
pub const NOT_ACCESSIBLE: &'static str = "Resource not accessible";

/// Classifies a refused protection update from the provider's error output:
/// an unavailable feature is transient, anything else is fatal.
pub fn classify_protection_failure(stderr: &str) -> (r: ErrorClass)
    ensures
        r == (if occurs_in(NOT_ACCESSIBLE@, stderr@) {
            ErrorClass::Transient
        } else {
            ErrorClass::Fatal
        }),
{
    if contains_text(stderr, NOT_ACCESSIBLE) {
        ErrorClass::Transient
    } else {
        ErrorClass::Fatal
    }
}

} // verus!
