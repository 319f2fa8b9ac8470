//! A structured summary of a run, for renderers to present.

use vstd::prelude::*;
use crate::audit::{spec_count, AuditResults};
use crate::executor::{results_view, ExecutionReport, Outcome, ResultView};
use crate::model::{ActionKind, Severity};
use crate::planner::{ActionPlan, PlannedView};

verus! {

/// Number of planned actions of kind `k`.
pub open spec fn count_kind(w: Seq<PlannedView>, k: ActionKind) -> nat
    decreases w.len(),
{
    if w.len() == 0 {
        0
    } else {
        count_kind(w.drop_last(), k) + if w.last().0.kind() == k {
            1nat
        } else {
            0nat
        }
    }
}

/// Number of failed outcomes.
pub open spec fn count_failed(rs: Seq<ResultView>) -> nat
    decreases rs.len(),
{
    if rs.len() == 0 {
        0
    } else {
        count_failed(rs.drop_last()) + if rs.last().outcome is Failed {
            1nat
        } else {
            0nat
        }
    }
}

/// Tallies of findings by severity and of planned actions by kind.
#[derive(Clone, Copy, Debug, PartialEq, Eq, Structural)]
pub struct Summary {
    pub info: usize,
    pub warnings: usize,
    pub errors: usize,
    pub critical: usize,
    pub repo_settings: usize,
    pub branch_protections: usize,
    pub files: usize,
    pub gitignore: usize,
    pub preserved: usize,
}

fn count_actions(plan: &ActionPlan, k: ActionKind) -> (r: usize)
    ensures
        r == count_kind(plan@.actions, k),
{
    let ghost w = plan@.actions;
    let mut n: usize = 0;
    let mut i: usize = 0;
    while i < plan.actions.len()
        invariant
            i <= plan.actions.len(),
            w == plan@.actions,
            n == count_kind(w.take(i as int), k),
            n <= i,
        decreases plan.actions.len() - i,
    {
        assert(w.take(i + 1).drop_last() =~= w.take(i as int));
        assert(w.take(i + 1).last() == plan.actions@[i as int]@);
        if plan.actions[i].action.kind() == k {
            n = n + 1;
        }
        i = i + 1;
    }
    assert(w.take(plan.actions.len() as int) =~= w);
    n
}

/// The tallies of a plan and the audit it came from.
pub fn summarize(results: &AuditResults, plan: &ActionPlan) -> (r: Summary)
    ensures
        r.info == spec_count(results@, Severity::Info),
        r.warnings == spec_count(results@, Severity::Warning),
        r.errors == spec_count(results@, Severity::Error),
        r.critical == spec_count(results@, Severity::Critical),
        r.repo_settings == count_kind(plan@.actions, ActionKind::RepoSetting),
        r.branch_protections == count_kind(plan@.actions, ActionKind::BranchProtection),
        r.files == count_kind(plan@.actions, ActionKind::FileContent),
        r.gitignore == count_kind(plan@.actions, ActionKind::Gitignore),
        r.preserved == plan@.preserved.len(),
{
    Summary {
        info: results.count(Severity::Info),
        warnings: results.count(Severity::Warning),
        errors: results.count(Severity::Error),
        critical: results.count(Severity::Critical),
        repo_settings: count_actions(plan, ActionKind::RepoSetting),
        branch_protections: count_actions(plan, ActionKind::BranchProtection),
        files: count_actions(plan, ActionKind::FileContent),
        gitignore: count_actions(plan, ActionKind::Gitignore),
        preserved: plan.preserved.len(),
    }
}

/// Number of failed outcomes in a report.
pub fn failures(report: &ExecutionReport) -> (r: usize)
    ensures
        r == count_failed(results_view(report.results@)),
{
    let ghost rs = results_view(report.results@);
    let mut n: usize = 0;
    let mut i: usize = 0;
    while i < report.results.len()
        invariant
            i <= report.results.len(),
            rs == results_view(report.results@),
            n == count_failed(rs.take(i as int)),
            n <= i,
        decreases report.results.len() - i,
    {
        assert(rs.take(i + 1).drop_last() =~= rs.take(i as int));
        assert(rs.take(i + 1).last() == report.results@[i as int]@);
        match &report.results[i].outcome {
            Outcome::Failed(_) => {
                n = n + 1;
            },
            _ => {},
        }
        i = i + 1;
    }
    assert(rs.take(report.results.len() as int) =~= rs);
    n
}

/// The four states a run can end in.
#[derive(Clone, Copy, Debug, PartialEq, Eq, Structural)]
pub enum RunStatus {
    NoViolations,
    ViolationsNoPlanNeeded,
    /// A plan was made and not applied (dry run, or not executed).
    PlanNotApplied,
    Applied { failures: usize },
}

pub fn run_status(
    results: &AuditResults,
    plan: &ActionPlan,
    report: Option<&ExecutionReport>,
    dry_run: bool,
) -> (r: RunStatus)
    ensures
        r == (if plan@.actions.len() == 0 {
            if results@.len() == 0 {
                RunStatus::NoViolations
            } else {
                RunStatus::ViolationsNoPlanNeeded
            }
        } else {
            match report {
                Some(rep) => if dry_run {
                    RunStatus::PlanNotApplied
                } else {
                    RunStatus::Applied {
                        failures: count_failed(results_view(rep.results@)) as usize,
                    }
                },
                None => RunStatus::PlanNotApplied,
            }
        }),
{
    if plan.actions.len() == 0 {
        if results.findings.len() == 0 {
            RunStatus::NoViolations
        } else {
            RunStatus::ViolationsNoPlanNeeded
        }
    } else {
        match report {
            Some(rep) => if dry_run {
                RunStatus::PlanNotApplied
            } else {
                RunStatus::Applied { failures: failures(rep) }
            },
            None => RunStatus::PlanNotApplied,
        }
    }
}

/// What the invoking program reports through its exit code.
#[derive(Clone, Copy, Debug, PartialEq, Eq, Structural)]
pub enum ExitStatus {
    Clean,
    ViolationsFound,
    ExecutionFailed,
}

pub fn exit_status(results: &AuditResults, report: Option<&ExecutionReport>) -> (r: ExitStatus)
    ensures
        r == (if report is Some && !report->Some_0.overall_success {
            ExitStatus::ExecutionFailed
        } else if !(forall|i: int|
            0 <= i < results@.len() ==> !(#[trigger] results@[i]).severity.spec_is_required()) {
            ExitStatus::ViolationsFound
        } else {
            ExitStatus::Clean
        }),
{
    let failed = match report {
        Some(rep) => !rep.overall_success,
        None => false,
    };
    if failed {
        ExitStatus::ExecutionFailed
    } else if !results.all_required_passed() {
        ExitStatus::ViolationsFound
    } else {
        ExitStatus::Clean
    }
}

} // verus!
