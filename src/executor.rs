//! Sequential application of a plan, one action at a time, with per-action
//! failure isolation and abort on a fatal error.
//!
//! The executor decides; the caller performs. [`Executor::step`] either
//! records an outcome that needs no outside call or hands out the next action
//! to apply; the caller applies it and reports back through
//! [`Executor::complete`].

use vstd::prelude::*;
use crate::model::{Action, ActionKind, ActionView};
use crate::planner::{actions_view, planned_view, tiers_ordered, ActionPlan, PlannedAction, PlannedView};
use crate::state::{compliant, RepoState};

verus! {

/// Why an action was not applied.
#[derive(Clone, Copy, Debug, PartialEq, Eq, Structural)]
pub enum SkipReason {
    DryRun,
    AlreadyCompliant,
    AbortedUpstream,
    PreserveExisting,
}

pub open spec fn skip_text(r: SkipReason) -> Seq<char> {
    match r {
        SkipReason::DryRun => "dry-run"@,
        SkipReason::AlreadyCompliant => "already compliant"@,
        SkipReason::AbortedUpstream => "aborted: fatal error upstream"@,
        SkipReason::PreserveExisting => "preserve existing"@,
    }
}

impl SkipReason {
    /// The reason as shown in reports.
    pub fn text(&self) -> (r: &'static str)
        ensures
            r@ == skip_text(*self),
    {
        match self {
            SkipReason::DryRun => "dry-run",
            SkipReason::AlreadyCompliant => "already compliant",
            SkipReason::AbortedUpstream => "aborted: fatal error upstream",
            SkipReason::PreserveExisting => "preserve existing",
        }
    }
}

/// How the provider classified a failed apply.
#[derive(Clone, Copy, Debug, PartialEq, Eq, Structural)]
pub enum ErrorClass {
    /// The action failed; later actions may still be applied.
    Transient,
    /// Nothing more can be applied in this run.
    Fatal,
}

#[derive(Debug)]
pub struct ApplyError {
    pub class: ErrorClass,
    pub message: String,
}

#[derive(Debug)]
pub enum Outcome {
    Success,
    Skipped(SkipReason),
    Failed(ApplyError),
}

pub enum OutcomeView {
    Success,
    Skipped(SkipReason),
    Failed(ErrorClass, Seq<char>),
}

impl View for Outcome {
    type V = OutcomeView;

    open spec fn view(&self) -> OutcomeView {
        match self {
            Outcome::Success => OutcomeView::Success,
            Outcome::Skipped(r) => OutcomeView::Skipped(*r),
            Outcome::Failed(e) => OutcomeView::Failed(e.class, e.message@),
        }
    }
}

/// What happened to one action of a plan.
#[derive(Debug)]
pub struct ExecutionResult {
    pub action: Action,
    pub optional: bool,
    pub outcome: Outcome,
}

pub struct ResultView {
    pub action: ActionView,
    pub optional: bool,
    pub outcome: OutcomeView,
}

impl View for ExecutionResult {
    type V = ResultView;

    open spec fn view(&self) -> ResultView {
        ResultView { action: self.action@, optional: self.optional, outcome: self.outcome@ }
    }
}

pub open spec fn results_view(v: Seq<ExecutionResult>) -> Seq<ResultView> {
    v.map_values(|r: ExecutionResult| r@)
}

pub open spec fn is_fatal(o: OutcomeView) -> bool {
    match o {
        OutcomeView::Failed(c, _) => c == ErrorClass::Fatal,
        _ => false,
    }
}

/// Some result before position `i` is a fatal failure.
pub open spec fn fatal_before(rs: Seq<ResultView>, i: int) -> bool {
    exists|j: int| 0 <= j < i && #[trigger] is_fatal(rs[j].outcome)
}

/// The outcome that the rules allow for an action: skipped in a dry run,
/// skipped after a fatal failure, skipped when already in effect, and
/// otherwise the result of applying it.
pub open spec fn outcome_allowed(
    o: OutcomeView,
    a: ActionView,
    dry_run: bool,
    aborted: bool,
    st: RepoState,
) -> bool {
    if dry_run {
        o == OutcomeView::Skipped(SkipReason::DryRun)
    } else if aborted {
        o == OutcomeView::Skipped(SkipReason::AbortedUpstream)
    } else if compliant(a, st) {
        o == OutcomeView::Skipped(SkipReason::AlreadyCompliant)
    } else {
        o is Success || o is Failed
    }
}

/// What the caller should do next.
#[derive(Debug)]
pub enum Step {
    /// Apply this action and report the result with `complete`.
    Apply(Action),
    /// An outcome was recorded without any outside call.
    Recorded(SkipReason),
    /// Every action has an outcome.
    Finished,
}

/// The executor's progress through a plan.
pub struct Executor {
    pub plan: Vec<PlannedAction>,
    /// File actions the planner dropped to preserve existing content.
    pub preserved: Vec<Action>,
    pub state: RepoState,
    pub dry_run: bool,
    pub results: Vec<ExecutionResult>,
    pub aborted: bool,
    pub awaiting: bool,
}

/// The outcomes of a whole run.
#[derive(Debug)]
pub struct ExecutionReport {
    pub results: Vec<ExecutionResult>,
    /// The planner's preserved file actions, each skipped for that reason.
    pub preserved: Vec<ExecutionResult>,
    pub overall_success: bool,
}

/// No action that is not optional failed.
pub open spec fn spec_overall_success(rs: Seq<ResultView>) -> bool {
    forall|i: int| 0 <= i < rs.len() ==> !((#[trigger] rs[i]).outcome is Failed && !rs[i].optional)
}

/// Each preserved action, reported as skipped to keep the existing content.
pub open spec fn preserved_results(p: Seq<ActionView>) -> Seq<ResultView> {
    p.map_values(
        |a: ActionView|
            ResultView {
                action: a,
                optional: false,
                outcome: OutcomeView::Skipped(SkipReason::PreserveExisting),
            },
    )
}

pub open spec fn response_outcome(r: Result<(), ApplyError>) -> OutcomeView {
    match r {
        Ok(()) => OutcomeView::Success,
        Err(e) => OutcomeView::Failed(e.class, e.message@),
    }
}

proof fn lemma_fatal_before_push(rs: Seq<ResultView>, x: ResultView)
    ensures
        forall|i: int|
            0 <= i <= rs.len() ==> #[trigger] fatal_before(rs.push(x), i) == fatal_before(rs, i),
        fatal_before(rs.push(x), rs.len() + 1int) == (fatal_before(rs, rs.len() as int) || is_fatal(
            x.outcome,
        )),
{
    let n = rs.push(x);
    assert forall|i: int| 0 <= i <= rs.len() implies #[trigger] fatal_before(n, i) == fatal_before(
        rs,
        i,
    ) by {
        if fatal_before(rs, i) {
            let j = choose|j: int| 0 <= j < i && #[trigger] is_fatal(rs[j].outcome);
            assert(n[j] == rs[j]);
        }
        if fatal_before(n, i) {
            let j = choose|j: int| 0 <= j < i && #[trigger] is_fatal(n[j].outcome);
            assert(n[j] == rs[j]);
        }
    }
    if fatal_before(n, rs.len() + 1int) && !is_fatal(x.outcome) {
        let j = choose|j: int| 0 <= j < rs.len() + 1 && #[trigger] is_fatal(n[j].outcome);
        assert(n[j] == rs[j]);
    }
    if is_fatal(x.outcome) {
        assert(is_fatal(n[rs.len() as int].outcome));
    }
    if fatal_before(rs, rs.len() as int) {
        let j = choose|j: int| 0 <= j < rs.len() && #[trigger] is_fatal(rs[j].outcome);
        assert(n[j] == rs[j]);
    }
}

impl Executor {
    pub open spec fn rs(&self) -> Seq<ResultView> {
        results_view(self.results@)
    }

    pub open spec fn actions(&self) -> Seq<PlannedView> {
        planned_view(self.plan@)
    }

    pub open spec fn wf(&self) -> bool {
        let rs = self.rs();
        let p = self.actions();
        &&& rs.len() <= p.len()
        &&& forall|i: int|
            0 <= i < rs.len() ==> (#[trigger] rs[i]).action == p[i].0 && rs[i].optional == p[i].1
                && outcome_allowed(
                rs[i].outcome,
                p[i].0,
                self.dry_run,
                fatal_before(rs, i),
                self.state,
            )
        &&& self.aborted == fatal_before(rs, rs.len() as int)
        &&& self.awaiting ==> rs.len() < p.len() && !self.dry_run && !self.aborted && !compliant(
            p[rs.len() as int].0,
            self.state,
        )
    }

    /// Starts a run of `plan` against the snapshot `state`.
    pub fn new(plan: ActionPlan, state: RepoState, dry_run: bool) -> (r: Executor)
        ensures
            r.wf(),
            r.actions() == plan@.actions,
            actions_view(r.preserved@) == plan@.preserved,
            r.state == state,
            r.dry_run == dry_run,
            r.rs().len() == 0,
            !r.awaiting,
    {
        let r = Executor {
            plan: plan.actions,
            preserved: plan.preserved,
            state,
            dry_run,
            results: Vec::new(),
            aborted: false,
            awaiting: false,
        };
        assert(r.rs() =~= Seq::empty());
        r
    }

    pub fn is_awaiting(&self) -> (r: bool)
        ensures
            r == self.awaiting,
    {
        self.awaiting
    }

    pub fn is_finished(&self) -> (r: bool)
        requires
            self.wf(),
        ensures
            r == (self.rs().len() == self.actions().len()),
    {
        self.results.len() == self.plan.len()
    }

    fn record(&mut self, reason: SkipReason)
        requires
            old(self).wf(),
            !old(self).awaiting,
            old(self).rs().len() < old(self).actions().len(),
            outcome_allowed(
                OutcomeView::Skipped(reason),
                old(self).actions()[old(self).rs().len() as int].0,
                old(self).dry_run,
                old(self).aborted,
                old(self).state,
            ),
        ensures
            final(self).wf(),
            final(self).plan == old(self).plan,
            final(self).state == old(self).state,
            final(self).dry_run == old(self).dry_run,
            final(self).aborted == old(self).aborted,
            !final(self).awaiting,
            final(self).rs() == old(self).rs().push(
                ResultView {
                    action: old(self).actions()[old(self).rs().len() as int].0,
                    optional: old(self).actions()[old(self).rs().len() as int].1,
                    outcome: OutcomeView::Skipped(reason),
                },
            ),
    {
        let ghost rs0 = self.rs();
        let k = self.results.len();
        let entry = ExecutionResult {
            action: self.plan[k].action.copy(),
            optional: self.plan[k].optional,
            outcome: Outcome::Skipped(reason),
        };
        let ghost x = entry@;
        self.results.push(entry);
        assert(self.rs() =~= rs0.push(x));
        proof {
            lemma_fatal_before_push(rs0, x);
            let rs = self.rs();
            assert forall|i: int| 0 <= i < rs.len() implies (#[trigger] rs[i]).action
                == self.actions()[i].0 && rs[i].optional == self.actions()[i].1 && outcome_allowed(
                rs[i].outcome,
                self.actions()[i].0,
                self.dry_run,
                fatal_before(rs, i),
                self.state,
            ) by {
                if i < k {
                    assert(rs[i] == rs0[i]);
                }
            }
        }
    }

    /// Decides what happens to the next action of the plan.
    pub fn step(&mut self) -> (r: Step)
        requires
            old(self).wf(),
            !old(self).awaiting,
        ensures
            final(self).wf(),
            final(self).plan == old(self).plan,
            final(self).state == old(self).state,
            final(self).dry_run == old(self).dry_run,
            ({
                let k = old(self).rs().len();
                let p = old(self).actions();
                let skip = |reason: SkipReason|
                    r == Step::Recorded(reason) && !final(self).awaiting && final(self).rs()
                        == old(self).rs().push(
                        ResultView {
                            action: p[k as int].0,
                            optional: p[k as int].1,
                            outcome: OutcomeView::Skipped(reason),
                        },
                    );
                if k == p.len() {
                    r is Finished && final(self).rs() == old(self).rs() && !final(self).awaiting
                } else if old(self).dry_run {
                    skip(SkipReason::DryRun)
                } else if old(self).aborted {
                    skip(SkipReason::AbortedUpstream)
                } else if compliant(p[k as int].0, old(self).state) {
                    skip(SkipReason::AlreadyCompliant)
                } else {
                    &&& (match r {
                        Step::Apply(a) => a@ == p[k as int].0,
                        _ => false,
                    })
                    &&& final(self).rs() == old(self).rs()
                    &&& final(self).awaiting
                }
            }),
    {
        let k = self.results.len();
        if k == self.plan.len() {
            return Step::Finished;
        }
        if self.dry_run {
            self.record(SkipReason::DryRun);
            return Step::Recorded(SkipReason::DryRun);
        }
        if self.aborted {
            self.record(SkipReason::AbortedUpstream);
            return Step::Recorded(SkipReason::AbortedUpstream);
        }
        if self.state.is_compliant(&self.plan[k].action) {
            self.record(SkipReason::AlreadyCompliant);
            return Step::Recorded(SkipReason::AlreadyCompliant);
        }
        self.awaiting = true;
        Step::Apply(self.plan[k].action.copy())
    }

    /// Records what applying the handed-out action returned.
    pub fn complete(&mut self, response: Result<(), ApplyError>)
        requires
            old(self).wf(),
            old(self).awaiting,
        ensures
            final(self).wf(),
            final(self).plan == old(self).plan,
            final(self).state == old(self).state,
            final(self).dry_run == old(self).dry_run,
            !final(self).awaiting,
            final(self).aborted == is_fatal(response_outcome(response)),
            final(self).rs() == old(self).rs().push(
                ResultView {
                    action: old(self).actions()[old(self).rs().len() as int].0,
                    optional: old(self).actions()[old(self).rs().len() as int].1,
                    outcome: response_outcome(response),
                },
            ),
    {
        let ghost rs0 = self.rs();
        let ghost out = response_outcome(response);
        let k = self.results.len();
        let fatal = match &response {
            Ok(()) => false,
            Err(e) => match e.class {
                ErrorClass::Fatal => true,
                ErrorClass::Transient => false,
            },
        };
        let outcome = match response {
            Ok(()) => Outcome::Success,
            Err(e) => Outcome::Failed(e),
        };
        let entry = ExecutionResult {
            action: self.plan[k].action.copy(),
            optional: self.plan[k].optional,
            outcome,
        };
        let ghost x = entry@;
        assert(x.outcome == out);
        self.results.push(entry);
        self.aborted = fatal;
        self.awaiting = false;
        assert(self.rs() =~= rs0.push(x));
        proof {
            lemma_fatal_before_push(rs0, x);
            let rs = self.rs();
            assert forall|i: int| 0 <= i < rs.len() implies (#[trigger] rs[i]).action
                == self.actions()[i].0 && rs[i].optional == self.actions()[i].1 && outcome_allowed(
                rs[i].outcome,
                self.actions()[i].0,
                self.dry_run,
                fatal_before(rs, i),
                self.state,
            ) by {
                if i < k {
                    assert(rs[i] == rs0[i]);
                }
            }
        }
    }

    /// Ends the run and reports every outcome.
    pub fn finish(self) -> (r: ExecutionReport)
        requires
            self.wf(),
        ensures
            results_view(r.results@) == self.rs(),
            results_view(r.preserved@) == preserved_results(actions_view(self.preserved@)),
            r.overall_success == spec_overall_success(self.rs()),
    {
        let mut preserved: Vec<ExecutionResult> = Vec::new();
        let ghost pv = actions_view(self.preserved@);
        let mut k: usize = 0;
        while k < self.preserved.len()
            invariant
                k <= self.preserved.len(),
                pv == actions_view(self.preserved@),
                results_view(preserved@) == preserved_results(pv.take(k as int)),
            decreases self.preserved.len() - k,
        {
            let entry = ExecutionResult {
                action: self.preserved[k].copy(),
                optional: false,
                outcome: Outcome::Skipped(SkipReason::PreserveExisting),
            };
            let ghost before = results_view(preserved@);
            let ghost x = entry@;
            assert(x.action == pv[k as int]);
            preserved.push(entry);
            assert(results_view(preserved@) =~= before.push(x));
            assert(preserved_results(pv.take(k + 1)) =~= preserved_results(pv.take(k as int)).push(x));
            k = k + 1;
        }
        assert(pv.take(self.preserved.len() as int) =~= pv);
        let ghost rs = self.rs();
        let mut ok = true;
        let mut i: usize = 0;
        while i < self.results.len()
            invariant
                i <= self.results.len(),
                rs == results_view(self.results@),
                ok == (forall|j: int|
                    0 <= j < i ==> !((#[trigger] rs[j]).outcome is Failed && !rs[j].optional)),
            decreases self.results.len() - i,
        {
            let failed = match &self.results[i].outcome {
                Outcome::Failed(_) => true,
                _ => false,
            };
            assert(rs[i as int] == self.results@[i as int]@);
            if failed && !self.results[i].optional {
                ok = false;
            }
            i = i + 1;
        }
        ExecutionReport { results: self.results, preserved, overall_success: ok }
    }
}

/// After a fatal failure, every later action of the run is reported as
/// skipped because of the upstream abort.
pub proof fn lemma_fatal_short_circuit(e: Executor, j: int, i: int)
    requires
        e.wf(),
        0 <= j < i < e.rs().len(),
        is_fatal(e.rs()[j].outcome),
    ensures
        e.rs()[i].outcome == OutcomeView::Skipped(SkipReason::AbortedUpstream),
{
    let rs = e.rs();
    assert(rs[j].action == e.actions()[j].0);
    assert(rs[i].action == e.actions()[i].0);
    assert(fatal_before(rs, i));
}

/// Results come in plan order, so in a run of a plan whose tiers are ordered
/// the result of a repository-setting action precedes that of a
/// branch-protection action.
pub proof fn lemma_report_order(e: Executor, i: int, j: int)
    requires
        e.wf(),
        tiers_ordered(e.actions()),
        0 <= i < e.rs().len(),
        0 <= j < e.rs().len(),
        e.rs()[i].action.kind() == ActionKind::RepoSetting,
        e.rs()[j].action.kind() == ActionKind::BranchProtection,
    ensures
        i < j,
{
    let rs = e.rs();
    assert(rs[i].action == e.actions()[i].0);
    assert(rs[j].action == e.actions()[j].0);
    if j < i {
        assert(e.actions()[j].0.tier() <= e.actions()[i].0.tier());
    }
}

proof fn lemma_no_fatal_upto(e: Executor, n: int)
    requires
        e.wf(),
        !e.dry_run,
        0 <= n <= e.rs().len(),
        forall|i: int| 0 <= i < e.actions().len() ==> compliant(#[trigger] e.actions()[i].0, e.state),
    ensures
        !fatal_before(e.rs(), n),
    decreases n,
{
    let rs = e.rs();
    if n > 0 {
        lemma_no_fatal_upto(e, n - 1);
        assert(rs[n - 1].action == e.actions()[n - 1].0);
        assert(compliant(e.actions()[n - 1].0, e.state));
        assert(!is_fatal(rs[n - 1].outcome));
        if fatal_before(rs, n) {
            let j = choose|j: int| 0 <= j < n && #[trigger] is_fatal(rs[j].outcome);
            assert(j < n - 1 ==> fatal_before(rs, n - 1));
        }
    }
}

/// Against a snapshot in which every action of the plan is already in
/// effect, a run that is not a dry run applies nothing: every recorded
/// outcome is "already compliant" and nothing is aborted.
pub proof fn lemma_compliant_state_skips_all(e: Executor)
    requires
        e.wf(),
        !e.dry_run,
        forall|i: int| 0 <= i < e.actions().len() ==> compliant(#[trigger] e.actions()[i].0, e.state),
    ensures
        forall|i: int|
            0 <= i < e.rs().len() ==> (#[trigger] e.rs()[i]).outcome == OutcomeView::Skipped(
                SkipReason::AlreadyCompliant,
            ),
        !e.aborted,
        !e.awaiting,
{
    let rs = e.rs();
    assert forall|i: int| 0 <= i < rs.len() implies (#[trigger] rs[i]).outcome
        == OutcomeView::Skipped(SkipReason::AlreadyCompliant) by {
        lemma_no_fatal_upto(e, i);
        assert(rs[i].action == e.actions()[i].0);
        assert(compliant(e.actions()[i].0, e.state));
    }
    lemma_no_fatal_upto(e, rs.len() as int);
    if e.awaiting {
        assert(compliant(e.actions()[rs.len() as int].0, e.state));
    }
}

} // verus!
