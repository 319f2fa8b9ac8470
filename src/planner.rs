//! Translation of findings and desired configuration into an ordered,
//! conflict-free action plan.

use vstd::prelude::*;
use crate::model::{
    strings_view, stricter_settings, Action, ActionKey, ActionKind, ActionView, FindingView,
    copy_strings, contains_string,
};
use crate::audit::{spec_evaluate, AuditResults, CheckPolicyView, RuleOutcomeView};

verus! {

/// An action of a plan, and whether its failure leaves the plan successful.
#[derive(Debug)]
pub struct PlannedAction {
    pub action: Action,
    pub optional: bool,
}

pub type PlannedView = (ActionView, bool);

impl View for PlannedAction {
    type V = PlannedView;

    open spec fn view(&self) -> PlannedView {
        (self.action@, self.optional)
    }
}

impl PlannedAction {
    pub fn copy(&self) -> (r: PlannedAction)
        ensures
            r@ == self@,
    {
        PlannedAction { action: self.action.copy(), optional: self.optional }
    }
}

pub open spec fn planned_view(v: Seq<PlannedAction>) -> Seq<PlannedView> {
    v.map_values(|p: PlannedAction| p@)
}

pub open spec fn actions_view(v: Seq<Action>) -> Seq<ActionView> {
    v.map_values(|a: Action| a@)
}

/// Desired state that holds whatever the findings say.
pub struct DesiredConfig {
    pub preset: String,
    pub required_actions: Vec<Action>,
    /// Keep the first file content proposed for a path instead of the latest.
    pub preserve_existing: bool,
}

pub struct DesiredConfigView {
    pub preset: Seq<char>,
    pub required_actions: Seq<ActionView>,
    pub preserve_existing: bool,
}

impl View for DesiredConfig {
    type V = DesiredConfigView;

    open spec fn view(&self) -> DesiredConfigView {
        DesiredConfigView {
            preset: self.preset@,
            required_actions: actions_view(self.required_actions@),
            preserve_existing: self.preserve_existing,
        }
    }
}

/// An ordered, conflict-free sequence of actions.
#[derive(Debug)]
pub struct ActionPlan {
    pub actions: Vec<PlannedAction>,
    /// File actions dropped because earlier content for the path is preserved.
    pub preserved: Vec<Action>,
    pub preset: String,
    pub generated_at: u64,
}

pub struct ActionPlanView {
    pub actions: Seq<PlannedView>,
    pub preserved: Seq<ActionView>,
    pub preset: Seq<char>,
    pub generated_at: u64,
}

impl View for ActionPlan {
    type V = ActionPlanView;

    open spec fn view(&self) -> ActionPlanView {
        ActionPlanView {
            actions: planned_view(self.actions@),
            preserved: actions_view(self.preserved@),
            preset: self.preset@,
            generated_at: self.generated_at,
        }
    }
}

/// `q`'s patterns appended to `p`, each one only if not already present.
pub open spec fn union_patterns(p: Seq<Seq<char>>, q: Seq<Seq<char>>) -> Seq<Seq<char>>
    decreases q.len(),
{
    if q.len() == 0 {
        p
    } else {
        let u = union_patterns(p, q.drop_last());
        if u.contains(q.last()) {
            u
        } else {
            u.push(q.last())
        }
    }
}

/// Merge of two actions with the same key: the stricter setting wins, pattern
/// lists are united, and for file content the later action wins.
pub open spec fn merge_views(a: ActionView, b: ActionView) -> ActionView {
    match a {
        ActionView::SetBranchProtection { branch, settings: s1 } => match b {
            ActionView::SetBranchProtection { settings: s2, .. } => ActionView::SetBranchProtection {
                branch,
                settings: stricter_settings(s1, s2),
            },
            _ => b,
        },
        ActionView::SetRepoSetting { key, enabled: e1 } => match b {
            ActionView::SetRepoSetting { enabled: e2, .. } => ActionView::SetRepoSetting {
                key,
                enabled: e1 || e2,
            },
            _ => b,
        },
        ActionView::UpdateGitignorePatterns { patterns: p } => match b {
            ActionView::UpdateGitignorePatterns { patterns: q } => ActionView::UpdateGitignorePatterns {
                patterns: union_patterns(p, q),
            },
            _ => b,
        },
        ActionView::WriteFile { .. } => b,
    }
}

pub open spec fn keys_unique(w: Seq<PlannedView>) -> bool {
    forall|i: int, j: int| 0 <= i < j < w.len() ==> w[i].0.key() != w[j].0.key()
}

pub open spec fn has_key(w: Seq<PlannedView>, k: ActionKey) -> bool {
    exists|i: int| 0 <= i < w.len() && #[trigger] w[i].0.key() == k
}

/// Index of the entry of `w` with key `k`, or -1.
pub open spec fn index_of_key(w: Seq<PlannedView>, k: ActionKey) -> int {
    if has_key(w, k) {
        choose|i: int| 0 <= i < w.len() && #[trigger] w[i].0.key() == k
    } else {
        -1
    }
}

/// The working list and the preserved (dropped) file actions.
pub struct Collected {
    pub entries: Seq<PlannedView>,
    pub preserved: Seq<ActionView>,
}

/// Adds one candidate to the keyed working list.
pub open spec fn insert_candidate(c: Collected, x: PlannedView, preserve: bool) -> Collected {
    let i = index_of_key(c.entries, x.0.key());
    if i < 0 {
        Collected { entries: c.entries.push(x), preserved: c.preserved }
    } else if preserve && x.0 is WriteFile {
        Collected { entries: c.entries, preserved: c.preserved.push(x.0) }
    } else {
        Collected {
            entries: c.entries.update(
                i,
                (merge_views(c.entries[i].0, x.0), c.entries[i].1 && x.1),
            ),
            preserved: c.preserved,
        }
    }
}

pub open spec fn collect(s: Seq<PlannedView>, preserve: bool) -> Collected
    decreases s.len(),
{
    if s.len() == 0 {
        Collected { entries: Seq::empty(), preserved: Seq::empty() }
    } else {
        insert_candidate(collect(s.drop_last(), preserve), s.last(), preserve)
    }
}

/// The remediations that the findings carry, in order; one is optional when
/// its finding is below `Error`.
pub open spec fn finding_candidates(f: Seq<FindingView>) -> Seq<PlannedView>
    decreases f.len(),
{
    if f.len() == 0 {
        Seq::empty()
    } else {
        let rest = finding_candidates(f.drop_last());
        match f.last().remediation {
            Some(a) => rest.push((a, !f.last().severity.spec_is_required())),
            None => rest,
        }
    }
}

pub open spec fn required_candidates(r: Seq<ActionView>) -> Seq<PlannedView> {
    r.map_values(|a: ActionView| (a, false))
}

/// The entries of `w` in tier `t`, in their order.
pub open spec fn of_tier(w: Seq<PlannedView>, t: nat) -> Seq<PlannedView>
    decreases w.len(),
{
    if w.len() == 0 {
        Seq::empty()
    } else {
        let r = of_tier(w.drop_last(), t);
        if w.last().0.tier() == t {
            r.push(w.last())
        } else {
            r
        }
    }
}

pub open spec fn tiered(w: Seq<PlannedView>) -> Seq<PlannedView> {
    of_tier(w, 0) + of_tier(w, 1) + of_tier(w, 2)
}

pub open spec fn spec_candidates(findings: Seq<FindingView>, config: DesiredConfigView) -> Seq<
    PlannedView,
> {
    finding_candidates(findings) + required_candidates(config.required_actions)
}

/// The plan for the given findings and configuration.
pub open spec fn spec_plan(
    findings: Seq<FindingView>,
    config: DesiredConfigView,
    generated_at: u64,
) -> ActionPlanView {
    let c = collect(spec_candidates(findings, config), config.preserve_existing);
    ActionPlanView {
        actions: tiered(c.entries),
        preserved: c.preserved,
        preset: config.preset,
        generated_at,
    }
}

/// Tiers never decrease along the sequence.
pub open spec fn tiers_ordered(w: Seq<PlannedView>) -> bool {
    forall|i: int, j: int| 0 <= i < j < w.len() ==> w[i].0.tier() <= w[j].0.tier()
}


proof fn lemma_merge_key(a: ActionView, b: ActionView)
    requires
        a.key() == b.key(),
    ensures
        merge_views(a, b).key() == a.key(),
{
}

proof fn lemma_insert_unique(c: Collected, x: PlannedView, preserve: bool)
    requires
        keys_unique(c.entries),
    ensures
        keys_unique(insert_candidate(c, x, preserve).entries),
{
    let i = index_of_key(c.entries, x.0.key());
    if i >= 0 {
        lemma_merge_key(c.entries[i].0, x.0);
    } else {
        let w = c.entries.push(x);
        assert forall|a: int, b: int| 0 <= a < b < w.len() implies w[a].0.key() != w[b].0.key() by {
            if b == w.len() - 1 {
                assert(c.entries[a].0.key() == w[a].0.key());
            }
        }
    }
}

proof fn lemma_collect_unique(s: Seq<PlannedView>, preserve: bool)
    ensures
        keys_unique(collect(s, preserve).entries),
    decreases s.len(),
{
    if s.len() > 0 {
        lemma_collect_unique(s.drop_last(), preserve);
        lemma_insert_unique(collect(s.drop_last(), preserve), s.last(), preserve);
    }
}

proof fn lemma_of_tier(w: Seq<PlannedView>, t: nat)
    ensures
        forall|i: int| 0 <= i < of_tier(w, t).len() ==> (#[trigger] of_tier(w, t)[i]).0.tier() == t,
        forall|i: int| 0 <= i < of_tier(w, t).len() ==> w.contains(#[trigger] of_tier(w, t)[i]),
        keys_unique(w) ==> keys_unique(of_tier(w, t)),
    decreases w.len(),
{
    if w.len() > 0 {
        let d = w.drop_last();
        lemma_of_tier(d, t);
        let r = of_tier(d, t);
        let o = of_tier(w, t);
        assert forall|i: int| 0 <= i < o.len() implies w.contains(#[trigger] o[i]) by {
            if i < r.len() {
                assert(d.contains(r[i]));
                let j = choose|j: int| 0 <= j < d.len() && d[j] == r[i];
                assert(w[j] == r[i]);
            } else {
                assert(w[w.len() - 1] == o[i]);
            }
        }
        if keys_unique(w) {
            assert(keys_unique(d)) by {
                assert forall|a: int, b: int| 0 <= a < b < d.len() implies d[a].0.key() != d[b].0.key() by {
                    assert(d[a] == w[a] && d[b] == w[b]);
                }
            }
            if w.last().0.tier() == t {
                assert forall|a: int, b: int| 0 <= a < b < o.len() implies o[a].0.key() != o[b].0.key() by {
                    if b == o.len() - 1 {
                        assert(o[a] == r[a]);
                        assert(d.contains(r[a]));
                        let j = choose|j: int| 0 <= j < d.len() && d[j] == r[a];
                        assert(w[j] == r[a]);
                        assert(o[b] == w[w.len() - 1]);
                    } else {
                        assert(o[a] == r[a] && o[b] == r[b]);
                    }
                }
            }
        }
    }
}

proof fn lemma_tiered(w: Seq<PlannedView>)
    requires
        keys_unique(w),
    ensures
        keys_unique(tiered(w)),
        tiers_ordered(tiered(w)),
{
    lemma_of_tier(w, 0);
    lemma_of_tier(w, 1);
    lemma_of_tier(w, 2);
    let a = of_tier(w, 0);
    let b = of_tier(w, 1);
    let c = of_tier(w, 2);
    let r = tiered(w);
    assert forall|i: int| 0 <= i < r.len() implies (#[trigger] r[i]).0.tier() == (if i < a.len() {
        0nat
    } else if i < a.len() + b.len() {
        1nat
    } else {
        2nat
    }) by {
        if i < a.len() {
            assert(r[i] == a[i]);
        } else if i < a.len() + b.len() {
            assert(r[i] == b[i - a.len()]);
        } else {
            assert(r[i] == c[i - a.len() - b.len()]);
        }
    }
    assert forall|i: int, j: int| 0 <= i < j < r.len() implies r[i].0.key() != r[j].0.key() by {
        if i < a.len() && j < a.len() {
            assert(r[i] == a[i] && r[j] == a[j]);
        } else if a.len() <= i && j < a.len() + b.len() {
            assert(r[i] == b[i - a.len()] && r[j] == b[j - a.len()]);
        } else if a.len() + b.len() <= i {
            assert(r[i] == c[i - a.len() - b.len()] && r[j] == c[j - a.len() - b.len()]);
        } else {
            assert(r[i].0.tier() != r[j].0.tier());
        }
    }
}

/// A plan never holds two actions with the same (kind, target) pair, and its
/// actions come in tier order: repository settings, then branch protection,
/// then file content.
pub proof fn lemma_plan_conflict_free(
    findings: Seq<FindingView>,
    config: DesiredConfigView,
    generated_at: u64,
)
    ensures
        keys_unique(spec_plan(findings, config, generated_at).actions),
        tiers_ordered(spec_plan(findings, config, generated_at).actions),
{
    let s = spec_candidates(findings, config);
    lemma_collect_unique(s, config.preserve_existing);
    lemma_tiered(collect(s, config.preserve_existing).entries);
}


fn unite_patterns(p: &Vec<String>, q: &Vec<String>) -> (r: Vec<String>)
    ensures
        strings_view(r@) == union_patterns(strings_view(p@), strings_view(q@)),
{
    let mut r = copy_strings(p);
    let mut i: usize = 0;
    while i < q.len()
        invariant
            i <= q.len(),
            strings_view(r@) == union_patterns(strings_view(p@), strings_view(q@).take(i as int)),
        decreases q.len() - i,
    {
        let ghost prev = strings_view(r@);
        let ghost qv = strings_view(q@);
        assert(qv.take(i + 1).drop_last() =~= qv.take(i as int));
        assert(qv.take(i + 1).last() == q@[i as int]@);
        if !contains_string(&r, &q[i]) {
            r.push(q[i].clone());
            assert(strings_view(r@) =~= prev.push(q@[i as int]@));
        }
        i = i + 1;
    }
    assert(strings_view(q@).take(q.len() as int) =~= strings_view(q@));
    r
}

/// Merges two actions with the same key.
pub fn merge_actions(a: &Action, b: &Action) -> (r: Action)
    requires
        a@.key() == b@.key(),
    ensures
        r@ == merge_views(a@, b@),
{
    match a {
        Action::SetBranchProtection { branch, settings: s1 } => match b {
            Action::SetBranchProtection { settings: s2, .. } => Action::SetBranchProtection {
                branch: branch.clone(),
                settings: s1.stricter(s2),
            },
            _ => b.copy(),
        },
        Action::SetRepoSetting { key, enabled: e1 } => match b {
            Action::SetRepoSetting { enabled: e2, .. } => Action::SetRepoSetting {
                key: key.clone(),
                enabled: *e1 || *e2,
            },
            _ => b.copy(),
        },
        Action::UpdateGitignorePatterns { patterns: p } => match b {
            Action::UpdateGitignorePatterns { patterns: q } => Action::UpdateGitignorePatterns {
                patterns: unite_patterns(p, q),
            },
            _ => b.copy(),
        },
        Action::WriteFile { .. } => b.copy(),
    }
}

fn find_key(w: &Vec<PlannedAction>, a: &Action) -> (r: Option<usize>)
    requires
        keys_unique(planned_view(w@)),
    ensures
        match r {
            Some(i) => i < w.len() && i as int == index_of_key(planned_view(w@), a@.key()),
            None => index_of_key(planned_view(w@), a@.key()) == -1,
        },
{
    let ghost wv = planned_view(w@);
    let mut i: usize = 0;
    while i < w.len()
        invariant
            i <= w.len(),
            wv == planned_view(w@),
            keys_unique(wv),
            forall|j: int| 0 <= j < i ==> wv[j].0.key() != a@.key(),
        decreases w.len() - i,
    {
        if w[i].action.same_key(a) {
            assert(wv[i as int].0.key() == a@.key());
            assert(has_key(wv, a@.key()));
            proof {
                let c = index_of_key(wv, a@.key());
                assert(0 <= c < wv.len() && wv[c].0.key() == a@.key());
                assert(i < wv.len());
                assert(c == i as int) by {
                    if c < i as int {
                        assert(wv[c].0.key() != wv[i as int].0.key());
                    } else if c > i as int {
                        assert(wv[i as int].0.key() != wv[c].0.key());
                    }
                }
            }
            return Some(i);
        }
        i = i + 1;
    }
    assert(!has_key(wv, a@.key()));
    None
}

fn insert_action(
    work: &mut Vec<PlannedAction>,
    preserved: &mut Vec<Action>,
    x: &Action,
    optional: bool,
    preserve: bool,
)
    requires
        keys_unique(planned_view(old(work)@)),
    ensures
        ({
            let c = insert_candidate(
                Collected {
                    entries: planned_view(old(work)@),
                    preserved: actions_view(old(preserved)@),
                },
                (x@, optional),
                preserve,
            );
            planned_view(final(work)@) == c.entries && actions_view(final(preserved)@)
                == c.preserved
        }),
{
    let ghost w0 = planned_view(work@);
    let ghost p0 = actions_view(preserved@);
    match find_key(work, x) {
        None => {
            work.push(PlannedAction { action: x.copy(), optional });
            assert(planned_view(work@) =~= w0.push((x@, optional)));
        },
        Some(i) => {
            let is_file = match x {
                Action::WriteFile { .. } => true,
                _ => false,
            };
            if preserve && is_file {
                preserved.push(x.copy());
                assert(actions_view(preserved@) =~= p0.push(x@));
            } else {
                let merged = PlannedAction {
                    action: merge_actions(&work[i].action, x),
                    optional: work[i].optional && optional,
                };
                work[i] = merged;
                assert(planned_view(work@) =~= w0.update(
                    i as int,
                    (merge_views(w0[i as int].0, x@), w0[i as int].1 && optional),
                ));
            }
        },
    }
}

fn append_tier(out: &mut Vec<PlannedAction>, w: &Vec<PlannedAction>, t: u8)
    ensures
        planned_view(final(out)@) == planned_view(old(out)@) + of_tier(planned_view(w@), t as nat),
{
    let ghost o0 = planned_view(out@);
    let ghost wv = planned_view(w@);
    let mut k: usize = 0;
    while k < w.len()
        invariant
            k <= w.len(),
            wv == planned_view(w@),
            planned_view(out@) == o0 + of_tier(wv.take(k as int), t as nat),
        decreases w.len() - k,
    {
        assert(wv.take(k + 1).drop_last() =~= wv.take(k as int));
        assert(wv.take(k + 1).last() == wv[k as int]);
        if w[k].action.tier() == t {
            let ghost before = planned_view(out@);
            out.push(w[k].copy());
            assert(planned_view(out@) =~= before.push(wv[k as int]));
        }
        k = k + 1;
    }
    assert(wv.take(w.len() as int) =~= wv);
}

/// Plans the remediation of the given audit results under `config`.
pub fn plan(results: &AuditResults, config: &DesiredConfig, generated_at: u64) -> (r: ActionPlan)
    ensures
        r@ == spec_plan(results@, config@, generated_at),
{
    let mut work: Vec<PlannedAction> = Vec::new();
    let mut preserved: Vec<Action> = Vec::new();
    let preserve = config.preserve_existing;
    let ghost fv = results@;
    let mut i: usize = 0;
    while i < results.findings.len()
        invariant
            i <= results.findings.len(),
            fv == results@,
            preserve == config@.preserve_existing,
            planned_view(work@) == collect(finding_candidates(fv.take(i as int)), preserve).entries,
            actions_view(preserved@) == collect(finding_candidates(fv.take(i as int)), preserve).preserved,
            keys_unique(planned_view(work@)),
        decreases results.findings.len() - i,
    {
        let f = &results.findings[i];
        assert(fv.take(i + 1).drop_last() =~= fv.take(i as int));
        assert(fv.take(i + 1).last() == f@);
        let ghost prev = finding_candidates(fv.take(i as int));
        match &f.remediation {
            Some(a) => {
                let optional = !f.severity.is_required();
                assert(prev.push((a@, optional)).drop_last() =~= prev);
                insert_action(&mut work, &mut preserved, a, optional, preserve);
            },
            None => {},
        }
        proof {
            lemma_collect_unique(finding_candidates(fv.take(i + 1)), preserve);
        }
        i = i + 1;
    }
    assert(fv.take(results.findings.len() as int) =~= fv);
    let ghost fc = finding_candidates(fv);
    let ghost rc = required_candidates(config@.required_actions);
    let mut j: usize = 0;
    while j < config.required_actions.len()
        invariant
            j <= config.required_actions.len(),
            preserve == config@.preserve_existing,
            rc == required_candidates(config@.required_actions),
            planned_view(work@) == collect(fc + rc.take(j as int), preserve).entries,
            actions_view(preserved@) == collect(fc + rc.take(j as int), preserve).preserved,
            keys_unique(planned_view(work@)),
        decreases config.required_actions.len() - j,
    {
        let a = &config.required_actions[j];
        assert((fc + rc.take(j + 1)).drop_last() =~= fc + rc.take(j as int));
        assert((fc + rc.take(j + 1)).last() == (a@, false));
        insert_action(&mut work, &mut preserved, a, false, preserve);
        proof {
            lemma_collect_unique(fc + rc.take(j + 1), preserve);
        }
        j = j + 1;
    }
    assert(fc + rc.take(config.required_actions.len() as int) =~= spec_candidates(fv, config@));
    let mut actions: Vec<PlannedAction> = Vec::new();
    append_tier(&mut actions, &work, 0);
    append_tier(&mut actions, &work, 1);
    append_tier(&mut actions, &work, 2);
    assert(planned_view(actions@) =~= tiered(planned_view(work@)));
    ActionPlan { actions, preserved, preset: config.preset.clone(), generated_at }
}

/// Planning is a function of its inputs: auditing the same rule outcomes
/// twice and planning each under the same configuration gives structurally
/// identical plans.
pub proof fn lemma_plan_idempotent(
    first: Seq<RuleOutcomeView>,
    second: Seq<RuleOutcomeView>,
    policy: Seq<CheckPolicyView>,
    config: DesiredConfigView,
    generated_at: u64,
)
    requires
        first == second,
    ensures
        spec_plan(spec_evaluate(first, policy), config, generated_at) == spec_plan(
            spec_evaluate(second, policy),
            config,
            generated_at,
        ),
{
}

} // verus!
