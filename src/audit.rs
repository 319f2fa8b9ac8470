//! Aggregation of rule outcomes into audit results.

use vstd::prelude::*;
use crate::model::{Finding, FindingView, Severity};

verus! {

/// What one rule of the catalog produced: its findings, or the reason it
/// could not be evaluated.
pub struct RuleOutcome {
    pub rule_id: String,
    pub result: Result<Vec<Finding>, String>,
}

pub struct RuleOutcomeView {
    pub rule_id: Seq<char>,
    pub result: Result<Seq<FindingView>, Seq<char>>,
}

pub open spec fn findings_view(v: Seq<Finding>) -> Seq<FindingView> {
    v.map_values(|f: Finding| f@)
}

impl View for RuleOutcome {
    type V = RuleOutcomeView;

    open spec fn view(&self) -> RuleOutcomeView {
        RuleOutcomeView {
            rule_id: self.rule_id@,
            result: match self.result {
                Ok(v) => Ok(findings_view(v@)),
                Err(m) => Err(m@),
            },
        }
    }
}

pub open spec fn outcomes_view(v: Seq<RuleOutcome>) -> Seq<RuleOutcomeView> {
    v.map_values(|o: RuleOutcome| o@)
}

/// The warning that stands for a rule that failed to evaluate.
pub open spec fn failure_finding(rule_id: Seq<char>, message: Seq<char>) -> FindingView {
    FindingView {
        rule_id,
        target: Seq::empty(),
        severity: Severity::Warning,
        message,
        remediation: None,
    }
}

/// The policy of one check: whether it runs, and the severity its findings
/// are reported at instead of their own.
pub struct CheckPolicy {
    pub check_id: String,
    pub enabled: bool,
    pub severity: Option<Severity>,
}

pub struct CheckPolicyView {
    pub check_id: Seq<char>,
    pub enabled: bool,
    pub severity: Option<Severity>,
}

impl View for CheckPolicy {
    type V = CheckPolicyView;

    open spec fn view(&self) -> CheckPolicyView {
        CheckPolicyView { check_id: self.check_id@, enabled: self.enabled, severity: self.severity }
    }
}

pub open spec fn policies_view(v: Seq<CheckPolicy>) -> Seq<CheckPolicyView> {
    v.map_values(|c: CheckPolicy| c@)
}

/// The first policy entry for check `id`, if any.
pub open spec fn policy_for(ps: Seq<CheckPolicyView>, id: Seq<char>) -> Option<CheckPolicyView> {
    if exists|i: int| 0 <= i < ps.len() && #[trigger] ps[i].check_id == id {
        let i = choose|i: int|
            0 <= i < ps.len() && #[trigger] ps[i].check_id == id && forall|j: int|
                0 <= j < i ==> #[trigger] ps[j].check_id != id;
        Some(ps[i])
    } else {
        None
    }
}

pub open spec fn with_severity(fs: Seq<FindingView>, s: Severity) -> Seq<FindingView> {
    fs.map_values(
        |f: FindingView|
            FindingView {
                rule_id: f.rule_id,
                target: f.target,
                severity: s,
                message: f.message,
                remediation: f.remediation,
            },
    )
}

/// What one rule contributes under its policy: nothing when disabled; its
/// findings, at the overriding severity if one is set; or the warning that
/// stands for its failure.
pub open spec fn outcome_findings(o: RuleOutcomeView, p: Option<CheckPolicyView>) -> Seq<FindingView> {
    match p {
        Some(c) if !c.enabled => Seq::empty(),
        _ => match o.result {
            Ok(fs) => match p {
                Some(c) => match c.severity {
                    Some(s) => with_severity(fs, s),
                    None => fs,
                },
                None => fs,
            },
            Err(m) => seq![failure_finding(o.rule_id, m)],
        },
    }
}

/// Every finding of every rule, in catalog order.
pub open spec fn emitted(os: Seq<RuleOutcomeView>, ps: Seq<CheckPolicyView>) -> Seq<FindingView>
    decreases os.len(),
{
    if os.len() == 0 {
        Seq::empty()
    } else {
        emitted(os.drop_last(), ps) + outcome_findings(os.last(), policy_for(ps, os.last().rule_id))
    }
}

pub open spec fn same_finding_key(a: FindingView, b: FindingView) -> bool {
    a.rule_id == b.rule_id && a.target == b.target
}

pub open spec fn has_finding_key(d: Seq<FindingView>, f: FindingView) -> bool {
    exists|i: int| 0 <= i < d.len() && same_finding_key(#[trigger] d[i], f)
}

/// The first finding of each (rule, target) pair, in order.
pub open spec fn dedup(fs: Seq<FindingView>) -> Seq<FindingView>
    decreases fs.len(),
{
    if fs.len() == 0 {
        Seq::empty()
    } else {
        let d = dedup(fs.drop_last());
        if has_finding_key(d, fs.last()) {
            d
        } else {
            d.push(fs.last())
        }
    }
}

pub open spec fn spec_evaluate(os: Seq<RuleOutcomeView>, ps: Seq<CheckPolicyView>) -> Seq<FindingView> {
    dedup(emitted(os, ps))
}

/// Number of findings at severity `s`.
pub open spec fn spec_count(fs: Seq<FindingView>, s: Severity) -> nat
    decreases fs.len(),
{
    if fs.len() == 0 {
        0
    } else {
        spec_count(fs.drop_last(), s) + if fs.last().severity == s {
            1nat
        } else {
            0nat
        }
    }
}

/// The deduplicated findings of one audit run.
#[derive(Debug)]
pub struct AuditResults {
    pub findings: Vec<Finding>,
}

impl View for AuditResults {
    type V = Seq<FindingView>;

    open spec fn view(&self) -> Seq<FindingView> {
        findings_view(self.findings@)
    }
}

fn contains_finding_key(d: &Vec<Finding>, f: &Finding) -> (r: bool)
    ensures
        r == has_finding_key(findings_view(d@), f@),
{
    let ghost dv = findings_view(d@);
    let mut i: usize = 0;
    while i < d.len()
        invariant
            i <= d.len(),
            dv == findings_view(d@),
            forall|j: int| 0 <= j < i ==> !same_finding_key(#[trigger] dv[j], f@),
        decreases d.len() - i,
    {
        if d[i].rule_id.eq(&f.rule_id) && d[i].target.eq(&f.target) {
            assert(same_finding_key(dv[i as int], f@));
            return true;
        }
        i = i + 1;
    }
    false
}

fn find_policy<'a>(policy: &'a Vec<CheckPolicy>, id: &String) -> (r: Option<&'a CheckPolicy>)
    ensures
        match r {
            Some(c) => policy_for(policies_view(policy@), id@) == Some(c@),
            None => policy_for(policies_view(policy@), id@) is None,
        },
{
    let ghost ps = policies_view(policy@);
    let mut i: usize = 0;
    while i < policy.len()
        invariant
            i <= policy.len(),
            ps == policies_view(policy@),
            forall|j: int| 0 <= j < i ==> #[trigger] ps[j].check_id != id@,
        decreases policy.len() - i,
    {
        if policy[i].check_id.eq(id) {
            proof {
                assert(ps[i as int].check_id == id@);
                let c = choose|c: int|
                    0 <= c < ps.len() && #[trigger] ps[c].check_id == id@ && forall|j: int|
                        0 <= j < c ==> #[trigger] ps[j].check_id != id@;
                assert(0 <= c < ps.len() && ps[c].check_id == id@ && forall|j: int|
                    0 <= j < c ==> #[trigger] ps[j].check_id != id@);
                if c < i {
                } else if c > i {
                    assert(ps[i as int].check_id != id@);
                }
                assert(c == i);
            }
            return Some(&policy[i]);
        }
        i = i + 1;
    }
    None
}

fn add_unique(out: &mut Vec<Finding>, f: &Finding)
    ensures
        findings_view(final(out)@) == if has_finding_key(findings_view(old(out)@), f@) {
            findings_view(old(out)@)
        } else {
            findings_view(old(out)@).push(f@)
        },
{
    let ghost o0 = findings_view(out@);
    if !contains_finding_key(out, f) {
        out.push(f.copy());
        assert(findings_view(out@) =~= o0.push(f@));
    }
}

/// Collects the findings of every enabled rule, at the severity its policy
/// sets; turns each rule that failed into a warning naming it; and keeps the
/// first finding of each (rule, target).
pub fn evaluate(outcomes: &Vec<RuleOutcome>, policy: &Vec<CheckPolicy>) -> (r: AuditResults)
    ensures
        r@ == spec_evaluate(outcomes_view(outcomes@), policies_view(policy@)),
{
    let ghost os = outcomes_view(outcomes@);
    let ghost ps = policies_view(policy@);
    let mut out: Vec<Finding> = Vec::new();
    let mut i: usize = 0;
    while i < outcomes.len()
        invariant
            i <= outcomes.len(),
            os == outcomes_view(outcomes@),
            ps == policies_view(policy@),
            findings_view(out@) == dedup(emitted(os.take(i as int), ps)),
        decreases outcomes.len() - i,
    {
        let o = &outcomes[i];
        let ghost before = emitted(os.take(i as int), ps);
        assert(os.take(i + 1).drop_last() =~= os.take(i as int));
        assert(os.take(i + 1).last() == o@);
        let pol = find_policy(policy, &o.rule_id);
        let (enabled, severity) = match pol {
            Some(c) => (c.enabled, c.severity),
            None => (true, None),
        };
        if !enabled {
            assert(before + Seq::<FindingView>::empty() =~= before);
        } else {
        match &o.result {
            Ok(fs) => {
                let ghost fv = findings_view(fs@);
                let ghost gv = match severity {
                    Some(s) => with_severity(fv, s),
                    None => fv,
                };
                let mut k: usize = 0;
                while k < fs.len()
                    invariant
                        k <= fs.len(),
                        fv == findings_view(fs@),
                        gv == (match severity {
                            Some(s) => with_severity(fv, s),
                            None => fv,
                        }),
                        findings_view(out@) == dedup(before + gv.take(k as int)),
                    decreases fs.len() - k,
                {
                    assert((before + gv.take(k + 1)).drop_last() =~= before + gv.take(k as int));
                    let mut f = fs[k].copy();
                    match severity {
                        Some(s) => {
                            f.severity = s;
                        },
                        None => {},
                    }
                    assert((before + gv.take(k + 1)).last() == f@);
                    add_unique(&mut out, &f);
                    k = k + 1;
                }
                assert(gv.take(fs.len() as int) =~= gv);
            },
            Err(m) => {
                let f = Finding {
                    rule_id: o.rule_id.clone(),
                    target: String::new(),
                    severity: Severity::Warning,
                    message: m.clone(),
                    remediation: None,
                };
                assert(f@ == failure_finding(o@.rule_id, o@.result->Err_0));
                assert((before + seq![f@]).drop_last() =~= before);
                add_unique(&mut out, &f);
            },
        }
        }
        i = i + 1;
    }
    assert(os.take(outcomes.len() as int) =~= os);
    AuditResults { findings: out }
}

impl AuditResults {
    /// Number of findings at severity `s`.
    pub fn count(&self, s: Severity) -> (r: usize)
        ensures
            r == spec_count(self@, s),
    {
        let ghost fv = self@;
        let mut n: usize = 0;
        let mut i: usize = 0;
        while i < self.findings.len()
            invariant
                i <= self.findings.len(),
                fv == self@,
                n == spec_count(fv.take(i as int), s),
                n <= i,
            decreases self.findings.len() - i,
        {
            assert(fv.take(i + 1).drop_last() =~= fv.take(i as int));
            assert(fv.take(i + 1).last() == self.findings@[i as int]@);
            if self.findings[i].severity == s {
                n = n + 1;
            }
            i = i + 1;
        }
        assert(fv.take(self.findings.len() as int) =~= fv);
        n
    }

    /// No finding at severity `Error` or above.
    pub fn all_required_passed(&self) -> (r: bool)
        ensures
            r == forall|i: int| 0 <= i < self@.len() ==> !(#[trigger] self@[i]).severity.spec_is_required(),
    {
        let mut i: usize = 0;
        while i < self.findings.len()
            invariant
                i <= self.findings.len(),
                forall|j: int| 0 <= j < i ==> !(#[trigger] self@[j]).severity.spec_is_required(),
            decreases self.findings.len() - i,
        {
            assert(self@[i as int] == self.findings@[i as int]@);
            if self.findings[i].severity.is_required() {
                return false;
            }
            i = i + 1;
        }
        true
    }

    /// Some finding is a warning.
    pub fn has_warnings(&self) -> (r: bool)
        ensures
            r == exists|i: int| 0 <= i < self@.len() && (#[trigger] self@[i]).severity == Severity::Warning,
    {
        let mut i: usize = 0;
        while i < self.findings.len()
            invariant
                i <= self.findings.len(),
                forall|j: int| 0 <= j < i ==> (#[trigger] self@[j]).severity != Severity::Warning,
            decreases self.findings.len() - i,
        {
            assert(self@[i as int] == self.findings@[i as int]@);
            if self.findings[i].severity == Severity::Warning {
                return true;
            }
            i = i + 1;
        }
        false
    }
}

} // verus!
