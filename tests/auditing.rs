use repolens::audit::{evaluate, AuditResults, CheckPolicy, RuleOutcome};
use repolens::model::{Finding, Severity};

fn finding(rule: &str, target: &str, severity: Severity) -> Finding {
    Finding { rule_id: rule.to_string(), target: target.to_string(), severity, message: format!("{}:{}", rule, target), remediation: None }
}

#[test]
fn failed_rule_becomes_warning() {
    let outcomes = vec![
        RuleOutcome { rule_id: "CI001".to_string(), result: Err("malformed workflow".to_string()) },
        RuleOutcome { rule_id: "LIC001".to_string(), result: Ok(vec![finding("LIC001", "LICENSE", Severity::Error)]) },
    ];
    let r = evaluate(&outcomes, &vec![]);
    assert_eq!(r.findings.len(), 2);
    assert_eq!(r.findings[0].rule_id, "CI001");
    assert_eq!(r.findings[0].severity, Severity::Warning);
    assert_eq!(r.findings[0].message, "malformed workflow");
    assert_eq!(r.findings[0].target, "");
    assert!(r.findings[0].remediation.is_none());
    assert_eq!(r.findings[1].rule_id, "LIC001");
}

#[test]
fn duplicates_by_rule_and_target_are_dropped() {
    let outcomes = vec![
        RuleOutcome { rule_id: "A".to_string(), result: Ok(vec![finding("A", "x", Severity::Error), finding("A", "y", Severity::Info), finding("A", "x", Severity::Critical)]) },
        RuleOutcome { rule_id: "B".to_string(), result: Ok(vec![finding("B", "x", Severity::Warning)]) },
        RuleOutcome { rule_id: "A".to_string(), result: Ok(vec![finding("A", "y", Severity::Critical)]) },
    ];
    let r = evaluate(&outcomes, &vec![]);
    assert_eq!(r.findings.len(), 3);
    assert_eq!(r.findings[0].severity, Severity::Error);
    assert_eq!(r.findings[1].target, "y");
    assert_eq!(r.findings[1].severity, Severity::Info);
    assert_eq!(r.findings[2].rule_id, "B");
}

#[test]
fn no_rules_no_findings() {
    let r = evaluate(&vec![], &vec![]);
    assert!(r.findings.is_empty());
    assert!(r.all_required_passed());
    assert!(!r.has_warnings());
}

#[test]
fn counts_by_severity() {
    let r = AuditResults {
        findings: vec![
            finding("a", "1", Severity::Error),
            finding("b", "1", Severity::Warning),
            finding("c", "1", Severity::Error),
            finding("d", "1", Severity::Critical),
        ],
    };
    assert_eq!(r.count(Severity::Info), 0);
    assert_eq!(r.count(Severity::Warning), 1);
    assert_eq!(r.count(Severity::Error), 2);
    assert_eq!(r.count(Severity::Critical), 1);
    assert!(!r.all_required_passed());
    assert!(r.has_warnings());
}

#[test]
fn warnings_alone_pass_required_checks() {
    let r = AuditResults { findings: vec![finding("a", "1", Severity::Warning), finding("b", "1", Severity::Info)] };
    assert!(r.all_required_passed());
}

#[test]
fn severity_order() {
    assert!(Severity::Info.rank() < Severity::Warning.rank());
    assert!(Severity::Warning.rank() < Severity::Error.rank());
    assert!(Severity::Error.rank() < Severity::Critical.rank());
    assert!(!Severity::Warning.is_required());
    assert!(Severity::Error.is_required());
}

#[test]
fn disabled_check_contributes_nothing() {
    let outcomes = vec![
        RuleOutcome { rule_id: "A".to_string(), result: Ok(vec![finding("A", "x", Severity::Error)]) },
        RuleOutcome { rule_id: "B".to_string(), result: Err("broken".to_string()) },
        RuleOutcome { rule_id: "C".to_string(), result: Ok(vec![finding("C", "x", Severity::Info)]) },
    ];
    let policy = vec![
        CheckPolicy { check_id: "A".to_string(), enabled: false, severity: None },
        CheckPolicy { check_id: "B".to_string(), enabled: false, severity: None },
    ];
    let r = evaluate(&outcomes, &policy);
    assert_eq!(r.findings.len(), 1);
    assert_eq!(r.findings[0].rule_id, "C");
}

#[test]
fn severity_override_applies_to_rule_findings() {
    let outcomes = vec![
        RuleOutcome { rule_id: "A".to_string(), result: Ok(vec![finding("A", "x", Severity::Info), finding("A", "y", Severity::Warning)]) },
        RuleOutcome { rule_id: "B".to_string(), result: Err("broken".to_string()) },
    ];
    let policy = vec![
        CheckPolicy { check_id: "A".to_string(), enabled: true, severity: Some(Severity::Critical) },
        CheckPolicy { check_id: "A".to_string(), enabled: false, severity: None },
        CheckPolicy { check_id: "B".to_string(), enabled: true, severity: Some(Severity::Critical) },
    ];
    let r = evaluate(&outcomes, &policy);
    assert_eq!(r.findings.len(), 3);
    assert_eq!(r.findings[0].severity, Severity::Critical);
    assert_eq!(r.findings[1].severity, Severity::Critical);
    assert_eq!(r.findings[2].severity, Severity::Warning);
    assert!(!r.all_required_passed());
}
