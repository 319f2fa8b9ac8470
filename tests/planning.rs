use repolens::audit::{evaluate, AuditResults, CheckPolicy, RuleOutcome};
use repolens::model::{Action, BranchProtectionSettings, Finding, Severity};
use repolens::planner::{plan, DesiredConfig};

fn settings(approvals: u32, linear: bool) -> BranchProtectionSettings {
    BranchProtectionSettings {
        required_approvals: approvals,
        require_status_checks: false,
        enforce_admins: false,
        require_linear_history: linear,
        block_force_push: false,
        block_deletions: false,
        require_conversation_resolution: false,
        require_signed_commits: false,
    }
}

fn protect(branch: &str, approvals: u32, linear: bool) -> Action {
    Action::SetBranchProtection { branch: branch.to_string(), settings: settings(approvals, linear) }
}

fn finding(rule: &str, target: &str, severity: Severity, remediation: Option<Action>) -> Finding {
    Finding {
        rule_id: rule.to_string(),
        target: target.to_string(),
        severity,
        message: format!("{} violated", rule),
        remediation,
    }
}

fn config(required: Vec<Action>, preserve: bool) -> DesiredConfig {
    DesiredConfig { preset: "opensource".to_string(), required_actions: required, preserve_existing: preserve }
}

#[test]
fn conflicting_protection_merges_to_strictest() {
    let results = AuditResults {
        findings: vec![
            finding("BP001", "main", Severity::Error, Some(protect("main", 1, false))),
            finding("BP002", "main", Severity::Error, Some(protect("main", 3, false))),
        ],
    };
    let p = plan(&results, &config(vec![], false), 0);
    assert_eq!(p.actions.len(), 1);
    match &p.actions[0].action {
        Action::SetBranchProtection { branch, settings } => {
            assert_eq!(branch, "main");
            assert_eq!(settings.required_approvals, 3);
        }
        other => panic!("unexpected action {:?}", other),
    }
}

#[test]
fn merge_takes_each_stricter_field() {
    let results = AuditResults {
        findings: vec![
            finding("A", "main", Severity::Warning, Some(protect("main", 2, false))),
            finding("B", "main", Severity::Warning, Some(protect("main", 1, true))),
        ],
    };
    let p = plan(&results, &config(vec![], false), 0);
    assert_eq!(p.actions.len(), 1);
    match &p.actions[0].action {
        Action::SetBranchProtection { settings, .. } => {
            assert_eq!(settings.required_approvals, 2);
            assert!(settings.require_linear_history);
        }
        other => panic!("unexpected action {:?}", other),
    }
    assert!(p.actions[0].optional);
}

#[test]
fn required_finding_makes_action_required() {
    let results = AuditResults {
        findings: vec![
            finding("A", "main", Severity::Warning, Some(protect("main", 2, false))),
            finding("B", "main", Severity::Critical, Some(protect("main", 1, false))),
        ],
    };
    let p = plan(&results, &config(vec![], false), 0);
    assert!(!p.actions[0].optional);
}

#[test]
fn no_two_actions_share_a_key() {
    let results = AuditResults {
        findings: vec![
            finding("A", "main", Severity::Error, Some(protect("main", 1, false))),
            finding("B", "x", Severity::Error, Some(Action::SetRepoSetting { key: "vulnerability_alerts".to_string(), enabled: false })),
            finding("C", "dev", Severity::Error, Some(protect("dev", 1, false))),
            finding("D", "x", Severity::Error, Some(Action::SetRepoSetting { key: "vulnerability_alerts".to_string(), enabled: true })),
            finding("E", "main", Severity::Error, Some(protect("main", 2, false))),
        ],
    };
    let p = plan(&results, &config(vec![protect("dev", 0, true)], false), 0);
    assert_eq!(p.actions.len(), 3);
    match &p.actions[0].action {
        Action::SetRepoSetting { key, enabled } => {
            assert_eq!(key, "vulnerability_alerts");
            assert!(*enabled);
        }
        other => panic!("unexpected action {:?}", other),
    }
    match (&p.actions[1].action, &p.actions[2].action) {
        (Action::SetBranchProtection { branch: a, settings: sa }, Action::SetBranchProtection { branch: b, settings: sb }) => {
            assert_eq!(a, "main");
            assert_eq!(sa.required_approvals, 2);
            assert_eq!(b, "dev");
            assert!(sb.require_linear_history);
            assert_eq!(sb.required_approvals, 1);
        }
        other => panic!("unexpected actions {:?}", other),
    }
}

#[test]
fn tiers_order_settings_branches_files() {
    let results = AuditResults {
        findings: vec![
            finding("F", "LICENSE", Severity::Error, Some(Action::WriteFile { path: "LICENSE".to_string(), content: "MIT".to_string(), overwrite: false })),
            finding("B", "main", Severity::Error, Some(protect("main", 1, false))),
            finding("S", "x", Severity::Error, Some(Action::SetRepoSetting { key: "secret_scanning".to_string(), enabled: true })),
        ],
    };
    let p = plan(&results, &config(vec![], false), 0);
    assert_eq!(p.actions.len(), 3);
    assert!(matches!(p.actions[0].action, Action::SetRepoSetting { .. }));
    assert!(matches!(p.actions[1].action, Action::SetBranchProtection { .. }));
    assert!(matches!(p.actions[2].action, Action::WriteFile { .. }));
}

#[test]
fn file_content_later_rule_wins() {
    let results = AuditResults {
        findings: vec![
            finding("A", "README.md", Severity::Error, Some(Action::WriteFile { path: "README.md".to_string(), content: "one".to_string(), overwrite: true })),
            finding("B", "README.md", Severity::Error, Some(Action::WriteFile { path: "README.md".to_string(), content: "two".to_string(), overwrite: true })),
        ],
    };
    let p = plan(&results, &config(vec![], false), 0);
    assert_eq!(p.actions.len(), 1);
    match &p.actions[0].action {
        Action::WriteFile { content, .. } => assert_eq!(content, "two"),
        other => panic!("unexpected action {:?}", other),
    }
    assert!(p.preserved.is_empty());
}

#[test]
fn file_content_preserved_drops_later() {
    let results = AuditResults {
        findings: vec![
            finding("A", "README.md", Severity::Error, Some(Action::WriteFile { path: "README.md".to_string(), content: "one".to_string(), overwrite: true })),
            finding("B", "README.md", Severity::Error, Some(Action::WriteFile { path: "README.md".to_string(), content: "two".to_string(), overwrite: true })),
        ],
    };
    let p = plan(&results, &config(vec![], true), 0);
    assert_eq!(p.actions.len(), 1);
    match &p.actions[0].action {
        Action::WriteFile { content, .. } => assert_eq!(content, "one"),
        other => panic!("unexpected action {:?}", other),
    }
    assert_eq!(p.preserved.len(), 1);
    match &p.preserved[0] {
        Action::WriteFile { content, .. } => assert_eq!(content, "two"),
        other => panic!("unexpected action {:?}", other),
    }
}

#[test]
fn gitignore_patterns_are_united() {
    let results = AuditResults {
        findings: vec![
            finding("G1", ".gitignore", Severity::Warning, Some(Action::UpdateGitignorePatterns { patterns: vec![".env".to_string(), "*.key".to_string()] })),
            finding("G2", ".gitignore", Severity::Warning, Some(Action::UpdateGitignorePatterns { patterns: vec!["*.key".to_string(), "target/".to_string()] })),
        ],
    };
    let p = plan(&results, &config(vec![], false), 0);
    assert_eq!(p.actions.len(), 1);
    match &p.actions[0].action {
        Action::UpdateGitignorePatterns { patterns } => {
            assert_eq!(patterns, &vec![".env".to_string(), "*.key".to_string(), "target/".to_string()]);
        }
        other => panic!("unexpected action {:?}", other),
    }
}

#[test]
fn empty_findings_with_config_give_baseline_plan() {
    let results = AuditResults { findings: vec![] };
    let p = plan(&results, &config(vec![protect("main", 1, false)], false), 42);
    assert_eq!(p.actions.len(), 1);
    assert!(!p.actions[0].optional);
    assert_eq!(p.generated_at, 42);
    assert_eq!(p.preset, "opensource");
}

#[test]
fn compliant_repository_gives_empty_plan() {
    let results = AuditResults { findings: vec![finding("INFO", "x", Severity::Info, None)] };
    let p = plan(&results, &config(vec![], false), 0);
    assert!(p.actions.is_empty());
}

#[test]
fn planning_twice_gives_identical_plans() {
    let outcomes = || {
        vec![
            RuleOutcome { rule_id: "BP".to_string(), result: Ok(vec![finding("BP", "main", Severity::Error, Some(protect("main", 2, true)))]) },
            RuleOutcome { rule_id: "LIC".to_string(), result: Err("malformed".to_string()) },
            RuleOutcome { rule_id: "SET".to_string(), result: Ok(vec![finding("SET", "x", Severity::Warning, Some(Action::SetRepoSetting { key: "k".to_string(), enabled: true }))]) },
        ]
    };
    let policy = || vec![CheckPolicy { check_id: "SET".to_string(), enabled: true, severity: Some(Severity::Critical) }];
    let cfg = || config(vec![Action::WriteFile { path: "SECURITY.md".to_string(), content: "policy".to_string(), overwrite: false }], false);
    let first = plan(&evaluate(&outcomes(), &policy()), &cfg(), 7);
    let second = plan(&evaluate(&outcomes(), &policy()), &cfg(), 7);
    assert_eq!(format!("{:?}", first), format!("{:?}", second));
    assert_eq!(first.actions.len(), 3);
    assert!(!first.actions[0].optional);
}
