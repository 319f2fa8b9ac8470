use repolens::branch_protection::{classify_protection_failure, protection_request};
use repolens::executor::ErrorClass;
use repolens::init::{after_checks, choose_preset, existing_config, Gate, Preset, PresetChoice};
use repolens::model::BranchProtectionSettings;
use repolens::text::{contains_text, same_text};

#[test]
fn request_follows_settings() {
    let s = BranchProtectionSettings {
        required_approvals: 2,
        require_status_checks: true,
        enforce_admins: false,
        require_linear_history: true,
        block_force_push: true,
        block_deletions: false,
        require_conversation_resolution: true,
        require_signed_commits: true,
    };
    let r = protection_request(&s);
    assert_eq!(r.required_approving_review_count, Some(2));
    assert!(r.strict_status_checks);
    assert!(!r.enforce_admins);
    assert!(r.required_linear_history);
    assert!(!r.allow_force_pushes);
    assert!(r.allow_deletions);
    assert!(r.required_conversation_resolution);
    assert!(r.require_signatures);
    let none = protection_request(&BranchProtectionSettings { required_approvals: 0, ..s });
    assert_eq!(none.required_approving_review_count, None);
}

#[test]
fn unavailable_feature_is_transient() {
    assert_eq!(classify_protection_failure("gh: Resource not accessible by integration (HTTP 403)"), ErrorClass::Transient);
    assert_eq!(classify_protection_failure("gh: Not Found (HTTP 404)"), ErrorClass::Fatal);
    assert_eq!(classify_protection_failure(""), ErrorClass::Fatal);
}

#[test]
fn text_search() {
    assert!(contains_text("abcabd", "abd"));
    assert!(contains_text("abc", ""));
    assert!(!contains_text("ab", "abc"));
    assert!(!contains_text("abcabc", "cb"));
    assert!(same_text("strict", "strict"));
    assert!(!same_text("strict", "stric"));
}

#[test]
fn presets_by_name_and_position() {
    assert_eq!(Preset::from_name("opensource"), Some(Preset::OpenSource));
    assert_eq!(Preset::from_name("enterprise"), Some(Preset::Enterprise));
    assert_eq!(Preset::from_name("strict"), Some(Preset::Strict));
    assert_eq!(Preset::from_name("lax"), None);
    assert_eq!(Preset::Strict.name(), "strict");
    assert_eq!(Preset::from_selection(1), Preset::Enterprise);
    assert_eq!(Preset::from_selection(2), Preset::Strict);
    assert_eq!(Preset::from_selection(9), Preset::OpenSource);
}

#[test]
fn init_gates() {
    assert_eq!(after_checks(true, true), Gate::Proceed);
    assert_eq!(after_checks(false, true), Gate::Stop);
    assert_eq!(after_checks(false, false), Gate::Ask);
    assert_eq!(existing_config(false, false, true), Gate::Proceed);
    assert_eq!(existing_config(true, true, true), Gate::Proceed);
    assert_eq!(existing_config(true, false, true), Gate::Stop);
    assert_eq!(existing_config(true, false, false), Gate::Ask);
    assert_eq!(choose_preset(Some("enterprise"), false), PresetChoice::Use(Preset::Enterprise));
    assert_eq!(choose_preset(Some("bogus"), true), PresetChoice::Invalid);
    assert_eq!(choose_preset(None, true), PresetChoice::Use(Preset::OpenSource));
    assert_eq!(choose_preset(None, false), PresetChoice::Ask);
}
