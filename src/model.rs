//! Findings, severities and remediation actions.

use vstd::prelude::*;

verus! {

/// How serious a finding is; totally ordered from `Info` to `Critical`.
#[derive(Clone, Copy, Debug, PartialEq, Eq, Structural)]
pub enum Severity {
    Info,
    Warning,
    Error,
    Critical,
}

impl Severity {
    /// Position of the severity in the total order.
    pub open spec fn spec_rank(self) -> nat {
        match self {
            Severity::Info => 0,
            Severity::Warning => 1,
            Severity::Error => 2,
            Severity::Critical => 3,
        }
    }

    pub fn rank(&self) -> (r: u8)
        ensures
            r as nat == self.spec_rank(),
    {
        match self {
            Severity::Info => 0,
            Severity::Warning => 1,
            Severity::Error => 2,
            Severity::Critical => 3,
        }
    }

    /// A required finding is one at severity `Error` or above.
    pub open spec fn spec_is_required(self) -> bool {
        self.spec_rank() >= 2
    }

    pub fn is_required(&self) -> (r: bool)
        ensures
            r == self.spec_is_required(),
    {
        self.rank() >= 2
    }
}

/// Protection rules for one branch.
#[derive(Clone, Copy, Debug, PartialEq, Eq, Structural)]
pub struct BranchProtectionSettings {
    pub required_approvals: u32,
    pub require_status_checks: bool,
    pub enforce_admins: bool,
    pub require_linear_history: bool,
    pub block_force_push: bool,
    pub block_deletions: bool,
    pub require_conversation_resolution: bool,
    pub require_signed_commits: bool,
}

/// The stricter of two settings, field by field.
pub open spec fn stricter_settings(
    a: BranchProtectionSettings,
    b: BranchProtectionSettings,
) -> BranchProtectionSettings {
    BranchProtectionSettings {
        required_approvals: if a.required_approvals >= b.required_approvals {
            a.required_approvals
        } else {
            b.required_approvals
        },
        require_status_checks: a.require_status_checks || b.require_status_checks,
        enforce_admins: a.enforce_admins || b.enforce_admins,
        require_linear_history: a.require_linear_history || b.require_linear_history,
        block_force_push: a.block_force_push || b.block_force_push,
        block_deletions: a.block_deletions || b.block_deletions,
        require_conversation_resolution: a.require_conversation_resolution
            || b.require_conversation_resolution,
        require_signed_commits: a.require_signed_commits || b.require_signed_commits,
    }
}

/// `current` is at least as strict as `wanted` in every field.
pub open spec fn satisfies_settings(
    current: BranchProtectionSettings,
    wanted: BranchProtectionSettings,
) -> bool {
    &&& current.required_approvals >= wanted.required_approvals
    &&& (wanted.require_status_checks ==> current.require_status_checks)
    &&& (wanted.enforce_admins ==> current.enforce_admins)
    &&& (wanted.require_linear_history ==> current.require_linear_history)
    &&& (wanted.block_force_push ==> current.block_force_push)
    &&& (wanted.block_deletions ==> current.block_deletions)
    &&& (wanted.require_conversation_resolution ==> current.require_conversation_resolution)
    &&& (wanted.require_signed_commits ==> current.require_signed_commits)
}

impl BranchProtectionSettings {
    pub fn stricter(&self, other: &BranchProtectionSettings) -> (r: BranchProtectionSettings)
        ensures
            r == stricter_settings(*self, *other),
    {
        BranchProtectionSettings {
            required_approvals: if self.required_approvals >= other.required_approvals {
                self.required_approvals
            } else {
                other.required_approvals
            },
            require_status_checks: self.require_status_checks || other.require_status_checks,
            enforce_admins: self.enforce_admins || other.enforce_admins,
            require_linear_history: self.require_linear_history || other.require_linear_history,
            block_force_push: self.block_force_push || other.block_force_push,
            block_deletions: self.block_deletions || other.block_deletions,
            require_conversation_resolution: self.require_conversation_resolution
                || other.require_conversation_resolution,
            require_signed_commits: self.require_signed_commits || other.require_signed_commits,
        }
    }

    pub fn satisfies(&self, wanted: &BranchProtectionSettings) -> (r: bool)
        ensures
            r == satisfies_settings(*self, *wanted),
    {
        self.required_approvals >= wanted.required_approvals && (!wanted.require_status_checks
            || self.require_status_checks) && (!wanted.enforce_admins || self.enforce_admins) && (
        !wanted.require_linear_history || self.require_linear_history) && (
        !wanted.block_force_push || self.block_force_push) && (!wanted.block_deletions
            || self.block_deletions) && (!wanted.require_conversation_resolution
            || self.require_conversation_resolution) && (!wanted.require_signed_commits
            || self.require_signed_commits)
    }
}

/// A remediation operation; each variant carries everything needed to apply it.
#[derive(Debug)]
pub enum Action {
    SetBranchProtection { branch: String, settings: BranchProtectionSettings },
    SetRepoSetting { key: String, enabled: bool },
    WriteFile { path: String, content: String, overwrite: bool },
    UpdateGitignorePatterns { patterns: Vec<String> },
}

/// The mathematical value of an [`Action`].
pub enum ActionView {
    SetBranchProtection { branch: Seq<char>, settings: BranchProtectionSettings },
    SetRepoSetting { key: Seq<char>, enabled: bool },
    WriteFile { path: Seq<char>, content: Seq<char>, overwrite: bool },
    UpdateGitignorePatterns { patterns: Seq<Seq<char>> },
}

/// The contents of a list of strings.
pub open spec fn strings_view(v: Seq<String>) -> Seq<Seq<char>> {
    v.map_values(|s: String| s@)
}

impl View for Action {
    type V = ActionView;

    open spec fn view(&self) -> ActionView {
        match self {
            Action::SetBranchProtection { branch, settings } => ActionView::SetBranchProtection {
                branch: branch@,
                settings: *settings,
            },
            Action::SetRepoSetting { key, enabled } => ActionView::SetRepoSetting {
                key: key@,
                enabled: *enabled,
            },
            Action::WriteFile { path, content, overwrite } => ActionView::WriteFile {
                path: path@,
                content: content@,
                overwrite: *overwrite,
            },
            Action::UpdateGitignorePatterns { patterns } => ActionView::UpdateGitignorePatterns {
                patterns: strings_view(patterns@),
            },
        }
    }
}

/// Which kind of target an action addresses; also the order of the tiers.
#[derive(Clone, Copy, Debug, PartialEq, Eq, Structural)]
pub enum ActionKind {
    RepoSetting,
    BranchProtection,
    FileContent,
    Gitignore,
}

/// What an action targets: two actions with the same key conflict.
pub struct ActionKey {
    pub kind: ActionKind,
    pub target: Seq<char>,
}

impl ActionView {
    pub open spec fn kind(self) -> ActionKind {
        match self {
            ActionView::SetRepoSetting { .. } => ActionKind::RepoSetting,
            ActionView::SetBranchProtection { .. } => ActionKind::BranchProtection,
            ActionView::WriteFile { .. } => ActionKind::FileContent,
            ActionView::UpdateGitignorePatterns { .. } => ActionKind::Gitignore,
        }
    }

    pub open spec fn key(self) -> ActionKey {
        ActionKey {
            kind: self.kind(),
            target: match self {
                ActionView::SetRepoSetting { key, .. } => key,
                ActionView::SetBranchProtection { branch, .. } => branch,
                ActionView::WriteFile { path, .. } => path,
                ActionView::UpdateGitignorePatterns { .. } => Seq::empty(),
            },
        }
    }

    /// Repository-wide settings first, then branch-scoped, then file content.
    pub open spec fn tier(self) -> nat {
        match self.kind() {
            ActionKind::RepoSetting => 0,
            ActionKind::BranchProtection => 1,
            _ => 2,
        }
    }
}

/// A copy of a list of strings.
pub fn copy_strings(v: &Vec<String>) -> (r: Vec<String>)
    ensures
        strings_view(r@) == strings_view(v@),
{
    let mut r: Vec<String> = Vec::new();
    let mut i: usize = 0;
    while i < v.len()
        invariant
            i <= v.len(),
            r.len() == i,
            forall|j: int| 0 <= j < i ==> #[trigger] r@[j]@ == v@[j]@,
        decreases v.len() - i,
    {
        r.push(v[i].clone());
        i = i + 1;
    }
    assert(strings_view(r@) =~= strings_view(v@));
    r
}

impl Action {
    pub fn kind(&self) -> (r: ActionKind)
        ensures
            r == self@.kind(),
    {
        match self {
            Action::SetRepoSetting { .. } => ActionKind::RepoSetting,
            Action::SetBranchProtection { .. } => ActionKind::BranchProtection,
            Action::WriteFile { .. } => ActionKind::FileContent,
            Action::UpdateGitignorePatterns { .. } => ActionKind::Gitignore,
        }
    }

    pub fn tier(&self) -> (r: u8)
        ensures
            r as nat == self@.tier(),
    {
        match self {
            Action::SetRepoSetting { .. } => 0,
            Action::SetBranchProtection { .. } => 1,
            _ => 2,
        }
    }

    /// Whether the two actions target the same (kind, target) pair.
    pub fn same_key(&self, other: &Action) -> (r: bool)
        ensures
            r == (self@.key() == other@.key()),
    {
        match self {
            Action::SetRepoSetting { key: a, .. } => match other {
                Action::SetRepoSetting { key: b, .. } => a.eq(b),
                _ => false,
            },
            Action::SetBranchProtection { branch: a, .. } => match other {
                Action::SetBranchProtection { branch: b, .. } => a.eq(b),
                _ => false,
            },
            Action::WriteFile { path: a, .. } => match other {
                Action::WriteFile { path: b, .. } => a.eq(b),
                _ => false,
            },
            Action::UpdateGitignorePatterns { .. } => match other {
                Action::UpdateGitignorePatterns { .. } => true,
                _ => false,
            },
        }
    }

    pub fn copy(&self) -> (r: Action)
        ensures
            r@ == self@,
    {
        match self {
            Action::SetBranchProtection { branch, settings } => Action::SetBranchProtection {
                branch: branch.clone(),
                settings: *settings,
            },
            Action::SetRepoSetting { key, enabled } => Action::SetRepoSetting {
                key: key.clone(),
                enabled: *enabled,
            },
            Action::WriteFile { path, content, overwrite } => Action::WriteFile {
                path: path.clone(),
                content: content.clone(),
                overwrite: *overwrite,
            },
            Action::UpdateGitignorePatterns { patterns } => Action::UpdateGitignorePatterns {
                patterns: copy_strings(patterns),
            },
        }
    }
}

/// A single policy violation, with an optional remediation.
#[derive(Debug)]
pub struct Finding {
    pub rule_id: String,
    pub target: String,
    pub severity: Severity,
    pub message: String,
    pub remediation: Option<Action>,
}

pub struct FindingView {
    pub rule_id: Seq<char>,
    pub target: Seq<char>,
    pub severity: Severity,
    pub message: Seq<char>,
    pub remediation: Option<ActionView>,
}

impl View for Finding {
    type V = FindingView;

    open spec fn view(&self) -> FindingView {
        FindingView {
            rule_id: self.rule_id@,
            target: self.target@,
            severity: self.severity,
            message: self.message@,
            remediation: match self.remediation {
                Some(a) => Some(a@),
                None => None,
            },
        }
    }
}

impl Finding {
    pub fn copy(&self) -> (r: Finding)
        ensures
            r@ == self@,
    {
        Finding {
            rule_id: self.rule_id.clone(),
            target: self.target.clone(),
            severity: self.severity,
            message: self.message.clone(),
            remediation: match &self.remediation {
                Some(a) => Some(a.copy()),
                None => None,
            },
        }
    }
}

/// Whether `s` is one of the strings of `v`.
pub fn contains_string(v: &Vec<String>, s: &String) -> (r: bool)
    ensures
        r == strings_view(v@).contains(s@),
{
    let mut i: usize = 0;
    while i < v.len()
        invariant
            i <= v.len(),
            forall|j: int| 0 <= j < i ==> v@[j]@ != s@,
        decreases v.len() - i,
    {
        if v[i].eq(s) {
            assert(strings_view(v@)[i as int] == s@);
            return true;
        }
        i = i + 1;
    }
    assert forall|j: int| 0 <= j < strings_view(v@).len() implies strings_view(v@)[j] != s@ by {
        assert(strings_view(v@)[j] == v@[j]@);
    }
    false
}

} // verus!
