//! The repository's current settings, as fetched before planning, and the
//! test of whether an action is already in effect.

use vstd::prelude::*;
use crate::model::{
    contains_string, satisfies_settings, strings_view, Action, ActionView,
    BranchProtectionSettings,
};

verus! {

pub struct ProtectionEntry {
    pub branch: String,
    pub settings: BranchProtectionSettings,
}

pub struct SettingEntry {
    pub key: String,
    pub enabled: bool,
}

pub struct FileEntry {
    pub path: String,
    pub content: String,
}

/// A snapshot of the remote settings and tracked files of a repository.
pub struct RepoState {
    pub branch_protection: Vec<ProtectionEntry>,
    pub repo_settings: Vec<SettingEntry>,
    pub files: Vec<FileEntry>,
    pub gitignore: Vec<String>,
}

/// The repository already has what `a` would set.
pub open spec fn compliant(a: ActionView, s: RepoState) -> bool {
    match a {
        ActionView::SetBranchProtection { branch, settings } => exists|i: int|
            0 <= i < s.branch_protection@.len() && #[trigger] s.branch_protection@[i].branch@
                == branch && satisfies_settings(s.branch_protection@[i].settings, settings),
        ActionView::SetRepoSetting { key, enabled } => exists|i: int|
            0 <= i < s.repo_settings@.len() && #[trigger] s.repo_settings@[i].key@ == key
                && s.repo_settings@[i].enabled == enabled,
        ActionView::WriteFile { path, content, overwrite } => exists|i: int|
            0 <= i < s.files@.len() && #[trigger] s.files@[i].path@ == path && (!overwrite
                || s.files@[i].content@ == content),
        ActionView::UpdateGitignorePatterns { patterns } => all_present(
            patterns,
            strings_view(s.gitignore@),
        ),
    }
}

/// Every pattern of `patterns` occurs in `present`.
pub open spec fn all_present(patterns: Seq<Seq<char>>, present: Seq<Seq<char>>) -> bool {
    forall|j: int| 0 <= j < patterns.len() ==> present.contains(#[trigger] patterns[j])
}

impl RepoState {
    /// Whether `a` is already in effect in this snapshot.
    pub fn is_compliant(&self, a: &Action) -> (r: bool)
        ensures
            r == compliant(a@, *self),
    {
        match a {
            Action::SetBranchProtection { branch, settings } => {
                let mut i: usize = 0;
                while i < self.branch_protection.len()
                    invariant
                        i <= self.branch_protection.len(),
                        a@ == (ActionView::SetBranchProtection { branch: branch@, settings: *settings }),
                        forall|j: int|
                            0 <= j < i ==> !(#[trigger] self.branch_protection@[j].branch@
                                == branch@ && satisfies_settings(
                                self.branch_protection@[j].settings,
                                *settings,
                            )),
                    decreases self.branch_protection.len() - i,
                {
                    let e = &self.branch_protection[i];
                    if e.branch.eq(branch) && e.settings.satisfies(settings) {
                        assert(self.branch_protection@[i as int].branch@ == branch@);
                        return true;
                    }
                    i = i + 1;
                }
                false
            },
            Action::SetRepoSetting { key, enabled } => {
                let mut i: usize = 0;
                while i < self.repo_settings.len()
                    invariant
                        i <= self.repo_settings.len(),
                        a@ == (ActionView::SetRepoSetting { key: key@, enabled: *enabled }),
                        forall|j: int|
                            0 <= j < i ==> !(#[trigger] self.repo_settings@[j].key@ == key@
                                && self.repo_settings@[j].enabled == *enabled),
                    decreases self.repo_settings.len() - i,
                {
                    let e = &self.repo_settings[i];
                    if e.key.eq(key) && e.enabled == *enabled {
                        assert(self.repo_settings@[i as int].key@ == key@);
                        return true;
                    }
                    i = i + 1;
                }
                false
            },
            Action::WriteFile { path, content, overwrite } => {
                let mut i: usize = 0;
                while i < self.files.len()
                    invariant
                        i <= self.files.len(),
                        a@ == (ActionView::WriteFile {
                            path: path@,
                            content: content@,
                            overwrite: *overwrite,
                        }),
                        forall|j: int|
                            0 <= j < i ==> !(#[trigger] self.files@[j].path@ == path@ && (
                            !*overwrite || self.files@[j].content@ == content@)),
                    decreases self.files.len() - i,
                {
                    let e = &self.files[i];
                    if e.path.eq(path) && (!*overwrite || e.content.eq(content)) {
                        assert(self.files@[i as int].path@ == path@);
                        return true;
                    }
                    i = i + 1;
                }
                false
            },
            Action::UpdateGitignorePatterns { patterns } => {
                let ghost pv = strings_view(patterns@);
                let mut i: usize = 0;
                while i < patterns.len()
                    invariant
                        i <= patterns.len(),
                        pv == strings_view(patterns@),
                        a@ == (ActionView::UpdateGitignorePatterns { patterns: pv }),
                        forall|j: int|
                            0 <= j < i ==> strings_view(self.gitignore@).contains(#[trigger] pv[j]),
                    decreases patterns.len() - i,
                {
                    if !contains_string(&self.gitignore, &patterns[i]) {
                        assert(pv[i as int] == patterns@[i as int]@);
                        assert(!strings_view(self.gitignore@).contains(pv[i as int]));
                        return false;
                    }
                    i = i + 1;
                }
                true
            },
        }
    }
}

} // verus!
