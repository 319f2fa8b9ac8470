//! Decisions of the command that creates a configuration file.

use vstd::prelude::*;
use crate::text::same_text;

verus! {

/// A named starting configuration.
#[derive(Clone, Copy, Debug, PartialEq, Eq, Structural)]
pub enum Preset {
    OpenSource,
    Enterprise,
    Strict,
}

pub open spec fn preset_name(p: Preset) -> Seq<char> {
    match p {
        Preset::OpenSource => "opensource"@,
        Preset::Enterprise => "enterprise"@,
        Preset::Strict => "strict"@,
    }
}

pub open spec fn preset_named(name: Seq<char>) -> Option<Preset> {
    if name == "opensource"@ {
        Some(Preset::OpenSource)
    } else if name == "enterprise"@ {
        Some(Preset::Enterprise)
    } else if name == "strict"@ {
        Some(Preset::Strict)
    } else {
        None
    }
}

impl Preset {
    pub fn name(&self) -> (r: &'static str)
        ensures
            r@ == preset_name(*self),
    {
        match self {
            Preset::OpenSource => "opensource",
            Preset::Enterprise => "enterprise",
            Preset::Strict => "strict",
        }
    }

    pub fn from_name(name: &str) -> (r: Option<Preset>)
        ensures
            r == preset_named(name@),
    {
        if same_text(name, "opensource") {
            Some(Preset::OpenSource)
        } else if same_text(name, "enterprise") {
            Some(Preset::Enterprise)
        } else if same_text(name, "strict") {
            Some(Preset::Strict)
        } else {
            None
        }
    }

    /// The preset at position `i` of the interactive list; open source for
    /// any other position.
    pub fn from_selection(i: usize) -> (r: Preset)
        ensures
            r == (if i == 1 {
                Preset::Enterprise
            } else if i == 2 {
                Preset::Strict
            } else {
                Preset::OpenSource
            }),
    {
        if i == 1 {
            Preset::Enterprise
        } else if i == 2 {
            Preset::Strict
        } else {
            Preset::OpenSource
        }
    }
}

/// What to do when an input needs the user's consent.
#[derive(Clone, Copy, Debug, PartialEq, Eq, Structural)]
pub enum Gate {
    Proceed,
    Stop,
    Ask,
}

/// After the prerequisite checks: go on when every required check passed,
/// stop when one failed and no one can be asked, ask otherwise.
pub fn after_checks(all_required_passed: bool, non_interactive: bool) -> (r: Gate)
    ensures
        r == (if all_required_passed {
            Gate::Proceed
        } else if non_interactive {
            Gate::Stop
        } else {
            Gate::Ask
        }),
{
    if all_required_passed {
        Gate::Proceed
    } else if non_interactive {
        Gate::Stop
    } else {
        Gate::Ask
    }
}

/// Whether an existing configuration file may be overwritten.
pub fn existing_config(file_exists: bool, force: bool, non_interactive: bool) -> (r: Gate)
    ensures
        r == (if !file_exists || force {
            Gate::Proceed
        } else if non_interactive {
            Gate::Stop
        } else {
            Gate::Ask
        }),
{
    if !file_exists || force {
        Gate::Proceed
    } else if non_interactive {
        Gate::Stop
    } else {
        Gate::Ask
    }
}

/// How the preset is chosen.
#[derive(Clone, Copy, Debug, PartialEq, Eq, Structural)]
pub enum PresetChoice {
    Use(Preset),
    /// The given name is no preset.
    Invalid,
    Ask,
}

/// A named preset wins; without one, open source when no one can be asked.
pub fn choose_preset(name: Option<&str>, non_interactive: bool) -> (r: PresetChoice)
    ensures
        r == (match name {
            Some(n) => match preset_named(n@) {
                Some(p) => PresetChoice::Use(p),
                None => PresetChoice::Invalid,
            },
            None => if non_interactive {
                PresetChoice::Use(Preset::OpenSource)
            } else {
                PresetChoice::Ask
            },
        }),
{
    match name {
        Some(n) => match Preset::from_name(n) {
            Some(p) => PresetChoice::Use(p),
            None => PresetChoice::Invalid,
        },
        None => if non_interactive {
            PresetChoice::Use(Preset::OpenSource)
        } else {
            PresetChoice::Ask
        },
    }
}

} // verus!
