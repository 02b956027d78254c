//! Process configuration: the base storage directory and the per-index
//! commit policy defaults, supplied once at catalog construction and
//! treated as an immutable input record.

use vstd::prelude::*;

verus! {

/// When the commit scheduler publishes pending writes: after `interval_ms`
/// milliseconds since the last commit, or as soon as `size_threshold`
/// documents are pending, whichever fires first.
#[derive(Debug, Clone, Copy, PartialEq, Eq, Structural)]
pub struct CommitPolicy {
    pub interval_ms: u64,
    pub size_threshold: u64,
}

/// Mathematical model of the settings.
pub struct SettingsV {
    pub base_directory: Seq<char>,
    pub default_policy: CommitPolicy,
}

/// The immutable configuration record handed to the catalog at startup.
#[derive(Debug)]
pub struct Settings {
    pub base_directory: String,
    pub default_policy: CommitPolicy,
}

impl View for Settings {
    type V = SettingsV;

    open spec fn view(&self) -> SettingsV {
        SettingsV { base_directory: self.base_directory@, default_policy: self.default_policy }
    }
}

impl Clone for Settings {
    fn clone(&self) -> (r: Settings)
        ensures
            r@ == self@,
    {
        Settings { base_directory: self.base_directory.clone(), default_policy: self.default_policy }
    }
}

impl Settings {
    pub fn new(base_directory: String, default_policy: CommitPolicy) -> (s: Settings)
        ensures
            s@ == (SettingsV { base_directory: base_directory@, default_policy }),
    {
        Settings { base_directory, default_policy }
    }
}

} // verus!
