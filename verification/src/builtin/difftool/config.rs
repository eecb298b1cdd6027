//! The configuration that `git difftool` reads: `core.symlinks` and
//! `difftool.trustExitCode`.
use vstd::prelude::*;

verus! {

/// Settings read from the configuration.
#[derive(Debug, Default)]
pub struct DifftoolConfig {
    pub has_symlinks: bool,
    pub trust_exit_code: bool,
}

impl DifftoolConfig {
    /// The settings before any configuration is read: symbolic links are
    /// supported and the tool's exit code is not trusted.
    pub fn new() -> (c: Self)
        ensures
            c.has_symlinks,
            !c.trust_exit_code,
    {
        DifftoolConfig { has_symlinks: true, trust_exit_code: false }
    }

    /// Record the boolean value of a configuration key: `core.symlinks` sets
    /// `has_symlinks`, `difftool.trustexitcode` sets `trust_exit_code`, and
    /// any other key changes nothing here.
    pub fn set(&mut self, key: ConfigKey, value: bool)
        ensures
            final(self).has_symlinks == (if key == ConfigKey::CoreSymlinks {
                value
            } else {
                old(self).has_symlinks
            }),
            final(self).trust_exit_code == (if key == ConfigKey::TrustExitCode {
                value
            } else {
                old(self).trust_exit_code
            }),
    {
        match key {
            ConfigKey::CoreSymlinks => {
                self.has_symlinks = value;
            },
            ConfigKey::TrustExitCode => {
                self.trust_exit_code = value;
            },
            ConfigKey::Other => {},
        }
    }
}

/// The keys `git difftool` reads itself; the others go to the default
/// configuration callback.
#[derive(Debug, Clone, Copy, PartialEq, Eq, Structural)]
pub enum ConfigKey {
    /// `core.symlinks`
    CoreSymlinks,
    /// `difftool.trustexitcode`
    TrustExitCode,
    /// Any other key, or one that is missing or not UTF-8.
    Other,
}

/// The kind of a configuration key, given as text (`None` where the key is
/// missing or not UTF-8). Keys arrive lowercased, so the match is exact.
pub fn classify_config_key(key: Option<&str>) -> (k: ConfigKey)
    ensures
        k == (match key {
            Some(s) => if s@ == "core.symlinks"@ {
                ConfigKey::CoreSymlinks
            } else if s@ == "difftool.trustexitcode"@ {
                ConfigKey::TrustExitCode
            } else {
                ConfigKey::Other
            },
            None => ConfigKey::Other,
        }),
{
    match key {
        Some(s) => {
            let owned = s.to_owned();
            if owned == "core.symlinks".to_owned() {
                ConfigKey::CoreSymlinks
            } else if owned == "difftool.trustexitcode".to_owned() {
                ConfigKey::TrustExitCode
            } else {
                ConfigKey::Other
            }
        },
        None => ConfigKey::Other,
    }
}

} // verus!
