//! Configuration: the defaults, and how a partial configuration file overrides them.

use vstd::prelude::*;
use vstd::string::StringExecFns;

use crate::source::ResolutionStrategy;

verus! {

/// Configuration for ark behavior.
#[derive(Debug, Clone, PartialEq, Eq)]
pub struct ArkConfig {
    /// Default resolution strategy when source is ambiguous.
    pub default_strategy: ResolutionStrategy,
    /// Require confirmation for apt installs (default: true).
    pub confirm_system_installs: bool,
    /// Require confirmation for removals (default: true).
    pub confirm_removals: bool,
    /// Check for updates on search (default: false).
    pub auto_update_check: bool,
    /// ANSI colors in output (default: true).
    pub color_output: bool,
    /// Marketplace package storage directory.
    pub marketplace_dir: String,
    /// Cache directory for ark metadata.
    pub cache_dir: String,
}

pub struct ConfigView {
    pub default_strategy: ResolutionStrategy,
    pub confirm_system_installs: bool,
    pub confirm_removals: bool,
    pub auto_update_check: bool,
    pub color_output: bool,
    pub marketplace_dir: Seq<char>,
    pub cache_dir: Seq<char>,
}

impl View for ArkConfig {
    type V = ConfigView;

    open spec fn view(&self) -> ConfigView {
        ConfigView {
            default_strategy: self.default_strategy,
            confirm_system_installs: self.confirm_system_installs,
            confirm_removals: self.confirm_removals,
            auto_update_check: self.auto_update_check,
            color_output: self.color_output,
            marketplace_dir: self.marketplace_dir@,
            cache_dir: self.cache_dir@,
        }
    }
}

/// The built-in configuration.
pub open spec fn default_config() -> ConfigView {
    ConfigView {
        default_strategy: ResolutionStrategy::SystemFirst,
        confirm_system_installs: true,
        confirm_removals: true,
        auto_update_check: false,
        color_output: true,
        marketplace_dir: "/var/lib/agnos/marketplace"@,
        cache_dir: "/var/cache/agnos/ark"@,
    }
}

impl Default for ArkConfig {
    fn default() -> (r: ArkConfig)
        ensures
            r@ == default_config(),
    {
        ArkConfig {
            default_strategy: ResolutionStrategy::SystemFirst,
            confirm_system_installs: true,
            confirm_removals: true,
            auto_update_check: false,
            color_output: true,
            marketplace_dir: String::from_str("/var/lib/agnos/marketplace"),
            cache_dir: String::from_str("/var/cache/agnos/ark"),
        }
    }
}

/// A configuration file's settings: each one that is set overrides the base.
#[derive(Debug, Clone)]
pub struct PartialArkConfig {
    pub default_strategy: Option<ResolutionStrategy>,
    pub confirm_system_installs: Option<bool>,
    pub confirm_removals: Option<bool>,
    pub auto_update_check: Option<bool>,
    pub color_output: Option<bool>,
    pub marketplace_dir: Option<String>,
    pub cache_dir: Option<String>,
}

pub open spec fn or_keep<T>(v: Option<T>, base: T) -> T {
    match v {
        Some(x) => x,
        None => base,
    }
}

/// `base` with every setting that `p` sets replaced by `p`'s.
pub open spec fn merged(p: PartialArkConfig, base: ConfigView) -> ConfigView {
    ConfigView {
        default_strategy: or_keep(p.default_strategy, base.default_strategy),
        confirm_system_installs: or_keep(p.confirm_system_installs, base.confirm_system_installs),
        confirm_removals: or_keep(p.confirm_removals, base.confirm_removals),
        auto_update_check: or_keep(p.auto_update_check, base.auto_update_check),
        color_output: or_keep(p.color_output, base.color_output),
        marketplace_dir: or_keep(p.marketplace_dir.deep_view(), base.marketplace_dir),
        cache_dir: or_keep(p.cache_dir.deep_view(), base.cache_dir),
    }
}

impl PartialArkConfig {
    /// Overrides in `base` every setting that this one sets.
    pub fn merge_into(self, base: &mut ArkConfig)
        ensures
            final(base)@ == merged(self, old(base)@),
    {
        if let Some(v) = self.default_strategy {
            base.default_strategy = v;
        }
        if let Some(v) = self.confirm_system_installs {
            base.confirm_system_installs = v;
        }
        if let Some(v) = self.confirm_removals {
            base.confirm_removals = v;
        }
        if let Some(v) = self.auto_update_check {
            base.auto_update_check = v;
        }
        if let Some(v) = self.color_output {
            base.color_output = v;
        }
        if let Some(v) = self.marketplace_dir {
            base.marketplace_dir = v;
        }
        if let Some(v) = self.cache_dir {
            base.cache_dir = v;
        }
    }
}

} // verus!

verus! {

/// A configuration file that sets nothing leaves the configuration as it
/// was; one that sets everything replaces it whole.
pub proof fn law_merge_nothing_or_everything(p: PartialArkConfig, base: ConfigView)
    ensures
        (p.default_strategy is None && p.confirm_system_installs is None && p.confirm_removals is None
            && p.auto_update_check is None && p.color_output is None && p.marketplace_dir is None
            && p.cache_dir is None) ==> merged(p, base) == base,
        (p.default_strategy is Some && p.confirm_system_installs is Some && p.confirm_removals is Some
            && p.auto_update_check is Some && p.color_output is Some && p.marketplace_dir is Some
            && p.cache_dir is Some) ==> merged(p, base) == merged(p, default_config()),
{
}

} // verus!
