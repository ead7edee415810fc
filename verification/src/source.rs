//! Where a package comes from, and how the resolver picks between sources.

use vstd::prelude::*;

verus! {

/// The source a package is installed from.
#[derive(Clone, Copy, Debug, PartialEq, Eq, Structural, Hash)]
pub enum PackageSource {
    System,
    Marketplace,
    FlutterApp,
    Community,
    Unknown,
}

/// The name a source is shown under.
pub open spec fn source_label(s: PackageSource) -> Seq<char> {
    match s {
        PackageSource::System => "system"@,
        PackageSource::Marketplace => "marketplace"@,
        PackageSource::FlutterApp => "flutter-app"@,
        PackageSource::Community => "community"@,
        PackageSource::Unknown => "unknown"@,
    }
}

impl PackageSource {
    /// The name this source is shown under (`system`, `marketplace`, `flutter-app`, ...).
    pub fn label(&self) -> (r: &'static str)
        ensures
            r@ == source_label(*self),
    {
        match self {
            PackageSource::System => "system",
            PackageSource::Marketplace => "marketplace",
            PackageSource::FlutterApp => "flutter-app",
            PackageSource::Community => "community",
            PackageSource::Unknown => "unknown",
        }
    }
}

/// Which source wins when a name resolves in more than one.
#[derive(Clone, Copy, Debug, PartialEq, Eq, Structural, Hash)]
pub enum ResolutionStrategy {
    SystemFirst,
    MarketplaceFirst,
}

pub open spec fn strategy_name(s: ResolutionStrategy) -> Seq<char> {
    match s {
        ResolutionStrategy::SystemFirst => "SystemFirst"@,
        ResolutionStrategy::MarketplaceFirst => "MarketplaceFirst"@,
    }
}

impl ResolutionStrategy {
    /// The variant's name, as status output shows it.
    pub fn name(&self) -> (r: &'static str)
        ensures
            r@ == strategy_name(*self),
    {
        match self {
            ResolutionStrategy::SystemFirst => "SystemFirst",
            ResolutionStrategy::MarketplaceFirst => "MarketplaceFirst",
        }
    }
}

} // verus!
