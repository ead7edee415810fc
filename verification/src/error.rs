//! Errors of the library: what went wrong, and on which argument or package.

use vstd::prelude::*;
use vstd::string::StringExecFns;

verus! {

/// What went wrong.
#[derive(Clone, Copy, Debug, PartialEq, Eq, Structural, Hash)]
pub enum ErrorKind {
    /// No arguments at all.
    NoCommand,
    /// The first argument names no command (the subject).
    UnknownCommand,
    /// `--group` came last, with no name after it.
    GroupNeedsName,
    /// `install` got a flag it does not know (the subject).
    UnknownInstallFlag,
    /// `install` got neither a package nor a group.
    InstallNeedsTarget,
    /// `remove` got a flag it does not know (the subject).
    UnknownRemoveFlag,
    /// `remove` got no package.
    RemoveNeedsTarget,
    /// `--source` came last, with no value after it.
    SourceNeedsValue,
    /// A source name that is not known (the subject).
    UnknownSourceName,
    /// `search` got a flag it does not know (the subject).
    UnknownSearchFlag,
    /// `search` got no query.
    SearchNeedsQuery,
    /// `list` got a flag it does not know (the subject).
    UnknownListFlag,
    /// `list` got an argument that is no flag (the subject).
    UnexpectedListArg,
    /// `info` got no package.
    InfoNeedsPackage,
    /// `info` got more than one package.
    InfoTakesOnePackage,
    /// An install was asked for no package.
    NoPackagesToInstall,
    /// A removal was asked for no package.
    NoPackagesToRemove,
    /// The resolver failed on a package (the subject); its reason is kept as the
    /// detail, the cause under the message.
    ResolveFailed,
    /// The resolver failed on a package to remove (the subject); its reason
    /// (the detail) is the whole message.
    ResolverError,
    /// No source knows the package (the subject).
    PackageNotFound,
    /// No source knows the package to remove (the subject).
    PackageNotFoundForRemoval,
    /// The package resolved to an unknown source (the subject).
    UndeterminedSource,
    /// The dependencies of the package (the subject) form a cycle.
    CircularDependency,
    /// The `search` subcommand got no query words.
    SearchNeedsWords,
    /// The `--source` option named an unknown source (the subject, lowercased).
    UnknownSourceOption,
}

/// An error, with the argument or package it is about and, for a resolver
/// failure, the resolver's reason.
#[derive(Clone, Debug, PartialEq, Eq)]
pub struct ArkError {
    pub kind: ErrorKind,
    pub subject: String,
    pub detail: String,
}

pub struct ErrorView {
    pub kind: ErrorKind,
    pub subject: Seq<char>,
    pub detail: Seq<char>,
}

impl View for ArkError {
    type V = ErrorView;

    open spec fn view(&self) -> ErrorView {
        ErrorView { kind: self.kind, subject: self.subject@, detail: self.detail@ }
    }
}

/// An error about `subject`, with no detail.
pub open spec fn err_of(kind: ErrorKind, subject: Seq<char>) -> ErrorView {
    ErrorView { kind, subject, detail: Seq::empty() }
}

/// The text an error is reported with.
pub open spec fn error_message(e: ErrorView) -> Seq<char> {
    match e.kind {
        ErrorKind::NoCommand => "No command specified. Usage: ark <command> [options] [packages...]"@,
        ErrorKind::UnknownCommand => "Unknown command: "@ + e.subject
            + ". Available: install, remove, search, list, info, update, upgrade, status"@,
        ErrorKind::GroupNeedsName => "--group requires a group name (e.g., desktop, ai, edge)"@,
        ErrorKind::UnknownInstallFlag => "Unknown flag for install: "@ + e.subject,
        ErrorKind::InstallNeedsTarget => "install requires at least one package name or --group <name>"@,
        ErrorKind::UnknownRemoveFlag => "Unknown flag for remove: "@ + e.subject,
        ErrorKind::RemoveNeedsTarget => "remove requires at least one package name"@,
        ErrorKind::SourceNeedsValue => "--source requires a value (system, marketplace, flutter)"@,
        ErrorKind::UnknownSourceName => "Unknown package source: '"@ + e.subject
            + "'. Use: system, marketplace, flutter"@,
        ErrorKind::UnknownSearchFlag => "Unknown flag for search: "@ + e.subject,
        ErrorKind::SearchNeedsQuery => "search requires a query string"@,
        ErrorKind::UnknownListFlag => "Unknown flag for list: "@ + e.subject,
        ErrorKind::UnexpectedListArg => "Unexpected argument for list: "@ + e.subject,
        ErrorKind::InfoNeedsPackage => "info requires a package name"@,
        ErrorKind::InfoTakesOnePackage => "info accepts only one package name"@,
        ErrorKind::NoPackagesToInstall => "No packages specified for installation"@,
        ErrorKind::NoPackagesToRemove => "No packages specified for removal"@,
        ErrorKind::ResolveFailed => "Failed to resolve package: "@ + e.subject,
        ErrorKind::ResolverError => e.detail,
        ErrorKind::PackageNotFound => "Package not found: "@ + e.subject,
        ErrorKind::PackageNotFoundForRemoval => "Package not found for removal: "@ + e.subject,
        ErrorKind::UndeterminedSource => "Cannot determine source for package: "@ + e.subject,
        ErrorKind::CircularDependency => "circular dependency detected involving '"@ + e.subject
            + "'"@,
        ErrorKind::SearchNeedsWords => "search requires a query"@,
        ErrorKind::UnknownSourceOption => "Unknown source: '"@ + e.subject + "'"@,
    }
}

impl ArkError {
    /// An error about `subject`.
    pub fn about(kind: ErrorKind, subject: &str) -> (r: ArkError)
        ensures
            r@ == err_of(kind, subject@),
    {
        ArkError { kind, subject: String::from_str(subject), detail: String::new() }
    }

    /// An error about nothing in particular.
    pub fn plain(kind: ErrorKind) -> (r: ArkError)
        ensures
            r@ == err_of(kind, Seq::empty()),
    {
        ArkError { kind, subject: String::new(), detail: String::new() }
    }

    /// The resolver failed on `package` for `reason`.
    pub fn resolve_failed(package: &str, reason: &str) -> (r: ArkError)
        ensures
            r@ == (ErrorView {
                kind: ErrorKind::ResolveFailed,
                subject: package@,
                detail: reason@,
            }),
    {
        ArkError {
            kind: ErrorKind::ResolveFailed,
            subject: String::from_str(package),
            detail: String::from_str(reason),
        }
    }

    /// The resolver failed on `package`, to be removed, for `reason`.
    pub fn resolver_error(package: &str, reason: &str) -> (r: ArkError)
        ensures
            r@ == (ErrorView { kind: ErrorKind::ResolverError, subject: package@, detail: reason@ }),
    {
        ArkError {
            kind: ErrorKind::ResolverError,
            subject: String::from_str(package),
            detail: String::from_str(reason),
        }
    }

    /// The text this error is reported with.
    pub fn message(&self) -> (r: String)
        ensures
            r@ == error_message(self@),
    {
        let s = self.subject.as_str();
        match self.kind {
            ErrorKind::NoCommand => String::from_str(
                "No command specified. Usage: ark <command> [options] [packages...]",
            ),
            ErrorKind::UnknownCommand => String::from_str("Unknown command: ").concat(s).concat(
                ". Available: install, remove, search, list, info, update, upgrade, status",
            ),
            ErrorKind::GroupNeedsName => String::from_str(
                "--group requires a group name (e.g., desktop, ai, edge)",
            ),
            ErrorKind::UnknownInstallFlag => String::from_str("Unknown flag for install: ").concat(
                s,
            ),
            ErrorKind::InstallNeedsTarget => String::from_str(
                "install requires at least one package name or --group <name>",
            ),
            ErrorKind::UnknownRemoveFlag => String::from_str("Unknown flag for remove: ").concat(s),
            ErrorKind::RemoveNeedsTarget => String::from_str(
                "remove requires at least one package name",
            ),
            ErrorKind::SourceNeedsValue => String::from_str(
                "--source requires a value (system, marketplace, flutter)",
            ),
            ErrorKind::UnknownSourceName => String::from_str("Unknown package source: '").concat(
                s,
            ).concat("'. Use: system, marketplace, flutter"),
            ErrorKind::UnknownSearchFlag => String::from_str("Unknown flag for search: ").concat(s),
            ErrorKind::SearchNeedsQuery => String::from_str("search requires a query string"),
            ErrorKind::UnknownListFlag => String::from_str("Unknown flag for list: ").concat(s),
            ErrorKind::UnexpectedListArg => String::from_str(
                "Unexpected argument for list: ",
            ).concat(s),
            ErrorKind::InfoNeedsPackage => String::from_str("info requires a package name"),
            ErrorKind::InfoTakesOnePackage => String::from_str(
                "info accepts only one package name",
            ),
            ErrorKind::NoPackagesToInstall => String::from_str(
                "No packages specified for installation",
            ),
            ErrorKind::NoPackagesToRemove => String::from_str("No packages specified for removal"),
            ErrorKind::ResolveFailed => String::from_str("Failed to resolve package: ").concat(s),
            ErrorKind::ResolverError => self.detail.clone(),
            ErrorKind::PackageNotFound => String::from_str("Package not found: ").concat(s),
            ErrorKind::PackageNotFoundForRemoval => String::from_str(
                "Package not found for removal: ",
            ).concat(s),
            ErrorKind::UndeterminedSource => String::from_str(
                "Cannot determine source for package: ",
            ).concat(s),
            ErrorKind::CircularDependency => String::from_str(
                "circular dependency detected involving '",
            ).concat(s).concat("'"),
            ErrorKind::SearchNeedsWords => String::from_str("search requires a query"),
            ErrorKind::UnknownSourceOption => String::from_str("Unknown source: '").concat(s).concat(
                "'",
            ),
        }
    }
}

} // verus!
