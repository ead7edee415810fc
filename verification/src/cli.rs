//! Commands, and how command-line arguments become one.

use vstd::prelude::*;
use vstd::string::StringExecFns;

use crate::error::{err_of, ArkError, ErrorKind, ErrorView};
use crate::source::PackageSource;
use crate::config::{ArkConfig, ConfigView};
use crate::text::{eq_ignore_case, join, join_strings, lowercase, starts_with_dash, str_eq, str_eq_ignore_case, to_lowercase};

verus! {

/// An ark command, as parsed from the command line.
#[derive(Debug, Clone, PartialEq, Eq)]
pub enum ArkCommand {
    /// Install one or more packages.
    Install { packages: Vec<String>, force: bool },
    /// Install all packages in a group (e.g., `ark install --group desktop`).
    GroupInstall { group: String, force: bool },
    /// Remove/uninstall packages.
    Remove { packages: Vec<String>, purge: bool },
    /// Search across all sources.
    Search { query: String, source: Option<PackageSource> },
    /// List installed packages.
    List { source: Option<PackageSource> },
    /// Show detailed info about a package.
    Info { package: String },
    /// Check for updates.
    Update,
    /// Upgrade packages with available updates.
    Upgrade { packages: Option<Vec<String>> },
    /// Show ark version and status.
    Status,
}

/// A command, with its strings as character sequences.
pub enum CommandView {
    Install { packages: Seq<Seq<char>>, force: bool },
    GroupInstall { group: Seq<char>, force: bool },
    Remove { packages: Seq<Seq<char>>, purge: bool },
    Search { query: Seq<char>, source: Option<PackageSource> },
    List { source: Option<PackageSource> },
    Info { package: Seq<char> },
    Update,
    Upgrade { packages: Option<Seq<Seq<char>>> },
    Status,
}

impl View for ArkCommand {
    type V = CommandView;

    open spec fn view(&self) -> CommandView {
        match self {
            ArkCommand::Install { packages, force } => CommandView::Install {
                packages: packages.deep_view(),
                force: *force,
            },
            ArkCommand::GroupInstall { group, force } => CommandView::GroupInstall {
                group: group@,
                force: *force,
            },
            ArkCommand::Remove { packages, purge } => CommandView::Remove {
                packages: packages.deep_view(),
                purge: *purge,
            },
            ArkCommand::Search { query, source } => CommandView::Search {
                query: query@,
                source: *source,
            },
            ArkCommand::List { source } => CommandView::List { source: *source },
            ArkCommand::Info { package } => CommandView::Info { package: package@ },
            ArkCommand::Update => CommandView::Update,
            ArkCommand::Upgrade { packages } => CommandView::Upgrade {
                packages: packages.deep_view(),
            },
            ArkCommand::Status => CommandView::Status,
        }
    }
}

/// A parse result, with its strings as character sequences.
pub open spec fn parsed_view(r: Result<ArkCommand, ArkError>) -> Result<CommandView, ErrorView> {
    match r {
        Ok(c) => Ok(c@),
        Err(e) => Err(e@),
    }
}

/// The arguments as character sequences.
pub open spec fn arg_views(args: Seq<&str>) -> Seq<Seq<char>> {
    Seq::new(args.len(), |i: int| args[i]@)
}

pub open spec fn is_flag(a: Seq<char>) -> bool {
    a.len() > 0 && a[0] == '-'
}

/// What a `--source` value names, case aside.
pub open spec fn source_arg(s: Seq<char>) -> Result<PackageSource, ErrorView> {
    if eq_ignore_case(s, "system"@) || eq_ignore_case(s, "apt"@) {
        Ok(PackageSource::System)
    } else if eq_ignore_case(s, "marketplace"@) || eq_ignore_case(s, "market"@) {
        Ok(PackageSource::Marketplace)
    } else if eq_ignore_case(s, "flutter"@) || eq_ignore_case(s, "flutter-app"@) || eq_ignore_case(
        s,
        "flutterapp"@,
    ) {
        Ok(PackageSource::FlutterApp)
    } else {
        Err(err_of(ErrorKind::UnknownSourceName, s))
    }
}

/// `install` arguments from `rest[i]` on, with the flags and names seen so far.
pub open spec fn scan_install(
    rest: Seq<Seq<char>>,
    i: int,
    force: bool,
    group: Option<Seq<char>>,
    pkgs: Seq<Seq<char>>,
) -> Result<CommandView, ErrorView>
    decreases rest.len() - i,
{
    if i < 0 || i >= rest.len() {
        match group {
            Some(g) => Ok(CommandView::GroupInstall { group: g, force }),
            None => if pkgs.len() == 0 {
                Err(err_of(ErrorKind::InstallNeedsTarget, Seq::empty()))
            } else {
                Ok(CommandView::Install { packages: pkgs, force })
            },
        }
    } else if rest[i] == "--force"@ || rest[i] == "-f"@ {
        scan_install(rest, i + 1, true, group, pkgs)
    } else if rest[i] == "--group"@ || rest[i] == "-g"@ {
        if i + 1 >= rest.len() {
            Err(err_of(ErrorKind::GroupNeedsName, Seq::empty()))
        } else {
            scan_install(rest, i + 2, force, Some(rest[i + 1]), pkgs)
        }
    } else if !is_flag(rest[i]) {
        scan_install(rest, i + 1, force, group, pkgs.push(rest[i]))
    } else {
        Err(err_of(ErrorKind::UnknownInstallFlag, rest[i]))
    }
}

/// `remove` arguments from `rest[i]` on.
pub open spec fn scan_remove(rest: Seq<Seq<char>>, i: int, purge: bool, pkgs: Seq<Seq<char>>) -> Result<
    CommandView,
    ErrorView,
>
    decreases rest.len() - i,
{
    if i < 0 || i >= rest.len() {
        if pkgs.len() == 0 {
            Err(err_of(ErrorKind::RemoveNeedsTarget, Seq::empty()))
        } else {
            Ok(CommandView::Remove { packages: pkgs, purge })
        }
    } else if rest[i] == "--purge"@ {
        scan_remove(rest, i + 1, true, pkgs)
    } else if !is_flag(rest[i]) {
        scan_remove(rest, i + 1, purge, pkgs.push(rest[i]))
    } else {
        Err(err_of(ErrorKind::UnknownRemoveFlag, rest[i]))
    }
}

/// `search` arguments from `rest[i]` on.
pub open spec fn scan_search(
    rest: Seq<Seq<char>>,
    i: int,
    source: Option<PackageSource>,
    parts: Seq<Seq<char>>,
) -> Result<CommandView, ErrorView>
    decreases rest.len() - i,
{
    if i < 0 || i >= rest.len() {
        if parts.len() == 0 {
            Err(err_of(ErrorKind::SearchNeedsQuery, Seq::empty()))
        } else {
            Ok(CommandView::Search { query: join(parts, " "@), source })
        }
    } else if rest[i] == "--source"@ || rest[i] == "-s"@ {
        if i + 1 >= rest.len() {
            Err(err_of(ErrorKind::SourceNeedsValue, Seq::empty()))
        } else {
            match source_arg(rest[i + 1]) {
                Ok(s) => scan_search(rest, i + 2, Some(s), parts),
                Err(e) => Err(e),
            }
        }
    } else if !is_flag(rest[i]) {
        scan_search(rest, i + 1, source, parts.push(rest[i]))
    } else {
        Err(err_of(ErrorKind::UnknownSearchFlag, rest[i]))
    }
}

/// `list` arguments from `rest[i]` on; the last source flag wins.
pub open spec fn scan_list(rest: Seq<Seq<char>>, i: int, source: Option<PackageSource>) -> Result<
    CommandView,
    ErrorView,
>
    decreases rest.len() - i,
{
    if i < 0 || i >= rest.len() {
        Ok(CommandView::List { source })
    } else if rest[i] == "--marketplace"@ || rest[i] == "--market"@ {
        scan_list(rest, i + 1, Some(PackageSource::Marketplace))
    } else if rest[i] == "--system"@ || rest[i] == "--apt"@ {
        scan_list(rest, i + 1, Some(PackageSource::System))
    } else if rest[i] == "--flutter"@ {
        scan_list(rest, i + 1, Some(PackageSource::FlutterApp))
    } else if is_flag(rest[i]) {
        Err(err_of(ErrorKind::UnknownListFlag, rest[i]))
    } else {
        Err(err_of(ErrorKind::UnexpectedListArg, rest[i]))
    }
}

/// The arguments of `rest` that are not flags, in order.
pub open spec fn non_flags(rest: Seq<Seq<char>>) -> Seq<Seq<char>>
    decreases rest.len(),
{
    if rest.len() == 0 {
        Seq::empty()
    } else if is_flag(rest.last()) {
        non_flags(rest.drop_last())
    } else {
        non_flags(rest.drop_last()).push(rest.last())
    }
}

/// The command that the arguments stand for, or the error they are refused with.
pub open spec fn parse_spec(args: Seq<Seq<char>>) -> Result<CommandView, ErrorView> {
    if args.len() == 0 {
        Err(err_of(ErrorKind::NoCommand, Seq::empty()))
    } else {
        let c = args[0];
        let rest = args.skip(1);
        if c == "install"@ {
            scan_install(rest, 0, false, None, Seq::empty())
        } else if c == "remove"@ || c == "uninstall"@ {
            scan_remove(rest, 0, false, Seq::empty())
        } else if c == "search"@ {
            scan_search(rest, 0, None, Seq::empty())
        } else if c == "list"@ || c == "ls"@ {
            scan_list(rest, 0, None)
        } else if c == "info"@ || c == "show"@ {
            if rest.len() == 0 {
                Err(err_of(ErrorKind::InfoNeedsPackage, Seq::empty()))
            } else if rest.len() > 1 {
                Err(err_of(ErrorKind::InfoTakesOnePackage, Seq::empty()))
            } else {
                Ok(CommandView::Info { package: rest[0] })
            }
        } else if c == "update"@ {
            Ok(CommandView::Update)
        } else if c == "upgrade"@ {
            let p = non_flags(rest);
            Ok(CommandView::Upgrade { packages: if p.len() == 0 { None } else { Some(p) } })
        } else if c == "status"@ {
            Ok(CommandView::Status)
        } else {
            Err(err_of(ErrorKind::UnknownCommand, c))
        }
    }
}

/// Parse a source name (`system`/`apt`, `marketplace`/`market`,
/// `flutter`/`flutter-app`/`flutterapp`, in any case).
pub fn parse_source_arg(s: &str) -> (r: Result<PackageSource, ArkError>)
    ensures
        match r {
            Ok(src) => source_arg(s@) == Ok::<PackageSource, ErrorView>(src),
            Err(e) => source_arg(s@) == Err::<PackageSource, ErrorView>(e@),
        },
{
    if str_eq_ignore_case(s, "system") || str_eq_ignore_case(s, "apt") {
        Ok(PackageSource::System)
    } else if str_eq_ignore_case(s, "marketplace") || str_eq_ignore_case(s, "market") {
        Ok(PackageSource::Marketplace)
    } else if str_eq_ignore_case(s, "flutter") || str_eq_ignore_case(s, "flutter-app")
        || str_eq_ignore_case(s, "flutterapp") {
        Ok(PackageSource::FlutterApp)
    } else {
        Err(ArkError::about(ErrorKind::UnknownSourceName, s))
    }
}

proof fn lemma_rest_index(args: Seq<&str>, k: int)
    requires
        1 <= k < args.len(),
    ensures
        arg_views(args).skip(1)[k - 1] == args[k]@,
        arg_views(args).skip(1).len() == args.len() - 1,
{
}

fn parse_install(args: &[&str]) -> (r: Result<ArkCommand, ArkError>)
    requires
        args@.len() >= 1,
    ensures
        parsed_view(r) == scan_install(arg_views(args@).skip(1), 0, false, None, Seq::empty()),
{
    let ghost rest = arg_views(args@).skip(1);
    let mut force = false;
    let mut group: Option<String> = None;
    let mut packages: Vec<String> = Vec::new();
    assert(packages.deep_view() =~= Seq::<Seq<char>>::empty());
    let mut k: usize = 1;
    while k < args.len()
        invariant
            rest == arg_views(args@).skip(1),
            1 <= k <= args@.len(),
            scan_install(rest, 0, false, None, Seq::empty()) == scan_install(
                rest,
                k - 1,
                force,
                group.deep_view(),
                packages.deep_view(),
            ),
        decreases args.len() - k,
    {
        proof {
            lemma_rest_index(args@, k as int);
        }
        let a = args[k];
        if str_eq(a, "--force") || str_eq(a, "-f") {
            force = true;
        } else if str_eq(a, "--group") || str_eq(a, "-g") {
            if k + 1 >= args.len() {
                return Err(ArkError::plain(ErrorKind::GroupNeedsName));
            }
            proof {
                lemma_rest_index(args@, k + 1);
            }
            group = Some(String::from_str(args[k + 1]));
            k = k + 1;
        } else if !starts_with_dash(a) {
            let ghost before = packages.deep_view();
            packages.push(String::from_str(a));
            assert(packages.deep_view() =~= before.push(a@));
        } else {
            return Err(ArkError::about(ErrorKind::UnknownInstallFlag, a));
        }
        k = k + 1;
    }
    match group {
        Some(g) => Ok(ArkCommand::GroupInstall { group: g, force }),
        None => {
            if packages.len() == 0 {
                Err(ArkError::plain(ErrorKind::InstallNeedsTarget))
            } else {
                Ok(ArkCommand::Install { packages, force })
            }
        },
    }
}

fn parse_remove(args: &[&str]) -> (r: Result<ArkCommand, ArkError>)
    requires
        args@.len() >= 1,
    ensures
        parsed_view(r) == scan_remove(arg_views(args@).skip(1), 0, false, Seq::empty()),
{
    let ghost rest = arg_views(args@).skip(1);
    let mut purge = false;
    let mut packages: Vec<String> = Vec::new();
    assert(packages.deep_view() =~= Seq::<Seq<char>>::empty());
    let mut k: usize = 1;
    while k < args.len()
        invariant
            rest == arg_views(args@).skip(1),
            1 <= k <= args@.len(),
            scan_remove(rest, 0, false, Seq::empty()) == scan_remove(
                rest,
                k - 1,
                purge,
                packages.deep_view(),
            ),
        decreases args.len() - k,
    {
        proof {
            lemma_rest_index(args@, k as int);
        }
        let a = args[k];
        if str_eq(a, "--purge") {
            purge = true;
        } else if !starts_with_dash(a) {
            let ghost before = packages.deep_view();
            packages.push(String::from_str(a));
            assert(packages.deep_view() =~= before.push(a@));
        } else {
            return Err(ArkError::about(ErrorKind::UnknownRemoveFlag, a));
        }
        k = k + 1;
    }
    if packages.len() == 0 {
        Err(ArkError::plain(ErrorKind::RemoveNeedsTarget))
    } else {
        Ok(ArkCommand::Remove { packages, purge })
    }
}

fn parse_search(args: &[&str]) -> (r: Result<ArkCommand, ArkError>)
    requires
        args@.len() >= 1,
    ensures
        parsed_view(r) == scan_search(arg_views(args@).skip(1), 0, None, Seq::empty()),
{
    let ghost rest = arg_views(args@).skip(1);
    let mut source: Option<PackageSource> = None;
    let mut parts: Vec<String> = Vec::new();
    assert(parts.deep_view() =~= Seq::<Seq<char>>::empty());
    let mut k: usize = 1;
    while k < args.len()
        invariant
            rest == arg_views(args@).skip(1),
            1 <= k <= args@.len(),
            scan_search(rest, 0, None, Seq::empty()) == scan_search(
                rest,
                k - 1,
                source,
                parts.deep_view(),
            ),
        decreases args.len() - k,
    {
        proof {
            lemma_rest_index(args@, k as int);
        }
        let a = args[k];
        if str_eq(a, "--source") || str_eq(a, "-s") {
            if k + 1 >= args.len() {
                return Err(ArkError::plain(ErrorKind::SourceNeedsValue));
            }
            proof {
                lemma_rest_index(args@, k + 1);
            }
            match parse_source_arg(args[k + 1]) {
                Ok(s) => {
                    source = Some(s);
                },
                Err(e) => {
                    return Err(e);
                },
            }
            k = k + 1;
        } else if !starts_with_dash(a) {
            let ghost before = parts.deep_view();
            parts.push(String::from_str(a));
            assert(parts.deep_view() =~= before.push(a@));
        } else {
            return Err(ArkError::about(ErrorKind::UnknownSearchFlag, a));
        }
        k = k + 1;
    }
    if parts.len() == 0 {
        Err(ArkError::plain(ErrorKind::SearchNeedsQuery))
    } else {
        Ok(ArkCommand::Search { query: join_strings(&parts, " "), source })
    }
}

fn parse_list(args: &[&str]) -> (r: Result<ArkCommand, ArkError>)
    requires
        args@.len() >= 1,
    ensures
        parsed_view(r) == scan_list(arg_views(args@).skip(1), 0, None),
{
    let ghost rest = arg_views(args@).skip(1);
    let mut source: Option<PackageSource> = None;
    let mut k: usize = 1;
    while k < args.len()
        invariant
            rest == arg_views(args@).skip(1),
            1 <= k <= args@.len(),
            scan_list(rest, 0, None) == scan_list(rest, k - 1, source),
        decreases args.len() - k,
    {
        proof {
            lemma_rest_index(args@, k as int);
        }
        let a = args[k];
        if str_eq(a, "--marketplace") || str_eq(a, "--market") {
            source = Some(PackageSource::Marketplace);
        } else if str_eq(a, "--system") || str_eq(a, "--apt") {
            source = Some(PackageSource::System);
        } else if str_eq(a, "--flutter") {
            source = Some(PackageSource::FlutterApp);
        } else if starts_with_dash(a) {
            return Err(ArkError::about(ErrorKind::UnknownListFlag, a));
        } else {
            return Err(ArkError::about(ErrorKind::UnexpectedListArg, a));
        }
        k = k + 1;
    }
    Ok(ArkCommand::List { source })
}

fn parse_upgrade(args: &[&str]) -> (r: Result<ArkCommand, ArkError>)
    requires
        args@.len() >= 1,
    ensures
        parsed_view(r) == ({
            let p = non_flags(arg_views(args@).skip(1));
            Ok::<CommandView, ErrorView>(
                CommandView::Upgrade { packages: if p.len() == 0 { None } else { Some(p) } },
            )
        }),
{
    let ghost rest = arg_views(args@).skip(1);
    let mut packages: Vec<String> = Vec::new();
    let mut k: usize = 1;
    while k < args.len()
        invariant
            rest == arg_views(args@).skip(1),
            1 <= k <= args@.len(),
            packages.deep_view() == non_flags(rest.take(k - 1)),
        decreases args.len() - k,
    {
        proof {
            lemma_rest_index(args@, k as int);
            assert(rest.take(k as int).drop_last() =~= rest.take(k - 1));
            assert(rest.take(k as int).last() == args@[k as int]@);
        }
        let a = args[k];
        if !starts_with_dash(a) {
            let ghost before = packages.deep_view();
            packages.push(String::from_str(a));
            assert(packages.deep_view() =~= before.push(a@));
        }
        k = k + 1;
    }
    assert(rest.take(args.len() - 1) =~= rest);
    if packages.len() == 0 {
        Ok(ArkCommand::Upgrade { packages: None })
    } else {
        Ok(ArkCommand::Upgrade { packages: Some(packages) })
    }
}

/// Parse CLI-style args into an `ArkCommand`.
///
/// ```text
/// ["install", "nginx"]           -> Install { packages: ["nginx"], force: false }
/// ["install", "--force", "curl"] -> Install { packages: ["curl"], force: true }
/// ["remove", "--purge", "nginx"] -> Remove { packages: ["nginx"], purge: true }
/// ["search", "web server"]       -> Search { query: "web server", source: None }
/// ["status"]                     -> Status
/// ```
pub fn parse_args(args: &[&str]) -> (r: Result<ArkCommand, ArkError>)
    ensures
        parsed_view(r) == parse_spec(arg_views(args@)),
{
    if args.len() == 0 {
        return Err(ArkError::plain(ErrorKind::NoCommand));
    }
    let c = args[0];
    let ghost rest = arg_views(args@).skip(1);
    assert(arg_views(args@)[0] == c@);
    if str_eq(c, "install") {
        parse_install(args)
    } else if str_eq(c, "remove") || str_eq(c, "uninstall") {
        parse_remove(args)
    } else if str_eq(c, "search") {
        parse_search(args)
    } else if str_eq(c, "list") || str_eq(c, "ls") {
        parse_list(args)
    } else if str_eq(c, "info") || str_eq(c, "show") {
        if args.len() == 1 {
            Err(ArkError::plain(ErrorKind::InfoNeedsPackage))
        } else if args.len() > 2 {
            Err(ArkError::plain(ErrorKind::InfoTakesOnePackage))
        } else {
            assert(rest[0] == args@[1]@);
            Ok(ArkCommand::Info { package: String::from_str(args[1]) })
        }
    } else if str_eq(c, "update") {
        Ok(ArkCommand::Update)
    } else if str_eq(c, "upgrade") {
        parse_upgrade(args)
    } else if str_eq(c, "status") {
        Ok(ArkCommand::Status)
    } else {
        Err(ArkError::about(ErrorKind::UnknownCommand, c))
    }
}

/// Well-known package groups and the meta-package each stands for.
pub open spec fn group_meta(group: Seq<char>) -> Option<Seq<char>> {
    if group == "desktop"@ {
        Some("agnos-desktop"@)
    } else if group == "ai"@ || group == "ml"@ {
        Some("agnos-ai"@)
    } else if group == "shell"@ {
        Some("agnoshi"@)
    } else if group == "edge"@ || group == "iot"@ {
        Some("agnos-edge-agent"@)
    } else {
        None
    }
}

/// Well-known package groups and their meta-package mappings.
/// `ark install --group <name>` resolves to installing the meta-package.
pub fn group_meta_package(group: &str) -> (r: Option<&'static str>)
    ensures
        match r {
            Some(m) => group_meta(group@) == Some(m@),
            None => group_meta(group@) is None,
        },
{
    if str_eq(group, "desktop") {
        Some("agnos-desktop")
    } else if str_eq(group, "ai") || str_eq(group, "ml") {
        Some("agnos-ai")
    } else if str_eq(group, "shell") {
        Some("agnoshi")
    } else if str_eq(group, "edge") || str_eq(group, "iot") {
        Some("agnos-edge-agent")
    } else {
        None
    }
}


/// The package a group install installs: the group's meta-package, or, for a
/// group that is not known, the group's name taken as a package name.
pub open spec fn group_target(group: Seq<char>) -> Seq<char> {
    match group_meta(group) {
        Some(m) => m,
        None => group,
    }
}

/// The package a group install installs.
pub fn group_install_target(group: &str) -> (r: String)
    ensures
        r@ == group_target(group@),
{
    match group_meta_package(group) {
        Some(m) => String::from_str(m),
        None => String::from_str(group),
    }
}

/// A subcommand of the `ark` program, as its option parser hands it over.
#[derive(Debug, Clone)]
pub enum CliCommand {
    Install { packages: Vec<String>, force: bool, group: Option<String> },
    Remove { packages: Vec<String>, purge: bool },
    Search { query: Vec<String>, source: Option<String> },
    List { marketplace: bool, system: bool, flutter: bool },
    Info { package: String },
    Update,
    Upgrade { packages: Vec<String> },
    Status,
}

pub enum CliView {
    Install { packages: Seq<Seq<char>>, force: bool, group: Option<Seq<char>> },
    Remove { packages: Seq<Seq<char>>, purge: bool },
    Search { query: Seq<Seq<char>>, source: Option<Seq<char>> },
    List { marketplace: bool, system: bool, flutter: bool },
    Info { package: Seq<char> },
    Update,
    Upgrade { packages: Seq<Seq<char>> },
    Status,
}

impl View for CliCommand {
    type V = CliView;

    open spec fn view(&self) -> CliView {
        match self {
            CliCommand::Install { packages, force, group } => CliView::Install {
                packages: packages.deep_view(),
                force: *force,
                group: group.deep_view(),
            },
            CliCommand::Remove { packages, purge } => CliView::Remove {
                packages: packages.deep_view(),
                purge: *purge,
            },
            CliCommand::Search { query, source } => CliView::Search {
                query: query.deep_view(),
                source: source.deep_view(),
            },
            CliCommand::List { marketplace, system, flutter } => CliView::List {
                marketplace: *marketplace,
                system: *system,
                flutter: *flutter,
            },
            CliCommand::Info { package } => CliView::Info { package: package@ },
            CliCommand::Update => CliView::Update,
            CliCommand::Upgrade { packages } => CliView::Upgrade { packages: packages.deep_view() },
            CliCommand::Status => CliView::Status,
        }
    }
}

/// What a `--source` option names, case aside (`system`/`apt`,
/// `marketplace`/`market`, `flutter`/`flutter-app`).
pub open spec fn source_option(s: Seq<char>) -> Result<PackageSource, ErrorView> {
    if eq_ignore_case(s, "system"@) || eq_ignore_case(s, "apt"@) {
        Ok(PackageSource::System)
    } else if eq_ignore_case(s, "marketplace"@) || eq_ignore_case(s, "market"@) {
        Ok(PackageSource::Marketplace)
    } else if eq_ignore_case(s, "flutter"@) || eq_ignore_case(s, "flutter-app"@) {
        Ok(PackageSource::FlutterApp)
    } else {
        Err(err_of(ErrorKind::UnknownSourceOption, lowercase(s)))
    }
}

/// The command a subcommand stands for, or the error it is refused with.
pub open spec fn cli_spec(c: CliView) -> Result<CommandView, ErrorView> {
    match c {
        CliView::Install { packages, force, group } => match group {
            Some(g) => Ok(CommandView::GroupInstall { group: g, force }),
            None => if packages.len() == 0 {
                Err(err_of(ErrorKind::InstallNeedsTarget, Seq::empty()))
            } else {
                Ok(CommandView::Install { packages, force })
            },
        },
        CliView::Remove { packages, purge } => if packages.len() == 0 {
            Err(err_of(ErrorKind::RemoveNeedsTarget, Seq::empty()))
        } else {
            Ok(CommandView::Remove { packages, purge })
        },
        CliView::Search { query, source } => if query.len() == 0 {
            Err(err_of(ErrorKind::SearchNeedsWords, Seq::empty()))
        } else {
            match source {
                Some(s) => match source_option(s) {
                    Ok(src) => Ok(CommandView::Search { query: join(query, " "@), source: Some(src) }),
                    Err(e) => Err(e),
                },
                None => Ok(CommandView::Search { query: join(query, " "@), source: None }),
            }
        },
        CliView::List { marketplace, system, flutter } => Ok(
            CommandView::List {
                source: if marketplace {
                    Some(PackageSource::Marketplace)
                } else if system {
                    Some(PackageSource::System)
                } else if flutter {
                    Some(PackageSource::FlutterApp)
                } else {
                    None
                },
            },
        ),
        CliView::Info { package } => Ok(CommandView::Info { package }),
        CliView::Update => Ok(CommandView::Update),
        CliView::Upgrade { packages } => Ok(
            CommandView::Upgrade { packages: if packages.len() == 0 { None } else { Some(packages) } },
        ),
        CliView::Status => Ok(CommandView::Status),
    }
}

fn parse_source_option(s: &str) -> (r: Result<PackageSource, ArkError>)
    ensures
        match r {
            Ok(src) => source_option(s@) == Ok::<PackageSource, ErrorView>(src),
            Err(e) => source_option(s@) == Err::<PackageSource, ErrorView>(e@),
        },
{
    if str_eq_ignore_case(s, "system") || str_eq_ignore_case(s, "apt") {
        Ok(PackageSource::System)
    } else if str_eq_ignore_case(s, "marketplace") || str_eq_ignore_case(s, "market") {
        Ok(PackageSource::Marketplace)
    } else if str_eq_ignore_case(s, "flutter") || str_eq_ignore_case(s, "flutter-app") {
        Ok(PackageSource::FlutterApp)
    } else {
        let lowered = to_lowercase(s);
        Err(ArkError::about(ErrorKind::UnknownSourceOption, lowered.as_str()))
    }
}

/// The command that a subcommand of the `ark` program stands for.
pub fn command_from_cli(cmd: CliCommand) -> (r: Result<ArkCommand, ArkError>)
    ensures
        parsed_view(r) == cli_spec(cmd@),
{
    match cmd {
        CliCommand::Install { packages, force, group } => match group {
            Some(g) => Ok(ArkCommand::GroupInstall { group: g, force }),
            None => {
                if packages.len() == 0 {
                    Err(ArkError::plain(ErrorKind::InstallNeedsTarget))
                } else {
                    Ok(ArkCommand::Install { packages, force })
                }
            },
        },
        CliCommand::Remove { packages, purge } => {
            if packages.len() == 0 {
                Err(ArkError::plain(ErrorKind::RemoveNeedsTarget))
            } else {
                Ok(ArkCommand::Remove { packages, purge })
            }
        },
        CliCommand::Search { query, source } => {
            if query.len() == 0 {
                return Err(ArkError::plain(ErrorKind::SearchNeedsWords));
            }
            let joined = join_strings(&query, " ");
            match source {
                Some(s) => match parse_source_option(s.as_str()) {
                    Ok(src) => Ok(ArkCommand::Search { query: joined, source: Some(src) }),
                    Err(e) => Err(e),
                },
                None => Ok(ArkCommand::Search { query: joined, source: None }),
            }
        },
        CliCommand::List { marketplace, system, flutter } => {
            let source = if marketplace {
                Some(PackageSource::Marketplace)
            } else if system {
                Some(PackageSource::System)
            } else if flutter {
                Some(PackageSource::FlutterApp)
            } else {
                None
            };
            Ok(ArkCommand::List { source })
        },
        CliCommand::Info { package } => Ok(ArkCommand::Info { package }),
        CliCommand::Update => Ok(ArkCommand::Update),
        CliCommand::Upgrade { packages } => {
            if packages.len() == 0 {
                Ok(ArkCommand::Upgrade { packages: None })
            } else {
                Ok(ArkCommand::Upgrade { packages: Some(packages) })
            }
        },
        CliCommand::Status => Ok(ArkCommand::Status),
    }
}

/// The question to ask before running a command, if the configuration asks
/// for one: installs when `confirm_system_installs`, removals when
/// `confirm_removals`.
pub open spec fn confirmation_prompt(cmd: CommandView, config: ConfigView) -> Option<Seq<char>> {
    match cmd {
        CommandView::Install { packages, .. } => if config.confirm_system_installs {
            Some("Install "@ + join(packages, ", "@) + "?"@)
        } else {
            None
        },
        CommandView::GroupInstall { group, .. } => if config.confirm_system_installs {
            Some("Install group "@ + group + "?"@)
        } else {
            None
        },
        CommandView::Remove { packages, purge } => if config.confirm_removals {
            Some((if purge { "Purge"@ } else { "Remove"@ }) + " "@ + join(packages, ", "@) + "?"@)
        } else {
            None
        },
        _ => None,
    }
}

/// The question to ask before running `cmd`, if `config` asks for one.
pub fn needs_confirmation(cmd: &ArkCommand, config: &ArkConfig) -> (r: Option<String>)
    ensures
        r.deep_view() == confirmation_prompt(cmd@, config@),
{
    match cmd {
        ArkCommand::Install { packages, .. } => {
            if config.confirm_system_installs {
                Some(String::from_str("Install ").concat(join_strings(packages, ", ").as_str()).concat("?"))
            } else {
                None
            }
        },
        ArkCommand::GroupInstall { group, .. } => {
            if config.confirm_system_installs {
                Some(String::from_str("Install group ").concat(group.as_str()).concat("?"))
            } else {
                None
            }
        },
        ArkCommand::Remove { packages, purge } => {
            if config.confirm_removals {
                let action = if *purge { "Purge" } else { "Remove" };
                Some(String::from_str(action).concat(" ").concat(join_strings(packages, ", ").as_str()).concat("?"))
            } else {
                None
            }
        },
        _ => None,
    }
}

} // verus!

verus! {

/// The source a list filter flag names, if it is one.
pub open spec fn list_flag_source(a: Seq<char>) -> Option<PackageSource> {
    if a == "--system"@ || a == "--apt"@ {
        Some(PackageSource::System)
    } else if a == "--marketplace"@ || a == "--market"@ {
        Some(PackageSource::Marketplace)
    } else if a == "--flutter"@ {
        Some(PackageSource::FlutterApp)
    } else {
        None
    }
}

proof fn lemma_scan_list(rest: Seq<Seq<char>>, i: int, source: Option<PackageSource>)
    requires
        0 <= i <= rest.len(),
    ensures
        (forall|j: int| i <= j < rest.len() ==> #[trigger] list_flag_source(rest[j]) is Some) ==> scan_list(
            rest,
            i,
            source,
        ) == Ok::<CommandView, ErrorView>(
            CommandView::List {
                source: if i == rest.len() {
                    source
                } else {
                    list_flag_source(rest.last())
                },
            },
        ),
        (exists|j: int| i <= j < rest.len() && #[trigger] list_flag_source(rest[j]) is None) ==> scan_list(
            rest,
            i,
            source,
        ) is Err,
    decreases rest.len() - i,
{
    reveal_strlit("--system");
    reveal_strlit("--apt");
    reveal_strlit("--marketplace");
    reveal_strlit("--market");
    reveal_strlit("--flutter");
    assert("--system"@[2] != "--market"@[2]);
    assert("--apt"@.len() != "--market"@.len() && "--apt"@.len() != "--marketplace"@.len());
    if i < rest.len() {
        let a = rest[i];
        let f = list_flag_source(a);
        if f is Some {
            lemma_scan_list(rest, i + 1, f);
            assert(scan_list(rest, i, source) == scan_list(rest, i + 1, f));
            if exists|j: int| i <= j < rest.len() && #[trigger] list_flag_source(rest[j]) is None {
                let j = choose|j: int| i <= j < rest.len() && #[trigger] list_flag_source(rest[j]) is None;
                assert(i + 1 <= j);
            }
            if forall|j: int| i <= j < rest.len() ==> #[trigger] list_flag_source(rest[j]) is Some {
                assert forall|j: int| i + 1 <= j < rest.len() implies #[trigger] list_flag_source(rest[j]) is Some by {
                    assert(i <= j);
                }
            }
        } else {
            assert(scan_list(rest, i, source) is Err);
            assert(list_flag_source(rest[i]) is None);
        }
    }
}

/// `list` (or `ls`) filters by the source that its last flag names:
/// `--system`/`--apt` the system, `--marketplace`/`--market` the marketplace,
/// `--flutter` Flutter apps; with no flag it lists every source.  It succeeds
/// exactly when every argument after it is one of those flags.
pub proof fn law_list_source_is_last_flag(rest: Seq<Seq<char>>)
    ensures
        ({
            let r = parse_spec(seq!["list"@] + rest);
            &&& r == parse_spec(seq!["ls"@] + rest)
            &&& (r is Ok <==> forall|j: int| 0 <= j < rest.len() ==> #[trigger] list_flag_source(rest[j]) is Some)
            &&& (rest.len() == 0 ==> r == Ok::<CommandView, ErrorView>(CommandView::List { source: None }))
            &&& (rest.len() > 0 && (rest.last() == "--system"@ || rest.last() == "--apt"@) ==> (r is Ok ==> r
                == Ok::<CommandView, ErrorView>(CommandView::List { source: Some(PackageSource::System) })))
            &&& (rest.len() > 0 && (rest.last() == "--marketplace"@ || rest.last() == "--market"@) ==> (r is Ok
                ==> r == Ok::<CommandView, ErrorView>(
                CommandView::List { source: Some(PackageSource::Marketplace) },
            )))
            &&& (rest.len() > 0 && rest.last() == "--flutter"@ ==> (r is Ok ==> r == Ok::<CommandView, ErrorView>(
                CommandView::List { source: Some(PackageSource::FlutterApp) },
            )))
        }),
{
    reveal_strlit("list");
    reveal_strlit("ls");
    reveal_strlit("install");
    reveal_strlit("remove");
    reveal_strlit("uninstall");
    reveal_strlit("search");
    reveal_strlit("--system");
    reveal_strlit("--apt");
    reveal_strlit("--marketplace");
    reveal_strlit("--market");
    reveal_strlit("--flutter");
    let a = seq!["list"@] + rest;
    let b = seq!["ls"@] + rest;
    assert(a[0] == "list"@);
    assert(b[0] == "ls"@);
    assert(a.skip(1) =~= rest);
    assert(b.skip(1) =~= rest);
    assert("list"@.len() != "install"@.len() && "list"@.len() != "remove"@.len() && "list"@.len()
        != "uninstall"@.len() && "list"@.len() != "search"@.len());
    assert("ls"@.len() != "install"@.len() && "ls"@.len() != "remove"@.len() && "ls"@.len()
        != "uninstall"@.len() && "ls"@.len() != "search"@.len() && "ls"@.len() != "list"@.len());
    assert("--market"@[2] != "--system"@[2]);
    assert("--market"@.len() != "--apt"@.len() && "--marketplace"@.len() != "--apt"@.len()
        && "--marketplace"@.len() != "--system"@.len());
    assert("--flutter"@.len() != "--apt"@.len() && "--flutter"@.len() != "--system"@.len()
        && "--flutter"@.len() != "--market"@.len() && "--flutter"@.len() != "--marketplace"@.len());
    lemma_scan_list(rest, 0, None);
}

} // verus!
