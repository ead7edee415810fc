//! The package manager: results and reports built from what the sources answered.

use vstd::prelude::*;
use vstd::string::StringExecFns;

use crate::config::{ArkConfig, ConfigView};
use crate::error::{err_of, ArkError, ErrorKind, ErrorView};
use crate::output::{info_line, lines_view, ArkOutput, ArkOutputLine, LineView, display_text};
use crate::plan::{format_plan, plan_report, InstallPlan, InstallStep, PlanView, ResolvedPackage, ResolvedView, StepView};
use crate::source::{source_label, strategy_name, PackageSource};
use crate::text::{bool_text, bool_to_string, decimal, join, join_strings, str_eq, u64_to_string, usize_to_string};

verus! {

/// Ark version string.
pub const ARK_VERSION: &'static str = "0.1.0";

/// Result of an ark operation.
#[derive(Debug, Clone)]
pub struct ArkResult {
    pub success: bool,
    pub message: String,
    pub packages_affected: Vec<String>,
    pub source: PackageSource,
}

pub struct ResultView {
    pub success: bool,
    pub message: Seq<char>,
    pub packages_affected: Seq<Seq<char>>,
    pub source: PackageSource,
}

impl View for ArkResult {
    type V = ResultView;

    open spec fn view(&self) -> ResultView {
        ResultView {
            success: self.success,
            message: self.message@,
            packages_affected: self.packages_affected.deep_view(),
            source: self.source,
        }
    }
}

/// A package that a source reports as installed.
#[derive(Debug, Clone)]
pub struct InstalledPackage {
    pub name: String,
    pub version: String,
    pub source: PackageSource,
    pub size_bytes: Option<u64>,
}

pub struct InstalledView {
    pub name: Seq<char>,
    pub version: Seq<char>,
    pub source: PackageSource,
    pub size_bytes: Option<u64>,
}

impl View for InstalledPackage {
    type V = InstalledView;

    open spec fn view(&self) -> InstalledView {
        InstalledView {
            name: self.name@,
            version: self.version@,
            source: self.source,
            size_bytes: self.size_bytes,
        }
    }
}

/// An update that a source offers for an installed package.
#[derive(Debug, Clone)]
pub struct AvailableUpdate {
    pub name: String,
    pub installed_version: String,
    pub available_version: String,
    pub source: PackageSource,
    pub changelog: Option<String>,
}

pub struct UpdateView {
    pub name: Seq<char>,
    pub installed_version: Seq<char>,
    pub available_version: Seq<char>,
    pub source: PackageSource,
    pub changelog: Option<Seq<char>>,
}

impl View for AvailableUpdate {
    type V = UpdateView;

    open spec fn view(&self) -> UpdateView {
        UpdateView {
            name: self.name@,
            installed_version: self.installed_version@,
            available_version: self.available_version@,
            source: self.source,
            changelog: self.changelog.deep_view(),
        }
    }
}

pub open spec fn resolved_seq(v: Seq<ResolvedPackage>) -> Seq<ResolvedView> {
    Seq::new(v.len(), |i: int| v[i]@)
}

pub open spec fn installed_seq(v: Seq<InstalledPackage>) -> Seq<InstalledView> {
    Seq::new(v.len(), |i: int| v[i]@)
}

pub open spec fn updates_seq(v: Seq<AvailableUpdate>) -> Seq<UpdateView> {
    Seq::new(v.len(), |i: int| v[i]@)
}

/// Whether a source filter lets a package from `s` through.
pub open spec fn passes(filter: Option<PackageSource>, s: PackageSource) -> bool {
    match filter {
        Some(f) => s == f,
        None => true,
    }
}

// ---------------------------------------------------------------------------
// install / remove results
// ---------------------------------------------------------------------------

/// The command an install step runs, if it installs.
pub open spec fn install_command_of(s: StepView) -> Option<Seq<char>> {
    match s {
        StepView::SystemInstall { package, .. } => Some("apt-get install -y "@ + package),
        StepView::MarketplaceInstall { package, .. } => Some("marketplace install "@ + package),
        StepView::FlutterInstall { package, .. } => Some("agpkg install "@ + package),
        _ => None,
    }
}

/// The commands an install plan runs, in order (removals are not listed).
pub open spec fn install_commands(steps: Seq<StepView>) -> Seq<Seq<char>>
    decreases steps.len(),
{
    if steps.len() == 0 {
        Seq::empty()
    } else {
        let prev = install_commands(steps.drop_last());
        match install_command_of(steps.last()) {
            Some(c) => prev.push(c),
            None => prev,
        }
    }
}

/// The source an install plan is reported under: that of its first step.
pub open spec fn install_source(steps: Seq<StepView>) -> PackageSource {
    if steps.len() == 0 {
        PackageSource::Unknown
    } else {
        match steps[0] {
            StepView::SystemInstall { .. } => PackageSource::System,
            StepView::MarketplaceInstall { .. } => PackageSource::Marketplace,
            StepView::FlutterInstall { .. } => PackageSource::FlutterApp,
            _ => PackageSource::Unknown,
        }
    }
}

/// The source a removal plan is reported under: that of its first step.
pub open spec fn removal_source(steps: Seq<StepView>) -> PackageSource {
    if steps.len() == 0 {
        PackageSource::Unknown
    } else {
        match steps[0] {
            StepView::SystemRemove { .. } => PackageSource::System,
            StepView::MarketplaceRemove { .. } => PackageSource::Marketplace,
            StepView::FlutterRemove { .. } => PackageSource::FlutterApp,
            _ => PackageSource::Unknown,
        }
    }
}

/// The result of planning the install of `packages` as `plan`.
pub open spec fn install_outcome_result(packages: Seq<Seq<char>>, plan: PlanView) -> Result<
    ResultView,
    ErrorView,
> {
    if packages.len() == 0 {
        Err(err_of(ErrorKind::NoPackagesToInstall, Seq::empty()))
    } else {
        let cmds = install_commands(plan.steps);
        Ok(
            ResultView {
                success: true,
                message: "Install plan ("@ + decimal(cmds.len()) + " steps): "@ + join(cmds, "; "@),
                packages_affected: packages,
                source: install_source(plan.steps),
            },
        )
    }
}

/// The result of planning the removal of `packages` as `plan`.
pub open spec fn remove_outcome_result(packages: Seq<Seq<char>>, plan: PlanView) -> Result<
    ResultView,
    ErrorView,
> {
    if packages.len() == 0 {
        Err(err_of(ErrorKind::NoPackagesToRemove, Seq::empty()))
    } else {
        Ok(
            ResultView {
                success: true,
                message: "Remove plan ("@ + decimal(plan.steps.len()) + " steps)"@,
                packages_affected: packages,
                source: removal_source(plan.steps),
            },
        )
    }
}

pub open spec fn result_view(r: Result<ArkResult, ArkError>) -> Result<ResultView, ErrorView> {
    match r {
        Ok(x) => Ok(x@),
        Err(e) => Err(e@),
    }
}

fn install_command(step: &InstallStep) -> (r: Option<String>)
    ensures
        r.deep_view() == install_command_of(step@),
{
    match step {
        InstallStep::SystemInstall { package, .. } => Some(
            String::from_str("apt-get install -y ").concat(package.as_str()),
        ),
        InstallStep::MarketplaceInstall { package, .. } => Some(
            String::from_str("marketplace install ").concat(package.as_str()),
        ),
        InstallStep::FlutterInstall { package, .. } => Some(
            String::from_str("agpkg install ").concat(package.as_str()),
        ),
        _ => None,
    }
}

fn install_source_of(plan: &InstallPlan) -> (r: PackageSource)
    ensures
        r == install_source(plan@.steps),
{
    if plan.steps.len() == 0 {
        return PackageSource::Unknown;
    }
    match &plan.steps[0] {
        InstallStep::SystemInstall { .. } => PackageSource::System,
        InstallStep::MarketplaceInstall { .. } => PackageSource::Marketplace,
        InstallStep::FlutterInstall { .. } => PackageSource::FlutterApp,
        _ => PackageSource::Unknown,
    }
}

fn removal_source_of(plan: &InstallPlan) -> (r: PackageSource)
    ensures
        r == removal_source(plan@.steps),
{
    if plan.steps.len() == 0 {
        return PackageSource::Unknown;
    }
    match &plan.steps[0] {
        InstallStep::SystemRemove { .. } => PackageSource::System,
        InstallStep::MarketplaceRemove { .. } => PackageSource::Marketplace,
        InstallStep::FlutterRemove { .. } => PackageSource::FlutterApp,
        _ => PackageSource::Unknown,
    }
}

/// A copy of each string, in order.
pub fn copy_strings(v: &Vec<String>) -> (r: Vec<String>)
    ensures
        r.deep_view() == v.deep_view(),
{
    let mut r: Vec<String> = Vec::new();
    let mut k: usize = 0;
    while k < v.len()
        invariant
            k <= v.len(),
            r.deep_view() == v.deep_view().take(k as int),
        decreases v.len() - k,
    {
        let ghost before = r.deep_view();
        r.push(v[k].clone());
        assert(r.deep_view() =~= before.push(v@[k as int]@));
        assert(r.deep_view() =~= v.deep_view().take(k + 1));
        k = k + 1;
    }
    assert(v.deep_view().take(v.len() as int) =~= v.deep_view());
    r
}

// ---------------------------------------------------------------------------
// reports
// ---------------------------------------------------------------------------

/// The package lines of a search: one per result that the filter lets through.
pub open spec fn search_rows(rs: Seq<ResolvedView>, filter: Option<PackageSource>) -> Seq<LineView>
    decreases rs.len(),
{
    if rs.len() == 0 {
        Seq::empty()
    } else {
        let prev = search_rows(rs.drop_last(), filter);
        let r = rs.last();
        if passes(filter, r.source) {
            prev.push(
                LineView::Package {
                    name: r.name,
                    version: r.version,
                    source: r.source,
                    description: r.description,
                },
            )
        } else {
            prev
        }
    }
}

/// The search report: a header, the matching packages (or a warning), and their count.
pub open spec fn search_report(query: Seq<char>, filter: Option<PackageSource>, rs: Seq<ResolvedView>) -> Seq<
    LineView,
> {
    let rows = search_rows(rs, filter);
    seq![LineView::Header("Search: "@ + query)] + (if rows.len() == 0 {
        seq![LineView::Warning("No packages found"@)]
    } else {
        rows
    }) + seq![
        LineView::Separator,
        LineView::Info { key: "Total"@, value: decimal(rows.len()) + " result(s)"@ },
    ]
}

/// What follows an installed package's name in a listing: its size, if known.
pub open spec fn size_note(size: Option<u64>) -> Seq<char> {
    match size {
        Some(s) => " ("@ + decimal(s as nat) + " bytes)"@,
        None => Seq::empty(),
    }
}

/// The package lines of a listing: one per installed package that the filter lets through.
pub open spec fn list_rows(ps: Seq<InstalledView>, filter: Option<PackageSource>) -> Seq<LineView>
    decreases ps.len(),
{
    if ps.len() == 0 {
        Seq::empty()
    } else {
        let prev = list_rows(ps.drop_last(), filter);
        let p = ps.last();
        if passes(filter, p.source) {
            prev.push(
                LineView::Package {
                    name: p.name,
                    version: p.version,
                    source: p.source,
                    description: size_note(p.size_bytes),
                },
            )
        } else {
            prev
        }
    }
}

pub open spec fn list_title(filter: Option<PackageSource>) -> Seq<char> {
    match filter {
        Some(s) => "Installed packages ["@ + source_label(s) + "]"@,
        None => "Installed packages"@,
    }
}

/// The listing: a header, the packages (or a warning), and their count.
pub open spec fn list_report(filter: Option<PackageSource>, ps: Seq<InstalledView>) -> Seq<LineView> {
    let rows = list_rows(ps, filter);
    seq![LineView::Header(list_title(filter))] + (if rows.len() == 0 {
        seq![LineView::Warning("No packages installed"@)]
    } else {
        rows
    }) + seq![
        LineView::Separator,
        LineView::Info { key: "Total"@, value: decimal(rows.len()) + " package(s)"@ },
    ]
}

/// The details of a resolved package.
pub open spec fn package_details(p: ResolvedView) -> Seq<LineView> {
    let base = seq![
        LineView::Info { key: "Name"@, value: p.name },
        LineView::Info { key: "Version"@, value: p.version },
        LineView::Info { key: "Source"@, value: source_label(p.source) },
        LineView::Info { key: "Description"@, value: p.description },
    ];
    let with_size = match p.size_bytes {
        Some(s) => base.push(
            LineView::Info { key: "Size"@, value: decimal(s as nat) + " bytes"@ },
        ),
        None => base,
    };
    let with_deps = if p.dependencies.len() > 0 {
        with_size.push(LineView::Info { key: "Dependencies"@, value: join(p.dependencies, ", "@) })
    } else {
        with_size
    };
    with_deps.push(LineView::Info { key: "Trusted"@, value: bool_text(p.trusted) })
}

/// The info report of `package`, given what resolving it found.
pub open spec fn info_report(package: Seq<char>, found: Option<ResolvedView>) -> Seq<LineView> {
    let head = seq![LineView::Header("Package: "@ + package)];
    match found {
        Some(p) => head + package_details(p),
        None => head.push(
            LineView::Warning("Package '"@ + package + "' not found in any source"@),
        ),
    }
}

/// One line per available update.
pub open spec fn update_rows(us: Seq<UpdateView>) -> Seq<LineView> {
    Seq::new(
        us.len(),
        |i: int|
            LineView::Package {
                name: us[i].name,
                version: us[i].installed_version + " -> "@ + us[i].available_version,
                source: us[i].source,
                description: match us[i].changelog {
                    Some(c) => c,
                    None => "Update available"@,
                },
            },
    )
}

/// The update report: the updates (or that all is up to date), and their count.
pub open spec fn update_report(us: Seq<UpdateView>) -> Seq<LineView> {
    seq![LineView::Header("Update check"@)] + (if us.len() == 0 {
        seq![LineView::Success("All packages up to date"@)]
    } else {
        update_rows(us)
    }) + seq![
        LineView::Separator,
        LineView::Info { key: "Updates available"@, value: decimal(us.len()) },
    ]
}

/// The number of installed packages from source `s`.
pub open spec fn count_from(ps: Seq<InstalledView>, s: PackageSource) -> nat
    decreases ps.len(),
{
    if ps.len() == 0 {
        0
    } else {
        count_from(ps.drop_last(), s) + if ps.last().source == s { 1nat } else { 0nat }
    }
}

/// The status report: version, strategy, directories, sources and counts.
pub open spec fn status_report(config: ConfigView, ps: Seq<InstalledView>) -> Seq<LineView> {
    seq![
        LineView::Header("ark status"@),
        LineView::Info { key: "Version"@, value: "0.1.0"@ },
        LineView::Info { key: "Strategy"@, value: strategy_name(config.default_strategy) },
        LineView::Info { key: "Marketplace dir"@, value: config.marketplace_dir },
        LineView::Info { key: "Cache dir"@, value: config.cache_dir },
        LineView::Separator,
        LineView::Info { key: "Sources"@, value: "system (apt), marketplace, flutter"@ },
        LineView::Info {
            key: "System packages"@,
            value: decimal(count_from(ps, PackageSource::System)),
        },
        LineView::Info {
            key: "Marketplace packages"@,
            value: decimal(count_from(ps, PackageSource::Marketplace)),
        },
        LineView::Info {
            key: "Flutter apps"@,
            value: decimal(count_from(ps, PackageSource::FlutterApp)),
        },
        LineView::Success("ark is operational"@),
    ]
}

/// The updates that an upgrade of `names` (all, for `None`) takes.
pub open spec fn chosen_updates(names: Option<Seq<Seq<char>>>, us: Seq<UpdateView>) -> Seq<UpdateView>
    decreases us.len(),
{
    if us.len() == 0 {
        Seq::empty()
    } else {
        let prev = chosen_updates(names, us.drop_last());
        match names {
            Some(ns) => if ns.contains(us.last().name) {
                prev.push(us.last())
            } else {
                prev
            },
            None => prev.push(us.last()),
        }
    }
}

/// The result of an upgrade: the packages it would upgrade.
pub open spec fn upgrade_report(names: Option<Seq<Seq<char>>>, us: Seq<UpdateView>) -> ResultView {
    let chosen = chosen_updates(names, us);
    ResultView {
        success: true,
        message: "Upgrade plan: "@ + decimal(chosen.len()) + " package(s) to upgrade"@,
        packages_affected: Seq::new(chosen.len(), |i: int| chosen[i].name),
        source: PackageSource::Unknown,
    }
}

/// The step that upgrades a package to the available version, if its source is known.
pub open spec fn upgrade_step(u: UpdateView) -> Option<StepView> {
    match u.source {
        PackageSource::System => Some(
            StepView::SystemInstall { package: u.name, version: Some(u.available_version) },
        ),
        PackageSource::FlutterApp => Some(
            StepView::FlutterInstall { package: u.name, version: Some(u.available_version) },
        ),
        PackageSource::Unknown => None,
        _ => Some(
            StepView::MarketplaceInstall { package: u.name, version: Some(u.available_version) },
        ),
    }
}

/// The steps that upgrade the chosen updates (those of unknown source are skipped).
pub open spec fn upgrade_steps(us: Seq<UpdateView>) -> Seq<StepView>
    decreases us.len(),
{
    if us.len() == 0 {
        Seq::empty()
    } else {
        let prev = upgrade_steps(us.drop_last());
        match upgrade_step(us.last()) {
            Some(s) => prev.push(s),
            None => prev,
        }
    }
}

/// Whether some chosen update is a system package.
pub open spec fn any_system(us: Seq<UpdateView>) -> bool {
    exists|i: int| 0 <= i < us.len() && #[trigger] us[i].source == PackageSource::System
}

/// The main ark package management engine (its configuration; the sources
/// are asked by the caller, which hands their answers in).
pub struct ArkPackageManager {
    pub(crate) config: ArkConfig,
}

impl ArkPackageManager {
    /// The configuration, as a view.
    pub closed spec fn config_view(self) -> ConfigView {
        self.config@
    }

    /// Create a new package manager with the given configuration.
    pub fn new(config: ArkConfig) -> (r: Result<ArkPackageManager, ArkError>)
        ensures
            r matches Ok(m) && m.config_view() == config@,
    {
        Ok(ArkPackageManager { config })
    }

    /// The configuration this manager runs with.
    pub fn config(&self) -> (r: &ArkConfig)
        ensures
            r@ == self.config_view(),
    {
        &self.config
    }

    /// Format an install plan as human-readable output.
    pub fn format_plan(plan: &InstallPlan) -> (r: ArkOutput)
        ensures
            r@ == plan_report(plan@),
    {
        format_plan(plan)
    }

    /// The result of planning the install of `packages` as `plan`; refused when
    /// no package was asked for.
    pub fn install(&self, packages: &Vec<String>, plan: &InstallPlan) -> (r: Result<ArkResult, ArkError>)
        ensures
            result_view(r) == install_outcome_result(packages.deep_view(), plan@),
    {
        if packages.len() == 0 {
            return Err(ArkError::plain(ErrorKind::NoPackagesToInstall));
        }
        let ghost steps = plan@.steps;
        let mut cmds: Vec<String> = Vec::new();
        let mut k: usize = 0;
        while k < plan.steps.len()
            invariant
                steps == plan@.steps,
                k <= plan.steps.len(),
                cmds.deep_view() == install_commands(steps.take(k as int)),
            decreases plan.steps.len() - k,
        {
            assert(steps.take(k + 1).drop_last() =~= steps.take(k as int));
            assert(steps.take(k + 1).last() == plan.steps@[k as int]@);
            match install_command(&plan.steps[k]) {
                Some(c) => {
                    let ghost before = cmds.deep_view();
                    cmds.push(c);
                    assert(cmds.deep_view() =~= before.push(c@));
                },
                None => {},
            }
            k = k + 1;
        }
        assert(steps.take(plan.steps.len() as int) =~= steps);
        let mut message = String::from_str("Install plan (");
        message.append(usize_to_string(cmds.len()).as_str());
        message.append(" steps): ");
        message.append(join_strings(&cmds, "; ").as_str());
        Ok(
            ArkResult {
                success: true,
                message,
                packages_affected: copy_strings(packages),
                source: install_source_of(plan),
            },
        )
    }

    /// The result of planning the removal of `packages` as `plan`; refused when
    /// no package was asked for.
    pub fn remove(&self, packages: &Vec<String>, plan: &InstallPlan) -> (r: Result<ArkResult, ArkError>)
        ensures
            result_view(r) == remove_outcome_result(packages.deep_view(), plan@),
    {
        if packages.len() == 0 {
            return Err(ArkError::plain(ErrorKind::NoPackagesToRemove));
        }
        let mut message = String::from_str("Remove plan (");
        message.append(usize_to_string(plan.steps.len()).as_str());
        message.append(" steps)");
        Ok(
            ArkResult {
                success: true,
                message,
                packages_affected: copy_strings(packages),
                source: removal_source_of(plan),
            },
        )
    }

    /// The search report for `query`, given what the sources found, optionally
    /// filtered by source.
    pub fn search(&self, query: &str, source: Option<PackageSource>, results: &Vec<ResolvedPackage>) -> (r:
        ArkOutput)
        ensures
            r@ == search_report(query@, source, resolved_seq(results@)),
    {
        let ghost rs = resolved_seq(results@);
        let mut rows: Vec<ArkOutputLine> = Vec::new();
        let mut k: usize = 0;
        while k < results.len()
            invariant
                rs == resolved_seq(results@),
                k <= results.len(),
                lines_view(rows@) == search_rows(rs.take(k as int), source),
            decreases results.len() - k,
        {
            assert(rs.take(k + 1).drop_last() =~= rs.take(k as int));
            let r = &results[k];
            let keep = match source {
                Some(s) => r.source == s,
                None => true,
            };
            if keep {
                let ghost before = lines_view(rows@);
                rows.push(
                    ArkOutputLine::Package {
                        name: r.name.clone(),
                        version: r.version.clone(),
                        source: r.source,
                        description: r.description.clone(),
                    },
                );
                assert(lines_view(rows@) =~= before.push(rows@.last()@));
            }
            k = k + 1;
        }
        assert(rs.take(results.len() as int) =~= rs);
        let n = rows.len();
        let mut output = ArkOutput::new();
        output.push(ArkOutputLine::Header(String::from_str("Search: ").concat(query)));
        if n == 0 {
            output.push(ArkOutputLine::Warning(String::from_str("No packages found")));
        } else {
            output.push_all(rows);
        }
        output.push(ArkOutputLine::Separator);
        output.push(info_line("Total", usize_to_string(n).concat(" result(s)")));
        assert(output@ =~= search_report(query@, source, rs));
        output
    }

    /// The listing of installed packages, optionally filtered by source.
    pub fn list(&self, source: Option<PackageSource>, installed: &Vec<InstalledPackage>) -> (r: ArkOutput)
        ensures
            r@ == list_report(source, installed_seq(installed@)),
    {
        let ghost ps = installed_seq(installed@);
        let mut rows: Vec<ArkOutputLine> = Vec::new();
        let mut k: usize = 0;
        while k < installed.len()
            invariant
                ps == installed_seq(installed@),
                k <= installed.len(),
                lines_view(rows@) == list_rows(ps.take(k as int), source),
            decreases installed.len() - k,
        {
            assert(ps.take(k + 1).drop_last() =~= ps.take(k as int));
            let p = &installed[k];
            let keep = match source {
                Some(s) => p.source == s,
                None => true,
            };
            if keep {
                let size_info = match p.size_bytes {
                    Some(s) => String::from_str(" (").concat(u64_to_string(s).as_str()).concat(
                        " bytes)",
                    ),
                    None => String::new(),
                };
                let ghost before = lines_view(rows@);
                rows.push(
                    ArkOutputLine::Package {
                        name: p.name.clone(),
                        version: p.version.clone(),
                        source: p.source,
                        description: size_info,
                    },
                );
                assert(lines_view(rows@) =~= before.push(rows@.last()@));
            }
            k = k + 1;
        }
        assert(ps.take(installed.len() as int) =~= ps);
        let n = rows.len();
        let title = match source {
            Some(s) => String::from_str("Installed packages [").concat(s.label()).concat("]"),
            None => String::from_str("Installed packages"),
        };
        let mut output = ArkOutput::new();
        output.push(ArkOutputLine::Header(title));
        if n == 0 {
            output.push(ArkOutputLine::Warning(String::from_str("No packages installed")));
        } else {
            output.push_all(rows);
        }
        output.push(ArkOutputLine::Separator);
        output.push(info_line("Total", usize_to_string(n).concat(" package(s)")));
        assert(output@ =~= list_report(source, ps));
        output
    }

    /// The info report of `package`, given what resolving it found.
    pub fn info(&self, package: &str, found: &Option<ResolvedPackage>) -> (r: ArkOutput)
        ensures
            r@ == info_report(
                package@,
                match found {
                    Some(p) => Some(p@),
                    None => None,
                },
            ),
    {
        let mut output = ArkOutput::new();
        output.push(ArkOutputLine::Header(String::from_str("Package: ").concat(package)));
        match found {
            Some(pkg) => {
                let ghost head = output@;
                output.push(info_line("Name", pkg.name.clone()));
                output.push(info_line("Version", pkg.version.clone()));
                output.push(info_line("Source", String::from_str(pkg.source.label())));
                output.push(info_line("Description", pkg.description.clone()));
                if let Some(size) = pkg.size_bytes {
                    output.push(info_line("Size", u64_to_string(size).concat(" bytes")));
                }
                if pkg.dependencies.len() > 0 {
                    output.push(info_line("Dependencies", join_strings(&pkg.dependencies, ", ")));
                }
                output.push(info_line("Trusted", bool_to_string(pkg.trusted)));
                assert(output@ =~= head + package_details(pkg@));
            },
            None => {
                output.push(
                    ArkOutputLine::Warning(
                        String::from_str("Package '").concat(package).concat(
                            "' not found in any source",
                        ),
                    ),
                );
            },
        }
        output
    }

    /// The update report, given the updates the sources offer.
    pub fn update(&self, updates: &Vec<AvailableUpdate>) -> (r: ArkOutput)
        ensures
            r@ == update_report(updates_seq(updates@)),
    {
        let ghost us = updates_seq(updates@);
        let mut output = ArkOutput::new();
        output.push(ArkOutputLine::Header(String::from_str("Update check")));
        let ghost head = output@;
        if updates.len() == 0 {
            output.push(ArkOutputLine::Success(String::from_str("All packages up to date")));
        } else {
            let mut k: usize = 0;
            while k < updates.len()
                invariant
                    us == updates_seq(updates@),
                    k <= updates.len(),
                    output@ == head + update_rows(us).take(k as int),
                decreases updates.len() - k,
            {
                let u = &updates[k];
                let description = match &u.changelog {
                    Some(c) => c.clone(),
                    None => String::from_str("Update available"),
                };
                output.push(
                    ArkOutputLine::Package {
                        name: u.name.clone(),
                        version: u.installed_version.clone().concat(" -> ").concat(
                            u.available_version.as_str(),
                        ),
                        source: u.source,
                        description,
                    },
                );
                assert(update_rows(us).take(k + 1) =~= update_rows(us).take(k as int).push(
                    update_rows(us)[k as int],
                ));
                k = k + 1;
            }
            assert(update_rows(us).take(updates.len() as int) =~= update_rows(us));
        }
        output.push(ArkOutputLine::Separator);
        output.push(info_line("Updates available", usize_to_string(updates.len())));
        assert(output@ =~= update_report(us));
        output
    }

    /// The result of upgrading `packages` (all, for `None`), given the updates
    /// the sources offer.
    pub fn upgrade(&self, packages: Option<&Vec<String>>, updates: &Vec<AvailableUpdate>) -> (r: ArkResult)
        ensures
            r@ == upgrade_report(
                match packages {
                    Some(v) => Some(v.deep_view()),
                    None => None,
                },
                updates_seq(updates@),
            ),
    {
        let ghost names = match packages {
            Some(v) => Some(v.deep_view()),
            None => None,
        };
        let ghost us = updates_seq(updates@);
        let mut affected: Vec<String> = Vec::new();
        let mut k: usize = 0;
        while k < updates.len()
            invariant
                us == updates_seq(updates@),
                names == (match packages {
                    Some(v) => Some(v.deep_view()),
                    None => None::<Seq<Seq<char>>>,
                }),
                k <= updates.len(),
                affected.deep_view() == ({
                    let c = chosen_updates(names, us.take(k as int));
                    Seq::new(c.len(), |i: int| c[i].name)
                }),
            decreases updates.len() - k,
        {
            assert(us.take(k + 1).drop_last() =~= us.take(k as int));
            let u = &updates[k];
            let take = match packages {
                Some(v) => contains_string(v, &u.name),
                None => true,
            };
            let ghost before = affected.deep_view();
            if take {
                affected.push(u.name.clone());
                assert(affected.deep_view() =~= before.push(u.name@));
            }
            proof {
                let c = chosen_updates(names, us.take(k + 1));
                let c0 = chosen_updates(names, us.take(k as int));
                assert(Seq::new(c.len(), |i: int| c[i].name) =~= if take {
                    Seq::new(c0.len(), |i: int| c0[i].name).push(u.name@)
                } else {
                    Seq::new(c0.len(), |i: int| c0[i].name)
                });
            }
            k = k + 1;
        }
        assert(us.take(updates.len() as int) =~= us);
        let mut message = String::from_str("Upgrade plan: ");
        message.append(usize_to_string(affected.len()).as_str());
        message.append(" package(s) to upgrade");
        ArkResult { success: true, message, packages_affected: affected, source: PackageSource::Unknown }
    }

    /// The plan that upgrades `packages` (all, for `None`) to the versions the
    /// sources offer; updates of unknown source get no step.
    pub fn upgrade_plan(&self, packages: Option<&Vec<String>>, updates: &Vec<AvailableUpdate>) -> (r:
        InstallPlan)
        ensures
            ({
                let chosen = chosen_updates(
                    match packages {
                        Some(v) => Some(v.deep_view()),
                        None => None,
                    },
                    updates_seq(updates@),
                );
                &&& r@.steps == upgrade_steps(chosen)
                &&& r@.requires_root == any_system(chosen)
                &&& r@.estimated_size_bytes == 0
            }),
    {
        let ghost names = match packages {
            Some(v) => Some(v.deep_view()),
            None => None,
        };
        let ghost us = updates_seq(updates@);
        let mut plan = InstallPlan::new();
        let mut k: usize = 0;
        while k < updates.len()
            invariant
                us == updates_seq(updates@),
                names == (match packages {
                    Some(v) => Some(v.deep_view()),
                    None => None::<Seq<Seq<char>>>,
                }),
                k <= updates.len(),
                plan@.steps == upgrade_steps(chosen_updates(names, us.take(k as int))),
                plan@.requires_root == any_system(chosen_updates(names, us.take(k as int))),
                plan@.estimated_size_bytes == 0,
            decreases updates.len() - k,
        {
            assert(us.take(k + 1).drop_last() =~= us.take(k as int));
            let u = &updates[k];
            let take = match packages {
                Some(v) => contains_string(v, &u.name),
                None => true,
            };
            let ghost c0 = chosen_updates(names, us.take(k as int));
            if take {
                let version = Some(u.available_version.clone());
                match u.source {
                    PackageSource::System => {
                        plan.steps.push(InstallStep::SystemInstall { package: u.name.clone(), version });
                        plan.requires_root = true;
                    },
                    PackageSource::FlutterApp => {
                        plan.steps.push(InstallStep::FlutterInstall { package: u.name.clone(), version });
                    },
                    PackageSource::Unknown => {},
                    _ => {
                        plan.steps.push(
                            InstallStep::MarketplaceInstall { package: u.name.clone(), version },
                        );
                    },
                }
                proof {
                    let c1 = c0.push(u@);
                    assert(chosen_updates(names, us.take(k + 1)) == c1);
                    assert(c1.drop_last() =~= c0);
                    assert(plan@.steps =~= upgrade_steps(c1));
                    assert(any_system(c1) == (any_system(c0) || u@.source == PackageSource::System)) by {
                        if any_system(c0) {
                            let i = choose|i: int| 0 <= i < c0.len() && #[trigger] c0[i].source
                                == PackageSource::System;
                            assert(c1[i] == c0[i]);
                        }
                        if any_system(c1) {
                            let i = choose|i: int| 0 <= i < c1.len() && #[trigger] c1[i].source
                                == PackageSource::System;
                            if i < c0.len() {
                                assert(c1[i] == c0[i]);
                            }
                        }
                        if u@.source == PackageSource::System {
                            assert(c1[c0.len() as int].source == PackageSource::System);
                        }
                    }
                }
            }
            k = k + 1;
        }
        assert(us.take(updates.len() as int) =~= us);
        plan
    }

    /// The status report, given the packages the sources list as installed
    /// (none, when they could not be listed).
    pub fn status(&self, installed: &Vec<InstalledPackage>) -> (r: ArkOutput)
        ensures
            r@ == status_report(self.config_view(), installed_seq(installed@)),
    {
        let ghost ps = installed_seq(installed@);
        let mut system_count: usize = 0;
        let mut marketplace_count: usize = 0;
        let mut flutter_count: usize = 0;
        let mut k: usize = 0;
        while k < installed.len()
            invariant
                ps == installed_seq(installed@),
                k <= installed.len(),
                system_count == count_from(ps.take(k as int), PackageSource::System),
                marketplace_count == count_from(ps.take(k as int), PackageSource::Marketplace),
                flutter_count == count_from(ps.take(k as int), PackageSource::FlutterApp),
                system_count <= k,
                marketplace_count <= k,
                flutter_count <= k,
            decreases installed.len() - k,
        {
            assert(ps.take(k + 1).drop_last() =~= ps.take(k as int));
            let s = installed[k].source;
            if s == PackageSource::System {
                system_count = system_count + 1;
            } else if s == PackageSource::Marketplace {
                marketplace_count = marketplace_count + 1;
            } else if s == PackageSource::FlutterApp {
                flutter_count = flutter_count + 1;
            }
            k = k + 1;
        }
        assert(ps.take(installed.len() as int) =~= ps);
        let mut output = ArkOutput::new();
        output.push(ArkOutputLine::Header(String::from_str("ark status")));
        output.push(info_line("Version", String::from_str(ARK_VERSION)));
        output.push(info_line("Strategy", String::from_str(self.config.default_strategy.name())));
        output.push(info_line("Marketplace dir", self.config.marketplace_dir.clone()));
        output.push(info_line("Cache dir", self.config.cache_dir.clone()));
        output.push(ArkOutputLine::Separator);
        output.push(info_line("Sources", String::from_str("system (apt), marketplace, flutter")));
        output.push(info_line("System packages", usize_to_string(system_count)));
        output.push(info_line("Marketplace packages", usize_to_string(marketplace_count)));
        output.push(info_line("Flutter apps", usize_to_string(flutter_count)));
        output.push(ArkOutputLine::Success(String::from_str("ark is operational")));
        assert(output@ =~= status_report(self.config@, ps));
        output
    }
}

/// Whether `v` holds a string equal to `s`.
pub fn contains_string(v: &Vec<String>, s: &String) -> (r: bool)
    ensures
        r == v.deep_view().contains(s@),
{
    let mut k: usize = 0;
    while k < v.len()
        invariant
            k <= v.len(),
            forall|i: int| 0 <= i < k ==> v.deep_view()[i] != s@,
        decreases v.len() - k,
    {
        if v[k] == *s {
            assert(v.deep_view()[k as int] == s@);
            return true;
        }
        k = k + 1;
    }
    false
}

/// The report of a query command as a result: its text as the message.
pub fn report_result(output: &ArkOutput, affected: Vec<String>) -> (r: ArkResult)
    ensures
        r@ == (ResultView {
            success: true,
            message: display_text(output@),
            packages_affected: affected.deep_view(),
            source: PackageSource::Unknown,
        }),
{
    ArkResult {
        success: true,
        message: output.to_display_string(),
        packages_affected: affected,
        source: PackageSource::Unknown,
    }
}

} // verus!

verus! {

/// How many package lines there are among `lines`.
pub open spec fn package_line_count(lines: Seq<LineView>) -> nat
    decreases lines.len(),
{
    if lines.len() == 0 {
        0
    } else {
        package_line_count(lines.drop_last()) + if lines.last() is Package {
            1nat
        } else {
            0nat
        }
    }
}

/// How many of the installed packages `ps` come from a source the filter lets through.
pub open spec fn passing_count(ps: Seq<InstalledView>, filter: Option<PackageSource>) -> nat
    decreases ps.len(),
{
    if ps.len() == 0 {
        0
    } else {
        passing_count(ps.drop_last(), filter) + if passes(filter, ps.last().source) {
            1nat
        } else {
            0nat
        }
    }
}

proof fn lemma_package_line_count_concat(a: Seq<LineView>, b: Seq<LineView>)
    ensures
        package_line_count(a + b) == package_line_count(a) + package_line_count(b),
    decreases b.len(),
{
    if b.len() > 0 {
        lemma_package_line_count_concat(a, b.drop_last());
        assert((a + b).drop_last() =~= a + b.drop_last());
    } else {
        assert(a + b =~= a);
    }
}

proof fn lemma_list_rows_count(ps: Seq<InstalledView>, filter: Option<PackageSource>)
    ensures
        list_rows(ps, filter).len() == passing_count(ps, filter),
        package_line_count(list_rows(ps, filter)) == passing_count(ps, filter),
        forall|k: int| 0 <= k < list_rows(ps, filter).len() ==> (#[trigger] list_rows(ps, filter)[k]) is Package
            && passes(filter, list_rows(ps, filter)[k]->Package_source),
    decreases ps.len(),
{
    if ps.len() > 0 {
        lemma_list_rows_count(ps.drop_last(), filter);
        let prev = list_rows(ps.drop_last(), filter);
        if passes(filter, ps.last().source) {
            assert(list_rows(ps, filter).drop_last() =~= prev);
        }
    }
}

/// A listing shows one package line for each installed package that the
/// filter lets through, each from a source the filter lets through, and its
/// `Total` line counts exactly those package lines.
pub proof fn law_list_total_counts_shown(filter: Option<PackageSource>, ps: Seq<InstalledView>)
    ensures
        ({
            let r = list_report(filter, ps);
            let shown = package_line_count(r);
            &&& shown == passing_count(ps, filter)
            &&& r.last() == LineView::Info { key: "Total"@, value: decimal(shown) + " package(s)"@ }
            &&& forall|k: int| 0 <= k < r.len() && (#[trigger] r[k]) is Package ==> passes(
                filter,
                r[k]->Package_source,
            )
        }),
{
    let rows = list_rows(ps, filter);
    lemma_list_rows_count(ps, filter);
    let head = seq![LineView::Header(list_title(filter))];
    let mid = if rows.len() == 0 {
        seq![LineView::Warning("No packages installed"@)]
    } else {
        rows
    };
    let tail = seq![
        LineView::Separator,
        LineView::Info { key: "Total"@, value: decimal(rows.len()) + " package(s)"@ },
    ];
    let r = list_report(filter, ps);
    assert(r == head + mid + tail);
    lemma_package_line_count_concat(head + mid, tail);
    lemma_package_line_count_concat(head, mid);
    assert(head.drop_last() =~= Seq::<LineView>::empty());
    assert(tail.drop_last().drop_last() =~= Seq::<LineView>::empty());
    assert(package_line_count(Seq::<LineView>::empty()) == 0);
    assert(head.last() is Header);
    assert(package_line_count(head) == 0);
    assert(package_line_count(tail.drop_last()) == 0);
    assert(package_line_count(tail) == 0);
    if rows.len() == 0 {
        assert(mid.drop_last() =~= Seq::<LineView>::empty());
        assert(mid.last() is Warning);
        assert(package_line_count(mid) == 0);
    }
    assert forall|k: int| 0 <= k < r.len() && (#[trigger] r[k]) is Package implies passes(
        filter,
        r[k]->Package_source,
    ) by {
        if 1 <= k < 1 + mid.len() && rows.len() > 0 {
            assert(r[k] == rows[k - 1]);
        } else if k == 0 {
            assert(r[k] == head[0]);
        } else if k < 1 + mid.len() {
            assert(r[k] == mid[k - 1]);
        } else {
            assert(r[k] == tail[k - 1 - mid.len()]);
        }
    }
}

} // verus!

verus! {

/// Upgrading goes through the installer of each update's own source, at the
/// available version: one more update adds a `SystemInstall` step for a system
/// package, a `FlutterInstall` step for a Flutter app, a `MarketplaceInstall`
/// step for a marketplace or community package, and no step for an unknown
/// source; the steps of the earlier updates stay as they were.
pub proof fn law_upgrade_step_by_source(us: Seq<UpdateView>, u: UpdateView)
    ensures
        u.source == PackageSource::System ==> upgrade_steps(us.push(u)) == upgrade_steps(us).push(
            StepView::SystemInstall { package: u.name, version: Some(u.available_version) },
        ),
        u.source == PackageSource::FlutterApp ==> upgrade_steps(us.push(u)) == upgrade_steps(us).push(
            StepView::FlutterInstall { package: u.name, version: Some(u.available_version) },
        ),
        (u.source == PackageSource::Marketplace || u.source == PackageSource::Community) ==> upgrade_steps(
            us.push(u),
        ) == upgrade_steps(us).push(
            StepView::MarketplaceInstall { package: u.name, version: Some(u.available_version) },
        ),
        u.source == PackageSource::Unknown ==> upgrade_steps(us.push(u)) == upgrade_steps(us),
{
    assert(us.push(u).drop_last() =~= us);
}

/// Whether a step installs something.
pub open spec fn is_install_step(s: StepView) -> bool {
    s is SystemInstall || s is MarketplaceInstall || s is FlutterInstall
}

/// How many of the steps install something.
pub open spec fn install_step_count(steps: Seq<StepView>) -> nat
    decreases steps.len(),
{
    if steps.len() == 0 {
        0
    } else {
        install_step_count(steps.drop_last()) + if is_install_step(steps.last()) {
            1nat
        } else {
            0nat
        }
    }
}

proof fn lemma_install_commands_count(steps: Seq<StepView>)
    ensures
        install_commands(steps).len() == install_step_count(steps),
    decreases steps.len(),
{
    if steps.len() > 0 {
        lemma_install_commands_count(steps.drop_last());
    }
}

/// An install result lists one command per install step of its plan, of
/// every kind alike, and counts them: a system install of `p` runs
/// `apt-get install -y p`, a marketplace install `marketplace install p`, a
/// Flutter install `agpkg install p`; a step that installs nothing adds no
/// command.
pub proof fn law_install_lists_every_install_step(
    packages: Seq<Seq<char>>,
    plan: PlanView,
    steps: Seq<StepView>,
    s: StepView,
)
    ensures
        install_commands(steps).len() == install_step_count(steps),
        packages.len() > 0 ==> install_outcome_result(packages, plan) == Ok::<ResultView, ErrorView>(
            ResultView {
                success: true,
                message: "Install plan ("@ + decimal(install_step_count(plan.steps)) + " steps): "@ + join(
                    install_commands(plan.steps),
                    "; "@,
                ),
                packages_affected: packages,
                source: install_source(plan.steps),
            },
        ),
        s matches StepView::SystemInstall { package, .. } ==> install_commands(steps.push(s))
            == install_commands(steps).push("apt-get install -y "@ + package),
        s matches StepView::MarketplaceInstall { package, .. } ==> install_commands(steps.push(s))
            == install_commands(steps).push("marketplace install "@ + package),
        s matches StepView::FlutterInstall { package, .. } ==> install_commands(steps.push(s))
            == install_commands(steps).push("agpkg install "@ + package),
        !is_install_step(s) ==> install_commands(steps.push(s)) == install_commands(steps),
{
    lemma_install_commands_count(steps);
    lemma_install_commands_count(plan.steps);
    assert(steps.push(s).drop_last() =~= steps);
}

} // verus!
