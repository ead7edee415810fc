//! Install plans: the steps ark would run, built from what the resolver found.

use vstd::prelude::*;
use vstd::string::StringExecFns;

use crate::error::{err_of, ArkError, ErrorKind, ErrorView};
use crate::output::{info_line, ArkOutput, ArkOutputLine, LineView};
use crate::source::PackageSource;
use crate::text::{bool_text, bool_to_string, decimal, join, join_strings, str_eq, u64_to_string, usize_to_string};

verus! {

/// A single step in an install plan.
#[derive(Debug, Clone, PartialEq, Eq)]
pub enum InstallStep {
    SystemInstall { package: String, version: Option<String> },
    SystemRemove { package: String, purge: bool },
    MarketplaceInstall { package: String, version: Option<String> },
    MarketplaceRemove { package: String },
    FlutterInstall { package: String, version: Option<String> },
    FlutterRemove { package: String },
    /// Run `apt-get update` to refresh system package lists.
    SystemUpdate,
}

/// A step, with its strings as character sequences.
pub enum StepView {
    SystemInstall { package: Seq<char>, version: Option<Seq<char>> },
    SystemRemove { package: Seq<char>, purge: bool },
    MarketplaceInstall { package: Seq<char>, version: Option<Seq<char>> },
    MarketplaceRemove { package: Seq<char> },
    FlutterInstall { package: Seq<char>, version: Option<Seq<char>> },
    FlutterRemove { package: Seq<char> },
    SystemUpdate,
}

impl View for InstallStep {
    type V = StepView;

    open spec fn view(&self) -> StepView {
        match self {
            InstallStep::SystemInstall { package, version } => StepView::SystemInstall {
                package: package@,
                version: version.deep_view(),
            },
            InstallStep::SystemRemove { package, purge } => StepView::SystemRemove {
                package: package@,
                purge: *purge,
            },
            InstallStep::MarketplaceInstall { package, version } => StepView::MarketplaceInstall {
                package: package@,
                version: version.deep_view(),
            },
            InstallStep::MarketplaceRemove { package } => StepView::MarketplaceRemove {
                package: package@,
            },
            InstallStep::FlutterInstall { package, version } => StepView::FlutterInstall {
                package: package@,
                version: version.deep_view(),
            },
            InstallStep::FlutterRemove { package } => StepView::FlutterRemove {
                package: package@,
            },
            InstallStep::SystemUpdate => StepView::SystemUpdate,
        }
    }
}

/// A plan for what ark wants to execute.
#[derive(Debug, Clone)]
pub struct InstallPlan {
    pub steps: Vec<InstallStep>,
    pub requires_root: bool,
    pub estimated_size_bytes: u64,
}

pub struct PlanView {
    pub steps: Seq<StepView>,
    pub requires_root: bool,
    pub estimated_size_bytes: u64,
}

pub open spec fn steps_view(steps: Seq<InstallStep>) -> Seq<StepView> {
    Seq::new(steps.len(), |i: int| steps[i]@)
}

impl View for InstallPlan {
    type V = PlanView;

    open spec fn view(&self) -> PlanView {
        PlanView {
            steps: steps_view(self.steps@),
            requires_root: self.requires_root,
            estimated_size_bytes: self.estimated_size_bytes,
        }
    }
}

pub open spec fn empty_plan() -> PlanView {
    PlanView { steps: Seq::empty(), requires_root: false, estimated_size_bytes: 0 }
}

/// A package as the resolver found it.
#[derive(Debug, Clone)]
pub struct ResolvedPackage {
    pub name: String,
    pub version: String,
    pub source: PackageSource,
    pub description: String,
    pub size_bytes: Option<u64>,
    pub dependencies: Vec<String>,
    pub trusted: bool,
}

pub struct ResolvedView {
    pub name: Seq<char>,
    pub version: Seq<char>,
    pub source: PackageSource,
    pub description: Seq<char>,
    pub size_bytes: Option<u64>,
    pub dependencies: Seq<Seq<char>>,
    pub trusted: bool,
}

impl View for ResolvedPackage {
    type V = ResolvedView;

    open spec fn view(&self) -> ResolvedView {
        ResolvedView {
            name: self.name@,
            version: self.version@,
            source: self.source,
            description: self.description@,
            size_bytes: self.size_bytes,
            dependencies: self.dependencies.deep_view(),
            trusted: self.trusted,
        }
    }
}

/// What resolving one name gave: the resolver's failure, nothing, or a package.
pub open spec fn resolution_view(r: Result<Option<ResolvedPackage>, String>) -> Result<
    Option<ResolvedView>,
    Seq<char>,
> {
    match r {
        Ok(Some(p)) => Ok(Some(p@)),
        Ok(None) => Ok(None),
        Err(e) => Err(e@),
    }
}

pub open spec fn unit_view(r: Result<(), ArkError>) -> Result<(), ErrorView> {
    match r {
        Ok(_) => Ok(()),
        Err(e) => Err(e@),
    }
}

/// The version a step pins: none for `latest` or an empty version.
pub open spec fn pinned_version(v: Seq<char>) -> Option<Seq<char>> {
    if v == "latest"@ || v.len() == 0 {
        None
    } else {
        Some(v)
    }
}

/// The step that installs a resolved package (community packages install
/// like marketplace ones).
pub open spec fn install_step_for(p: ResolvedView) -> StepView {
    match p.source {
        PackageSource::System => StepView::SystemInstall {
            package: p.name,
            version: pinned_version(p.version),
        },
        PackageSource::FlutterApp => StepView::FlutterInstall {
            package: p.name,
            version: pinned_version(p.version),
        },
        _ => StepView::MarketplaceInstall { package: p.name, version: pinned_version(p.version) },
    }
}

/// Whether adding the resolved package's size to the plan stays within a `u64`.
pub open spec fn size_fits(plan: PlanView, r: Result<Option<ResolvedView>, Seq<char>>) -> bool {
    match r {
        Ok(Some(p)) => match p.size_bytes {
            Some(s) => plan.estimated_size_bytes + s <= u64::MAX,
            None => true,
        },
        _ => true,
    }
}

/// The plan after resolving `requested` gave `r`, or the error it is refused with.
pub open spec fn install_outcome(
    plan: PlanView,
    requested: Seq<char>,
    r: Result<Option<ResolvedView>, Seq<char>>,
) -> Result<PlanView, ErrorView> {
    match r {
        Err(reason) => Err(
            ErrorView { kind: ErrorKind::ResolveFailed, subject: requested, detail: reason },
        ),
        Ok(None) => Err(err_of(ErrorKind::PackageNotFound, requested)),
        Ok(Some(p)) => if p.source == PackageSource::Unknown {
            Err(err_of(ErrorKind::UndeterminedSource, requested))
        } else {
            Ok(
                PlanView {
                    steps: plan.steps.push(install_step_for(p)),
                    requires_root: plan.requires_root || p.source == PackageSource::System,
                    estimated_size_bytes: match p.size_bytes {
                        Some(s) => (plan.estimated_size_bytes + s) as u64,
                        None => plan.estimated_size_bytes,
                    },
                },
            )
        },
    }
}

/// How a package to remove was found: installed from the marketplace,
/// installed as a system package, or else what resolving it gave.
#[derive(Debug)]
pub enum RemovalProbe {
    MarketplaceInstalled,
    SystemInstalled,
    Resolution(Result<Option<ResolvedPackage>, String>),
}

pub enum ProbeView {
    MarketplaceInstalled,
    SystemInstalled,
    Resolution(Result<Option<ResolvedView>, Seq<char>>),
}

impl View for RemovalProbe {
    type V = ProbeView;

    open spec fn view(&self) -> ProbeView {
        match self {
            RemovalProbe::MarketplaceInstalled => ProbeView::MarketplaceInstalled,
            RemovalProbe::SystemInstalled => ProbeView::SystemInstalled,
            RemovalProbe::Resolution(r) => ProbeView::Resolution(resolution_view(*r)),
        }
    }
}

/// The plan after finding how to remove `name`, or the error it is refused with.
pub open spec fn removal_outcome(plan: PlanView, name: Seq<char>, purge: bool, probe: ProbeView) -> Result<
    PlanView,
    ErrorView,
> {
    match probe {
        ProbeView::MarketplaceInstalled => Ok(
            PlanView { steps: plan.steps.push(StepView::MarketplaceRemove { package: name }), ..plan },
        ),
        ProbeView::SystemInstalled => Ok(
            PlanView {
                steps: plan.steps.push(StepView::SystemRemove { package: name, purge }),
                requires_root: true,
                ..plan
            },
        ),
        ProbeView::Resolution(Err(reason)) => Err(
            ErrorView { kind: ErrorKind::ResolverError, subject: name, detail: reason },
        ),
        ProbeView::Resolution(Ok(None)) => Err(
            err_of(ErrorKind::PackageNotFoundForRemoval, name),
        ),
        ProbeView::Resolution(Ok(Some(p))) => match p.source {
            PackageSource::System => Ok(
                PlanView {
                    steps: plan.steps.push(StepView::SystemRemove { package: p.name, purge }),
                    requires_root: true,
                    ..plan
                },
            ),
            PackageSource::FlutterApp => Ok(
                PlanView {
                    steps: plan.steps.push(StepView::FlutterRemove { package: p.name }),
                    ..plan
                },
            ),
            PackageSource::Unknown => Err(err_of(ErrorKind::UndeterminedSource, name)),
            _ => Ok(
                PlanView {
                    steps: plan.steps.push(StepView::MarketplaceRemove { package: p.name }),
                    ..plan
                },
            ),
        },
    }
}

/// `Some(v)` for a version other than `latest` or empty.
fn pin_version(v: &String) -> (r: Option<String>)
    ensures
        r.deep_view() == pinned_version(v@),
{
    if str_eq(v.as_str(), "latest") || v.as_str().unicode_len() == 0 {
        None
    } else {
        Some(v.clone())
    }
}

impl InstallPlan {
    /// An empty plan: no steps, no root, no size.
    pub fn new() -> (r: InstallPlan)
        ensures
            r@ == empty_plan(),
    {
        let r = InstallPlan { steps: Vec::new(), requires_root: false, estimated_size_bytes: 0 };
        assert(r@.steps =~= Seq::<StepView>::empty());
        r
    }

    fn push_step(&mut self, step: InstallStep)
        ensures
            final(self)@ == (PlanView { steps: old(self)@.steps.push(step@), ..old(self)@ }),
    {
        let ghost before = self@.steps;
        self.steps.push(step);
        assert(self@.steps =~= before.push(step@));
    }

    /// Adds the step that installs `requested`, given what resolving it gave.
    /// Unchanged on an error.
    pub fn add_install(&mut self, requested: &str, resolved: Result<Option<ResolvedPackage>, String>) -> (r:
        Result<(), ArkError>)
        requires
            size_fits(old(self)@, resolution_view(resolved)),
        ensures
            match install_outcome(old(self)@, requested@, resolution_view(resolved)) {
                Ok(p) => r is Ok && final(self)@ == p,
                Err(e) => r matches Err(got) && got@ == e && final(self)@ == old(self)@,
            },
    {
        match resolved {
            Err(reason) => Err(ArkError::resolve_failed(requested, reason.as_str())),
            Ok(None) => Err(ArkError::about(ErrorKind::PackageNotFound, requested)),
            Ok(Some(pkg)) => {
                let step = match pkg.source {
                    PackageSource::System => InstallStep::SystemInstall {
                        package: pkg.name.clone(),
                        version: pin_version(&pkg.version),
                    },
                    PackageSource::FlutterApp => InstallStep::FlutterInstall {
                        package: pkg.name.clone(),
                        version: pin_version(&pkg.version),
                    },
                    PackageSource::Unknown => {
                        return Err(ArkError::about(ErrorKind::UndeterminedSource, requested));
                    },
                    _ => InstallStep::MarketplaceInstall {
                        package: pkg.name.clone(),
                        version: pin_version(&pkg.version),
                    },
                };
                if let Some(size) = pkg.size_bytes {
                    self.estimated_size_bytes = self.estimated_size_bytes + size;
                }
                if pkg.source == PackageSource::System {
                    self.requires_root = true;
                }
                self.push_step(step);
                Ok(())
            },
        }
    }

    /// Adds the step that removes `name`, given how it was found.
    /// Unchanged on an error.
    pub fn add_removal(&mut self, name: &str, purge: bool, probe: RemovalProbe) -> (r: Result<
        (),
        ArkError,
    >)
        ensures
            match removal_outcome(old(self)@, name@, purge, probe@) {
                Ok(p) => r is Ok && final(self)@ == p,
                Err(e) => r matches Err(got) && got@ == e && final(self)@ == old(self)@,
            },
    {
        match probe {
            RemovalProbe::MarketplaceInstalled => {
                self.push_step(InstallStep::MarketplaceRemove { package: String::from_str(name) });
                Ok(())
            },
            RemovalProbe::SystemInstalled => {
                self.push_step(InstallStep::SystemRemove { package: String::from_str(name), purge });
                self.requires_root = true;
                Ok(())
            },
            RemovalProbe::Resolution(Err(reason)) => Err(
                ArkError::resolver_error(name, reason.as_str()),
            ),
            RemovalProbe::Resolution(Ok(None)) => Err(
                ArkError::about(ErrorKind::PackageNotFoundForRemoval, name),
            ),
            RemovalProbe::Resolution(Ok(Some(pkg))) => {
                match pkg.source {
                    PackageSource::System => {
                        self.push_step(InstallStep::SystemRemove { package: pkg.name, purge });
                        self.requires_root = true;
                    },
                    PackageSource::FlutterApp => {
                        self.push_step(InstallStep::FlutterRemove { package: pkg.name });
                    },
                    PackageSource::Unknown => {
                        return Err(ArkError::about(ErrorKind::UndeterminedSource, name));
                    },
                    _ => {
                        self.push_step(InstallStep::MarketplaceRemove { package: pkg.name });
                    },
                }
                Ok(())
            },
        }
    }
}

impl Default for InstallPlan {
    fn default() -> (r: InstallPlan)
        ensures
            r@ == empty_plan(),
    {
        InstallPlan::new()
    }
}

} // verus!

verus! {

/// The version a step shows: its pinned version, or `latest`.
pub open spec fn version_text(v: Option<Seq<char>>) -> Seq<char> {
    match v {
        Some(s) => s,
        None => "latest"@,
    }
}

/// How step number `n` of a plan is described.
pub open spec fn step_description(n: nat, s: StepView) -> Seq<char> {
    let num = decimal(n) + ". "@;
    match s {
        StepView::SystemInstall { package, version } => num + "apt-get install "@ + package + " ("@
            + version_text(version) + ")"@,
        StepView::SystemRemove { package, purge } => num + "apt-get "@ + (if purge {
            "purge"@
        } else {
            "remove"@
        }) + " "@ + package,
        StepView::MarketplaceInstall { package, version } => num + "marketplace install "@ + package
            + " ("@ + version_text(version) + ")"@,
        StepView::MarketplaceRemove { package } => num + "marketplace remove "@ + package,
        StepView::FlutterInstall { package, version } => num + "agpkg install "@ + package + " ("@
            + version_text(version) + ")"@,
        StepView::FlutterRemove { package } => num + "agpkg remove "@ + package,
        StepView::SystemUpdate => num + "apt-get update"@,
    }
}

/// One `Step` line per step, numbered from 1.
pub open spec fn step_lines(steps: Seq<StepView>) -> Seq<LineView> {
    Seq::new(
        steps.len(),
        |i: int| LineView::Info { key: "Step"@, value: step_description((i + 1) as nat, steps[i]) },
    )
}

/// The report of a plan: its steps, whether it needs root, and its size.
pub open spec fn plan_report(p: PlanView) -> Seq<LineView> {
    let head = seq![LineView::Header("Execution plan"@)];
    if p.steps.len() == 0 {
        head.push(LineView::Warning("No steps in plan"@))
    } else {
        head + step_lines(p.steps) + seq![
            LineView::Separator,
            LineView::Info { key: "Requires root"@, value: bool_text(p.requires_root) },
            LineView::Info {
                key: "Estimated size"@,
                value: decimal(p.estimated_size_bytes as nat) + " bytes"@,
            },
        ]
    }
}

fn version_or_latest(v: &Option<String>) -> (r: &str)
    ensures
        r@ == version_text(v.deep_view()),
{
    match v {
        Some(s) => s.as_str(),
        None => "latest",
    }
}

/// Describes step number `n`.
fn describe_step(n: usize, step: &InstallStep) -> (r: String)
    ensures
        r@ == step_description(n as nat, step@),
{
    let mut d = usize_to_string(n);
    d.append(". ");
    match step {
        InstallStep::SystemInstall { package, version } => {
            d.append("apt-get install ");
            d.append(package.as_str());
            d.append(" (");
            d.append(version_or_latest(version));
            d.append(")");
        },
        InstallStep::SystemRemove { package, purge } => {
            d.append("apt-get ");
            d.append(if *purge { "purge" } else { "remove" });
            d.append(" ");
            d.append(package.as_str());
        },
        InstallStep::MarketplaceInstall { package, version } => {
            d.append("marketplace install ");
            d.append(package.as_str());
            d.append(" (");
            d.append(version_or_latest(version));
            d.append(")");
        },
        InstallStep::MarketplaceRemove { package } => {
            d.append("marketplace remove ");
            d.append(package.as_str());
        },
        InstallStep::FlutterInstall { package, version } => {
            d.append("agpkg install ");
            d.append(package.as_str());
            d.append(" (");
            d.append(version_or_latest(version));
            d.append(")");
        },
        InstallStep::FlutterRemove { package } => {
            d.append("agpkg remove ");
            d.append(package.as_str());
        },
        InstallStep::SystemUpdate => {
            d.append("apt-get update");
        },
    }
    d
}

/// Format an install plan as human-readable output.
pub fn format_plan(plan: &InstallPlan) -> (r: ArkOutput)
    ensures
        r@ == plan_report(plan@),
{
    let mut output = ArkOutput::new();
    output.push(ArkOutputLine::Header(String::from_str("Execution plan")));
    if plan.steps.len() == 0 {
        output.push(ArkOutputLine::Warning(String::from_str("No steps in plan")));
        return output;
    }
    let ghost head = output@;
    let mut k: usize = 0;
    while k < plan.steps.len()
        invariant
            k <= plan.steps.len(),
            head == seq![LineView::Header("Execution plan"@)],
            output@ == head + step_lines(plan@.steps).take(k as int),
        decreases plan.steps.len() - k,
    {
        let d = describe_step(k + 1, &plan.steps[k]);
        output.push(info_line("Step", d));
        assert(step_lines(plan@.steps).take(k + 1) =~= step_lines(plan@.steps).take(k as int).push(
            step_lines(plan@.steps)[k as int],
        ));
        k = k + 1;
    }
    assert(step_lines(plan@.steps).take(plan.steps.len() as int) =~= step_lines(plan@.steps));
    output.push(ArkOutputLine::Separator);
    output.push(info_line("Requires root", bool_to_string(plan.requires_root)));
    let mut size = u64_to_string(plan.estimated_size_bytes);
    size.append(" bytes");
    output.push(info_line("Estimated size", size));
    assert(output@ =~= plan_report(plan@));
    output
}

} // verus!

verus! {

/// Result of executing an install plan step.
#[derive(Debug, Clone)]
pub struct StepResult {
    pub step: InstallStep,
    pub success: bool,
    pub message: String,
    pub duration_ms: u64,
}

/// Result of executing an entire install plan.
#[derive(Debug, Clone)]
pub struct PlanExecutionResult {
    pub transaction_id: String,
    pub success: bool,
    pub steps_completed: usize,
    pub steps_failed: usize,
    pub total_duration_ms: u64,
    pub step_results: Vec<StepResult>,
}

} // verus!

verus! {

/// Whether some step of the plan runs on the system package manager.
pub open spec fn has_system_step(steps: Seq<StepView>) -> bool {
    exists|i: int|
        0 <= i < steps.len() && (#[trigger] steps[i] is SystemInstall || steps[i] is SystemRemove)
}

/// A plan needs root exactly when one of its steps is a system step.
pub open spec fn root_consistent(p: PlanView) -> bool {
    p.requires_root == has_system_step(p.steps)
}

proof fn lemma_push_system_step(steps: Seq<StepView>, s: StepView)
    ensures
        has_system_step(steps.push(s)) == (has_system_step(steps) || s is SystemInstall
            || s is SystemRemove),
{
    let t = steps.push(s);
    if has_system_step(steps) {
        let i = choose|i: int|
            0 <= i < steps.len() && (#[trigger] steps[i] is SystemInstall || steps[i] is SystemRemove);
        assert(t[i] == steps[i]);
    }
    if has_system_step(t) {
        let i = choose|i: int| 0 <= i < t.len() && (#[trigger] t[i] is SystemInstall || t[i] is SystemRemove);
        if i < steps.len() {
            assert(t[i] == steps[i]);
        }
    }
    if s is SystemInstall || s is SystemRemove {
        assert(t[steps.len() as int] == s);
    }
}

/// A plan built from the empty plan by adding installs and removals needs
/// root exactly when it has a system step: the empty plan does not, and each
/// addition keeps it so.
pub proof fn law_root_iff_system_step(
    p: PlanView,
    name: Seq<char>,
    purge: bool,
    resolved: Result<Option<ResolvedView>, Seq<char>>,
    probe: ProbeView,
)
    requires
        root_consistent(p),
    ensures
        root_consistent(empty_plan()),
        install_outcome(p, name, resolved) matches Ok(q) ==> root_consistent(q),
        removal_outcome(p, name, purge, probe) matches Ok(q) ==> root_consistent(q),
{
    match resolved {
        Ok(Some(r)) => {
            lemma_push_system_step(p.steps, install_step_for(r));
        },
        _ => {},
    }
    match probe {
        ProbeView::MarketplaceInstalled => {
            lemma_push_system_step(p.steps, StepView::MarketplaceRemove { package: name });
        },
        ProbeView::SystemInstalled => {
            lemma_push_system_step(p.steps, StepView::SystemRemove { package: name, purge });
        },
        ProbeView::Resolution(Ok(Some(r))) => {
            lemma_push_system_step(p.steps, StepView::SystemRemove { package: r.name, purge });
            lemma_push_system_step(p.steps, StepView::FlutterRemove { package: r.name });
            lemma_push_system_step(p.steps, StepView::MarketplaceRemove { package: r.name });
        },
        _ => {},
    }
}

} // verus!

verus! {

/// A system removal is shown as `apt-get remove` and a purge as `apt-get
/// purge`: in the report of any plan, the line of its step `i` that removes
/// `package` from the system reads `<i+1>. apt-get remove <package>`, or
/// `<i+1>. apt-get purge <package>` when it purges; so the purge flag alone
/// changes what the line says.
pub proof fn law_system_remove_shown_by_purge(p: PlanView, i: int)
    requires
        0 <= i < p.steps.len(),
        p.steps[i] is SystemRemove,
    ensures
        ({
            let package = p.steps[i]->SystemRemove_package;
            let purge = p.steps[i]->SystemRemove_purge;
            let line = plan_report(p)[i + 1];
            &&& !purge ==> line == LineView::Info {
                key: "Step"@,
                value: decimal((i + 1) as nat) + ". apt-get remove "@ + package,
            }
            &&& purge ==> line == LineView::Info {
                key: "Step"@,
                value: decimal((i + 1) as nat) + ". apt-get purge "@ + package,
            }
            &&& plan_report(p) != plan_report(
                PlanView {
                    steps: p.steps.update(i, StepView::SystemRemove { package, purge: !purge }),
                    ..p
                },
            )
        }),
{
    let package = p.steps[i]->SystemRemove_package;
    let purge = p.steps[i]->SystemRemove_purge;
    let q = PlanView { steps: p.steps.update(i, StepView::SystemRemove { package, purge: !purge }), ..p };
    reveal_strlit(". ");
    reveal_strlit("apt-get ");
    reveal_strlit(" ");
    reveal_strlit("remove");
    reveal_strlit("purge");
    reveal_strlit(". apt-get remove ");
    reveal_strlit(". apt-get purge ");
    let num = decimal((i + 1) as nat) + ". "@;
    assert(num + "apt-get "@ + "remove"@ + " "@ + package =~= decimal((i + 1) as nat) + ". apt-get remove "@
        + package);
    assert(num + "apt-get "@ + "purge"@ + " "@ + package =~= decimal((i + 1) as nat) + ". apt-get purge "@
        + package);
    let head = seq![LineView::Header("Execution plan"@)];
    assert(plan_report(p)[i + 1] == step_lines(p.steps)[i]);
    assert(plan_report(q)[i + 1] == step_lines(q.steps)[i]);
    let a = step_description((i + 1) as nat, p.steps[i]);
    let b = step_description((i + 1) as nat, q.steps[i]);
    let k: int = num.len() as int + 8;
    assert(a[k] != b[k]) by {
        assert(a == num + "apt-get "@ + (if purge { "purge"@ } else { "remove"@ }) + " "@ + package);
        assert(a[k] == (if purge { "purge"@ } else { "remove"@ })[0]);
        assert(b[k] == (if !purge { "purge"@ } else { "remove"@ })[0]);
    }
    assert(plan_report(p)[i + 1] != plan_report(q)[i + 1]);
}

} // verus!
