use ark::plan::{RemovalProbe, ResolvedPackage};
use ark::{
    ArkConfig, ArkOutput, ArkOutputLine, ArkPackageManager, AvailableUpdate, ErrorKind,
    InstallPlan, InstallStep, InstalledPackage, PackageSource, ResolutionStrategy, ARK_VERSION,
};

#[test]
fn test_format_plan_output() {
    let plan = InstallPlan {
        steps: vec![
            InstallStep::SystemInstall {
                package: "nginx".to_string(),
                version: None,
            },
            InstallStep::MarketplaceInstall {
                package: "my-agent".to_string(),
                version: Some("1.0.0".to_string()),
            },
        ],
        requires_root: true,
        estimated_size_bytes: 1024,
    };

    let output = ArkPackageManager::format_plan(&plan);
    let text = output.to_display_string();
    assert!(text.contains("Execution plan"));
    assert!(text.contains("apt-get install nginx"));
    assert!(text.contains("marketplace install my-agent"));
    assert!(text.contains("Requires root"));
    assert!(text.contains("true"));
}

#[test]
fn format_plan_exact_text() {
    let plan = InstallPlan {
        steps: vec![
            InstallStep::SystemInstall { package: "nginx".to_string(), version: None },
            InstallStep::SystemRemove { package: "old".to_string(), purge: true },
            InstallStep::FlutterInstall { package: "app".to_string(), version: Some("2".to_string()) },
            InstallStep::FlutterRemove { package: "gone".to_string() },
            InstallStep::MarketplaceRemove { package: "agent".to_string() },
            InstallStep::SystemUpdate,
        ],
        requires_root: false,
        estimated_size_bytes: 1024,
    };
    let text = ark::format_plan(&plan).to_display_string();
    assert_eq!(
        text,
        "=== Execution plan ===\n  Step: 1. apt-get install nginx (latest)\n  Step: 2. apt-get purge old\n  Step: 3. agpkg install app (2)\n  Step: 4. agpkg remove gone\n  Step: 5. marketplace remove agent\n  Step: 6. apt-get update\n---\n  Requires root: false\n  Estimated size: 1024 bytes\n"
    );
    let empty = ark::format_plan(&InstallPlan::new()).to_display_string();
    assert_eq!(empty, "=== Execution plan ===\nWARN: No steps in plan\n");
}

#[test]
fn test_ark_output_formatting() {
    let mut output = ArkOutput::new();
    output
        .lines
        .push(ArkOutputLine::Header("Test Header".to_string()));
    output.lines.push(ArkOutputLine::Package {
        name: "nginx".to_string(),
        version: "1.24.0".to_string(),
        source: PackageSource::System,
        description: "HTTP server".to_string(),
    });
    output.lines.push(ArkOutputLine::Separator);
    output
        .lines
        .push(ArkOutputLine::Success("Done".to_string()));
    output
        .lines
        .push(ArkOutputLine::Error("Something failed".to_string()));
    output
        .lines
        .push(ArkOutputLine::Warning("Caution".to_string()));

    let text = output.to_display_string();
    assert!(text.contains("=== Test Header ==="));
    assert!(text.contains("nginx (1.24.0) [system] -- HTTP server"));
    assert!(text.contains("---"));
    assert!(text.contains("OK: Done"));
    assert!(text.contains("ERROR: Something failed"));
    assert!(text.contains("WARN: Caution"));
}

#[test]
fn test_install_plan_mixed_sources() {
    let plan = InstallPlan {
        steps: vec![
            InstallStep::MarketplaceInstall {
                package: "my-agent".to_string(),
                version: None,
            },
            InstallStep::FlutterInstall {
                package: "my-app".to_string(),
                version: None,
            },
            InstallStep::SystemInstall {
                package: "curl".to_string(),
                version: None,
            },
        ],
        requires_root: true,
        estimated_size_bytes: 0,
    };

    assert_eq!(plan.steps.len(), 3);
    assert_eq!(
        plan.steps[0],
        InstallStep::MarketplaceInstall {
            package: "my-agent".to_string(),
            version: None,
        }
    );
    assert_eq!(
        plan.steps[1],
        InstallStep::FlutterInstall {
            package: "my-app".to_string(),
            version: None,
        }
    );
    assert_eq!(
        plan.steps[2],
        InstallStep::SystemInstall {
            package: "curl".to_string(),
            version: None,
        }
    );
    assert!(plan.requires_root);
}

fn manager() -> ArkPackageManager {
    let config = ArkConfig {
        marketplace_dir: "/tmp/ark-test-marketplace".to_string(),
        cache_dir: "/tmp/ark-test-marketplace/cache".to_string(),
        ..ArkConfig::default()
    };
    ArkPackageManager::new(config).unwrap()
}

#[test]
fn test_ark_package_manager_new() {
    let mgr = manager();
    assert_eq!(mgr.config().default_strategy, ResolutionStrategy::SystemFirst);
}

#[test]
fn test_status_returns_valid_output() {
    let mgr = manager();
    let output = mgr.status(&Vec::new());
    let text = output.to_display_string();

    assert!(text.contains("ark status"));
    assert!(text.contains(ARK_VERSION));
    assert!(text.contains("Sources"));
    assert!(text.contains("ark is operational"));
}

#[test]
fn status_counts_by_source() {
    let mgr = manager();
    let p = |name: &str, source| InstalledPackage {
        name: name.to_string(),
        version: "1".to_string(),
        source,
        size_bytes: None,
    };
    let installed = vec![
        p("a", PackageSource::System),
        p("b", PackageSource::System),
        p("c", PackageSource::Marketplace),
        p("d", PackageSource::Community),
    ];
    let text = mgr.status(&installed).to_display_string();
    assert_eq!(
        text,
        "=== ark status ===\n  Version: 0.1.0\n  Strategy: SystemFirst\n  Marketplace dir: /tmp/ark-test-marketplace\n  Cache dir: /tmp/ark-test-marketplace/cache\n---\n  Sources: system (apt), marketplace, flutter\n  System packages: 2\n  Marketplace packages: 1\n  Flutter apps: 0\nOK: ark is operational\n"
    );
}

#[test]
fn test_package_source_display_through_output() {
    let output_line = ArkOutputLine::Package {
        name: "test".to_string(),
        version: "1.0".to_string(),
        source: PackageSource::System,
        description: "test pkg".to_string(),
    };
    let output = ArkOutput {
        lines: vec![output_line],
    };
    let text = output.to_display_string();
    assert!(text.contains("[system]"));

    let output_line = ArkOutputLine::Package {
        name: "test".to_string(),
        version: "1.0".to_string(),
        source: PackageSource::Marketplace,
        description: "test pkg".to_string(),
    };
    let output = ArkOutput {
        lines: vec![output_line],
    };
    let text = output.to_display_string();
    assert!(text.contains("[marketplace]"));

    let output_line = ArkOutputLine::Package {
        name: "test".to_string(),
        version: "1.0".to_string(),
        source: PackageSource::FlutterApp,
        description: "test pkg".to_string(),
    };
    let output = ArkOutput {
        lines: vec![output_line],
    };
    let text = output.to_display_string();
    assert!(text.contains("[flutter-app]"));
}

#[test]
fn test_ark_output_display_impl() {
    let output = ArkOutput {
        lines: vec![
            ArkOutputLine::Header("Test".to_string()),
            ArkOutputLine::Info {
                key: "Status".to_string(),
                value: "OK".to_string(),
            },
            ArkOutputLine::Separator,
            ArkOutputLine::Success("Done".to_string()),
            ArkOutputLine::Error("Failed".to_string()),
            ArkOutputLine::Warning("Caution".to_string()),
            ArkOutputLine::Package {
                name: "nginx".to_string(),
                version: "1.25".to_string(),
                source: PackageSource::System,
                description: "web server".to_string(),
            },
        ],
    };
    let display = output.to_display_string();
    let method = output.to_display_string();
    assert_eq!(display, method);
    assert!(display.contains("=== Test ==="));
    assert!(display.contains("Status: OK"));
    assert!(display.contains("---"));
    assert!(display.contains("OK: Done"));
    assert!(display.contains("ERROR: Failed"));
    assert!(display.contains("WARN: Caution"));
    assert!(display.contains("nginx"));
}

#[test]
fn test_ark_output_default() {
    let output = ArkOutput::default();
    assert!(output.lines.is_empty());
    assert_eq!(output.to_display_string(), "");
}

#[test]
fn test_install_plan_new_and_default() {
    let plan = InstallPlan::new();
    assert!(plan.steps.is_empty());
    assert!(!plan.requires_root);
    assert_eq!(plan.estimated_size_bytes, 0);

    let default_plan = InstallPlan::default();
    assert_eq!(plan.steps.len(), default_plan.steps.len());
}

fn resolved(name: &str, version: &str, source: PackageSource, size: Option<u64>) -> ResolvedPackage {
    ResolvedPackage {
        name: name.to_string(),
        version: version.to_string(),
        source,
        description: format!("{} package", name),
        size_bytes: size,
        dependencies: vec![],
        trusted: true,
    }
}

#[test]
fn plan_install_from_resolutions() {
    let mut plan = InstallPlan::new();
    plan.add_install("nginx", Ok(Some(resolved("nginx", "latest", PackageSource::System, Some(100)))))
        .unwrap();
    plan.add_install("agent", Ok(Some(resolved("agent", "1.0.0", PackageSource::Marketplace, None))))
        .unwrap();
    plan.add_install("recipe", Ok(Some(resolved("recipe", "", PackageSource::Community, Some(5)))))
        .unwrap();
    plan.add_install("app", Ok(Some(resolved("app", "3", PackageSource::FlutterApp, None)))).unwrap();
    assert_eq!(
        plan.steps,
        vec![
            InstallStep::SystemInstall { package: "nginx".to_string(), version: None },
            InstallStep::MarketplaceInstall {
                package: "agent".to_string(),
                version: Some("1.0.0".to_string())
            },
            InstallStep::MarketplaceInstall { package: "recipe".to_string(), version: None },
            InstallStep::FlutterInstall { package: "app".to_string(), version: Some("3".to_string()) },
        ]
    );
    assert!(plan.requires_root);
    assert_eq!(plan.estimated_size_bytes, 105);
}

#[test]
fn plan_install_errors_leave_plan_unchanged() {
    let mut plan = InstallPlan::new();
    let e = plan.add_install("ghost", Ok(None)).unwrap_err();
    assert_eq!(e.kind, ErrorKind::PackageNotFound);
    assert_eq!(e.message(), "Package not found: ghost");
    let e = plan
        .add_install("odd", Ok(Some(resolved("odd", "1", PackageSource::Unknown, Some(9)))))
        .unwrap_err();
    assert_eq!(e.kind, ErrorKind::UndeterminedSource);
    let e = plan.add_install("x", Err("index unreadable".to_string())).unwrap_err();
    assert_eq!(e.message(), "Failed to resolve package: x");
    assert_eq!(e.detail, "index unreadable");
    assert!(plan.steps.is_empty());
    assert_eq!(plan.estimated_size_bytes, 0);
    assert!(!plan.requires_root);
}

#[test]
fn plan_removal_from_probes() {
    let mut plan = InstallPlan::new();
    plan.add_removal("agent", false, RemovalProbe::MarketplaceInstalled).unwrap();
    assert!(!plan.requires_root);
    plan.add_removal("nginx", true, RemovalProbe::SystemInstalled).unwrap();
    plan.add_removal(
        "app",
        false,
        RemovalProbe::Resolution(Ok(Some(resolved("app-real", "1", PackageSource::FlutterApp, None)))),
    )
    .unwrap();
    assert_eq!(
        plan.steps,
        vec![
            InstallStep::MarketplaceRemove { package: "agent".to_string() },
            InstallStep::SystemRemove { package: "nginx".to_string(), purge: true },
            InstallStep::FlutterRemove { package: "app-real".to_string() },
        ]
    );
    assert!(plan.requires_root);
    let e = plan.add_removal("none", false, RemovalProbe::Resolution(Ok(None))).unwrap_err();
    assert_eq!(e.message(), "Package not found for removal: none");
    assert_eq!(plan.steps.len(), 3);
    // a resolver failure on removal is passed on as the resolver gave it
    let e = plan
        .add_removal("x", false, RemovalProbe::Resolution(Err("index unreadable".to_string())))
        .unwrap_err();
    assert_eq!(e.kind, ErrorKind::ResolverError);
    assert_eq!(e.message(), "index unreadable");
    assert_eq!(plan.steps.len(), 3);
}

#[test]
fn install_and_remove_results() {
    let mgr = manager();
    let mut plan = InstallPlan::new();
    plan.add_install("nginx", Ok(Some(resolved("nginx", "1.2", PackageSource::System, None)))).unwrap();
    plan.add_install("agent", Ok(Some(resolved("agent", "1", PackageSource::Marketplace, None)))).unwrap();
    let names = vec!["nginx".to_string(), "agent".to_string()];
    let r = mgr.install(&names, &plan).unwrap();
    assert!(r.success);
    assert_eq!(
        r.message,
        "Install plan (2 steps): apt-get install -y nginx; marketplace install agent"
    );
    assert_eq!(r.packages_affected, names);
    assert_eq!(r.source, PackageSource::System);
    assert_eq!(mgr.install(&vec![], &InstallPlan::new()).unwrap_err().kind, ErrorKind::NoPackagesToInstall);

    let mut rplan = InstallPlan::new();
    rplan.add_removal("agent", false, RemovalProbe::MarketplaceInstalled).unwrap();
    let r = mgr.remove(&vec!["agent".to_string()], &rplan).unwrap();
    assert_eq!(r.message, "Remove plan (1 steps)");
    assert_eq!(r.source, PackageSource::Marketplace);
    assert_eq!(mgr.remove(&vec![], &rplan).unwrap_err().kind, ErrorKind::NoPackagesToRemove);
}

#[test]
fn search_list_info_update_reports() {
    let mgr = manager();
    let results = vec![
        resolved("nginx", "1.24", PackageSource::System, None),
        resolved("nginx-agent", "0.1", PackageSource::Marketplace, None),
    ];
    let text = mgr.search("nginx", Some(PackageSource::Marketplace), &results).to_display_string();
    assert_eq!(
        text,
        "=== Search: nginx ===\n  nginx-agent (0.1) [marketplace] -- nginx-agent package\n---\n  Total: 1 result(s)\n"
    );
    let text = mgr.search("x", Some(PackageSource::FlutterApp), &results).to_display_string();
    assert_eq!(text, "=== Search: x ===\nWARN: No packages found\n---\n  Total: 0 result(s)\n");

    let installed = vec![InstalledPackage {
        name: "curl".to_string(),
        version: "8".to_string(),
        source: PackageSource::System,
        size_bytes: Some(2048),
    }];
    let text = mgr.list(Some(PackageSource::System), &installed).to_display_string();
    assert_eq!(
        text,
        "=== Installed packages [system] ===\n  curl (8) [system] --  (2048 bytes)\n---\n  Total: 1 package(s)\n"
    );

    let mut pkg = resolved("curl", "8.0", PackageSource::System, Some(10));
    pkg.dependencies = vec!["libc".to_string(), "zlib".to_string()];
    let text = mgr.info("curl", &Some(pkg)).to_display_string();
    assert_eq!(
        text,
        "=== Package: curl ===\n  Name: curl\n  Version: 8.0\n  Source: system\n  Description: curl package\n  Size: 10 bytes\n  Dependencies: libc, zlib\n  Trusted: true\n"
    );
    let text = mgr.info("ghost", &None).to_display_string();
    assert_eq!(text, "=== Package: ghost ===\nWARN: Package 'ghost' not found in any source\n");

    let updates = vec![AvailableUpdate {
        name: "curl".to_string(),
        installed_version: "7".to_string(),
        available_version: "8".to_string(),
        source: PackageSource::System,
        changelog: None,
    }];
    let text = mgr.update(&updates).to_display_string();
    assert_eq!(
        text,
        "=== Update check ===\n  curl (7 -> 8) [system] -- Update available\n---\n  Updates available: 1\n"
    );
    let text = mgr.update(&vec![]).to_display_string();
    assert_eq!(text, "=== Update check ===\nOK: All packages up to date\n---\n  Updates available: 0\n");
}

#[test]
fn upgrade_result_and_plan() {
    let mgr = manager();
    let u = |name: &str, source| AvailableUpdate {
        name: name.to_string(),
        installed_version: "1".to_string(),
        available_version: "2".to_string(),
        source,
        changelog: Some("fixes".to_string()),
    };
    let updates = vec![u("a", PackageSource::System), u("b", PackageSource::Unknown), u("c", PackageSource::Community)];
    let r = mgr.upgrade(None, &updates);
    assert_eq!(r.message, "Upgrade plan: 3 package(s) to upgrade");
    assert_eq!(r.packages_affected, vec!["a".to_string(), "b".to_string(), "c".to_string()]);
    let only = vec!["c".to_string(), "zz".to_string()];
    let r = mgr.upgrade(Some(&only), &updates);
    assert_eq!(r.message, "Upgrade plan: 1 package(s) to upgrade");
    assert_eq!(r.packages_affected, vec!["c".to_string()]);
    let plan = mgr.upgrade_plan(None, &updates);
    assert_eq!(
        plan.steps,
        vec![
            InstallStep::SystemInstall { package: "a".to_string(), version: Some("2".to_string()) },
            InstallStep::MarketplaceInstall { package: "c".to_string(), version: Some("2".to_string()) },
        ]
    );
    assert!(plan.requires_root);
    assert!(!mgr.upgrade_plan(Some(&only), &updates).requires_root);
}

#[test]
fn report_result_uses_the_text() {
    let mut out = ArkOutput::new();
    out.push(ArkOutputLine::Success("fine".to_string()));
    let r = ark::report::report_result(&out, vec!["x".to_string()]);
    assert!(r.success);
    assert_eq!(r.message, "OK: fine\n");
    assert_eq!(r.source, PackageSource::Unknown);
}
