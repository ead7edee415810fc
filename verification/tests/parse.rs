use ark::{group_meta_package, parse_args, parse_source_arg, ArkCommand, ErrorKind, PackageSource};

#[test]
fn test_parse_install_single() {
    let cmd = parse_args(&["install", "nginx"]).unwrap();
    assert_eq!(
        cmd,
        ArkCommand::Install {
            packages: vec!["nginx".to_string()],
            force: false,
        }
    );
}

#[test]
fn test_parse_install_multiple() {
    let cmd = parse_args(&["install", "nginx", "curl"]).unwrap();
    assert_eq!(
        cmd,
        ArkCommand::Install {
            packages: vec!["nginx".to_string(), "curl".to_string()],
            force: false,
        }
    );
}

#[test]
fn test_parse_install_force() {
    let cmd = parse_args(&["install", "--force", "nginx", "curl"]).unwrap();
    assert_eq!(
        cmd,
        ArkCommand::Install {
            packages: vec!["nginx".to_string(), "curl".to_string()],
            force: true,
        }
    );
}

#[test]
fn test_parse_remove_basic() {
    let cmd = parse_args(&["remove", "nginx"]).unwrap();
    assert_eq!(
        cmd,
        ArkCommand::Remove {
            packages: vec!["nginx".to_string()],
            purge: false,
        }
    );
}

#[test]
fn test_parse_remove_purge() {
    let cmd = parse_args(&["remove", "--purge", "nginx"]).unwrap();
    assert_eq!(
        cmd,
        ArkCommand::Remove {
            packages: vec!["nginx".to_string()],
            purge: true,
        }
    );
}

#[test]
fn test_parse_search_query() {
    let cmd = parse_args(&["search", "web", "server"]).unwrap();
    assert_eq!(
        cmd,
        ArkCommand::Search {
            query: "web server".to_string(),
            source: None,
        }
    );
}

#[test]
fn test_parse_search_with_source() {
    let cmd = parse_args(&["search", "--source", "system", "web", "server"]).unwrap();
    assert_eq!(
        cmd,
        ArkCommand::Search {
            query: "web server".to_string(),
            source: Some(PackageSource::System),
        }
    );
}

#[test]
fn test_parse_list_all() {
    let cmd = parse_args(&["list"]).unwrap();
    assert_eq!(cmd, ArkCommand::List { source: None });
}

#[test]
fn test_parse_list_marketplace() {
    let cmd = parse_args(&["list", "--marketplace"]).unwrap();
    assert_eq!(
        cmd,
        ArkCommand::List {
            source: Some(PackageSource::Marketplace),
        }
    );
}

#[test]
fn test_parse_info() {
    let cmd = parse_args(&["info", "nginx"]).unwrap();
    assert_eq!(
        cmd,
        ArkCommand::Info {
            package: "nginx".to_string(),
        }
    );
}

#[test]
fn test_parse_update() {
    let cmd = parse_args(&["update"]).unwrap();
    assert_eq!(cmd, ArkCommand::Update);
}

#[test]
fn test_parse_upgrade_all() {
    let cmd = parse_args(&["upgrade"]).unwrap();
    assert_eq!(cmd, ArkCommand::Upgrade { packages: None });
}

#[test]
fn test_parse_upgrade_specific() {
    let cmd = parse_args(&["upgrade", "nginx"]).unwrap();
    assert_eq!(
        cmd,
        ArkCommand::Upgrade {
            packages: Some(vec!["nginx".to_string()]),
        }
    );
}

#[test]
fn test_parse_status() {
    let cmd = parse_args(&["status"]).unwrap();
    assert_eq!(cmd, ArkCommand::Status);
}

#[test]
fn test_parse_empty_args() {
    assert!(parse_args(&[]).is_err());
}

#[test]
fn test_parse_unknown_command() {
    assert!(parse_args(&["frobnicate"]).is_err());
}

#[test]
fn test_parse_source_arg_variations() {
    // system
    let cmd = parse_args(&["search", "--source", "system", "test"]).unwrap();
    if let ArkCommand::Search { source, .. } = cmd {
        assert_eq!(source, Some(PackageSource::System));
    } else {
        panic!("Expected Search command");
    }

    // apt alias
    let cmd = parse_args(&["search", "--source", "apt", "test"]).unwrap();
    if let ArkCommand::Search { source, .. } = cmd {
        assert_eq!(source, Some(PackageSource::System));
    } else {
        panic!("Expected Search command");
    }

    // marketplace
    let cmd = parse_args(&["search", "--source", "marketplace", "test"]).unwrap();
    if let ArkCommand::Search { source, .. } = cmd {
        assert_eq!(source, Some(PackageSource::Marketplace));
    } else {
        panic!("Expected Search command");
    }

    // flutter
    let cmd = parse_args(&["search", "--source", "flutter", "test"]).unwrap();
    if let ArkCommand::Search { source, .. } = cmd {
        assert_eq!(source, Some(PackageSource::FlutterApp));
    } else {
        panic!("Expected Search command");
    }
}

fn err_kind(args: &[&str]) -> ErrorKind {
    parse_args(args).unwrap_err().kind
}

#[test]
fn parse_error_kinds() {
    assert_eq!(err_kind(&[]), ErrorKind::NoCommand);
    assert_eq!(err_kind(&["frobnicate"]), ErrorKind::UnknownCommand);
    assert_eq!(err_kind(&["install", "--group"]), ErrorKind::GroupNeedsName);
    assert_eq!(err_kind(&["install", "--bogus"]), ErrorKind::UnknownInstallFlag);
    assert_eq!(err_kind(&["install"]), ErrorKind::InstallNeedsTarget);
    assert_eq!(err_kind(&["install", "-f"]), ErrorKind::InstallNeedsTarget);
    assert_eq!(err_kind(&["remove", "-x", "a"]), ErrorKind::UnknownRemoveFlag);
    assert_eq!(err_kind(&["remove", "--purge"]), ErrorKind::RemoveNeedsTarget);
    assert_eq!(err_kind(&["search", "q", "--source"]), ErrorKind::SourceNeedsValue);
    assert_eq!(err_kind(&["search", "-s", "snap", "q"]), ErrorKind::UnknownSourceName);
    assert_eq!(err_kind(&["search", "--deep", "q"]), ErrorKind::UnknownSearchFlag);
    assert_eq!(err_kind(&["search", "-s", "apt"]), ErrorKind::SearchNeedsQuery);
    assert_eq!(err_kind(&["list", "--snap"]), ErrorKind::UnknownListFlag);
    assert_eq!(err_kind(&["ls", "nginx"]), ErrorKind::UnexpectedListArg);
    assert_eq!(err_kind(&["info"]), ErrorKind::InfoNeedsPackage);
    assert_eq!(err_kind(&["show", "a", "b"]), ErrorKind::InfoTakesOnePackage);
}

#[test]
fn parse_error_messages() {
    assert_eq!(
        parse_args(&["frobnicate"]).unwrap_err().message(),
        "Unknown command: frobnicate. Available: install, remove, search, list, info, update, upgrade, status"
    );
    assert_eq!(
        parse_args(&["install", "--bogus"]).unwrap_err().message(),
        "Unknown flag for install: --bogus"
    );
    assert_eq!(
        parse_args(&["search", "-s", "Snap", "q"]).unwrap_err().message(),
        "Unknown package source: 'Snap'. Use: system, marketplace, flutter"
    );
}

#[test]
fn parse_group_install_and_aliases() {
    assert_eq!(
        parse_args(&["install", "-g", "desktop", "-f"]).unwrap(),
        ArkCommand::GroupInstall { group: "desktop".to_string(), force: true }
    );
    assert_eq!(
        parse_args(&["install", "pkg", "--group", "ai"]).unwrap(),
        ArkCommand::GroupInstall { group: "ai".to_string(), force: false }
    );
    assert_eq!(
        parse_args(&["uninstall", "a", "b"]).unwrap(),
        ArkCommand::Remove { packages: vec!["a".to_string(), "b".to_string()], purge: false }
    );
    assert_eq!(
        parse_args(&["ls", "--apt", "--flutter"]).unwrap(),
        ArkCommand::List { source: Some(PackageSource::FlutterApp) }
    );
    assert_eq!(
        parse_args(&["show", "curl"]).unwrap(),
        ArkCommand::Info { package: "curl".to_string() }
    );
    assert_eq!(
        parse_args(&["upgrade", "--all", "a", "-x", "b"]).unwrap(),
        ArkCommand::Upgrade { packages: Some(vec!["a".to_string(), "b".to_string()]) }
    );
    assert_eq!(parse_args(&["upgrade", "--all"]).unwrap(), ArkCommand::Upgrade { packages: None });
}

#[test]
fn parse_source_names_ignore_case() {
    assert_eq!(parse_source_arg("SYSTEM").unwrap(), PackageSource::System);
    assert_eq!(parse_source_arg("Market").unwrap(), PackageSource::Marketplace);
    assert_eq!(parse_source_arg("\u{212A}".to_string().as_str()).is_err(), true);
    assert_eq!(parse_source_arg("mar\u{212A}et").unwrap(), PackageSource::Marketplace);
    assert_eq!(parse_source_arg("FlutterApp").unwrap(), PackageSource::FlutterApp);
    assert_eq!(parse_source_arg("flutter-APP").unwrap(), PackageSource::FlutterApp);
    assert!(parse_source_arg("").is_err());
}

#[test]
fn group_meta_packages() {
    assert_eq!(group_meta_package("desktop"), Some("agnos-desktop"));
    assert_eq!(group_meta_package("ai"), Some("agnos-ai"));
    assert_eq!(group_meta_package("ml"), Some("agnos-ai"));
    assert_eq!(group_meta_package("shell"), Some("agnoshi"));
    assert_eq!(group_meta_package("edge"), Some("agnos-edge-agent"));
    assert_eq!(group_meta_package("iot"), Some("agnos-edge-agent"));
    assert_eq!(group_meta_package("Desktop"), None);
    assert_eq!(ark::group_install_target("iot"), "agnos-edge-agent");
    assert_eq!(ark::group_install_target("agnos-desktop"), "agnos-desktop");
}
