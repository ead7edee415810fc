use ark::cli::{command_from_cli, needs_confirmation, CliCommand};
use ark::config::PartialArkConfig;
use ark::{ArkCommand, ArkConfig, ErrorKind, PackageSource, ResolutionStrategy};

#[test]
fn test_ark_config_defaults() {
    let config = ArkConfig::default();
    assert_eq!(config.default_strategy, ResolutionStrategy::SystemFirst);
    assert!(config.confirm_system_installs);
    assert!(config.confirm_removals);
    assert!(!config.auto_update_check);
    assert!(config.color_output);
    assert_eq!(config.marketplace_dir, "/var/lib/agnos/marketplace");
    assert_eq!(config.cache_dir, "/var/cache/agnos/ark");
}

#[test]
fn test_ark_config_default() {
    let config = ArkConfig::default();
    assert!(config.confirm_system_installs);
    assert!(config.confirm_removals);
    assert!(!config.auto_update_check);
    assert!(config.color_output);
}

#[test]
fn partial_config_overrides_only_what_it_sets() {
    let partial = PartialArkConfig {
        default_strategy: None,
        confirm_system_installs: None,
        confirm_removals: Some(false),
        auto_update_check: None,
        color_output: Some(false),
        marketplace_dir: Some("/opt/marketplace".to_string()),
        cache_dir: None,
    };
    let mut config = ArkConfig::default();
    partial.merge_into(&mut config);
    assert!(!config.color_output);
    assert!(!config.confirm_removals);
    assert_eq!(config.marketplace_dir, "/opt/marketplace");
    assert!(config.confirm_system_installs);
    assert_eq!(config.cache_dir, "/var/cache/agnos/ark");

    let nothing = PartialArkConfig {
        default_strategy: None,
        confirm_system_installs: None,
        confirm_removals: None,
        auto_update_check: None,
        color_output: None,
        marketplace_dir: None,
        cache_dir: None,
    };
    let mut config = ArkConfig::default();
    nothing.merge_into(&mut config);
    assert_eq!(config, ArkConfig::default());
}

#[test]
fn cli_commands_convert() {
    assert_eq!(
        command_from_cli(CliCommand::Install {
            packages: vec![],
            force: true,
            group: Some("desktop".to_string())
        })
        .unwrap(),
        ArkCommand::GroupInstall { group: "desktop".to_string(), force: true }
    );
    assert_eq!(
        command_from_cli(CliCommand::Install { packages: vec![], force: false, group: None })
            .unwrap_err()
            .kind,
        ErrorKind::InstallNeedsTarget
    );
    assert_eq!(
        command_from_cli(CliCommand::Remove { packages: vec![], purge: true }).unwrap_err().kind,
        ErrorKind::RemoveNeedsTarget
    );
    assert_eq!(
        command_from_cli(CliCommand::Search {
            query: vec!["web".to_string(), "server".to_string()],
            source: Some("APT".to_string())
        })
        .unwrap(),
        ArkCommand::Search { query: "web server".to_string(), source: Some(PackageSource::System) }
    );
    let e = command_from_cli(CliCommand::Search {
        query: vec!["q".to_string()],
        source: Some("FlutterApp".to_string()),
    })
    .unwrap_err();
    assert_eq!(e.message(), "Unknown source: 'flutterapp'");
    assert_eq!(
        command_from_cli(CliCommand::Search { query: vec![], source: None }).unwrap_err().message(),
        "search requires a query"
    );
    assert_eq!(
        command_from_cli(CliCommand::List { marketplace: false, system: true, flutter: true }).unwrap(),
        ArkCommand::List { source: Some(PackageSource::System) }
    );
    assert_eq!(
        command_from_cli(CliCommand::Upgrade { packages: vec![] }).unwrap(),
        ArkCommand::Upgrade { packages: None }
    );
    assert_eq!(command_from_cli(CliCommand::Status).unwrap(), ArkCommand::Status);
}

#[test]
fn confirmation_prompts() {
    let config = ArkConfig::default();
    let install = ArkCommand::Install { packages: vec!["a".to_string(), "b".to_string()], force: false };
    assert_eq!(needs_confirmation(&install, &config), Some("Install a, b?".to_string()));
    let group = ArkCommand::GroupInstall { group: "ai".to_string(), force: false };
    assert_eq!(needs_confirmation(&group, &config), Some("Install group ai?".to_string()));
    let purge = ArkCommand::Remove { packages: vec!["x".to_string()], purge: true };
    assert_eq!(needs_confirmation(&purge, &config), Some("Purge x?".to_string()));
    assert_eq!(needs_confirmation(&ArkCommand::Status, &config), None);
    let quiet = ArkConfig { confirm_removals: false, ..ArkConfig::default() };
    assert_eq!(needs_confirmation(&purge, &quiet), None);
}
