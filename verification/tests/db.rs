use ark::types::Timestamp;
use ark::{ErrorKind, IntegrityIssueType, PackageDb, PackageDbEntry, PackageSource};

fn now() -> Timestamp {
    let t = chrono::Utc::now();
    Timestamp { secs: t.timestamp(), nanos: t.timestamp_subsec_nanos() }
}

fn make_db_entry(name: &str, version: &str, files: Vec<&str>) -> PackageDbEntry {
    PackageDbEntry {
        name: name.into(),
        version: version.into(),
        source: PackageSource::System,
        installed_at: now(),
        installed_by: "root".into(),
        size_bytes: 1024,
        checksum: "abc123".into(),
        files: files.into_iter().map(String::from).collect(),
        dependencies: vec![],
        transaction_id: None,
    }
}

#[test]
fn package_db_register_and_get() {
    let mut db = PackageDb::new();
    db.register(make_db_entry("nginx", "1.25", vec!["/usr/bin/nginx"]));
    assert!(db.is_installed("nginx"));
    let entry = db.get("nginx").unwrap();
    assert_eq!(entry.version, "1.25");
}

#[test]
fn package_db_unregister() {
    let mut db = PackageDb::new();
    db.register(make_db_entry("pkg", "1.0", vec![]));
    let removed = db.unregister("pkg");
    assert!(removed.is_some());
    assert!(!db.is_installed("pkg"));
}

#[test]
fn package_db_list() {
    let mut db = PackageDb::new();
    db.register(make_db_entry("a", "1.0", vec![]));
    db.register(make_db_entry("b", "2.0", vec![]));
    assert_eq!(db.count(), 2);
    assert_eq!(db.list().len(), 2);
}

#[test]
fn package_db_search() {
    let mut db = PackageDb::new();
    db.register(make_db_entry("nginx-core", "1.25", vec![]));
    db.register(make_db_entry("redis", "7.0", vec![]));
    let results = db.search("nginx");
    assert_eq!(results.len(), 1);
    assert_eq!(results[0].name, "nginx-core");
}

#[test]
fn package_db_by_source() {
    let mut db = PackageDb::new();
    let mut entry = make_db_entry("agent1", "1.0", vec![]);
    entry.source = PackageSource::Marketplace;
    db.register(entry);
    db.register(make_db_entry("nginx", "1.25", vec![]));

    let marketplace = db.by_source(&PackageSource::Marketplace);
    assert_eq!(marketplace.len(), 1);
    assert_eq!(marketplace[0].name, "agent1");
}

#[test]
fn package_db_total_size() {
    let mut db = PackageDb::new();
    let mut e1 = make_db_entry("a", "1.0", vec![]);
    e1.size_bytes = 500;
    let mut e2 = make_db_entry("b", "1.0", vec![]);
    e2.size_bytes = 700;
    db.register(e1);
    db.register(e2);
    assert_eq!(db.total_size(), 1200);
}

#[test]
fn package_db_files_for() {
    let mut db = PackageDb::new();
    db.register(make_db_entry(
        "nginx",
        "1.25",
        vec!["/usr/bin/nginx", "/etc/nginx/nginx.conf"],
    ));
    let files = db.files_for("nginx");
    assert_eq!(files.len(), 2);
    assert!(files.contains(&"/usr/bin/nginx"));
}

#[test]
fn package_db_owner_of() {
    let mut db = PackageDb::new();
    db.register(make_db_entry("bash", "5.3", vec!["/usr/bin/bash"]));
    db.register(make_db_entry("zsh", "5.9", vec!["/usr/bin/zsh"]));
    assert_eq!(db.owner_of("/usr/bin/bash"), Some("bash"));
    assert_eq!(db.owner_of("/usr/bin/zsh"), Some("zsh"));
    assert_eq!(db.owner_of("/usr/bin/fish"), None);
}

#[test]
fn package_db_integrity_no_manifest() {
    let mut db = PackageDb::new();
    db.register(make_db_entry("empty-pkg", "1.0", vec![]));
    let issues = db.check_integrity();
    assert_eq!(issues.len(), 1);
    assert_eq!(issues[0].issue_type, IntegrityIssueType::NoFileManifest);
}

#[test]
fn package_db_integrity_with_manifest() {
    let mut db = PackageDb::new();
    db.register(make_db_entry("good-pkg", "1.0", vec!["/usr/bin/good"]));
    let issues = db.check_integrity();
    assert!(issues.is_empty());
}

#[test]
fn package_db_resolve_install_order() {
    let mut db = PackageDb::new();
    let mut entry = make_db_entry("app", "1.0", vec![]);
    entry.dependencies = vec!["lib".into()];
    db.register(entry);
    db.register(make_db_entry("lib", "1.0", vec![]));

    let order = db.resolve_install_order(&["app", "lib"]).unwrap();
    let lib_idx = order.iter().position(|n| n == "lib").unwrap();
    let app_idx = order.iter().position(|n| n == "app").unwrap();
    assert!(lib_idx < app_idx);
}

#[test]
fn package_db_resolve_circular_dep() {
    let mut db = PackageDb::new();
    let mut a = make_db_entry("a", "1.0", vec![]);
    a.dependencies = vec!["b".into()];
    let mut b = make_db_entry("b", "1.0", vec![]);
    b.dependencies = vec!["a".into()];
    db.register(a);
    db.register(b);

    let result = db.resolve_install_order(&["a", "b"]);
    assert!(result.is_err());
}

#[test]
fn test_package_db_by_source() {
    let mut db = PackageDb::new();
    db.register(make_db_entry("sys-pkg", "1.0", vec![]));

    let mut mkt_entry = make_db_entry("mkt-pkg", "2.0", vec![]);
    mkt_entry.source = PackageSource::Marketplace;
    db.register(mkt_entry);

    let system = db.by_source(&PackageSource::System);
    assert_eq!(system.len(), 1);
    assert_eq!(system[0].name, "sys-pkg");

    let marketplace = db.by_source(&PackageSource::Marketplace);
    assert_eq!(marketplace.len(), 1);
    assert_eq!(marketplace[0].name, "mkt-pkg");
}

#[test]
fn test_package_db_total_size() {
    let mut db = PackageDb::new();
    db.register(make_db_entry("a", "1.0", vec![]));
    db.register(make_db_entry("b", "1.0", vec![]));
    assert_eq!(db.total_size(), 2048); // 1024 each from make_db_entry
}

#[test]
fn test_package_db_owner_of() {
    let mut db = PackageDb::new();
    db.register(make_db_entry("nginx", "1.25", vec!["/usr/sbin/nginx"]));
    assert_eq!(db.owner_of("/usr/sbin/nginx"), Some("nginx"));
    assert_eq!(db.owner_of("/usr/bin/curl"), None);
}

#[test]
fn test_package_db_files_for() {
    let mut db = PackageDb::new();
    db.register(make_db_entry(
        "curl",
        "7.0",
        vec!["/usr/bin/curl", "/usr/share/man/curl.1"],
    ));
    let files = db.files_for("curl");
    assert_eq!(files.len(), 2);
    assert!(files.contains(&"/usr/bin/curl"));

    let empty = db.files_for("nonexistent");
    assert!(empty.is_empty());
}

#[test]
fn register_replaces_same_name() {
    let mut db = PackageDb::new();
    db.register(make_db_entry("nginx", "1.24", vec![]));
    db.register(make_db_entry("curl", "8", vec![]));
    db.register(make_db_entry("nginx", "1.25", vec![]));
    assert_eq!(db.count(), 2);
    assert_eq!(db.get("nginx").unwrap().version, "1.25");
    let removed = db.unregister("nginx").unwrap();
    assert_eq!(removed.version, "1.25");
    assert!(db.unregister("nginx").is_none());
    assert_eq!(db.count(), 1);
}

#[test]
fn search_ignores_case() {
    let mut db = PackageDb::new();
    db.register(make_db_entry("Nginx-Core", "1", vec![]));
    db.register(make_db_entry("redis", "7", vec![]));
    let results = db.search("NGINX");
    assert_eq!(results.len(), 1);
    assert_eq!(results[0].name, "Nginx-Core");
    assert_eq!(db.search("").len(), 2);
}

#[test]
fn resolve_order_chains_and_cycles() {
    let mut db = PackageDb::new();
    let mut app = make_db_entry("app", "1", vec![]);
    app.dependencies = vec!["mid".into(), "outside".into()];
    let mut mid = make_db_entry("mid", "1", vec![]);
    mid.dependencies = vec!["base".into()];
    db.register(app);
    db.register(mid);
    db.register(make_db_entry("base", "1", vec![]));
    let order = db.resolve_install_order(&["app", "base", "mid", "app"]).unwrap();
    assert_eq!(order, vec!["base".to_string(), "mid".to_string(), "app".to_string()]);

    let mut selfish = make_db_entry("selfish", "1", vec![]);
    selfish.dependencies = vec!["selfish".into()];
    db.register(selfish);
    let e = db.resolve_install_order(&["selfish"]).unwrap_err();
    assert_eq!(e.kind, ErrorKind::CircularDependency);
    assert_eq!(e.message(), "circular dependency detected involving 'selfish'");
    // a dependency outside the requested set is not followed
    assert_eq!(db.resolve_install_order(&["mid"]).unwrap(), vec!["mid".to_string()]);
}

#[test]
fn resolve_cycle_names_package_met_again() {
    let mut db = PackageDb::new();
    let mut a = make_db_entry("a", "1.0", vec![]);
    a.dependencies = vec!["b".into()];
    let mut b = make_db_entry("b", "1.0", vec![]);
    b.dependencies = vec!["c".into(), "a".into()];
    db.register(a);
    db.register(b);
    db.register(make_db_entry("c", "1.0", vec![]));
    // the walk from `b` places `c`, then meets `a` again on the stack [b, a]
    let e = db.resolve_install_order(&["b", "a", "c"]).unwrap_err();
    assert_eq!(e.kind, ErrorKind::CircularDependency);
    assert_eq!(e.subject, "b");
    // dependencies are visited in their recorded order
    let mut d = PackageDb::new();
    let mut top = make_db_entry("top", "1", vec![]);
    top.dependencies = vec!["y".into(), "x".into()];
    d.register(top);
    d.register(make_db_entry("x", "1", vec![]));
    d.register(make_db_entry("y", "1", vec![]));
    assert_eq!(
        d.resolve_install_order(&["x", "top", "y"]).unwrap(),
        vec!["x".to_string(), "y".to_string(), "top".to_string()]
    );
    assert_eq!(
        d.resolve_install_order(&["top", "x", "y"]).unwrap(),
        vec!["y".to_string(), "x".to_string(), "top".to_string()]
    );
}
