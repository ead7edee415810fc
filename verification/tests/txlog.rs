use ark::{
    PackageSource, TransactionLog, TransactionOp, TransactionOpStatus, TransactionOpType,
    TransactionStatus,
};

#[test]
fn transaction_begin_and_commit() {
    let mut log = TransactionLog::new();
    let id = log.begin("root");
    assert_eq!(log.len(), 1);
    assert!(log.commit(&id));
    let txn = log.get(&id).unwrap();
    assert_eq!(txn.status, TransactionStatus::Committed);
    assert!(txn.completed_at.is_some());
}

#[test]
fn transaction_rollback() {
    let mut log = TransactionLog::new();
    let id = log.begin("root");
    log.add_op(
        &id,
        TransactionOp {
            op_type: TransactionOpType::Install,
            package: "nginx".into(),
            version: Some("1.25".into()),
            source: PackageSource::System,
            status: TransactionOpStatus::Pending,
            error: None,
        },
    );
    assert!(log.rollback(&id));
    let txn = log.get(&id).unwrap();
    assert_eq!(txn.status, TransactionStatus::RolledBack);
    assert_eq!(txn.operations[0].status, TransactionOpStatus::RolledBack);
}

#[test]
fn transaction_add_op() {
    let mut log = TransactionLog::new();
    let id = log.begin("user1");
    assert!(log.add_op(
        &id,
        TransactionOp {
            op_type: TransactionOpType::Install,
            package: "pkg1".into(),
            version: Some("1.0".into()),
            source: PackageSource::Marketplace,
            status: TransactionOpStatus::Pending,
            error: None,
        },
    ));
    let txn = log.get(&id).unwrap();
    assert_eq!(txn.operations.len(), 1);
    assert_eq!(txn.operations[0].package, "pkg1");
}

#[test]
fn transaction_mark_op_complete() {
    let mut log = TransactionLog::new();
    let id = log.begin("root");
    log.add_op(
        &id,
        TransactionOp {
            op_type: TransactionOpType::Install,
            package: "test-pkg".into(),
            version: None,
            source: PackageSource::System,
            status: TransactionOpStatus::InProgress,
            error: None,
        },
    );
    assert!(log.mark_op_complete(&id, "test-pkg"));
    let txn = log.get(&id).unwrap();
    assert_eq!(txn.operations[0].status, TransactionOpStatus::Complete);
}

#[test]
fn transaction_mark_op_failed() {
    let mut log = TransactionLog::new();
    let id = log.begin("root");
    log.add_op(
        &id,
        TransactionOp {
            op_type: TransactionOpType::Remove,
            package: "fail-pkg".into(),
            version: None,
            source: PackageSource::System,
            status: TransactionOpStatus::InProgress,
            error: None,
        },
    );
    assert!(log.mark_op_failed(&id, "fail-pkg", "permission denied"));
    let txn = log.get(&id).unwrap();
    assert_eq!(txn.operations[0].status, TransactionOpStatus::Failed);
    assert_eq!(
        txn.operations[0].error.as_deref(),
        Some("permission denied")
    );
}

#[test]
fn transaction_fail() {
    let mut log = TransactionLog::new();
    let id = log.begin("root");
    assert!(log.fail(&id, "disk full"));
    let txn = log.get(&id).unwrap();
    assert_eq!(txn.status, TransactionStatus::Failed("disk full".into()));
}

#[test]
fn transaction_fail_rejects_committed() {
    let mut log = TransactionLog::new();
    let id = log.begin("root");
    log.commit(&id);
    // Cannot fail an already-committed transaction
    assert!(!log.fail(&id, "too late"));
    let txn = log.get(&id).unwrap();
    assert_eq!(txn.status, TransactionStatus::Committed);
}

#[test]
fn transaction_fail_rejects_rolled_back() {
    let mut log = TransactionLog::new();
    let id = log.begin("root");
    log.rollback(&id);
    // Cannot fail an already-rolled-back transaction
    assert!(!log.fail(&id, "too late"));
    let txn = log.get(&id).unwrap();
    assert_eq!(txn.status, TransactionStatus::RolledBack);
}

#[test]
fn transaction_cannot_add_op_after_commit() {
    let mut log = TransactionLog::new();
    let id = log.begin("root");
    log.commit(&id);
    assert!(!log.add_op(
        &id,
        TransactionOp {
            op_type: TransactionOpType::Install,
            package: "late-pkg".into(),
            version: None,
            source: PackageSource::System,
            status: TransactionOpStatus::Pending,
            error: None,
        },
    ));
}

#[test]
fn transaction_recent() {
    let mut log = TransactionLog::new();
    let id1 = log.begin("user1");
    log.commit(&id1);
    let id2 = log.begin("user2");
    log.commit(&id2);
    let id3 = log.begin("user3");
    log.commit(&id3);

    let recent = log.recent(2);
    assert_eq!(recent.len(), 2);
    assert_eq!(recent[0].id, id3);
    assert_eq!(recent[1].id, id2);
}

#[test]
fn transaction_status_display() {
    assert_eq!(TransactionStatus::InProgress.to_display_string(), "in-progress");
    assert_eq!(TransactionStatus::Committed.to_display_string(), "committed");
    assert_eq!(TransactionStatus::RolledBack.to_display_string(), "rolled-back");
    assert_eq!(
        TransactionStatus::Failed("err".into()).to_display_string(),
        "failed: err"
    );
}

#[test]
fn transaction_upgrade_op() {
    let mut log = TransactionLog::new();
    let id = log.begin("root");
    log.add_op(
        &id,
        TransactionOp {
            op_type: TransactionOpType::Upgrade {
                from_version: "1.0".into(),
            },
            package: "pkg".into(),
            version: Some("2.0".into()),
            source: PackageSource::System,
            status: TransactionOpStatus::Pending,
            error: None,
        },
    );
    let txn = log.get(&id).unwrap();
    assert!(matches!(
        txn.operations[0].op_type,
        TransactionOpType::Upgrade { .. }
    ));
}

#[test]
fn test_transaction_log_lifecycle() {
    let mut log = TransactionLog::new();
    assert!(log.is_empty());
    assert_eq!(log.len(), 0);

    let txn_id = log.begin("root");
    assert!(!log.is_empty());
    assert_eq!(log.len(), 1);

    // Add operations
    let op = TransactionOp {
        package: "nginx".to_string(),
        op_type: TransactionOpType::Install,
        source: PackageSource::System,
        version: Some("1.25".to_string()),
        status: TransactionOpStatus::Pending,
        error: None,
    };
    assert!(log.add_op(&txn_id, op));

    // Mark op complete
    assert!(log.mark_op_complete(&txn_id, "nginx"));

    // Commit
    assert!(log.commit(&txn_id));

    // Can't commit again
    assert!(!log.commit(&txn_id));

    // Get and verify
    let txn = log.get(&txn_id).unwrap();
    assert_eq!(txn.status, TransactionStatus::Committed);
    assert!(txn.completed_at.is_some());
}

#[test]
fn test_transaction_log_rollback() {
    let mut log = TransactionLog::new();
    let txn_id = log.begin("user");

    let op = TransactionOp {
        package: "failing-pkg".to_string(),
        op_type: TransactionOpType::Install,
        source: PackageSource::Marketplace,
        version: None,
        status: TransactionOpStatus::Pending,
        error: None,
    };
    log.add_op(&txn_id, op);
    assert!(log.rollback(&txn_id));

    let txn = log.get(&txn_id).unwrap();
    assert_eq!(txn.status, TransactionStatus::RolledBack);
    assert_eq!(txn.operations[0].status, TransactionOpStatus::RolledBack);
}

#[test]
fn test_transaction_log_fail() {
    let mut log = TransactionLog::new();
    let txn_id = log.begin("user");

    assert!(log.fail(&txn_id, "disk full"));
    let txn = log.get(&txn_id).unwrap();
    assert!(matches!(txn.status, TransactionStatus::Failed(_)));

    // Can't fail again
    assert!(!log.fail(&txn_id, "another error"));
}

#[test]
fn test_transaction_log_mark_op_failed() {
    let mut log = TransactionLog::new();
    let txn_id = log.begin("user");

    let op = TransactionOp {
        package: "bad-pkg".to_string(),
        op_type: TransactionOpType::Install,
        source: PackageSource::System,
        version: None,
        status: TransactionOpStatus::InProgress,
        error: None,
    };
    log.add_op(&txn_id, op);
    assert!(log.mark_op_failed(&txn_id, "bad-pkg", "checksum mismatch"));

    let txn = log.get(&txn_id).unwrap();
    assert_eq!(txn.operations[0].status, TransactionOpStatus::Failed);
    assert_eq!(
        txn.operations[0].error.as_deref(),
        Some("checksum mismatch")
    );
}

#[test]
fn test_transaction_log_recent() {
    let mut log = TransactionLog::new();
    log.begin("a");
    log.begin("b");
    log.begin("c");

    let recent = log.recent(2);
    assert_eq!(recent.len(), 2);
}

#[test]
fn test_transaction_log_sequential_ids() {
    let mut log = TransactionLog::new();
    let id1 = log.begin("u");
    let id2 = log.begin("u");
    assert_ne!(id1, id2);
    assert!(id1.starts_with("txn-"));
    assert!(id2.starts_with("txn-"));
}

#[test]
fn transaction_ids_are_padded_counters() {
    let mut log = TransactionLog::new();
    assert_eq!(log.begin("u"), "txn-000001");
    assert_eq!(log.begin("u"), "txn-000002");
    assert_eq!(ark::txlog::parse_txn_number("txn-000042"), Some(42));
    assert_eq!(ark::txlog::parse_txn_number("txn-+7"), Some(7));
    assert_eq!(ark::txlog::parse_txn_number("txn-"), None);
    assert_eq!(ark::txlog::parse_txn_number("txn-18446744073709551616"), None);
    assert_eq!(ark::txlog::parse_txn_number("txn-18446744073709551615"), Some(u64::MAX));
    assert_eq!(ark::txlog::parse_txn_number("tx-1"), None);
    assert_eq!(ark::txlog::parse_txn_number("txn-1a"), None);
}

#[test]
fn rollback_keeps_finished_ops() {
    let mut log = TransactionLog::new();
    let id = log.begin("root");
    for (name, status) in [
        ("a", TransactionOpStatus::Complete),
        ("b", TransactionOpStatus::InProgress),
        ("c", TransactionOpStatus::Failed),
    ] {
        log.add_op(
            &id,
            TransactionOp {
                op_type: TransactionOpType::Install,
                package: name.into(),
                version: None,
                source: PackageSource::System,
                status,
                error: None,
            },
        );
    }
    assert!(log.rollback(&id));
    let ops = &log.get(&id).unwrap().operations;
    assert_eq!(ops[0].status, TransactionOpStatus::Complete);
    assert_eq!(ops[1].status, TransactionOpStatus::RolledBack);
    assert_eq!(ops[2].status, TransactionOpStatus::Failed);
    assert!(!log.rollback(&id));
    assert!(!log.commit("txn-999999"));
    assert!(log.get("txn-999999").is_none());
}

#[test]
fn recover_replaces_and_raises_the_counter() {
    let mut source = TransactionLog::new();
    let id1 = source.begin("user1");
    source.commit(&id1);
    let snapshot = source.get(&id1).unwrap().clone();

    let mut log = TransactionLog::new();
    log.recover(snapshot.clone());
    log.recover(snapshot.clone());
    assert_eq!(log.len(), 1);
    assert_eq!(log.get("txn-000001").unwrap().status, TransactionStatus::Committed);
    // the next transaction continues after the recovered one
    assert_eq!(log.begin("u"), "txn-000002");

    let mut odd = snapshot.clone();
    odd.id = "txn-000040".to_string();
    log.recover(odd);
    assert_eq!(log.begin("u"), "txn-000041");
    assert_eq!(log.len(), 4);
}
