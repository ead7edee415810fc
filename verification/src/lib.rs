//! Ark: the plans, transactions and package database of a package manager.
//!
//! Ark turns a command into an install plan: the steps that would install or
//! remove packages from the system, the marketplace or as Flutter apps.  It
//! runs nothing itself.  The sources are asked by the caller, which hands
//! their answers to the functions here.

pub mod cli;
pub mod clock;
pub mod config;
pub mod confirm;
pub mod db;
pub mod error;
pub mod output;
pub mod plan;
pub mod report;
pub mod source;
pub mod text;
pub mod txlog;
pub mod types;

pub use cli::{group_install_target, group_meta_package, parse_args, parse_source_arg, ArkCommand};
pub use config::ArkConfig;
pub use confirm::confirm_with;
pub use db::{IntegrityIssue, IntegrityIssueType, PackageDb, PackageDbEntry};
pub use error::{ArkError, ErrorKind};
pub use output::{ArkOutput, ArkOutputLine};
pub use plan::{format_plan, InstallPlan, InstallStep, PlanExecutionResult, StepResult};
pub use report::{ArkPackageManager, ArkResult, AvailableUpdate, InstalledPackage, ARK_VERSION};
pub use source::{PackageSource, ResolutionStrategy};
pub use txlog::{
    Transaction, TransactionId, DEFAULT_TRANSACTION_LOG_PATH, TransactionLog, TransactionOp, TransactionOpStatus, TransactionOpType,
    TransactionStatus,
};
