//! All types, enums, and data structures for the ark package manager, in one place.

pub use crate::cli::{ArkCommand, CliCommand};
pub use crate::clock::Timestamp;
pub use crate::config::{ArkConfig, PartialArkConfig};
pub use crate::db::{IntegrityIssue, IntegrityIssueType, PackageDb, PackageDbEntry};
pub use crate::error::{ArkError, ErrorKind};
pub use crate::output::{ArkOutput, ArkOutputLine};
pub use crate::plan::{InstallPlan, InstallStep, PlanExecutionResult, RemovalProbe, ResolvedPackage, StepResult};
pub use crate::report::{ArkResult, AvailableUpdate, InstalledPackage};
pub use crate::source::{PackageSource, ResolutionStrategy};
pub use crate::txlog::{
    Transaction, TransactionId, DEFAULT_TRANSACTION_LOG_PATH, TransactionLog, TransactionOp, TransactionOpStatus, TransactionOpType,
    TransactionStatus,
};
