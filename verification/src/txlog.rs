//! The transaction log: begin, record operations, then commit, roll back or fail.

use vstd::prelude::*;
use vstd::string::StringExecFns;

use crate::clock::{utc_now, Timestamp};
use crate::source::PackageSource;
use crate::text::{decimal, lemma_parse_padded, parse_u64, parse_u64_spec, str_eq, u64_to_string, zero_pad};

verus! {

/// Unique identifier for a transaction.
pub type TransactionId = String;

/// Default path for the persistent transaction log.
pub const DEFAULT_TRANSACTION_LOG_PATH: &'static str = "/var/lib/agnos/ark/transaction.log";

/// Status of a transaction.
#[derive(Debug, Clone, PartialEq, Eq)]
pub enum TransactionStatus {
    InProgress,
    Committed,
    RolledBack,
    Failed(String),
}

pub enum StatusView {
    InProgress,
    Committed,
    RolledBack,
    Failed(Seq<char>),
}

impl View for TransactionStatus {
    type V = StatusView;

    open spec fn view(&self) -> StatusView {
        match self {
            TransactionStatus::InProgress => StatusView::InProgress,
            TransactionStatus::Committed => StatusView::Committed,
            TransactionStatus::RolledBack => StatusView::RolledBack,
            TransactionStatus::Failed(e) => StatusView::Failed(e@),
        }
    }
}

/// The text a status is shown as.
pub open spec fn status_text(s: StatusView) -> Seq<char> {
    match s {
        StatusView::InProgress => "in-progress"@,
        StatusView::Committed => "committed"@,
        StatusView::RolledBack => "rolled-back"@,
        StatusView::Failed(e) => "failed: "@ + e,
    }
}

impl TransactionStatus {
    /// Whether the transaction is still in progress.
    pub fn is_in_progress(&self) -> (r: bool)
        ensures
            r == (self@ is InProgress),
    {
        match self {
            TransactionStatus::InProgress => true,
            _ => false,
        }
    }

    /// The text this status is shown as (`in-progress`, `committed`,
    /// `rolled-back`, `failed: <error>`).
    pub fn to_display_string(&self) -> (r: String)
        ensures
            r@ == status_text(self@),
    {
        match self {
            TransactionStatus::InProgress => String::from_str("in-progress"),
            TransactionStatus::Committed => String::from_str("committed"),
            TransactionStatus::RolledBack => String::from_str("rolled-back"),
            TransactionStatus::Failed(e) => String::from_str("failed: ").concat(e.as_str()),
        }
    }
}

/// Types of transaction operations.
#[derive(Debug, Clone, PartialEq, Eq)]
pub enum TransactionOpType {
    Install,
    Remove,
    Upgrade { from_version: String },
}

pub enum OpTypeView {
    Install,
    Remove,
    Upgrade { from_version: Seq<char> },
}

impl View for TransactionOpType {
    type V = OpTypeView;

    open spec fn view(&self) -> OpTypeView {
        match self {
            TransactionOpType::Install => OpTypeView::Install,
            TransactionOpType::Remove => OpTypeView::Remove,
            TransactionOpType::Upgrade { from_version } => OpTypeView::Upgrade {
                from_version: from_version@,
            },
        }
    }
}

/// Status of a transaction operation.
#[derive(Clone, Copy, Debug, PartialEq, Eq, Structural, Hash)]
pub enum TransactionOpStatus {
    Pending,
    InProgress,
    Complete,
    Failed,
    RolledBack,
}

/// A single operation within a transaction.
#[derive(Debug, Clone)]
pub struct TransactionOp {
    pub op_type: TransactionOpType,
    pub package: String,
    pub version: Option<String>,
    pub source: PackageSource,
    pub status: TransactionOpStatus,
    pub error: Option<String>,
}

#[verifier::ext_equal]
pub struct OpView {
    pub op_type: OpTypeView,
    pub package: Seq<char>,
    pub version: Option<Seq<char>>,
    pub source: PackageSource,
    pub status: TransactionOpStatus,
    pub error: Option<Seq<char>>,
}

impl View for TransactionOp {
    type V = OpView;

    open spec fn view(&self) -> OpView {
        OpView {
            op_type: self.op_type@,
            package: self.package@,
            version: self.version.deep_view(),
            source: self.source,
            status: self.status,
            error: self.error.deep_view(),
        }
    }
}

/// A single atomic package management transaction.
#[derive(Debug, Clone)]
pub struct Transaction {
    pub id: String,
    pub started_at: Timestamp,
    pub completed_at: Option<Timestamp>,
    pub status: TransactionStatus,
    pub operations: Vec<TransactionOp>,
    pub user: String,
}

#[verifier::ext_equal]
pub struct TxnView {
    pub id: Seq<char>,
    pub started_at: Timestamp,
    pub completed_at: Option<Timestamp>,
    pub status: StatusView,
    pub operations: Seq<OpView>,
    pub user: Seq<char>,
}

pub open spec fn ops_view(ops: Seq<TransactionOp>) -> Seq<OpView> {
    Seq::new(ops.len(), |i: int| ops[i]@)
}

impl View for Transaction {
    type V = TxnView;

    open spec fn view(&self) -> TxnView {
        TxnView {
            id: self.id@,
            started_at: self.started_at,
            completed_at: self.completed_at,
            status: self.status@,
            operations: ops_view(self.operations@),
            user: self.user@,
        }
    }
}

pub open spec fn txns_view(txns: Seq<Transaction>) -> Seq<TxnView> {
    Seq::new(txns.len(), |i: int| txns[i]@)
}

/// The transaction log stores all past transactions for auditing and rollback.
pub struct TransactionLog {
    transactions: Vec<Transaction>,
    next_id: u64,
}

/// The log's transactions, oldest first, and the number of the last one begun.
#[verifier::ext_equal]
pub struct LogView {
    pub transactions: Seq<TxnView>,
    pub next_id: u64,
}

impl View for TransactionLog {
    type V = LogView;

    closed spec fn view(&self) -> LogView {
        LogView { transactions: txns_view(self.transactions@), next_id: self.next_id }
    }
}

// ---------------------------------------------------------------------------
// Transaction ids
// ---------------------------------------------------------------------------

/// The id of transaction number `n`: `txn-` and `n` zero-padded to six digits.
pub open spec fn txn_id_text(n: u64) -> Seq<char> {
    "txn-"@ + zero_pad(decimal(n as nat), 6)
}

/// The number an id of the form `txn-<u64>` carries.
pub open spec fn txn_number(id: Seq<char>) -> Option<u64> {
    if id.len() >= 4 && id.take(4) == "txn-"@ {
        parse_u64_spec(id.skip(4))
    } else {
        None
    }
}

pub proof fn lemma_txn_id_number(n: u64)
    ensures
        txn_number(txn_id_text(n)) == Some(n),
{
    reveal_strlit("txn-");
    let p = zero_pad(decimal(n as nat), 6);
    assert(txn_id_text(n).take(4) =~= "txn-"@);
    assert(txn_id_text(n).skip(4) =~= p);
    lemma_parse_padded(n, 6);
}

/// The id of transaction number `n`.
fn format_txn_id(n: u64) -> (r: String)
    ensures
        r@ == txn_id_text(n),
{
    let digits = u64_to_string(n);
    let mut id = String::from_str("txn-");
    let len = digits.as_str().unicode_len();
    let mut k: usize = len;
    while k < 6
        invariant
            len == decimal(n as nat).len(),
            len <= k <= 6 || (len > 6 && k == len),
            id@ == "txn-"@ + crate::text::zeros(k - len),
        decreases 6 - k,
    {
        let ghost before = id@;
        id.append("0");
        proof {
            reveal_strlit("0");
            assert(crate::text::zeros(k + 1 - len) =~= crate::text::zeros(k - len).push('0'));
            assert(id@ =~= "txn-"@ + crate::text::zeros(k + 1 - len));
        }
        k = k + 1;
    }
    id.append(digits.as_str());
    assert(id@ =~= txn_id_text(n));
    id
}

/// The number an id of the form `txn-<u64>` carries.
pub fn parse_txn_number(id: &str) -> (r: Option<u64>)
    ensures
        r == txn_number(id@),
{
    let n = id.unicode_len();
    proof {
        reveal_strlit("txn-");
    }
    if n < 4 || id.get_char(0) != 't' || id.get_char(1) != 'x' || id.get_char(2) != 'n'
        || id.get_char(3) != '-' {
        proof {
            if id@.len() >= 4 && id@.take(4) == "txn-"@ {
                assert(id@.take(4)[0] == 't');
                assert(id@.take(4)[1] == 'x');
                assert(id@.take(4)[2] == 'n');
                assert(id@.take(4)[3] == '-');
            }
        }
        return None;
    }
    assert(id@.take(4) =~= "txn-"@);
    let rest = id.substring_char(4, n);
    assert(rest@ =~= id@.skip(4));
    parse_u64(rest)
}

// ---------------------------------------------------------------------------
// What each operation does to the log
// ---------------------------------------------------------------------------

/// Index of the first transaction at or after `i` with id `id`.
pub open spec fn find_from(txns: Seq<TxnView>, id: Seq<char>, i: int) -> Option<int>
    decreases txns.len() - i,
{
    if i < 0 || i >= txns.len() {
        None
    } else if txns[i].id == id {
        Some(i)
    } else {
        find_from(txns, id, i + 1)
    }
}

/// Index of the transaction with id `id`, if there is one.
pub open spec fn find_txn(txns: Seq<TxnView>, id: Seq<char>) -> Option<int> {
    find_from(txns, id, 0)
}

/// Index of the first operation on `package`.
pub open spec fn find_op_from(ops: Seq<OpView>, package: Seq<char>, i: int) -> Option<int>
    decreases ops.len() - i,
{
    if i < 0 || i >= ops.len() {
        None
    } else if ops[i].package == package {
        Some(i)
    } else {
        find_op_from(ops, package, i + 1)
    }
}

/// Whether the ids are distinct and none carries a number above the last one begun.
pub open spec fn log_wf(log: LogView) -> bool {
    &&& forall|i: int, j: int|
        0 <= i < j < log.transactions.len() ==> #[trigger] log.transactions[i].id
            != #[trigger] log.transactions[j].id
    &&& forall|i: int|
        0 <= i < log.transactions.len() ==> match txn_number(#[trigger] log.transactions[i].id) {
            Some(n) => n <= log.next_id,
            None => true,
        }
}

pub open spec fn empty_log() -> LogView {
    LogView { transactions: Seq::empty(), next_id: 0 }
}

/// `begin`: a new transaction, in progress, started at `t`; and its id.
pub open spec fn begin_spec(log: LogView, user: Seq<char>, t: Timestamp) -> (LogView, Seq<char>) {
    let n = (log.next_id + 1) as u64;
    let id = txn_id_text(n);
    (
        LogView {
            transactions: log.transactions.push(
                TxnView {
                    id,
                    started_at: t,
                    completed_at: None,
                    status: StatusView::InProgress,
                    operations: Seq::empty(),
                    user,
                },
            ),
            next_id: n,
        },
        id,
    )
}

/// `log` with transaction `i` replaced by `t`.
pub open spec fn with_txn(log: LogView, i: int, t: TxnView) -> LogView {
    LogView { transactions: log.transactions.update(i, t), next_id: log.next_id }
}

/// Whether the transaction with id `id` exists and is in progress.
pub open spec fn open_txn(log: LogView, id: Seq<char>) -> bool {
    match find_txn(log.transactions, id) {
        Some(i) => log.transactions[i].status is InProgress,
        None => false,
    }
}

/// `add_op`: the operation is appended to the transaction, if that is in progress.
pub open spec fn add_op_spec(log: LogView, id: Seq<char>, op: OpView) -> (LogView, bool) {
    if open_txn(log, id) {
        let i = find_txn(log.transactions, id)->0;
        let t = log.transactions[i];
        (with_txn(log, i, TxnView { operations: t.operations.push(op), ..t }), true)
    } else {
        (log, false)
    }
}

/// The first operation on `package` of the transaction `id` changed by `f`,
/// whatever the transaction's status; `false` when there is none.
pub open spec fn mark_op_spec(
    log: LogView,
    id: Seq<char>,
    package: Seq<char>,
    f: spec_fn(OpView) -> OpView,
) -> (LogView, bool) {
    match find_txn(log.transactions, id) {
        Some(i) => {
            let t = log.transactions[i];
            match find_op_from(t.operations, package, 0) {
                Some(j) => (
                    with_txn(
                        log,
                        i,
                        TxnView { operations: t.operations.update(j, f(t.operations[j])), ..t },
                    ),
                    true,
                ),
                None => (log, false),
            }
        },
        None => (log, false),
    }
}

pub open spec fn completed(op: OpView) -> OpView {
    OpView { status: TransactionOpStatus::Complete, ..op }
}

pub open spec fn failed_with(error: Seq<char>) -> spec_fn(OpView) -> OpView {
    |op: OpView| OpView { status: TransactionOpStatus::Failed, error: Some(error), ..op }
}

/// An open transaction closed with `status` at `t`; the rest unchanged.
pub open spec fn close_spec(log: LogView, id: Seq<char>, status: StatusView, t: Timestamp) -> (
    LogView,
    bool,
) {
    if open_txn(log, id) {
        let i = find_txn(log.transactions, id)->0;
        let x = log.transactions[i];
        (with_txn(log, i, TxnView { status, completed_at: Some(t), ..x }), true)
    } else {
        (log, false)
    }
}

/// An operation as a rollback leaves it: pending and running ones are rolled back.
pub open spec fn rolled_back_op(op: OpView) -> OpView {
    if op.status == TransactionOpStatus::Pending || op.status == TransactionOpStatus::InProgress {
        OpView { status: TransactionOpStatus::RolledBack, ..op }
    } else {
        op
    }
}

/// `rollback`: an open transaction is rolled back at `t`, and so are its
/// pending and running operations.
pub open spec fn rollback_spec(log: LogView, id: Seq<char>, t: Timestamp) -> (LogView, bool) {
    if open_txn(log, id) {
        let i = find_txn(log.transactions, id)->0;
        let x = log.transactions[i];
        (
            with_txn(
                log,
                i,
                TxnView {
                    status: StatusView::RolledBack,
                    completed_at: Some(t),
                    operations: Seq::new(
                        x.operations.len(),
                        |k: int| rolled_back_op(x.operations[k]),
                    ),
                    ..x
                },
            ),
            true,
        )
    } else {
        (log, false)
    }
}

/// Replaying a transaction read back from the log file: it replaces the one
/// with its id, or is appended; a `txn-<n>` id raises the counter to `n`.
pub open spec fn recover_spec(log: LogView, t: TxnView) -> LogView {
    let next_id = match txn_number(t.id) {
        Some(n) => if n >= log.next_id {
            n
        } else {
            log.next_id
        },
        None => log.next_id,
    };
    let txns = match find_txn(log.transactions, t.id) {
        Some(i) => log.transactions.update(i, t),
        None => log.transactions.push(t),
    };
    LogView { transactions: txns, next_id }
}

/// The newest `count` transactions, newest first.
pub open spec fn recent_spec(log: LogView, count: nat) -> Seq<TxnView> {
    let n = log.transactions.len();
    let k = if count < n { count } else { n };
    Seq::new(k, |i: int| log.transactions[n - 1 - i])
}

// ---------------------------------------------------------------------------
// Lemmas on finding
// ---------------------------------------------------------------------------

pub proof fn lemma_find_from(txns: Seq<TxnView>, id: Seq<char>, i: int)
    requires
        0 <= i,
    ensures
        match find_from(txns, id, i) {
            Some(k) => i <= k < txns.len() && txns[k].id == id && forall|j: int|
                i <= j < k ==> txns[j].id != id,
            None => forall|j: int| i <= j < txns.len() ==> txns[j].id != id,
        },
    decreases txns.len() - i,
{
    if i < txns.len() && txns[i].id != id {
        lemma_find_from(txns, id, i + 1);
    }
}

pub proof fn lemma_find_op_from(ops: Seq<OpView>, package: Seq<char>, i: int)
    requires
        0 <= i,
    ensures
        match find_op_from(ops, package, i) {
            Some(k) => i <= k < ops.len() && ops[k].package == package && forall|j: int|
                i <= j < k ==> ops[j].package != package,
            None => forall|j: int| i <= j < ops.len() ==> ops[j].package != package,
        },
    decreases ops.len() - i,
{
    if i < ops.len() && ops[i].package != package {
        lemma_find_op_from(ops, package, i + 1);
    }
}

/// In a log with distinct ids, the transaction with a given id is found where it is.
pub proof fn lemma_find_unique(txns: Seq<TxnView>, k: int)
    requires
        0 <= k < txns.len(),
        forall|i: int, j: int| 0 <= i < j < txns.len() ==> #[trigger] txns[i].id != #[trigger] txns[j].id,
    ensures
        find_txn(txns, txns[k].id) == Some(k),
{
    lemma_find_from(txns, txns[k].id, 0);
    match find_txn(txns, txns[k].id) {
        Some(j) => {
            if j < k {
                assert(txns[j].id != txns[k].id);
            }
        },
        None => {},
    }
}


impl TransactionLog {
    /// An empty log.
    pub fn new() -> (r: TransactionLog)
        ensures
            r@ == empty_log(),
            log_wf(r@),
    {
        let r = TransactionLog { transactions: Vec::new(), next_id: 0 };
        assert(r@ =~= empty_log());
        r
    }

    /// Index of the transaction with id `id`.
    fn find_index(&self, id: &str) -> (r: Option<usize>)
        ensures
            match r {
                Some(i) => find_txn(self@.transactions, id@) == Some(i as int),
                None => find_txn(self@.transactions, id@) is None,
            },
            r matches Some(i) ==> i < self.transactions@.len() && self@.transactions[i as int].id
                == id@,
            self@.transactions.len() == self.transactions@.len(),
    {
        let ghost txns = self@.transactions;
        let mut k: usize = 0;
        while k < self.transactions.len()
            invariant
                txns == self@.transactions,
                txns.len() == self.transactions@.len(),
                k <= self.transactions.len(),
                find_txn(txns, id@) == find_from(txns, id@, k as int),
            decreases self.transactions.len() - k,
        {
            assert(txns[k as int] == self.transactions@[k as int]@);
            if str_eq(self.transactions[k].id.as_str(), id) {
                return Some(k);
            }
            k = k + 1;
        }
        None
    }

    /// Begin a new transaction: `txn-` and the next number, zero-padded to six
    /// digits, in progress, with no operations.
    pub fn begin(&mut self, user: &str) -> (id: String)
        requires
            log_wf(old(self)@),
            old(self)@.next_id < u64::MAX,
        ensures
            log_wf(final(self)@),
            exists|t: Timestamp| #[trigger] begin_spec(old(self)@, user@, t) == (final(self)@, id@),
    {
        let ghost before = self@;
        let n = self.next_id + 1;
        let id = format_txn_id(n);
        let t = utc_now();
        let txn = Transaction {
            id: id.clone(),
            started_at: t,
            completed_at: None,
            status: TransactionStatus::InProgress,
            operations: Vec::new(),
            user: String::from_str(user),
        };
        assert(txn@.operations =~= Seq::<OpView>::empty());
        self.transactions.push(txn);
        self.next_id = n;
        let ghost spec = begin_spec(before, user@, t);
        assert(self@.transactions =~= spec.0.transactions);
        assert(self@ =~= spec.0);
        proof {
            lemma_txn_id_number(n);
            let txns = self@.transactions;
            assert forall|i: int, j: int| 0 <= i < j < txns.len() implies #[trigger] txns[i].id
                != #[trigger] txns[j].id by {
                if j == txns.len() - 1 {
                    assert(txns[i] == before.transactions[i]);
                    if txns[i].id == txns[j].id {
                        assert(txn_number(txns[i].id) == Some(n));
                    }
                } else {
                    assert(txns[i] == before.transactions[i]);
                    assert(txns[j] == before.transactions[j]);
                }
            }
            assert forall|i: int| 0 <= i < txns.len() implies match txn_number(
                #[trigger] txns[i].id,
            ) {
                Some(m) => m <= n,
                None => true,
            } by {
                if i < txns.len() - 1 {
                    assert(txns[i] == before.transactions[i]);
                }
            }
        }
        id
    }

    /// Add an operation to a transaction; only one in progress takes it.
    pub fn add_op(&mut self, txn_id: &str, op: TransactionOp) -> (r: bool)
        requires
            log_wf(old(self)@),
        ensures
            log_wf(final(self)@),
            add_op_spec(old(self)@, txn_id@, op@) == (final(self)@, r),
    {
        let ghost before = self@;
        match self.find_index(txn_id) {
            Some(i) => {
                if self.transactions[i].status.is_in_progress() {
                    let ghost old_ops = self@.transactions[i as int].operations;
                    let ghost opv = op@;
                    self.transactions[i].operations.push(op);
                    proof {
                        assert(find_txn(before.transactions, txn_id@) == Some(i as int));
                        assert(before.transactions[i as int].status is InProgress);
                        assert(open_txn(before, txn_id@));
                        let spec = add_op_spec(before, txn_id@, opv).0;
                        assert(self@.transactions[i as int].operations =~= old_ops.push(opv));
                        assert(self@.transactions[i as int] =~= (TxnView {
                            operations: old_ops.push(opv),
                            ..before.transactions[i as int]
                        }));
                        assert forall|j: int| 0 <= j < self@.transactions.len() && j != i implies
                            #[trigger] self@.transactions[j] == before.transactions[j] by {
                            assert(self.transactions@[j] == old(self).transactions@[j]);
                        }
                        assert(self@.transactions =~= spec.transactions);
                        assert(self@ =~= spec);
                        assert forall|a: int, b: int|
                            0 <= a < b < self@.transactions.len() implies #[trigger] self@.transactions[a].id
                            != #[trigger] self@.transactions[b].id by {
                            assert(before.transactions[a].id != before.transactions[b].id);
                        }
                        assert forall|a: int| 0 <= a < self@.transactions.len() implies match txn_number(
                            #[trigger] self@.transactions[a].id,
                        ) {
                            Some(m) => m <= self@.next_id,
                            None => true,
                        } by {
                            assert(self@.transactions[a].id == before.transactions[a].id);
                        }
                    }
                    return true;
                }
                assert(find_txn(before.transactions, txn_id@) == Some(i as int));
                assert(before.transactions[i as int] == self.transactions@[i as int]@);
                assert(!(before.transactions[i as int].status is InProgress));
                assert(!open_txn(before, txn_id@));
                false
            },
            None => {
                assert(find_txn(before.transactions, txn_id@) is None);
                false
            },
        }
    }

    /// Mark a transaction operation as complete (the first one on `package`).
    pub fn mark_op_complete(&mut self, txn_id: &str, package: &str) -> (r: bool)
        requires
            log_wf(old(self)@),
        ensures
            log_wf(final(self)@),
            mark_op_spec(old(self)@, txn_id@, package@, |op: OpView| completed(op)) == (
                final(self)@,
                r,
            ),
    {
        self.mark_op(txn_id, package, TransactionOpStatus::Complete, None)
    }

    /// Mark a transaction operation as failed, with its error (the first one
    /// on `package`).
    pub fn mark_op_failed(&mut self, txn_id: &str, package: &str, error: &str) -> (r: bool)
        requires
            log_wf(old(self)@),
        ensures
            log_wf(final(self)@),
            mark_op_spec(old(self)@, txn_id@, package@, failed_with(error@)) == (final(self)@, r),
    {
        self.mark_op(txn_id, package, TransactionOpStatus::Failed, Some(String::from_str(error)))
    }

    fn mark_op(
        &mut self,
        txn_id: &str,
        package: &str,
        status: TransactionOpStatus,
        error: Option<String>,
    ) -> (r: bool)
        requires
            log_wf(old(self)@),
        ensures
            log_wf(final(self)@),
            mark_op_spec(
                old(self)@,
                txn_id@,
                package@,
                |op: OpView|
                    OpView {
                        status,
                        error: match error {
                            Some(e) => Some(e@),
                            None => op.error,
                        },
                        ..op
                    },
            ) == (final(self)@, r),
    {
        let ghost before = self@;
        let ghost f = |op: OpView|
            OpView {
                status,
                error: match error {
                    Some(e) => Some(e@),
                    None => op.error,
                },
                ..op
            };
        match self.find_index(txn_id) {
            Some(i) => {
                let ghost ops = before.transactions[i as int].operations;
                match find_op_index(&self.transactions[i].operations, package) {
                    Some(j) => {
                        proof {
                            lemma_find_op_from(ops, package@, 0);
                        }
                        let ghost old_op = ops[j as int];
                        self.transactions[i].operations[j].status = status;
                        match error {
                            Some(e) => {
                                self.transactions[i].operations[j].error = Some(e);
                            },
                            None => {},
                        }
                        proof {
                            let spec = mark_op_spec(before, txn_id@, package@, f).0;
                            assert(self@.transactions[i as int].operations[j as int] =~= f(old_op));
                            assert(self@.transactions[i as int].operations =~= ops.update(
                                j as int,
                                f(old_op),
                            ));
                            assert(self@.transactions[i as int] =~= (TxnView {
                                operations: ops.update(j as int, f(old_op)),
                                ..before.transactions[i as int]
                            }));
                            assert forall|k: int|
                                0 <= k < self@.transactions.len() && k != i implies #[trigger] self@.transactions[k]
                                == before.transactions[k] by {
                                assert(self.transactions@[k] == old(self).transactions@[k]);
                            }
                            assert(self@.transactions =~= spec.transactions);
                            assert(self@ =~= spec);
                            lemma_same_ids_wf(before, self@);
                        }
                        true
                    },
                    None => false,
                }
            },
            None => false,
        }
    }

    /// Close an open transaction with `status`, stamped now.
    fn close(&mut self, txn_id: &str, status: TransactionStatus) -> (r: bool)
        requires
            log_wf(old(self)@),
        ensures
            log_wf(final(self)@),
            exists|t: Timestamp| #[trigger] close_spec(old(self)@, txn_id@, status@, t) == (
                final(self)@,
                r,
            ),
    {
        let ghost before = self@;
        let ghost sv = status@;
        let i = match self.find_index(txn_id) {
            Some(i) => i,
            None => {
                assert(close_spec(before, txn_id@, sv, Timestamp { secs: 0, nanos: 0 }) == (
                    self@,
                    false,
                ));
                return false;
            },
        };
        if !self.transactions[i].status.is_in_progress() {
            assert(close_spec(before, txn_id@, sv, Timestamp { secs: 0, nanos: 0 }) == (
                self@,
                false,
            ));
            return false;
        }
        let t = utc_now();
        self.transactions[i].status = status;
        self.transactions[i].completed_at = Some(t);
        proof {
            let spec = close_spec(before, txn_id@, sv, t).0;
            assert(self@.transactions[i as int] =~= (TxnView {
                status: sv,
                completed_at: Some(t),
                ..before.transactions[i as int]
            }));
            assert forall|k: int| 0 <= k < self@.transactions.len() && k != i implies #[trigger] self@.transactions[k]
                == before.transactions[k] by {
                assert(self.transactions@[k] == old(self).transactions@[k]);
            }
            assert(self@.transactions =~= spec.transactions);
            assert(self@ =~= spec);
            assert(close_spec(before, txn_id@, sv, t) == (self@, true));
            lemma_same_ids_wf(before, self@);
        }
        true
    }

    /// Commit a transaction in progress; any other is left as it is.
    pub fn commit(&mut self, txn_id: &str) -> (r: bool)
        requires
            log_wf(old(self)@),
        ensures
            log_wf(final(self)@),
            exists|t: Timestamp| #[trigger] close_spec(old(self)@, txn_id@, StatusView::Committed, t)
                == (final(self)@, r),
    {
        self.close(txn_id, TransactionStatus::Committed)
    }

    /// Fail a transaction in progress with an error; any other is left as it is.
    pub fn fail(&mut self, txn_id: &str, error: &str) -> (r: bool)
        requires
            log_wf(old(self)@),
        ensures
            log_wf(final(self)@),
            exists|t: Timestamp| #[trigger] close_spec(
                old(self)@,
                txn_id@,
                StatusView::Failed(error@),
                t,
            ) == (final(self)@, r),
    {
        self.close(txn_id, TransactionStatus::Failed(String::from_str(error)))
    }

    /// Roll back a transaction in progress, and its pending and running
    /// operations; any other is left as it is.
    pub fn rollback(&mut self, txn_id: &str) -> (r: bool)
        requires
            log_wf(old(self)@),
        ensures
            log_wf(final(self)@),
            exists|t: Timestamp| #[trigger] rollback_spec(old(self)@, txn_id@, t) == (final(self)@, r),
    {
        let ghost before = self@;
        let i = match self.find_index(txn_id) {
            Some(i) => i,
            None => {
                assert(rollback_spec(before, txn_id@, Timestamp { secs: 0, nanos: 0 }) == (self@, false));
                return false;
            },
        };
        if !self.transactions[i].status.is_in_progress() {
            assert(rollback_spec(before, txn_id@, Timestamp { secs: 0, nanos: 0 }) == (self@, false));
            return false;
        }
        let ghost ops = before.transactions[i as int].operations;
        let n = self.transactions[i].operations.len();
        let mut k: usize = 0;
        while k < n
            invariant
                i < self.transactions@.len(),
                n == self.transactions@[i as int].operations@.len(),
                ops.len() == n,
                k <= n,
                self.transactions@.len() == old(self).transactions@.len(),
                self.next_id == old(self).next_id,
                forall|j: int|
                    0 <= j < self.transactions@.len() && j != i ==> #[trigger] self.transactions@[j]
                        == old(self).transactions@[j],
                self.transactions@[i as int].id == old(self).transactions@[i as int].id,
                self.transactions@[i as int].user == old(self).transactions@[i as int].user,
                self.transactions@[i as int].status == old(self).transactions@[i as int].status,
                self.transactions@[i as int].started_at == old(self).transactions@[i as int].started_at,
                self.transactions@[i as int].completed_at == old(self).transactions@[i as int].completed_at,
                forall|j: int| 0 <= j < k ==> #[trigger] ops_view(self.transactions@[i as int].operations@)[j]
                    == rolled_back_op(ops[j]),
                forall|j: int| k <= j < n ==> #[trigger] ops_view(self.transactions@[i as int].operations@)[j]
                    == ops[j],
            decreases n - k,
        {
            let ghost pre = self.transactions@[i as int].operations@;
            assert(ops_view(pre)[k as int] == ops[k as int]);
            let st = self.transactions[i].operations[k].status;
            if st == TransactionOpStatus::Pending || st == TransactionOpStatus::InProgress {
                self.transactions[i].operations[k].status = TransactionOpStatus::RolledBack;
            }
            proof {
                let post = self.transactions@[i as int].operations@;
                assert(post.len() == pre.len());
                assert(post[k as int].package == pre[k as int].package);
                assert(post[k as int].op_type == pre[k as int].op_type);
                assert(post[k as int].version == pre[k as int].version);
                assert(post[k as int].error == pre[k as int].error);
                assert(post[k as int].source == pre[k as int].source);
                assert forall|j: int| 0 <= j < post.len() && j != k implies #[trigger] ops_view(post)[j]
                    == ops_view(pre)[j] by {
                    assert(post[j] == pre[j]);
                }
                assert(ops_view(post)[k as int] =~= rolled_back_op(ops[k as int]));
            }
            k = k + 1;
        }
        let t = utc_now();
        self.transactions[i].status = TransactionStatus::RolledBack;
        self.transactions[i].completed_at = Some(t);
        proof {
            let spec = rollback_spec(before, txn_id@, t).0;
            assert(self@.transactions[i as int].operations =~= Seq::new(
                ops.len(),
                |j: int| rolled_back_op(ops[j]),
            ));
            assert(self@.transactions[i as int] =~= spec.transactions[i as int]);
            assert forall|j: int| 0 <= j < self@.transactions.len() && j != i implies #[trigger] self@.transactions[j]
                == before.transactions[j] by {
                assert(self.transactions@[j] == old(self).transactions@[j]);
            }
            assert(self@.transactions =~= spec.transactions);
            assert(self@ =~= spec);
            assert(rollback_spec(before, txn_id@, t) == (self@, true));
            lemma_same_ids_wf(before, self@);
        }
        true
    }

    /// Get a transaction by ID.
    pub fn get(&self, txn_id: &str) -> (r: Option<&Transaction>)
        ensures
            match find_txn(self@.transactions, txn_id@) {
                Some(i) => r matches Some(t) && t@ == self@.transactions[i],
                None => r is None,
            },
    {
        match self.find_index(txn_id) {
            Some(i) => Some(&self.transactions[i]),
            None => None,
        }
    }

    /// Get the N most recent transactions, newest first.
    pub fn recent(&self, count: usize) -> (r: Vec<&Transaction>)
        ensures
            Seq::new(r@.len(), |i: int| r@[i]@) == recent_spec(self@, count as nat),
    {
        let n = self.transactions.len();
        let k_max = if count < n { count } else { n };
        let mut r: Vec<&Transaction> = Vec::new();
        let mut k: usize = 0;
        while k < k_max
            invariant
                n == self.transactions@.len(),
                k_max <= n,
                k_max == (if count < n { count } else { n }),
                k <= k_max,
                r@.len() == k,
                forall|j: int| 0 <= j < k ==> #[trigger] r@[j]@ == self@.transactions[n - 1 - j],
            decreases k_max - k,
        {
            r.push(&self.transactions[n - 1 - k]);
            k = k + 1;
        }
        assert(Seq::new(r@.len(), |i: int| r@[i]@) =~= recent_spec(self@, count as nat));
        r
    }

    /// Total number of transactions.
    pub fn len(&self) -> (r: usize)
        ensures
            r == self@.transactions.len(),
    {
        self.transactions.len()
    }

    /// Whether the log is empty.
    pub fn is_empty(&self) -> (r: bool)
        ensures
            r == (self@.transactions.len() == 0),
    {
        self.transactions.len() == 0
    }

    /// The number of the last transaction begun (or recovered); `begin`
    /// numbers the next one after it.
    pub fn last_number(&self) -> (r: u64)
        ensures
            r == self@.next_id,
    {
        self.next_id
    }

    /// Replays a transaction read back from the log file: it replaces the one
    /// with its id, or is appended; an id `txn-<n>` raises the counter to `n`.
    pub fn recover(&mut self, txn: Transaction)
        requires
            log_wf(old(self)@),
        ensures
            log_wf(final(self)@),
            final(self)@ == recover_spec(old(self)@, txn@),
    {
        let ghost before = self@;
        let ghost tv = txn@;
        match parse_txn_number(txn.id.as_str()) {
            Some(num) => {
                if num >= self.next_id {
                    self.next_id = num;
                }
            },
            None => {},
        }
        let ghost mid = self@;
        match self.find_index(txn.id.as_str()) {
            Some(i) => {
                self.transactions.set(i, txn);
                proof {
                    lemma_find_from(before.transactions, tv.id, 0);
                }
            },
            None => {
                self.transactions.push(txn);
                proof {
                    lemma_find_from(before.transactions, tv.id, 0);
                }
            },
        }
        let ghost spec = recover_spec(before, tv);
        assert(self@.transactions =~= spec.transactions);
        assert(self@ =~= spec);
        proof {
            let txns = self@.transactions;
            assert forall|a: int, b: int| 0 <= a < b < txns.len() implies #[trigger] txns[a].id
                != #[trigger] txns[b].id by {
                if a < before.transactions.len() && b < before.transactions.len() {
                    if txns[a].id == tv.id || txns[b].id == tv.id {
                    } else {
                        assert(txns[a] == before.transactions[a]);
                        assert(txns[b] == before.transactions[b]);
                    }
                }
            }
            assert forall|a: int| 0 <= a < txns.len() implies match txn_number(#[trigger] txns[a].id) {
                Some(m) => m <= self@.next_id,
                None => true,
            } by {
                if txns[a].id != tv.id {
                    assert(txns[a] == before.transactions[a]);
                }
            }
        }
    }
}

impl Default for TransactionLog {
    fn default() -> (r: TransactionLog)
        ensures
            r@ == empty_log(),
            log_wf(r@),
    {
        TransactionLog::new()
    }
}

/// Replacing transactions by ones with the same ids keeps a log well formed.
proof fn lemma_same_ids_wf(a: LogView, b: LogView)
    requires
        log_wf(a),
        a.transactions.len() == b.transactions.len(),
        a.next_id == b.next_id,
        forall|i: int| 0 <= i < a.transactions.len() ==> #[trigger] b.transactions[i].id == a.transactions[i].id,
    ensures
        log_wf(b),
{
    assert forall|i: int, j: int| 0 <= i < j < b.transactions.len() implies #[trigger] b.transactions[i].id
        != #[trigger] b.transactions[j].id by {
        assert(a.transactions[i].id != a.transactions[j].id);
    }
    assert forall|i: int| 0 <= i < b.transactions.len() implies match txn_number(
        #[trigger] b.transactions[i].id,
    ) {
        Some(n) => n <= b.next_id,
        None => true,
    } by {
        assert(b.transactions[i].id == a.transactions[i].id);
    }
}

/// Index of the first operation on `package`.
fn find_op_index(ops: &Vec<TransactionOp>, package: &str) -> (r: Option<usize>)
    ensures
        match r {
            Some(j) => find_op_from(ops_view(ops@), package@, 0) == Some(j as int) && j < ops@.len(),
            None => find_op_from(ops_view(ops@), package@, 0) is None,
        },
{
    let ghost v = ops_view(ops@);
    let mut k: usize = 0;
    while k < ops.len()
        invariant
            v == ops_view(ops@),
            k <= ops.len(),
            find_op_from(v, package@, 0) == find_op_from(v, package@, k as int),
        decreases ops.len() - k,
    {
        if str_eq(ops[k].package.as_str(), package) {
            return Some(k);
        }
        k = k + 1;
    }
    None
}

} // verus!

verus! {

/// A transaction that `begin` opens gets an id that no transaction of the log
/// had; it is found under that id, in progress and with no operations.
pub proof fn law_begin_fresh(log: LogView, user: Seq<char>, t: Timestamp)
    requires
        log_wf(log),
        log.next_id < u64::MAX,
    ensures
        ({
            let (after, id) = begin_spec(log, user, t);
            &&& find_txn(log.transactions, id) is None
            &&& find_txn(after.transactions, id) == Some(log.transactions.len() as int)
            &&& open_txn(after, id)
            &&& after.transactions.last().operations.len() == 0
        }),
{
    let (after, id) = begin_spec(log, user, t);
    let n = (log.next_id + 1) as u64;
    lemma_txn_id_number(n);
    lemma_find_from(log.transactions, id, 0);
    if find_txn(log.transactions, id) is Some {
        let k = find_txn(log.transactions, id)->0;
        assert(txn_number(log.transactions[k].id) == Some(n));
    }
    lemma_find_from(after.transactions, id, 0);
    match find_txn(after.transactions, id) {
        Some(k) => {
            if k < log.transactions.len() {
                assert(after.transactions[k] == log.transactions[k]);
                assert(txn_number(log.transactions[k].id) == Some(n));
            }
        },
        None => {
            assert(after.transactions[log.transactions.len() as int].id == id);
        },
    }
}

/// A transaction that is no longer in progress stays as it is: adding an
/// operation, committing, failing or rolling it back is refused and changes
/// nothing.
pub proof fn law_finished_is_final(
    log: LogView,
    id: Seq<char>,
    op: OpView,
    status: StatusView,
    t: Timestamp,
)
    requires
        find_txn(log.transactions, id) matches Some(i) && !(log.transactions[i].status is InProgress),
    ensures
        add_op_spec(log, id, op) == (log, false),
        close_spec(log, id, status, t) == (log, false),
        rollback_spec(log, id, t) == (log, false),
{
}

/// Closing a transaction in progress gives it the status and the time it was
/// closed at, and it is in progress no more: a second commit is refused.
pub proof fn law_close_then_get(log: LogView, id: Seq<char>, status: StatusView, t: Timestamp)
    requires
        log_wf(log),
        open_txn(log, id),
        !(status is InProgress),
    ensures
        ({
            let (after, ok) = close_spec(log, id, status, t);
            &&& ok
            &&& find_txn(after.transactions, id) == find_txn(log.transactions, id)
            &&& after.transactions[find_txn(log.transactions, id)->0].status == status
            &&& after.transactions[find_txn(log.transactions, id)->0].completed_at == Some(t)
            &&& !open_txn(after, id)
        }),
{
    let i = find_txn(log.transactions, id)->0;
    lemma_find_from(log.transactions, id, 0);
    let after = close_spec(log, id, status, t).0;
    lemma_find_unique(log.transactions, i);
    assert forall|a: int, b: int| 0 <= a < b < after.transactions.len() implies #[trigger] after.transactions[a].id
        != #[trigger] after.transactions[b].id by {
        assert(log.transactions[a].id != log.transactions[b].id);
    }
    assert(after.transactions[i].id == id);
    lemma_find_unique(after.transactions, i);
}

/// After a rollback no operation of the transaction is pending or running, and
/// the others keep their status.
pub proof fn law_rollback_settles_ops(log: LogView, id: Seq<char>, t: Timestamp)
    requires
        open_txn(log, id),
    ensures
        ({
            let i = find_txn(log.transactions, id)->0;
            let after = rollback_spec(log, id, t).0;
            let ops = after.transactions[i].operations;
            &&& after.transactions[i].status is RolledBack
            &&& ops.len() == log.transactions[i].operations.len()
            &&& forall|k: int|
                0 <= k < ops.len() ==> #[trigger] ops[k].status != TransactionOpStatus::Pending
                    && ops[k].status != TransactionOpStatus::InProgress
            &&& forall|k: int|
                0 <= k < ops.len() && log.transactions[i].operations[k].status
                    != TransactionOpStatus::Pending && log.transactions[i].operations[k].status
                    != TransactionOpStatus::InProgress ==> #[trigger] ops[k]
                    == log.transactions[i].operations[k]
        }),
{
    lemma_find_from(log.transactions, id, 0);
}

/// What is replayed is what is read back: after replaying a transaction, the
/// log finds exactly that transaction under its id.
pub proof fn law_recover_then_get(log: LogView, t: TxnView)
    requires
        log_wf(log),
    ensures
        ({
            let after = recover_spec(log, t);
            find_txn(after.transactions, t.id) matches Some(k) && after.transactions[k] == t
        }),
{
    let after = recover_spec(log, t);
    lemma_find_from(log.transactions, t.id, 0);
    match find_txn(log.transactions, t.id) {
        Some(i) => {
            lemma_find_unique(log.transactions, i);
            assert forall|a: int, b: int| 0 <= a < b < after.transactions.len() implies #[trigger] after.transactions[a].id
                != #[trigger] after.transactions[b].id by {
                assert(log.transactions[a].id != log.transactions[b].id);
            }
            lemma_find_unique(after.transactions, i);
        },
        None => {
            let k = log.transactions.len() as int;
            assert forall|a: int, b: int| 0 <= a < b < after.transactions.len() implies #[trigger] after.transactions[a].id
                != #[trigger] after.transactions[b].id by {
                if b < k {
                    assert(log.transactions[a].id != log.transactions[b].id);
                } else {
                    assert(log.transactions[a].id != t.id);
                }
            }
            lemma_find_unique(after.transactions, k);
        },
    }
}

/// Replaying the same transaction twice leaves the log as replaying it once.
pub proof fn law_recover_idempotent(log: LogView, t: TxnView)
    requires
        log_wf(log),
    ensures
        recover_spec(recover_spec(log, t), t) == recover_spec(log, t),
{
    let once = recover_spec(log, t);
    law_recover_then_get(log, t);
    assert(find_txn(once.transactions, t.id) is Some);
    let k = find_txn(once.transactions, t.id)->0;
    assert(once.transactions[k] == t);
    lemma_find_from(once.transactions, t.id, 0);
    assert(once.transactions.update(k, t) =~= once.transactions);
}

} // verus!

verus! {

/// Replaying transactions one after another, oldest first.
pub open spec fn replay(log: LogView, ts: Seq<TxnView>) -> LogView
    decreases ts.len(),
{
    if ts.len() == 0 {
        log
    } else {
        recover_spec(replay(log, ts.drop_last()), ts.last())
    }
}

/// Replaying keeps a log well formed.
pub proof fn lemma_recover_wf(log: LogView, t: TxnView)
    requires
        log_wf(log),
    ensures
        log_wf(recover_spec(log, t)),
{
    let after = recover_spec(log, t);
    lemma_find_from(log.transactions, t.id, 0);
    let txns = after.transactions;
    assert forall|a: int, b: int| 0 <= a < b < txns.len() implies #[trigger] txns[a].id
        != #[trigger] txns[b].id by {
        if a < log.transactions.len() && b < log.transactions.len() {
            if txns[a].id == t.id || txns[b].id == t.id {
            } else {
                assert(txns[a] == log.transactions[a]);
                assert(txns[b] == log.transactions[b]);
            }
        }
    }
    assert forall|a: int| 0 <= a < txns.len() implies match txn_number(#[trigger] txns[a].id) {
        Some(m) => m <= after.next_id,
        None => true,
    } by {
        if txns[a].id != t.id {
            assert(txns[a] == log.transactions[a]);
        }
    }
}

/// Reading back a log file whose transactions have distinct ids gives exactly
/// those transactions, in order, in a well-formed log.
pub proof fn law_replay_distinct(ts: Seq<TxnView>)
    requires
        forall|i: int, j: int| 0 <= i < j < ts.len() ==> #[trigger] ts[i].id != #[trigger] ts[j].id,
    ensures
        replay(empty_log(), ts).transactions == ts,
        log_wf(replay(empty_log(), ts)),
    decreases ts.len(),
{
    if ts.len() == 0 {
        assert(empty_log().transactions =~= ts);
    } else {
        let prev = ts.drop_last();
        assert forall|i: int, j: int| 0 <= i < j < prev.len() implies #[trigger] prev[i].id
            != #[trigger] prev[j].id by {
            assert(ts[i].id != ts[j].id);
        }
        law_replay_distinct(prev);
        let before = replay(empty_log(), prev);
        lemma_find_from(before.transactions, ts.last().id, 0);
        assert forall|j: int| 0 <= j < before.transactions.len() implies before.transactions[j].id
            != ts.last().id by {
            assert(before.transactions[j] == ts[j]);
            assert(ts[j].id != ts[ts.len() - 1].id);
        }
        lemma_recover_wf(before, ts.last());
        assert(replay(empty_log(), ts).transactions =~= ts);
    }
}

} // verus!
