//! Transactional staging apply and durable checkpoint advancement.

pub mod meaning;
pub mod plan;
pub mod row;
pub mod validation;

use crate::apply::plan::ApplyPlan;
use crate::apply::row::StagingRow;
use crate::checkpoint::{AdvanceOutcome, CheckpointError, NodeCheckpoint, PipelineFence};
use crate::chunk::{
    ledger_reports, ChunkLedgerError, DataChunkIdentity, PrepareDataChunkOutcome,
    ProgressRegistration, TransactionChunkManifest,
};
use crate::copy::CopyEncodeError;
use crate::lsn::PgLsn;
use crate::managed::{ManagedTableError, TableApplyIdentity};
use crate::text::{decimal, render_decimal, same_text};
use std::sync::Arc;
use vstd::prelude::*;

verus! {

/// Why a batch cannot be applied.
#[allow(inconsistent_fields)]
#[derive(Debug, PartialEq, Eq)]
pub enum ApplyError {
    Checkpoint(CheckpointError),
    ChunkLedger(ChunkLedgerError),
    Copy(CopyEncodeError),
    ManagedTable(ManagedTableError),
    InvalidRowArity { expected: usize, actual: usize },
    /// A primary-key column is NULL or unchanged.
    MissingPrimaryKey(String),
    InvalidOldKeyArity { expected: usize, actual: usize },
    /// A move row is missing its old primary key.
    MissingOldPrimaryKey,
    /// Only move rows may carry an old primary key.
    UnexpectedOldPrimaryKey,
    /// An old primary-key column is NULL or unchanged.
    MissingOldPrimaryKeyColumn(String),
    /// A staging name is repeated in one target transaction.
    DuplicateStagingName(String),
    IdentityTargetMismatch { identity: String, plan: String },
    /// Cloudberry rejected an invalid or non-collapsed staging batch.
    InvalidBatch(String),
    /// An empty transaction apply received a manifest with records.
    NonEmptyManifest { record_count: u64 },
}

/// One table's part of a target transaction.
#[derive(Debug, Clone)]
pub struct TableApplyBatch {
    pub identity: Arc<TableApplyIdentity>,
    pub plan: Arc<ApplyPlan>,
    pub rows: Vec<StagingRow>,
}

#[derive(Debug, Clone)]
pub struct ApplyRequest {
    pub fence: PipelineFence,
    pub checkpoint: NodeCheckpoint,
    pub tables: Vec<TableApplyBatch>,
}

/// One bounded part of an immutable source transaction.
#[derive(Debug, Clone)]
pub struct LedgeredDataChunkRequest {
    pub fence: PipelineFence,
    pub manifest: TransactionChunkManifest,
    pub chunk: DataChunkIdentity,
    pub tables: Vec<TableApplyBatch>,
}

#[derive(Debug, Clone, Copy, PartialEq, Eq, Structural)]
pub struct ApplyStats {
    pub staged_rows: u64,
    pub deleted_rows: u64,
    pub moved_rows: u64,
    pub updated_rows: u64,
    pub inserted_rows: u64,
}

impl Default for ApplyStats {
    fn default() -> (r: Self)
        ensures
            r == (ApplyStats {
                staged_rows: 0,
                deleted_rows: 0,
                moved_rows: 0,
                updated_rows: 0,
                inserted_rows: 0,
            }),
    {
        ApplyStats {
            staged_rows: 0,
            deleted_rows: 0,
            moved_rows: 0,
            updated_rows: 0,
            inserted_rows: 0,
        }
    }
}

/// How one requested data chunk related to the durable target prefix.
#[derive(Debug, Clone, Copy, PartialEq, Eq, Structural)]
pub enum DataChunkDisposition {
    Applied { stats: ApplyStats },
    AlreadyCommitted,
    ResumeAt,
}

/// Result of one bounded target transaction.
///
/// `InProgress` always names a prefix before the manifest end. `Completed` is returned only after
/// the checkpoint and ledger retirement committed with the final chunk (or a replay that found an
/// already complete durable prefix).
#[allow(inconsistent_fields)]
#[derive(Debug, Clone, Copy, PartialEq, Eq, Structural)]
pub enum LedgeredDataChunkOutcome {
    InProgress { next_seq: u64, disposition: DataChunkDisposition },
    Completed { next_seq: u64, disposition: DataChunkDisposition, checkpoint: AdvanceOutcome },
    /// The target checkpoint already covers this transaction and no DML ran.
    AlreadyCheckpointed { applied_lsn: PgLsn },
}

#[derive(Debug, Clone, Copy, PartialEq, Eq, Structural)]
pub enum LedgeredEmptyTransactionOutcome {
    Completed { checkpoint: AdvanceOutcome },
    AlreadyCheckpointed { applied_lsn: PgLsn },
}

#[derive(Debug, Clone, Copy, PartialEq, Eq, Structural)]
pub struct ApplyOutcome {
    pub staged_rows: u64,
    pub deleted_rows: u64,
    pub moved_rows: u64,
    pub updated_rows: u64,
    pub inserted_rows: u64,
    pub checkpoint: AdvanceOutcome,
}

impl ApplyOutcome {
    pub fn new(stats: ApplyStats, checkpoint: AdvanceOutcome) -> (r: Self)
        ensures
            r == (ApplyOutcome {
                staged_rows: stats.staged_rows,
                deleted_rows: stats.deleted_rows,
                moved_rows: stats.moved_rows,
                updated_rows: stats.updated_rows,
                inserted_rows: stats.inserted_rows,
                checkpoint,
            }),
    {
        ApplyOutcome {
            staged_rows: stats.staged_rows,
            deleted_rows: stats.deleted_rows,
            moved_rows: stats.moved_rows,
            updated_rows: stats.updated_rows,
            inserted_rows: stats.inserted_rows,
            checkpoint,
        }
    }
}

// ---------------------------------------------------------------------------------------------
// Requests
// ---------------------------------------------------------------------------------------------

/// The batch names another table than its plan.
pub open spec fn targets_differ(batch: TableApplyBatch) -> bool {
    batch.identity.target@ != batch.plan.table.target@
}

/// An earlier batch uses the same staging name.
pub open spec fn staging_repeated(tables: Seq<TableApplyBatch>, at: int) -> bool {
    exists|k: int|
        0 <= k < at && (#[trigger] tables[k]).plan.staging_name@ == tables[at].plan.staging_name@
}

/// The batch at this position cannot be applied beside those before it.
pub open spec fn batch_faulty(tables: Seq<TableApplyBatch>, at: int) -> bool {
    targets_differ(tables[at]) || staging_repeated(tables, at)
}

/// The error tells what is wrong with the batch at this position.
pub open spec fn refuses_batch(e: ApplyError, tables: Seq<TableApplyBatch>, at: int) -> bool {
    if targets_differ(tables[at]) {
        e matches ApplyError::IdentityTargetMismatch { identity, plan } && identity@
            == tables[at].identity.target@.text() && plan@
            == tables[at].plan.table.target@.text()
    } else {
        e matches ApplyError::DuplicateStagingName(name) && name@
            == tables[at].plan.staging_name@
    }
}

/// The first position of a batch that cannot be applied.
pub open spec fn is_first_faulty(tables: Seq<TableApplyBatch>, at: int) -> bool {
    &&& 0 <= at < tables.len()
    &&& batch_faulty(tables, at)
    &&& forall|k: int| 0 <= k < at ==> !#[trigger] batch_faulty(tables, k)
}

fn staging_name_repeated(tables: &[TableApplyBatch], at: usize) -> (r: bool)
    requires
        at < tables.len(),
    ensures
        r == staging_repeated(tables@, at as int),
{
    let mut k: usize = 0;
    while k < at
        invariant
            k <= at < tables.len(),
            forall|j: int|
                0 <= j < k ==> (#[trigger] tables@[j]).plan.staging_name@
                    != tables@[at as int].plan.staging_name@,
        decreases at - k,
    {
        if same_text(tables[k].plan.staging_name.as_str(), tables[at].plan.staging_name.as_str()) {
            return true;
        }
        k = k + 1;
    }
    false
}

/// Every batch must name the table of its plan, and no staging name may occur twice.
pub fn validate_tables(tables: &[TableApplyBatch]) -> (r: Result<(), ApplyError>)
    ensures
        match r {
            Ok(()) => forall|i: int|
                0 <= i < tables@.len() ==> !#[trigger] batch_faulty(tables@, i),
            Err(e) => exists|i: int| #[trigger]
                is_first_faulty(tables@, i) && refuses_batch(e, tables@, i),
        },
{
    let mut i: usize = 0;
    while i < tables.len()
        invariant
            i <= tables.len(),
            forall|k: int| 0 <= k < i ==> !#[trigger] batch_faulty(tables@, k),
        decreases tables.len() - i,
    {
        let table = &tables[i];
        if !table.identity.target.same(&table.plan.table.target) {
            proof {
                assert(is_first_faulty(tables@, i as int));
            }
            return Err(
                ApplyError::IdentityTargetMismatch {
                    identity: table.identity.target.display(),
                    plan: table.plan.table.target.display(),
                },
            );
        }
        if staging_name_repeated(tables, i) {
            proof {
                assert(is_first_faulty(tables@, i as int));
            }
            return Err(ApplyError::DuplicateStagingName(table.plan.staging_name.clone()));
        }
        i = i + 1;
    }
    Ok(())
}

/// The identities of the batches that hold rows, in order.
pub open spec fn active_identities(tables: Seq<TableApplyBatch>) -> Seq<TableApplyIdentity>
    decreases tables.len(),
{
    if tables.len() == 0 {
        Seq::empty()
    } else if tables.last().rows@.len() == 0 {
        active_identities(tables.drop_last())
    } else {
        active_identities(tables.drop_last()).push(*tables.last().identity)
    }
}

/// The tables that a transaction has to lock.
pub fn table_identities(tables: &[TableApplyBatch]) -> (r: Vec<&TableApplyIdentity>)
    ensures
        Seq::new(r@.len(), |i: int| *r@[i]) == active_identities(tables@),
{
    let mut out: Vec<&TableApplyIdentity> = Vec::new();
    let mut i: usize = 0;
    proof {
        assert(Seq::new(out@.len(), |k: int| *out@[k]) =~= active_identities(tables@.take(0)));
    }
    while i < tables.len()
        invariant
            i <= tables.len(),
            Seq::new(out@.len(), |k: int| *out@[k]) == active_identities(tables@.take(i as int)),
        decreases tables.len() - i,
    {
        let ghost before = Seq::new(out@.len(), |k: int| *out@[k]);
        proof {
            assert(tables@.take(i + 1).drop_last() =~= tables@.take(i as int));
        }
        if tables[i].rows.len() > 0 {
            out.push(&tables[i].identity);
            proof {
                assert(Seq::new(out@.len(), |k: int| *out@[k]) =~= before.push(
                    *tables@[i as int].identity,
                ));
            }
        }
        i = i + 1;
    }
    proof {
        assert(tables@.take(i as int) =~= tables@);
    }
    out
}

// ---------------------------------------------------------------------------------------------
// Executing one table batch
// ---------------------------------------------------------------------------------------------

/// The statements that turn validated staging rows into target rows.
#[derive(Debug, Clone, Copy, PartialEq, Eq, Structural)]
pub enum ApplyStatement {
    MaterializeMoves,
    Delete,
    DeleteMoved,
    Move,
    Update,
    Insert,
}

/// The statement kinds and texts of a plan, in execution order.
pub open spec fn statements_model(plan: ApplyPlan) -> Seq<(ApplyStatement, Seq<char>)> {
    let materialize = match plan.materialize_moves_sql {
        Some(sql) => seq![(ApplyStatement::MaterializeMoves, sql@)],
        None => Seq::empty(),
    };
    let update = match plan.update_sql {
        Some(sql) => seq![(ApplyStatement::Update, sql@)],
        None => Seq::empty(),
    };
    materialize + seq![
        (ApplyStatement::Delete, plan.delete_sql@),
        (ApplyStatement::DeleteMoved, plan.delete_moved_sql@),
        (ApplyStatement::Move, plan.move_sql@),
    ] + update + seq![(ApplyStatement::Insert, plan.insert_sql@)]
}

/// The kinds and texts of a list of statements.
pub open spec fn statement_texts(list: Seq<(ApplyStatement, &str)>) -> Seq<
    (ApplyStatement, Seq<char>),
> {
    Seq::new(list.len(), |i: int| (list[i].0, list[i].1@))
}

/// The statements to run once a staging batch is valid, in order.
pub fn apply_statements(plan: &ApplyPlan) -> (r: Vec<(ApplyStatement, &str)>)
    ensures
        statement_texts(r@) == statements_model(*plan),
{
    let mut out: Vec<(ApplyStatement, &str)> = Vec::new();
    match &plan.materialize_moves_sql {
        Some(sql) => out.push((ApplyStatement::MaterializeMoves, sql.as_str())),
        None => {},
    }
    out.push((ApplyStatement::Delete, plan.delete_sql.as_str()));
    out.push((ApplyStatement::DeleteMoved, plan.delete_moved_sql.as_str()));
    out.push((ApplyStatement::Move, plan.move_sql.as_str()));
    match &plan.update_sql {
        Some(sql) => out.push((ApplyStatement::Update, sql.as_str())),
        None => {},
    }
    out.push((ApplyStatement::Insert, plan.insert_sql.as_str()));
    proof {
        assert(statement_texts(out@) =~= statements_model(*plan));
    }
    out
}

/// The larger of a sum and the counter's bound.
pub open spec fn saturated(a: u64, b: u64) -> u64 {
    if a + b > u64::MAX {
        u64::MAX
    } else {
        (a + b) as u64
    }
}

impl ApplyStats {
    /// Counts copied staging rows.
    pub fn count_staged(self, rows: u64) -> (r: Self)
        ensures
            r == (ApplyStats { staged_rows: saturated(self.staged_rows, rows), ..self }),
    {
        ApplyStats { staged_rows: self.staged_rows.saturating_add(rows), ..self }
    }

    pub open spec fn counted(self, statement: ApplyStatement, rows: u64) -> Self {
        match statement {
            ApplyStatement::MaterializeMoves => self,
            ApplyStatement::Delete | ApplyStatement::DeleteMoved => ApplyStats {
                deleted_rows: saturated(self.deleted_rows, rows),
                ..self
            },
            ApplyStatement::Move => ApplyStats {
                moved_rows: saturated(self.moved_rows, rows),
                ..self
            },
            ApplyStatement::Update => ApplyStats {
                updated_rows: saturated(self.updated_rows, rows),
                ..self
            },
            ApplyStatement::Insert => ApplyStats {
                inserted_rows: saturated(self.inserted_rows, rows),
                ..self
            },
        }
    }

    /// Counts the rows that a statement changed.
    pub fn count(self, statement: ApplyStatement, rows: u64) -> (r: Self)
        ensures
            r == self.counted(statement, rows),
    {
        match statement {
            ApplyStatement::MaterializeMoves => self,
            ApplyStatement::Delete | ApplyStatement::DeleteMoved => ApplyStats {
                deleted_rows: self.deleted_rows.saturating_add(rows),
                ..self
            },
            ApplyStatement::Move => ApplyStats {
                moved_rows: self.moved_rows.saturating_add(rows),
                ..self
            },
            ApplyStatement::Update => ApplyStats {
                updated_rows: self.updated_rows.saturating_add(rows),
                ..self
            },
            ApplyStatement::Insert => ApplyStats {
                inserted_rows: self.inserted_rows.saturating_add(rows),
                ..self
            },
        }
    }
}

/// A batch that the target's own validation rejects is not applied.
pub fn check_validation(plan: &ApplyPlan, invalid: bool) -> (r: Result<(), ApplyError>)
    ensures
        match r {
            Ok(()) => !invalid,
            Err(e) => invalid && (e matches ApplyError::InvalidBatch(table) && table@
                == plan.table.target@.text()),
        },
{
    if invalid {
        Err(ApplyError::InvalidBatch(plan.table.target.display()))
    } else {
        Ok(())
    }
}

// ---------------------------------------------------------------------------------------------
// Executing one ledgered chunk
// ---------------------------------------------------------------------------------------------

/// What to do with a chunk whose ledger is locked.
#[derive(Debug, Clone, Copy, PartialEq, Eq, Structural)]
pub enum ChunkAction {
    /// Lock the tables, record the receipt and apply the batches.
    Apply { next_seq: u64 },
    /// Apply nothing; finish with the durable position.
    Finish { next_seq: u64, disposition: DataChunkDisposition },
    /// Roll back; the checkpoint covers the transaction.
    Retired { applied_lsn: PgLsn },
}

/// Decides whether the supplied batches run at all.
///
/// Replays and repartitioned requests return the durable resume position without executing the
/// supplied table batches.
pub fn chunk_action(prepared: &PrepareDataChunkOutcome) -> (r: ChunkAction)
    ensures
        r == match *prepared {
            PrepareDataChunkOutcome::Apply(chunk) => ChunkAction::Apply {
                next_seq: chunk.prepared_chunk().end_seq,
            },
            PrepareDataChunkOutcome::AlreadyCommitted { next_seq } => ChunkAction::Finish {
                next_seq,
                disposition: DataChunkDisposition::AlreadyCommitted,
            },
            PrepareDataChunkOutcome::ResumeAt { next_seq } => ChunkAction::Finish {
                next_seq,
                disposition: DataChunkDisposition::ResumeAt,
            },
            PrepareDataChunkOutcome::AlreadyCheckpointed { applied_lsn } => ChunkAction::Retired {
                applied_lsn,
            },
        },
{
    match prepared {
        PrepareDataChunkOutcome::Apply(chunk) => ChunkAction::Apply { next_seq: chunk.next_seq() },
        PrepareDataChunkOutcome::AlreadyCommitted { next_seq } => ChunkAction::Finish {
            next_seq: *next_seq,
            disposition: DataChunkDisposition::AlreadyCommitted,
        },
        PrepareDataChunkOutcome::ResumeAt { next_seq } => ChunkAction::Finish {
            next_seq: *next_seq,
            disposition: DataChunkDisposition::ResumeAt,
        },
        PrepareDataChunkOutcome::AlreadyCheckpointed { applied_lsn } => ChunkAction::Retired {
            applied_lsn: *applied_lsn,
        },
    }
}

/// How a chunk transaction ends.
#[derive(Debug, Clone, Copy, PartialEq, Eq, Structural)]
pub enum FinishAction {
    /// Publish the checkpoint, retire the ledger and commit.
    Complete,
    /// Commit the applied chunk.
    Commit,
    /// Nothing changed; roll back.
    Rollback,
}

/// Decides how a chunk transaction ends, given the durable position that it reached.
pub fn finish_action(next_seq: u64, record_count: u64, disposition: DataChunkDisposition) -> (r: Result<
    FinishAction,
    ApplyError,
>)
    ensures
        match r {
            Ok(FinishAction::Complete) => next_seq == record_count,
            Ok(FinishAction::Commit) => next_seq < record_count && disposition is Applied,
            Ok(FinishAction::Rollback) => next_seq < record_count && !(disposition is Applied),
            Err(e) => next_seq > record_count && (e matches ApplyError::ChunkLedger(inner)
                && ledger_reports(inner, Some(("next_seq", decimal(next_seq as nat))))),
        },
{
    if next_seq > record_count {
        return Err(
            ApplyError::ChunkLedger(
                ChunkLedgerError::InvalidPersistedValue {
                    field: "next_seq",
                    value: render_decimal(next_seq),
                },
            ),
        );
    }
    if next_seq == record_count {
        return Ok(FinishAction::Complete);
    }
    match disposition {
        DataChunkDisposition::Applied { .. } => Ok(FinishAction::Commit),
        _ => Ok(FinishAction::Rollback),
    }
}

/// What to do with an empty transaction whose progress is registered.
#[derive(Debug, Clone, Copy, PartialEq, Eq, Structural)]
pub enum EmptyAction {
    /// Publish the checkpoint, retire the ledger and commit.
    Complete,
    /// Roll back; the checkpoint covers the transaction.
    Retired { applied_lsn: PgLsn },
}

/// The empty path takes manifests without records only.
pub fn check_empty(manifest: &TransactionChunkManifest) -> (r: Result<(), ApplyError>)
    ensures
        match r {
            Ok(()) => manifest.record_count == 0,
            Err(e) => manifest.record_count != 0 && e == (ApplyError::NonEmptyManifest {
                record_count: manifest.record_count,
            }),
        },
{
    if manifest.record_count != 0 {
        Err(ApplyError::NonEmptyManifest { record_count: manifest.record_count })
    } else {
        Ok(())
    }
}

/// Decides how an empty transaction goes on after registration.
pub fn empty_action(registration: ProgressRegistration) -> (r: Result<EmptyAction, ApplyError>)
    ensures
        match (r, registration) {
            (
                Ok(EmptyAction::Retired { applied_lsn: a }),
                ProgressRegistration::AlreadyCheckpointed { applied_lsn: b },
            ) => a == b,
            (Ok(EmptyAction::Complete), ProgressRegistration::Registered) => true,
            (Ok(EmptyAction::Complete), ProgressRegistration::Existing { next_seq }) => next_seq
                == 0,
            (Err(e), ProgressRegistration::Existing { next_seq }) => next_seq != 0 && (
            e matches ApplyError::ChunkLedger(inner) && ledger_reports(
                inner,
                Some(("next_seq", decimal(next_seq as nat))),
            )),
            _ => false,
        },
{
    match registration {
        ProgressRegistration::AlreadyCheckpointed { applied_lsn } => Ok(
            EmptyAction::Retired { applied_lsn },
        ),
        ProgressRegistration::Registered => Ok(EmptyAction::Complete),
        ProgressRegistration::Existing { next_seq } => {
            if next_seq == 0 {
                Ok(EmptyAction::Complete)
            } else {
                Err(
                    ApplyError::ChunkLedger(
                        ChunkLedgerError::InvalidPersistedValue {
                            field: "next_seq",
                            value: render_decimal(next_seq),
                        },
                    ),
                )
            }
        },
    }
}

// ---------------------------------------------------------------------------------------------
// Laws
// ---------------------------------------------------------------------------------------------

/// Moves take their unsent values from the target before any row leaves it, and old keys are
/// released before new ones are written: the statements of a plan stand in this order.
pub proof fn law_statement_order(plan: ApplyPlan, i: int, j: int)
    requires
        0 <= i < statements_model(plan).len(),
        0 <= j < statements_model(plan).len(),
    ensures
        ({
            let list = statements_model(plan);
            let a = list[i].0;
            let b = list[j].0;
            &&& a == ApplyStatement::MaterializeMoves && b != ApplyStatement::MaterializeMoves
                ==> i < j
            &&& (a == ApplyStatement::Delete || a == ApplyStatement::DeleteMoved) && (b
                == ApplyStatement::Move || b == ApplyStatement::Update || b
                == ApplyStatement::Insert) ==> i < j
            &&& a == ApplyStatement::Update && b == ApplyStatement::Insert ==> i < j
            &&& a == b ==> i == j
        }),
{
}

/// A chunk transaction publishes the checkpoint exactly when the whole manifest is durable.
pub proof fn law_checkpoint_needs_the_whole_manifest(
    next_seq: u64,
    record_count: u64,
    disposition: DataChunkDisposition,
    r: Result<FinishAction, ApplyError>,
)
    requires
        call_ensures(finish_action, (next_seq, record_count, disposition), r),
    ensures
        r == Ok::<FinishAction, ApplyError>(FinishAction::Complete) <==> next_seq == record_count,
{
}

/// The statements of a plan, one after the other; the two that change data columns are left out
/// where the table has none.
pub proof fn law_statements_of_a_plan(plan: ApplyPlan)
    ensures
        ({
            let list = statements_model(plan);
            let middle = seq![
                (ApplyStatement::Delete, plan.delete_sql@),
                (ApplyStatement::DeleteMoved, plan.delete_moved_sql@),
                (ApplyStatement::Move, plan.move_sql@),
            ];
            &&& plan.materialize_moves_sql is None && plan.update_sql is None ==> list == middle
                + seq![(ApplyStatement::Insert, plan.insert_sql@)]
            &&& plan.materialize_moves_sql is Some && plan.update_sql is Some ==> list == seq![
                (ApplyStatement::MaterializeMoves, plan.materialize_moves_sql->0@),
            ] + middle + seq![
                (ApplyStatement::Update, plan.update_sql->0@),
                (ApplyStatement::Insert, plan.insert_sql@),
            ]
        }),
{
    let list = statements_model(plan);
    let middle = seq![
        (ApplyStatement::Delete, plan.delete_sql@),
        (ApplyStatement::DeleteMoved, plan.delete_moved_sql@),
        (ApplyStatement::Move, plan.move_sql@),
    ];
    if plan.materialize_moves_sql is None && plan.update_sql is None {
        assert(list =~= middle + seq![(ApplyStatement::Insert, plan.insert_sql@)]);
    }
    if plan.materialize_moves_sql is Some && plan.update_sql is Some {
        assert(list =~= seq![
            (ApplyStatement::MaterializeMoves, plan.materialize_moves_sql->0@),
        ] + middle + seq![
            (ApplyStatement::Update, plan.update_sql->0@),
            (ApplyStatement::Insert, plan.insert_sql@),
        ]);
    }
}

/// A batch can be applied beside those before it exactly where it names the table of its plan and
/// none of them uses its staging name.
pub proof fn law_which_batches_are_applied(tables: Seq<TableApplyBatch>, at: int)
    ensures
        !batch_faulty(tables, at) <==> {
            &&& tables[at].identity.target@ == tables[at].plan.table.target@
            &&& forall|k: int|
                0 <= k < at ==> (#[trigger] tables[k]).plan.staging_name@
                    != tables[at].plan.staging_name@
        },
{
}

/// The tables that a transaction touches are those of its batches with rows, in their order.
pub proof fn law_which_tables_are_touched(tables: Seq<TableApplyBatch>, next: TableApplyBatch)
    ensures
        active_identities(Seq::empty()).len() == 0,
        next.rows@.len() > 0 ==> active_identities(tables.push(next)) == active_identities(
            tables,
        ).push(*next.identity),
        next.rows@.len() == 0 ==> active_identities(tables.push(next)) == active_identities(tables),
{
    assert(tables.push(next).drop_last() =~= tables);
}

/// Each statement's rows count for what it does, up to the largest number; completing moves counts
/// for nothing.
pub proof fn law_what_is_counted(stats: ApplyStats, statement: ApplyStatement, rows: u64)
    ensures
        ({
            let after = stats.counted(statement, rows);
            let bound = u64::MAX as int;
            let total = |before: u64, counts: bool|
                if counts && before + rows > bound {
                    bound
                } else if counts {
                    before + rows
                } else {
                    before as int
                };
            &&& after.staged_rows == stats.staged_rows
            &&& after.deleted_rows == total(
                stats.deleted_rows,
                statement is Delete || statement is DeleteMoved,
            )
            &&& after.moved_rows == total(stats.moved_rows, statement is Move)
            &&& after.updated_rows == total(stats.updated_rows, statement is Update)
            &&& after.inserted_rows == total(stats.inserted_rows, statement is Insert)
        }),
{
}

/// A chunk that is applied ends at its own end, one that was committed before or was cut
/// differently is finished at the durable position, and one behind the checkpoint is retired.
pub proof fn law_what_becomes_of_a_chunk(prepared: PrepareDataChunkOutcome, action: ChunkAction)
    requires
        call_ensures(chunk_action, (&prepared,), action),
    ensures
        prepared matches PrepareDataChunkOutcome::Apply(chunk) ==> action == (ChunkAction::Apply {
            next_seq: chunk.prepared_chunk().end_seq,
        }),
        prepared matches PrepareDataChunkOutcome::AlreadyCommitted { next_seq } ==> action == (
        ChunkAction::Finish { next_seq, disposition: DataChunkDisposition::AlreadyCommitted }),
        prepared matches PrepareDataChunkOutcome::ResumeAt { next_seq } ==> action == (
        ChunkAction::Finish { next_seq, disposition: DataChunkDisposition::ResumeAt }),
        prepared matches PrepareDataChunkOutcome::AlreadyCheckpointed { applied_lsn } ==> action == (
        ChunkAction::Retired { applied_lsn }),
{
}

/// A chunk transaction is committed where it applied something and more is to come, rolled back
/// where it applied nothing, and refused where the position lies behind the last record.
pub proof fn law_how_a_chunk_transaction_ends(
    next_seq: u64,
    record_count: u64,
    disposition: DataChunkDisposition,
    r: Result<FinishAction, ApplyError>,
)
    requires
        call_ensures(finish_action, (next_seq, record_count, disposition), r),
    ensures
        next_seq < record_count && disposition is Applied ==> r == Ok::<FinishAction, ApplyError>(
            FinishAction::Commit,
        ),
        next_seq < record_count && !(disposition is Applied) ==> r == Ok::<
            FinishAction,
            ApplyError,
        >(FinishAction::Rollback),
        next_seq > record_count ==> r is Err,
{
}

/// A transaction without records publishes its checkpoint once it is registered, unless the
/// checkpoint covers it already; records that were committed for it are refused.
pub proof fn law_how_an_empty_transaction_ends(
    registration: ProgressRegistration,
    r: Result<EmptyAction, ApplyError>,
)
    requires
        call_ensures(empty_action, (registration,), r),
    ensures
        registration is Registered ==> r == Ok::<EmptyAction, ApplyError>(EmptyAction::Complete),
        registration matches ProgressRegistration::Existing { next_seq } ==> (next_seq == 0 <==> r
            == Ok::<EmptyAction, ApplyError>(EmptyAction::Complete)) && (next_seq > 0 <==> r is Err),
        registration matches ProgressRegistration::AlreadyCheckpointed { applied_lsn } ==> r == Ok::<
            EmptyAction,
            ApplyError,
        >(EmptyAction::Retired { applied_lsn }),
{
}

/// Only manifests without records are taken as empty, and only a valid batch is applied.
pub proof fn law_what_is_refused_before_applying(
    manifest: TransactionChunkManifest,
    empty: Result<(), ApplyError>,
    plan: ApplyPlan,
    invalid: bool,
    valid: Result<(), ApplyError>,
)
    requires
        call_ensures(check_empty, (&manifest,), empty),
        call_ensures(check_validation, (&plan, invalid), valid),
    ensures
        empty is Ok <==> manifest.record_count == 0,
        valid is Ok <==> !invalid,
{
}

/// What is told of batches that are refused is so: a batch names another target than its plan, or a
/// staging table that an earlier one has.
pub proof fn law_refused_batches(tables: &[TableApplyBatch], r: Result<(), ApplyError>)
    requires
        call_ensures(validate_tables, (tables,), r),
    ensures
        r matches Err(e) ==> exists|i: int|
            {
                &&& 0 <= i < tables@.len()
                &&& {
                    ||| (e matches ApplyError::IdentityTargetMismatch { identity, plan } && identity@
                        == (#[trigger] tables@[i]).identity.target@.text() && plan@
                        == tables@[i].plan.table.target@.text() && tables@[i].identity.target@
                        != tables@[i].plan.table.target@)
                    ||| (e matches ApplyError::DuplicateStagingName(name) && name@
                        == tables@[i].plan.staging_name@ && exists|k: int|
                        0 <= k < i && (#[trigger] tables@[k]).plan.staging_name@ == name@)
                }
            },
        r is Ok ==> forall|i: int|
            0 <= i < tables@.len() ==> (#[trigger] tables@[i]).identity.target@
                == tables@[i].plan.table.target@,
        r is Ok ==> forall|i: int, k: int|
            0 <= k < i < tables@.len() ==> (#[trigger] tables@[k]).plan.staging_name@ != (
            #[trigger] tables@[i]).plan.staging_name@,
{
    if r is Ok {
        assert forall|i: int| 0 <= i < tables@.len() implies (#[trigger] tables@[i]).identity.target@
            == tables@[i].plan.table.target@ by {
            assert(!batch_faulty(tables@, i));
        }
        assert forall|i: int, k: int| 0 <= k < i < tables@.len() implies (
        #[trigger] tables@[k]).plan.staging_name@ != (#[trigger] tables@[i]).plan.staging_name@ by {
            assert(!batch_faulty(tables@, i));
        }
    } else {
        let i = choose|i: int| #[trigger]
            is_first_faulty(tables@, i) && refuses_batch(r->Err_0, tables@, i);
        assert(batch_faulty(tables@, i));
        assert(tables@[i].plan.staging_name@ == tables@[i].plan.staging_name@);
    }
}

} // verus!
