//! Durable target-side state for whole-table reconciliation.
//!
//! One row is retained per `(pipeline, topology generation, source relation)`. The ledger records
//! run boundaries and final aggregate digests only; page-level progress intentionally remains
//! ephemeral so a restart repeats a read-only scan instead of trying to resume an invalid source
//! snapshot. Every mutation locks the pipeline fence before locking or writing this table.

use crate::checkpoint::{CheckpointError, NodeCheckpoint, PersistedFault, PipelineFence};
use crate::ident::{PipelineId, Uuid};
use crate::lsn::{law_lsn_reads_back, parsed_lsn, PgLsn};
use crate::snapshot::types::same_octets;
use crate::snapshot::{
    identity_matches, is_group, refuses_fence, refuses_owner, validate_managed_fence,
    validate_managed_identity, ManagedTableRecord, ManagedTableState, RelationState,
    SnapshotActivationDisposition, SnapshotActivationOutcome, SnapshotActivationRequest,
    SnapshotActivationTable, SnapshotTargetError,
};
use crate::source::{NameView, QualifiedName, POSTGRES_IDENTIFIER_MAX_BYTES};
use crate::text::{
    characters, contains_char, decimal, law_decimal_reads_back, parse_u64, render_decimal,
    render_signed, same_text, signed_decimal, unsigned_number,
};
use vstd::prelude::*;
use vstd::utf8::encode_utf8;

verus! {

pub const RECONCILIATION_DIGEST_BYTES: usize = 64;

pub const RECONCILIATION_REASON_MAX_BYTES: usize = 4096;

/// Reads and locks the latest run of one table.
pub const LOCK_RECONCILIATION_SQL: &'static str = r#"SELECT 
pipeline_id, topology_generation, source_relation_id,
target_schema, target_table, target_relation_oid, table_generation, schema_fingerprint,
run_id, state, source_node_id, temporary_slot_name,
source_system_identifier::text AS source_system_identifier, source_timeline,
source_snapshot_lsn::text AS source_snapshot_lsn,
target_checkpoint_lsn::text AS target_checkpoint_lsn,
source_rows, source_bytes, source_digest, target_rows, target_bytes, target_digest,
started_at, completed_at, last_consistent_at, last_mismatch_at, next_due_at,
failure_reason, consecutive_failures, fencing_token
 FROM pg2cb_meta.table_reconciliation_state WHERE pipeline_id = $1 AND topology_generation = $2 AND source_relation_id = $3 FOR UPDATE"#;

/// Reads and locks every run of a topology that is not terminal.
pub const LIST_RECONCILIATION_SQL: &'static str = r#"SELECT 
pipeline_id, topology_generation, source_relation_id,
target_schema, target_table, target_relation_oid, table_generation, schema_fingerprint,
run_id, state, source_node_id, temporary_slot_name,
source_system_identifier::text AS source_system_identifier, source_timeline,
source_snapshot_lsn::text AS source_snapshot_lsn,
target_checkpoint_lsn::text AS target_checkpoint_lsn,
source_rows, source_bytes, source_digest, target_rows, target_bytes, target_digest,
started_at, completed_at, last_consistent_at, last_mismatch_at, next_due_at,
failure_reason, consecutive_failures, fencing_token
 FROM pg2cb_meta.table_reconciliation_state WHERE pipeline_id = $1 AND topology_generation = $2 AND state IN ('aligning', 'scanning', 'reload_pending') ORDER BY source_relation_id FOR UPDATE"#;

pub const INSERT_RECONCILIATION_SQL: &'static str = r#"
INSERT INTO pg2cb_meta.table_reconciliation_state (
    pipeline_id, topology_generation, source_relation_id,
    target_schema, target_table, target_relation_oid, table_generation, schema_fingerprint,
    run_id, state, source_node_id, temporary_slot_name,
    source_system_identifier, source_timeline, source_snapshot_lsn, fencing_token
)
VALUES (
    $1, $2, $3, $4, $5, $6, $7, $8,
    $9, 'aligning', $10, $11, $12::text::numeric, $13, $14::text::pg_lsn, $15
)
"#;

pub const REPLACE_RECONCILIATION_SQL: &'static str = r#"
UPDATE pg2cb_meta.table_reconciliation_state
SET target_schema = $4, target_table = $5, target_relation_oid = $6,
    table_generation = $7, schema_fingerprint = $8, run_id = $9,
    state = 'aligning', source_node_id = $10, temporary_slot_name = $11,
    source_system_identifier = $12::text::numeric, source_timeline = $13,
    source_snapshot_lsn = $14::text::pg_lsn, target_checkpoint_lsn = NULL,
    source_rows = NULL, source_bytes = NULL, source_digest = NULL,
    target_rows = NULL, target_bytes = NULL, target_digest = NULL,
    started_at = clock_timestamp(), completed_at = NULL, next_due_at = NULL,
    failure_reason = NULL, fencing_token = $15, updated_at = clock_timestamp()
WHERE pipeline_id = $1 AND topology_generation = $2 AND source_relation_id = $3
"#;

pub const MARK_SCANNING_SQL: &'static str = r#"
UPDATE pg2cb_meta.table_reconciliation_state
SET state = 'scanning', target_checkpoint_lsn = $6::text::pg_lsn,
    updated_at = clock_timestamp()
WHERE pipeline_id = $1 AND topology_generation = $2 AND source_relation_id = $3
  AND run_id = $4 AND fencing_token = $5 AND state = 'aligning'
"#;

pub const COMPLETE_MATCHED_SQL: &'static str = r#"
UPDATE pg2cb_meta.table_reconciliation_state
SET state = 'matched', source_rows = $6, source_bytes = $7, source_digest = $8,
    target_rows = $9, target_bytes = $10, target_digest = $11,
    completed_at = clock_timestamp(), last_consistent_at = clock_timestamp(),
    next_due_at = $12, failure_reason = NULL, consecutive_failures = 0,
    updated_at = clock_timestamp()
WHERE pipeline_id = $1 AND topology_generation = $2 AND source_relation_id = $3
  AND run_id = $4 AND fencing_token = $5 AND state = 'scanning'
"#;

pub const COMPLETE_RELOAD_PENDING_SQL: &'static str = r#"
UPDATE pg2cb_meta.table_reconciliation_state
SET state = 'reload_pending', source_rows = $6, source_bytes = $7, source_digest = $8,
    target_rows = $9, target_bytes = $10, target_digest = $11,
    last_mismatch_at = clock_timestamp(), updated_at = clock_timestamp()
WHERE pipeline_id = $1 AND topology_generation = $2 AND source_relation_id = $3
  AND run_id = $4 AND fencing_token = $5 AND state = 'scanning'
"#;

pub const COMPLETE_RELOADED_SQL: &'static str = r#"
UPDATE pg2cb_meta.table_reconciliation_state
SET state = 'reloaded', completed_at = clock_timestamp(),
    last_consistent_at = clock_timestamp(), next_due_at = $6,
    failure_reason = NULL, consecutive_failures = 0, updated_at = clock_timestamp()
WHERE pipeline_id = $1 AND topology_generation = $2 AND source_relation_id = $3
  AND run_id = $4 AND fencing_token = $5 AND state = 'reload_pending'
"#;

pub const FAIL_RECONCILIATION_SQL: &'static str = r#"
UPDATE pg2cb_meta.table_reconciliation_state
SET state = 'failed', completed_at = clock_timestamp(), next_due_at = $6,
    failure_reason = $7, consecutive_failures = $8, updated_at = clock_timestamp()
WHERE pipeline_id = $1 AND topology_generation = $2 AND source_relation_id = $3
  AND run_id = $4 AND fencing_token = $5
  AND state IN ('aligning', 'scanning', 'reload_pending')
"#;

pub const SUPERSEDE_RECONCILIATION_SQL: &'static str = r#"
UPDATE pg2cb_meta.table_reconciliation_state
SET state = 'superseded', completed_at = COALESCE(completed_at, clock_timestamp()),
    next_due_at = NULL, failure_reason = $5, fencing_token = $6,
    updated_at = clock_timestamp()
WHERE pipeline_id = $1 AND topology_generation = $2 AND source_relation_id = $3
  AND run_id = $4
"#;

/// Durable lifecycle of the latest reconciliation run for a table.
#[derive(Debug, Clone, Copy, PartialEq, Eq, Structural)]
pub enum ReconciliationState {
    Aligning,
    Scanning,
    Matched,
    ReloadPending,
    Reloaded,
    Failed,
    Superseded,
}

impl ReconciliationState {
    pub open spec fn name(self) -> &'static str {
        match self {
            ReconciliationState::Aligning => "aligning",
            ReconciliationState::Scanning => "scanning",
            ReconciliationState::Matched => "matched",
            ReconciliationState::ReloadPending => "reload_pending",
            ReconciliationState::Reloaded => "reloaded",
            ReconciliationState::Failed => "failed",
            ReconciliationState::Superseded => "superseded",
        }
    }

    #[must_use]
    pub fn as_str(self) -> (r: &'static str)
        ensures
            r == self.name(),
    {
        match self {
            ReconciliationState::Aligning => "aligning",
            ReconciliationState::Scanning => "scanning",
            ReconciliationState::Matched => "matched",
            ReconciliationState::ReloadPending => "reload_pending",
            ReconciliationState::Reloaded => "reloaded",
            ReconciliationState::Failed => "failed",
            ReconciliationState::Superseded => "superseded",
        }
    }

    /// The run depends on a source snapshot of a process.
    pub open spec fn interrupted(self) -> bool {
        self is Aligning || self is Scanning
    }

    /// A source snapshot/temporary slot cannot survive a process restart.
    #[must_use]
    pub fn is_interrupted(self) -> (r: bool)
        ensures
            r == self.interrupted(),
    {
        match self {
            ReconciliationState::Aligning | ReconciliationState::Scanning => true,
            _ => false,
        }
    }

    /// The run has come to its end.
    pub open spec fn terminal(self) -> bool {
        self is Matched || self is Reloaded || self is Failed || self is Superseded
    }

    #[must_use]
    pub fn is_terminal(self) -> (r: bool)
        ensures
            r == self.terminal(),
    {
        match self {
            ReconciliationState::Matched | ReconciliationState::Reloaded
            | ReconciliationState::Failed | ReconciliationState::Superseded => true,
            _ => false,
        }
    }

    /// The state that a stored text stands for.
    pub open spec fn named(value: Seq<char>) -> Option<ReconciliationState> {
        if value == "aligning"@ {
            Some(ReconciliationState::Aligning)
        } else if value == "scanning"@ {
            Some(ReconciliationState::Scanning)
        } else if value == "matched"@ {
            Some(ReconciliationState::Matched)
        } else if value == "reload_pending"@ {
            Some(ReconciliationState::ReloadPending)
        } else if value == "reloaded"@ {
            Some(ReconciliationState::Reloaded)
        } else if value == "failed"@ {
            Some(ReconciliationState::Failed)
        } else if value == "superseded"@ {
            Some(ReconciliationState::Superseded)
        } else {
            None
        }
    }

    pub fn from_str(value: &str) -> (r: Result<Self, ReconciliationStateError>)
        ensures
            match r {
                Ok(state) => Self::named(value@) == Some(state),
                Err(e) => Self::named(value@) is None && run_reports(e, Some(("state", value@))),
            },
    {
        if same_text(value, "aligning") {
            Ok(ReconciliationState::Aligning)
        } else if same_text(value, "scanning") {
            Ok(ReconciliationState::Scanning)
        } else if same_text(value, "matched") {
            Ok(ReconciliationState::Matched)
        } else if same_text(value, "reload_pending") {
            Ok(ReconciliationState::ReloadPending)
        } else if same_text(value, "reloaded") {
            Ok(ReconciliationState::Reloaded)
        } else if same_text(value, "failed") {
            Ok(ReconciliationState::Failed)
        } else if same_text(value, "superseded") {
            Ok(ReconciliationState::Superseded)
        } else {
            Err(
                ReconciliationStateError::InvalidPersistedValue {
                    field: "state",
                    value: value.to_string(),
                },
            )
        }
    }
}

/// A moment, in microseconds since the Unix epoch.
#[derive(Debug, Clone, Copy, PartialEq, Eq, Structural)]
pub struct Timestamp {
    pub micros: i64,
}

/// Stable table and source-snapshot identity for one reconciliation run.
#[derive(Debug, Clone, PartialEq, Eq)]
pub struct ReconciliationRunIdentity {
    pub fence: PipelineFence,
    pub source_relation_id: u32,
    pub target: QualifiedName,
    pub target_relation_oid: u32,
    pub table_generation: u64,
    pub schema_fingerprint: String,
    pub run_id: Uuid,
    pub source_node_id: i32,
    pub temporary_slot_name: String,
    pub source_system_identifier: u64,
    pub source_timeline: u32,
    pub source_snapshot_lsn: PgLsn,
}

/// Aggregate result of one full canonical table scan.
#[derive(Debug, Clone, Copy, PartialEq, Eq)]
pub struct ReconciliationStats {
    pub rows: u64,
    pub bytes: u64,
    /// Concatenated 256-bit accumulators from the order-independent v1 digest.
    pub digest: [u8; 64],
}

/// A loaded latest-run row.
#[derive(Debug, Clone, PartialEq, Eq)]
pub struct StoredReconciliationState {
    pub run: ReconciliationRunIdentity,
    pub state: ReconciliationState,
    pub target_checkpoint_lsn: Option<PgLsn>,
    pub source: Option<ReconciliationStats>,
    pub target: Option<ReconciliationStats>,
    pub started_at: Timestamp,
    pub completed_at: Option<Timestamp>,
    pub last_consistent_at: Option<Timestamp>,
    pub last_mismatch_at: Option<Timestamp>,
    pub next_due_at: Option<Timestamp>,
    pub failure_reason: Option<String>,
    pub consecutive_failures: u64,
}

impl StoredReconciliationState {
    #[must_use]
    pub fn was_interrupted(&self) -> (r: bool)
        ensures
            r == self.state.interrupted(),
    {
        self.state.is_interrupted()
    }
}

/// Startup work required for a durable nonterminal reconciliation run.
///
/// The exported/imported source snapshot is process-scoped, including while a reload is pending.
/// Startup callers must supersede the old run, clean any orphan loading group, and start from a
/// fresh boundary; this enum distinguishes which interrupted phase needs that cleanup.
#[derive(Debug, Clone, PartialEq, Eq)]
pub enum ReconciliationStartupRecovery {
    RestartInterruptedScan(StoredReconciliationState),
    RestartPendingReload(StoredReconciliationState),
}

impl ReconciliationStartupRecovery {
    /// The run that has to be recovered.
    pub open spec fn run_state(self) -> StoredReconciliationState {
        match self {
            ReconciliationStartupRecovery::RestartInterruptedScan(stored) => stored,
            ReconciliationStartupRecovery::RestartPendingReload(stored) => stored,
        }
    }

    #[must_use]
    pub fn stored(&self) -> (r: &StoredReconciliationState)
        ensures
            *r == self.run_state(),
    {
        match self {
            ReconciliationStartupRecovery::RestartInterruptedScan(stored) => stored,
            ReconciliationStartupRecovery::RestartPendingReload(stored) => stored,
        }
    }
}

/// Final result of one canonical source/target scan.
#[allow(inconsistent_fields)]
#[derive(Debug, Clone, Copy, PartialEq, Eq)]
pub enum ReconciliationScanCompletion {
    Matched { source: ReconciliationStats, target: ReconciliationStats, next_due_at: Timestamp },
    ReloadPending { source: ReconciliationStats, target: ReconciliationStats },
}

#[derive(Debug, Clone, Copy, PartialEq, Eq, Structural)]
pub enum BeginReconciliationOutcome {
    Started,
    AlreadyExists(ReconciliationState),
}

#[derive(Debug, Clone, Copy, PartialEq, Eq, Structural)]
pub enum ReconciliationTransitionOutcome {
    Transitioned,
    AlreadyComplete,
}

/// Atomic outcome of promoting a reconciliation shadow and durably completing its run.
#[derive(Debug, Clone, PartialEq, Eq)]
pub struct ReconciliationReloadOutcome {
    pub activation: SnapshotActivationOutcome,
    pub reconciliation: ReconciliationTransitionOutcome,
}

#[allow(inconsistent_fields)]
#[derive(Debug, PartialEq, Eq)]
pub enum ReconciliationStateError {
    Fence(CheckpointError),
    Snapshot(SnapshotTargetError),
    GenerationOutOfRange(u64),
    TableGenerationOutOfRange(u64),
    /// A table generation must be greater than zero.
    InvalidTableGeneration,
    StatisticOutOfRange { field: &'static str, value: u64 },
    /// A source relation ID and a target relation OID must be non-zero.
    InvalidRelationIdentity,
    InvalidTargetIdentity(String),
    /// A schema fingerprint cannot be empty or contain NUL.
    InvalidSchemaFingerprint,
    /// A run ID cannot be nil.
    InvalidRunId,
    InvalidTemporarySlotName,
    /// A source system identifier and timeline must be non-zero.
    InvalidSourceIdentity,
    /// A source snapshot LSN must be non-zero.
    InvalidSourceSnapshotLsn,
    TargetCheckpointPastSnapshotBoundary { checkpoint: PgLsn, snapshot: PgLsn },
    /// A failure or supersede reason cannot be empty or contain NUL.
    InvalidReason,
    ReasonTooLong { actual_bytes: usize, max_bytes: usize },
    NotFound,
    RunIdentityMismatch { field: &'static str },
    RunMismatch { stored: Uuid, requested: Uuid },
    FenceMismatch { stored: i64, active: i64 },
    NewerStoredFence { stored: i64, active: i64 },
    ActiveRunConflict { run_id: Uuid, state: &'static str },
    IllegalTransition { from: &'static str, to: &'static str },
    CompletionMismatch { field: &'static str },
    ReloadRequestMismatch { field: &'static str },
    ReloadGenerationOverflow(u64),
    ReloadTargetMismatch { field: &'static str },
    ReloadActivationStateMismatch {
        state: &'static str,
        activation: SnapshotActivationDisposition,
    },
    InvalidPersistedValue { field: &'static str, value: String },
    /// A state write affected another number of rows than one.
    UnexpectedWriteCount(u64),
}

/// The error names the column and shows the stored value.
pub open spec fn run_reports(e: ReconciliationStateError, fault: Option<PersistedFault>) -> bool {
    e matches ReconciliationStateError::InvalidPersistedValue { field, value } && fault == Some(
        (field, value@),
    )
}

// ---------------------------------------------------------------------------------------------
// Runs
// ---------------------------------------------------------------------------------------------

pub fn database_generation(generation: u64) -> (r: Result<i64, ReconciliationStateError>)
    ensures
        match r {
            Ok(value) => generation <= i64::MAX && value == generation,
            Err(e) => generation > i64::MAX && e == ReconciliationStateError::GenerationOutOfRange(
                generation,
            ),
        },
{
    if generation <= i64::MAX as u64 {
        Ok(generation as i64)
    } else {
        Err(ReconciliationStateError::GenerationOutOfRange(generation))
    }
}

pub fn database_statistic(field: &'static str, value: u64) -> (r: Result<
    i64,
    ReconciliationStateError,
>)
    ensures
        match r {
            Ok(number) => value <= i64::MAX && number == value,
            Err(e) => value > i64::MAX && e == (ReconciliationStateError::StatisticOutOfRange {
                field,
                value,
            }),
        },
{
    if value <= i64::MAX as u64 {
        Ok(value as i64)
    } else {
        Err(ReconciliationStateError::StatisticOutOfRange { field, value })
    }
}

/// A letter that generated slot names begin with.
pub open spec fn is_slot_letter(c: char) -> bool {
    'a' <= c <= 'z'
}

/// A character that may follow in generated slot names.
pub open spec fn is_slot_char(c: char) -> bool {
    is_slot_letter(c) || '0' <= c <= '9' || c == '_'
}

/// The text is a slot name as this project generates them.
pub open spec fn generated_slot_name(value: Seq<char>) -> bool {
    &&& value.len() > 0
    &&& is_slot_letter(value[0])
    &&& encode_utf8(value).len() <= POSTGRES_IDENTIFIER_MAX_BYTES
    &&& forall|i: int| 0 < i < value.len() ==> is_slot_char(#[trigger] value[i])
}

pub fn is_generated_slot_name(value: &str) -> (r: bool)
    ensures
        r == generated_slot_name(value@),
{
    let chars = characters(value);
    if chars.len() == 0 {
        return false;
    }
    let first = chars[0];
    if !('a' <= first && first <= 'z') {
        return false;
    }
    if value.as_bytes().len() > POSTGRES_IDENTIFIER_MAX_BYTES {
        return false;
    }
    let mut i: usize = 1;
    while i < chars.len()
        invariant
            1 <= i <= chars.len(),
            chars@ == value@,
            forall|k: int| 0 < k < i ==> is_slot_char(#[trigger] value@[k]),
        decreases chars.len() - i,
    {
        let c = chars[i];
        if !(('a' <= c && c <= 'z') || ('0' <= c && c <= '9') || c == '_') {
            proof {
                assert(!is_slot_char(value@[i as int]));
            }
            return false;
        }
        i = i + 1;
    }
    true
}

/// The run is one that can be stored.
pub open spec fn run_valid(run: ReconciliationRunIdentity) -> bool {
    &&& run.fence.topology_generation <= i64::MAX
    &&& run.fence.fencing_token > 0
    &&& run.source_relation_id != 0
    &&& run.target_relation_oid != 0
    &&& run.target@.fault() is None
    &&& 0 < run.table_generation <= i64::MAX
    &&& run.schema_fingerprint@.len() > 0
    &&& !run.schema_fingerprint@.contains('\0')
    &&& run.run_id.value != 0
    &&& generated_slot_name(run.temporary_slot_name@)
    &&& run.source_system_identifier != 0
    &&& run.source_timeline != 0
    &&& run.source_snapshot_lsn.value != 0
}

/// The error tells the first reason why the run cannot be stored.
pub open spec fn refuses_run(e: ReconciliationStateError, run: ReconciliationRunIdentity) -> bool {
    if run.fence.topology_generation > i64::MAX {
        e == ReconciliationStateError::GenerationOutOfRange(run.fence.topology_generation)
    } else if run.fence.fencing_token <= 0 {
        e == ReconciliationStateError::Fence(CheckpointError::InvalidFencingToken)
    } else if run.source_relation_id == 0 || run.target_relation_oid == 0 {
        e == ReconciliationStateError::InvalidRelationIdentity
    } else if run.target@.fault() is Some {
        e matches ReconciliationStateError::InvalidTargetIdentity(message) && message@
            == run.target@.fault()->0.message_text()
    } else if run.table_generation > i64::MAX {
        e == ReconciliationStateError::TableGenerationOutOfRange(run.table_generation)
    } else if run.table_generation == 0 {
        e == ReconciliationStateError::InvalidTableGeneration
    } else if run.schema_fingerprint@.len() == 0 || run.schema_fingerprint@.contains('\0') {
        e == ReconciliationStateError::InvalidSchemaFingerprint
    } else if run.run_id.value == 0 {
        e == ReconciliationStateError::InvalidRunId
    } else if !generated_slot_name(run.temporary_slot_name@) {
        e == ReconciliationStateError::InvalidTemporarySlotName
    } else if run.source_system_identifier == 0 || run.source_timeline == 0 {
        e == ReconciliationStateError::InvalidSourceIdentity
    } else {
        e == ReconciliationStateError::InvalidSourceSnapshotLsn
    }
}

/// The parameters of the statements that start a run which the run does not hold as such.
#[derive(Debug, PartialEq, Eq)]
pub struct RunParameters {
    pub topology_generation: i64,
    pub source_relation_id: i64,
    pub target_relation_oid: i64,
    pub table_generation: i64,
    pub source_system_identifier: String,
    pub source_timeline: i64,
    pub source_snapshot_lsn: String,
}

/// The parameters start the run.
pub open spec fn parameters_start(
    parameters: RunParameters,
    run: ReconciliationRunIdentity,
) -> bool {
    &&& parameters.topology_generation == run.fence.topology_generation
    &&& parameters.source_relation_id == run.source_relation_id
    &&& parameters.target_relation_oid == run.target_relation_oid
    &&& parameters.table_generation == run.table_generation
    &&& parameters.source_system_identifier@ == decimal(run.source_system_identifier as nat)
    &&& parameters.source_timeline == run.source_timeline
    &&& parameters.source_snapshot_lsn@ == run.source_snapshot_lsn.text()
}

/// Checks a run and gives the parameters that start it.
pub fn validate_run(run: &ReconciliationRunIdentity) -> (r: Result<
    RunParameters,
    ReconciliationStateError,
>)
    ensures
        match r {
            Ok(parameters) => run_valid(*run) && parameters_start(parameters, *run),
            Err(e) => !run_valid(*run) && refuses_run(e, *run),
        },
{
    let topology_generation = match database_generation(run.fence.topology_generation) {
        Err(e) => return Err(e),
        Ok(generation) => generation,
    };
    if run.fence.fencing_token <= 0 {
        return Err(ReconciliationStateError::Fence(CheckpointError::InvalidFencingToken));
    }
    if run.source_relation_id == 0 || run.target_relation_oid == 0 {
        return Err(ReconciliationStateError::InvalidRelationIdentity);
    }
    match QualifiedName::new(run.target.schema.as_str(), run.target.name.as_str()) {
        Err(e) => return Err(ReconciliationStateError::InvalidTargetIdentity(e.message())),
        Ok(_) => {},
    }
    if run.table_generation > i64::MAX as u64 {
        return Err(ReconciliationStateError::TableGenerationOutOfRange(run.table_generation));
    }
    if run.table_generation == 0 {
        return Err(ReconciliationStateError::InvalidTableGeneration);
    }
    if run.schema_fingerprint.as_str().is_empty() || contains_char(
        run.schema_fingerprint.as_str(),
        '\0',
    ) {
        return Err(ReconciliationStateError::InvalidSchemaFingerprint);
    }
    if run.run_id.is_nil() {
        return Err(ReconciliationStateError::InvalidRunId);
    }
    if !is_generated_slot_name(run.temporary_slot_name.as_str()) {
        return Err(ReconciliationStateError::InvalidTemporarySlotName);
    }
    if run.source_system_identifier == 0 || run.source_timeline == 0 {
        return Err(ReconciliationStateError::InvalidSourceIdentity);
    }
    if run.source_snapshot_lsn.as_u64() == 0 {
        return Err(ReconciliationStateError::InvalidSourceSnapshotLsn);
    }
    Ok(
        RunParameters {
            topology_generation,
            source_relation_id: run.source_relation_id as i64,
            target_relation_oid: run.target_relation_oid as i64,
            table_generation: run.table_generation as i64,
            source_system_identifier: render_decimal(run.source_system_identifier),
            source_timeline: run.source_timeline as i64,
            source_snapshot_lsn: run.source_snapshot_lsn.display(),
        },
    )
}

/// Why a row cannot be looked up, if it cannot.
pub open spec fn key_fault(fence: PipelineFence, source_relation_id: u32) -> Option<
    ReconciliationStateError,
> {
    if fence.topology_generation > i64::MAX {
        Some(ReconciliationStateError::GenerationOutOfRange(fence.topology_generation))
    } else if fence.fencing_token <= 0 {
        Some(ReconciliationStateError::Fence(CheckpointError::InvalidFencingToken))
    } else if source_relation_id == 0 {
        Some(ReconciliationStateError::InvalidRelationIdentity)
    } else {
        None
    }
}

pub fn validate_key(fence: PipelineFence, source_relation_id: u32) -> (r: Result<
    (),
    ReconciliationStateError,
>)
    ensures
        match r {
            Ok(()) => key_fault(fence, source_relation_id) is None,
            Err(e) => key_fault(fence, source_relation_id) == Some(e),
        },
{
    match database_generation(fence.topology_generation) {
        Err(e) => return Err(e),
        Ok(_) => {},
    }
    if fence.fencing_token <= 0 {
        return Err(ReconciliationStateError::Fence(CheckpointError::InvalidFencingToken));
    }
    if source_relation_id == 0 {
        return Err(ReconciliationStateError::InvalidRelationIdentity);
    }
    Ok(())
}

/// Why a reason cannot be stored, if it cannot.
pub open spec fn reason_fault(reason: Seq<char>) -> Option<ReconciliationStateError> {
    if reason.len() == 0 || reason.contains('\0') {
        Some(ReconciliationStateError::InvalidReason)
    } else if encode_utf8(reason).len() > RECONCILIATION_REASON_MAX_BYTES {
        Some(
            ReconciliationStateError::ReasonTooLong {
                actual_bytes: encode_utf8(reason).len() as usize,
                max_bytes: RECONCILIATION_REASON_MAX_BYTES,
            },
        )
    } else {
        None
    }
}

pub fn validate_reason(reason: &str) -> (r: Result<(), ReconciliationStateError>)
    ensures
        match r {
            Ok(()) => reason_fault(reason@) is None,
            Err(e) => reason_fault(reason@) == Some(e),
        },
{
    if reason.is_empty() || contains_char(reason, '\0') {
        return Err(ReconciliationStateError::InvalidReason);
    }
    let length = reason.as_bytes().len();
    if length > RECONCILIATION_REASON_MAX_BYTES {
        return Err(
            ReconciliationStateError::ReasonTooLong {
                actual_bytes: length,
                max_bytes: RECONCILIATION_REASON_MAX_BYTES,
            },
        );
    }
    Ok(())
}

/// A checkpoint above the boundary cannot describe the exported snapshot.
pub fn validate_checkpoint_alignment(source_snapshot_lsn: PgLsn, target_checkpoint_lsn: PgLsn) -> (r:
    Result<(), ReconciliationStateError>)
    ensures
        match r {
            Ok(()) => target_checkpoint_lsn.value <= source_snapshot_lsn.value,
            Err(e) => target_checkpoint_lsn.value > source_snapshot_lsn.value && e
                == (ReconciliationStateError::TargetCheckpointPastSnapshotBoundary {
                checkpoint: target_checkpoint_lsn,
                snapshot: source_snapshot_lsn,
            }),
        },
{
    if target_checkpoint_lsn.as_u64() > source_snapshot_lsn.as_u64() {
        Err(
            ReconciliationStateError::TargetCheckpointPastSnapshotBoundary {
                checkpoint: target_checkpoint_lsn,
                snapshot: source_snapshot_lsn,
            },
        )
    } else {
        Ok(())
    }
}

// ---------------------------------------------------------------------------------------------
// The stored run
// ---------------------------------------------------------------------------------------------

/// The first immutable field in which two runs with one identifier differ.
pub open spec fn run_difference(
    stored: ReconciliationRunIdentity,
    run: ReconciliationRunIdentity,
) -> Option<&'static str> {
    if stored.fence.pipeline_id != run.fence.pipeline_id {
        Some("pipeline_id")
    } else if stored.fence.topology_generation != run.fence.topology_generation {
        Some("topology_generation")
    } else if stored.source_relation_id != run.source_relation_id {
        Some("source_relation_id")
    } else if stored.target@ != run.target@ {
        Some("target")
    } else if stored.target_relation_oid != run.target_relation_oid {
        Some("target_relation_oid")
    } else if stored.table_generation != run.table_generation {
        Some("table_generation")
    } else if stored.schema_fingerprint@ != run.schema_fingerprint@ {
        Some("schema_fingerprint")
    } else if stored.source_node_id != run.source_node_id {
        Some("source_node_id")
    } else if stored.temporary_slot_name@ != run.temporary_slot_name@ {
        Some("temporary_slot_name")
    } else if stored.source_system_identifier != run.source_system_identifier {
        Some("source_system_identifier")
    } else if stored.source_timeline != run.source_timeline {
        Some("source_timeline")
    } else if stored.source_snapshot_lsn != run.source_snapshot_lsn {
        Some("source_snapshot_lsn")
    } else {
        None
    }
}

/// Why the stored run is not the requested one, if it is not.
pub open spec fn same_run_fault(
    stored: ReconciliationRunIdentity,
    run: ReconciliationRunIdentity,
) -> Option<ReconciliationStateError> {
    if stored.run_id != run.run_id {
        Some(
            ReconciliationStateError::RunMismatch { stored: stored.run_id, requested: run.run_id },
        )
    } else {
        match run_difference(stored, run) {
            Some(field) => Some(ReconciliationStateError::RunIdentityMismatch { field }),
            None => None,
        }
    }
}

pub fn validate_same_run(stored: &StoredReconciliationState, run: &ReconciliationRunIdentity) -> (r:
    Result<(), ReconciliationStateError>)
    ensures
        match r {
            Ok(()) => same_run_fault(stored.run, *run) is None,
            Err(e) => same_run_fault(stored.run, *run) == Some(e),
        },
{
    if stored.run.run_id != run.run_id {
        return Err(
            ReconciliationStateError::RunMismatch {
                stored: stored.run.run_id,
                requested: run.run_id,
            },
        );
    }
    let difference: Option<&'static str> = if stored.run.fence.pipeline_id
        != run.fence.pipeline_id {
        Some("pipeline_id")
    } else if stored.run.fence.topology_generation != run.fence.topology_generation {
        Some("topology_generation")
    } else if stored.run.source_relation_id != run.source_relation_id {
        Some("source_relation_id")
    } else if !stored.run.target.same(&run.target) {
        Some("target")
    } else if stored.run.target_relation_oid != run.target_relation_oid {
        Some("target_relation_oid")
    } else if stored.run.table_generation != run.table_generation {
        Some("table_generation")
    } else if !same_text(
        stored.run.schema_fingerprint.as_str(),
        run.schema_fingerprint.as_str(),
    ) {
        Some("schema_fingerprint")
    } else if stored.run.source_node_id != run.source_node_id {
        Some("source_node_id")
    } else if !same_text(
        stored.run.temporary_slot_name.as_str(),
        run.temporary_slot_name.as_str(),
    ) {
        Some("temporary_slot_name")
    } else if stored.run.source_system_identifier != run.source_system_identifier {
        Some("source_system_identifier")
    } else if stored.run.source_timeline != run.source_timeline {
        Some("source_timeline")
    } else if stored.run.source_snapshot_lsn != run.source_snapshot_lsn {
        Some("source_snapshot_lsn")
    } else {
        None
    };
    match difference {
        Some(field) => Err(ReconciliationStateError::RunIdentityMismatch { field }),
        None => Ok(()),
    }
}

/// The first field in which the table or the source of a new run is another one.
pub open spec fn stable_difference(
    stored: ReconciliationRunIdentity,
    run: ReconciliationRunIdentity,
) -> Option<&'static str> {
    if stored.target@ != run.target@ {
        Some("target")
    } else if stored.target_relation_oid != run.target_relation_oid {
        Some("target_relation_oid")
    } else if stored.table_generation != run.table_generation {
        Some("table_generation")
    } else if stored.schema_fingerprint@ != run.schema_fingerprint@ {
        Some("schema_fingerprint")
    } else if stored.source_node_id != run.source_node_id {
        Some("source_node_id")
    } else if stored.source_system_identifier != run.source_system_identifier {
        Some("source_system_identifier")
    } else if stored.source_timeline != run.source_timeline {
        Some("source_timeline")
    } else {
        None
    }
}

pub fn validate_stable_identity(
    stored: &StoredReconciliationState,
    run: &ReconciliationRunIdentity,
) -> (r: Result<(), ReconciliationStateError>)
    ensures
        match r {
            Ok(()) => stable_difference(stored.run, *run) is None,
            Err(e) => stable_difference(stored.run, *run) matches Some(field) && e
                == (ReconciliationStateError::RunIdentityMismatch { field }),
        },
{
    let difference: Option<&'static str> = if !stored.run.target.same(&run.target) {
        Some("target")
    } else if stored.run.target_relation_oid != run.target_relation_oid {
        Some("target_relation_oid")
    } else if stored.run.table_generation != run.table_generation {
        Some("table_generation")
    } else if !same_text(
        stored.run.schema_fingerprint.as_str(),
        run.schema_fingerprint.as_str(),
    ) {
        Some("schema_fingerprint")
    } else if stored.run.source_node_id != run.source_node_id {
        Some("source_node_id")
    } else if stored.run.source_system_identifier != run.source_system_identifier {
        Some("source_system_identifier")
    } else if stored.run.source_timeline != run.source_timeline {
        Some("source_timeline")
    } else {
        None
    };
    match difference {
        Some(field) => Err(ReconciliationStateError::RunIdentityMismatch { field }),
        None => Ok(()),
    }
}

pub fn require_current_fence(stored: &StoredReconciliationState, fence: PipelineFence) -> (r: Result<
    (),
    ReconciliationStateError,
>)
    ensures
        match r {
            Ok(()) => stored.run.fence.fencing_token == fence.fencing_token,
            Err(e) => stored.run.fence.fencing_token != fence.fencing_token && e
                == (ReconciliationStateError::FenceMismatch {
                stored: stored.run.fence.fencing_token,
                active: fence.fencing_token,
            }),
        },
{
    if stored.run.fence.fencing_token == fence.fencing_token {
        Ok(())
    } else {
        Err(
            ReconciliationStateError::FenceMismatch {
                stored: stored.run.fence.fencing_token,
                active: fence.fencing_token,
            },
        )
    }
}

pub fn ensure_not_newer_fence(stored: &StoredReconciliationState, fence: PipelineFence) -> (r: Result<
    (),
    ReconciliationStateError,
>)
    ensures
        match r {
            Ok(()) => stored.run.fence.fencing_token <= fence.fencing_token,
            Err(e) => stored.run.fence.fencing_token > fence.fencing_token && e
                == (ReconciliationStateError::NewerStoredFence {
                stored: stored.run.fence.fencing_token,
                active: fence.fencing_token,
            }),
        },
{
    if stored.run.fence.fencing_token <= fence.fencing_token {
        Ok(())
    } else {
        Err(
            ReconciliationStateError::NewerStoredFence {
                stored: stored.run.fence.fencing_token,
                active: fence.fencing_token,
            },
        )
    }
}

/// The run may go from one state to the other.
pub open spec fn run_may_go(from: ReconciliationState, to: ReconciliationState) -> bool {
    match from {
        ReconciliationState::Aligning => to is Scanning || to is Failed,
        ReconciliationState::Scanning => to is Matched || to is ReloadPending || to is Failed,
        ReconciliationState::ReloadPending => to is Reloaded || to is Failed,
        _ => false,
    }
}

/// The error of a run that may not go from one state to the other.
pub open spec fn illegal_run(from: ReconciliationState, to: ReconciliationState) ->
    ReconciliationStateError {
    ReconciliationStateError::IllegalTransition { from: from.name(), to: to.name() }
}

pub fn require_transition(from: ReconciliationState, to: ReconciliationState) -> (r: Result<
    (),
    ReconciliationStateError,
>)
    ensures
        match r {
            Ok(()) => run_may_go(from, to),
            Err(e) => !run_may_go(from, to) && e == illegal_run(from, to),
        },
{
    let allowed = match from {
        ReconciliationState::Aligning => to == ReconciliationState::Scanning || to
            == ReconciliationState::Failed,
        ReconciliationState::Scanning => to == ReconciliationState::Matched || to
            == ReconciliationState::ReloadPending || to == ReconciliationState::Failed,
        ReconciliationState::ReloadPending => to == ReconciliationState::Reloaded || to
            == ReconciliationState::Failed,
        _ => false,
    };
    if allowed {
        Ok(())
    } else {
        Err(
            ReconciliationStateError::IllegalTransition { from: from.as_str(), to: to.as_str() },
        )
    }
}

pub fn ensure_one_row(written: u64) -> (r: Result<(), ReconciliationStateError>)
    ensures
        match r {
            Ok(()) => written == 1,
            Err(e) => written != 1 && e == ReconciliationStateError::UnexpectedWriteCount(written),
        },
{
    if written == 1 {
        Ok(())
    } else {
        Err(ReconciliationStateError::UnexpectedWriteCount(written))
    }
}

// ---------------------------------------------------------------------------------------------
// Beginning a run
// ---------------------------------------------------------------------------------------------

/// What is done about a run that begins.
#[derive(Debug, Clone, Copy, PartialEq, Eq, Structural)]
pub enum BeginStep {
    /// The very run is stored already.
    Observe(ReconciliationState),
    /// A terminal run is replaced.
    Replace,
    Insert,
}

impl BeginStep {
    pub fn outcome(self) -> (r: BeginReconciliationOutcome)
        ensures
            r == match self {
                BeginStep::Observe(state) => BeginReconciliationOutcome::AlreadyExists(state),
                _ => BeginReconciliationOutcome::Started,
            },
    {
        match self {
            BeginStep::Observe(state) => BeginReconciliationOutcome::AlreadyExists(state),
            _ => BeginReconciliationOutcome::Started,
        }
    }
}

/// What is done about a run that begins, given the latest run of its table.
pub open spec fn beginning(
    stored: Option<&StoredReconciliationState>,
    run: ReconciliationRunIdentity,
) -> Result<BeginStep, ReconciliationStateError> {
    match stored {
        None => Ok(BeginStep::Insert),
        Some(found) => {
            let token = found.run.fence.fencing_token;
            if token > run.fence.fencing_token {
                Err(
                    ReconciliationStateError::NewerStoredFence {
                        stored: token,
                        active: run.fence.fencing_token,
                    },
                )
            } else if found.run.run_id == run.run_id {
                if same_run_fault(found.run, run) is Some {
                    Err(same_run_fault(found.run, run)->0)
                } else if token != run.fence.fencing_token {
                    Err(
                        ReconciliationStateError::FenceMismatch {
                            stored: token,
                            active: run.fence.fencing_token,
                        },
                    )
                } else {
                    Ok(BeginStep::Observe(found.state))
                }
            } else if !found.state.terminal() {
                Err(
                    ReconciliationStateError::ActiveRunConflict {
                        run_id: found.run.run_id,
                        state: found.state.name(),
                    },
                )
            } else if !(found.state is Superseded) && stable_difference(found.run, run) is Some {
                Err(
                    ReconciliationStateError::RunIdentityMismatch {
                        field: stable_difference(found.run, run)->0,
                    },
                )
            } else {
                Ok(BeginStep::Replace)
            }
        },
    }
}

/// Decides what is done about a run that begins.
///
/// A terminal row may be replaced directly only while its stable table/source identity remains
/// exact. After activation changes the table generation, fingerprint, target name, or relation
/// OID, the caller must explicitly supersede the old terminal run before beginning the new one.
pub fn judge_begin(stored: Option<&StoredReconciliationState>, run: &ReconciliationRunIdentity) -> (r:
    Result<BeginStep, ReconciliationStateError>)
    ensures
        r == beginning(stored, *run),
{
    let found = match stored {
        None => return Ok(BeginStep::Insert),
        Some(found) => found,
    };
    match ensure_not_newer_fence(found, run.fence) {
        Err(e) => return Err(e),
        Ok(()) => {},
    }
    if found.run.run_id == run.run_id {
        match validate_same_run(found, run) {
            Err(e) => return Err(e),
            Ok(()) => {},
        }
        match require_current_fence(found, run.fence) {
            Err(e) => return Err(e),
            Ok(()) => {},
        }
        return Ok(BeginStep::Observe(found.state));
    }
    if !found.state.is_terminal() {
        return Err(
            ReconciliationStateError::ActiveRunConflict {
                run_id: found.run.run_id,
                state: found.state.as_str(),
            },
        );
    }
    if found.state != ReconciliationState::Superseded {
        match validate_stable_identity(found, run) {
            Err(e) => return Err(e),
            Ok(()) => {},
        }
    }
    Ok(BeginStep::Replace)
}

/// Sorts a run that a restart found unfinished.
pub fn startup_recovery_from_stored(stored: StoredReconciliationState) -> (r: Result<
    ReconciliationStartupRecovery,
    ReconciliationStateError,
>)
    ensures
        match r {
            Ok(ReconciliationStartupRecovery::RestartInterruptedScan(found)) => found == stored
                && stored.state.interrupted(),
            Ok(ReconciliationStartupRecovery::RestartPendingReload(found)) => found == stored
                && stored.state is ReloadPending,
            Err(e) => stored.state.terminal() && run_reports(
                e,
                Some(("startup_recovery_state", stored.state.name()@)),
            ),
        },
{
    match stored.state {
        ReconciliationState::Aligning | ReconciliationState::Scanning => Ok(
            ReconciliationStartupRecovery::RestartInterruptedScan(stored),
        ),
        ReconciliationState::ReloadPending => Ok(
            ReconciliationStartupRecovery::RestartPendingReload(stored),
        ),
        state => Err(
            ReconciliationStateError::InvalidPersistedValue {
                field: "startup_recovery_state",
                value: state.as_str().to_string(),
            },
        ),
    }
}

// ---------------------------------------------------------------------------------------------
// Moving a run
// ---------------------------------------------------------------------------------------------

/// Why the latest run is not the requested one under the requested fence, if it is not.
pub open spec fn requirement_fault(
    stored: Option<&StoredReconciliationState>,
    run: ReconciliationRunIdentity,
    require_same_fence: bool,
) -> Option<ReconciliationStateError> {
    match stored {
        None => Some(ReconciliationStateError::NotFound),
        Some(found) => if same_run_fault(found.run, run) is Some {
            same_run_fault(found.run, run)
        } else if require_same_fence && found.run.fence.fencing_token != run.fence.fencing_token {
            Some(
                ReconciliationStateError::FenceMismatch {
                    stored: found.run.fence.fencing_token,
                    active: run.fence.fencing_token,
                },
            )
        } else {
            None
        },
    }
}

pub fn require_run<'a>(
    stored: Option<&'a StoredReconciliationState>,
    run: &ReconciliationRunIdentity,
    require_same_fence: bool,
) -> (r: Result<&'a StoredReconciliationState, ReconciliationStateError>)
    ensures
        match r {
            Ok(found) => requirement_fault(stored, *run, require_same_fence) is None && stored
                == Some(found),
            Err(e) => requirement_fault(stored, *run, require_same_fence) == Some(e),
        },
{
    let found = match stored {
        None => return Err(ReconciliationStateError::NotFound),
        Some(found) => found,
    };
    match validate_same_run(found, run) {
        Err(e) => return Err(e),
        Ok(()) => {},
    }
    if require_same_fence {
        match require_current_fence(found, run.fence) {
            Err(e) => return Err(e),
            Ok(()) => {},
        }
    }
    Ok(found)
}

/// What is done about marking that a scan starts, given the latest run.
pub open spec fn scanning(
    stored: Option<&StoredReconciliationState>,
    run: ReconciliationRunIdentity,
    checkpoint: PgLsn,
) -> Result<ReconciliationTransitionOutcome, ReconciliationStateError> {
    if requirement_fault(stored, run, true) is Some {
        Err(requirement_fault(stored, run, true)->0)
    } else {
        let found = stored->0;
        if found.state is Scanning {
            if found.target_checkpoint_lsn == Some(checkpoint) {
                Ok(ReconciliationTransitionOutcome::AlreadyComplete)
            } else {
                Err(
                    ReconciliationStateError::CompletionMismatch {
                        field: "target_checkpoint_lsn",
                    },
                )
            }
        } else if run_may_go(found.state, ReconciliationState::Scanning) {
            Ok(ReconciliationTransitionOutcome::Transitioned)
        } else {
            Err(illegal_run(found.state, ReconciliationState::Scanning))
        }
    }
}

/// Decides whether a run may start to scan at the checkpoint; the state is written where it
/// transitions.
///
/// The checkpoint is the last applied transaction's commit LSN, so it may be numerically below
/// the temporary slot's consistent point even after every transaction ending at or before that
/// point has been applied.
pub fn judge_scanning(
    stored: Option<&StoredReconciliationState>,
    run: &ReconciliationRunIdentity,
    checkpoint: PgLsn,
) -> (r: Result<ReconciliationTransitionOutcome, ReconciliationStateError>)
    ensures
        r == scanning(stored, *run, checkpoint),
{
    let found = match require_run(stored, run, true) {
        Err(e) => return Err(e),
        Ok(found) => found,
    };
    if found.state == ReconciliationState::Scanning {
        let same = match found.target_checkpoint_lsn {
            None => false,
            Some(lsn) => lsn == checkpoint,
        };
        return if same {
            Ok(ReconciliationTransitionOutcome::AlreadyComplete)
        } else {
            Err(
                ReconciliationStateError::CompletionMismatch { field: "target_checkpoint_lsn" },
            )
        };
    }
    match require_transition(found.state, ReconciliationState::Scanning) {
        Err(e) => Err(e),
        Ok(()) => Ok(ReconciliationTransitionOutcome::Transitioned),
    }
}

/// Statistics as the target holds them.
#[derive(Debug, Clone, Copy, PartialEq, Eq)]
pub struct DatabaseStats {
    pub rows: i64,
    pub bytes: i64,
    pub digest: [u8; 64],
}

/// The stored statistics are those of the scan.
pub open spec fn stats_hold(stored: DatabaseStats, stats: ReconciliationStats) -> bool {
    &&& stored.rows == stats.rows
    &&& stored.bytes == stats.bytes
    &&& stored.digest@ == stats.digest@
}

/// Why statistics cannot be stored, if they cannot.
pub open spec fn stats_fault(
    rows_field: &'static str,
    bytes_field: &'static str,
    stats: ReconciliationStats,
) -> Option<ReconciliationStateError> {
    if stats.rows > i64::MAX {
        Some(
            ReconciliationStateError::StatisticOutOfRange { field: rows_field, value: stats.rows },
        )
    } else if stats.bytes > i64::MAX {
        Some(
            ReconciliationStateError::StatisticOutOfRange {
                field: bytes_field,
                value: stats.bytes,
            },
        )
    } else {
        None
    }
}

fn prepare_stats(
    rows_field: &'static str,
    bytes_field: &'static str,
    stats: &ReconciliationStats,
) -> (r: Result<DatabaseStats, ReconciliationStateError>)
    ensures
        match r {
            Ok(stored) => stats_fault(rows_field, bytes_field, *stats) is None && stats_hold(
                stored,
                *stats,
            ),
            Err(e) => stats_fault(rows_field, bytes_field, *stats) == Some(e),
        },
{
    let rows = match database_statistic(rows_field, stats.rows) {
        Err(e) => return Err(e),
        Ok(rows) => rows,
    };
    let size = match database_statistic(bytes_field, stats.bytes) {
        Err(e) => return Err(e),
        Ok(size) => size,
    };
    Ok(DatabaseStats { rows, bytes: size, digest: stats.digest })
}

/// A scan result that is ready to be stored. It is matched or leads to a reload, never more: a
/// reload can become complete only together with its activation.
#[derive(Debug, Clone, Copy, PartialEq, Eq)]
pub struct PreparedScanCompletion {
    pub source: DatabaseStats,
    pub target: DatabaseStats,
    /// When the next scan is due; a matched scan has such a time.
    pub next_due_at: Option<Timestamp>,
}

/// The statistics of both sides.
pub open spec fn completion_source(completion: ReconciliationScanCompletion) ->
    ReconciliationStats {
    match completion {
        ReconciliationScanCompletion::Matched { source, .. } => source,
        ReconciliationScanCompletion::ReloadPending { source, .. } => source,
    }
}

pub open spec fn completion_target(completion: ReconciliationScanCompletion) ->
    ReconciliationStats {
    match completion {
        ReconciliationScanCompletion::Matched { target, .. } => target,
        ReconciliationScanCompletion::ReloadPending { target, .. } => target,
    }
}

/// When the next scan is due.
pub open spec fn completion_due(completion: ReconciliationScanCompletion) -> Option<Timestamp> {
    match completion {
        ReconciliationScanCompletion::Matched { next_due_at, .. } => Some(next_due_at),
        ReconciliationScanCompletion::ReloadPending { .. } => None,
    }
}

/// Why a scan result cannot be stored, if it cannot.
pub open spec fn completion_fault(completion: ReconciliationScanCompletion) -> Option<
    ReconciliationStateError,
> {
    let source = stats_fault("source_rows", "source_bytes", completion_source(completion));
    if source is Some {
        source
    } else {
        stats_fault("target_rows", "target_bytes", completion_target(completion))
    }
}

impl PreparedScanCompletion {
    pub fn new(completion: &ReconciliationScanCompletion) -> (r: Result<
        Self,
        ReconciliationStateError,
    >)
        ensures
            match r {
                Ok(prepared) => {
                    &&& completion_fault(*completion) is None
                    &&& stats_hold(prepared.source, completion_source(*completion))
                    &&& stats_hold(prepared.target, completion_target(*completion))
                    &&& prepared.next_due_at == completion_due(*completion)
                },
                Err(e) => completion_fault(*completion) == Some(e),
            },
    {
        let (source, target, next_due_at) = match completion {
            ReconciliationScanCompletion::Matched { source, target, next_due_at } => (
                source,
                target,
                Some(*next_due_at),
            ),
            ReconciliationScanCompletion::ReloadPending { source, target } => (
                source,
                target,
                None,
            ),
        };
        let source = match prepare_stats("source_rows", "source_bytes", source) {
            Err(e) => return Err(e),
            Ok(stats) => stats,
        };
        let target = match prepare_stats("target_rows", "target_bytes", target) {
            Err(e) => return Err(e),
            Ok(stats) => stats,
        };
        Ok(PreparedScanCompletion { source, target, next_due_at })
    }

    /// The state that the result leads to.
    pub open spec fn end_state(self) -> ReconciliationState {
        if self.next_due_at is Some {
            ReconciliationState::Matched
        } else {
            ReconciliationState::ReloadPending
        }
    }

    pub fn final_state(&self) -> (r: ReconciliationState)
        ensures
            r == self.end_state(),
    {
        if self.next_due_at.is_some() {
            ReconciliationState::Matched
        } else {
            ReconciliationState::ReloadPending
        }
    }

    /// Why a repeated result is not the stored one, if it is not.
    pub open spec fn replay_fault(self, stored: StoredReconciliationState) -> Option<
        ReconciliationStateError,
    > {
        if !(stored.source matches Some(stats) && stats_hold(self.source, stats)) {
            Some(ReconciliationStateError::CompletionMismatch { field: "source_stats" })
        } else if !(stored.target matches Some(stats) && stats_hold(self.target, stats)) {
            Some(ReconciliationStateError::CompletionMismatch { field: "target_stats" })
        } else {
            None
        }
    }

    pub fn validate_replay(&self, stored: &StoredReconciliationState) -> (r: Result<
        (),
        ReconciliationStateError,
    >)
        requires
            self.source.rows >= 0 && self.source.bytes >= 0,
            self.target.rows >= 0 && self.target.bytes >= 0,
        ensures
            match r {
                Ok(()) => self.replay_fault(*stored) is None,
                Err(e) => self.replay_fault(*stored) == Some(e),
            },
    {
        match validate_replayed_stats("source_stats", &stored.source, &self.source) {
            Err(e) => return Err(e),
            Ok(()) => {},
        }
        validate_replayed_stats("target_stats", &stored.target, &self.target)
    }
}

fn validate_replayed_stats(
    field: &'static str,
    stored: &Option<ReconciliationStats>,
    proposed: &DatabaseStats,
) -> (r: Result<(), ReconciliationStateError>)
    requires
        proposed.rows >= 0 && proposed.bytes >= 0,
    ensures
        match r {
            Ok(()) => *stored matches Some(stats) && stats_hold(*proposed, stats),
            Err(e) => !(*stored matches Some(stats) && stats_hold(*proposed, stats)) && e
                == (ReconciliationStateError::CompletionMismatch { field }),
        },
{
    match stored {
        None => Err(ReconciliationStateError::CompletionMismatch { field }),
        Some(stats) => {
            if stats.rows == proposed.rows as u64 && stats.bytes == proposed.bytes as u64
                && same_octets(stats.digest.as_slice(), proposed.digest.as_slice()) {
                Ok(())
            } else {
                Err(ReconciliationStateError::CompletionMismatch { field })
            }
        },
    }
}

/// What is done about a scan result, given the latest run.
pub open spec fn completing(
    stored: Option<&StoredReconciliationState>,
    run: ReconciliationRunIdentity,
    prepared: PreparedScanCompletion,
) -> Result<ReconciliationTransitionOutcome, ReconciliationStateError> {
    if requirement_fault(stored, run, true) is Some {
        Err(requirement_fault(stored, run, true)->0)
    } else {
        let found = stored->0;
        if found.state == prepared.end_state() {
            match prepared.replay_fault(*found) {
                Some(e) => Err(e),
                None => Ok(ReconciliationTransitionOutcome::AlreadyComplete),
            }
        } else if run_may_go(found.state, prepared.end_state()) {
            Ok(ReconciliationTransitionOutcome::Transitioned)
        } else {
            Err(illegal_run(found.state, prepared.end_state()))
        }
    }
}

/// Decides what is done about a scan result; the result is written where the run transitions.
pub fn judge_completion(
    stored: Option<&StoredReconciliationState>,
    run: &ReconciliationRunIdentity,
    prepared: &PreparedScanCompletion,
) -> (r: Result<ReconciliationTransitionOutcome, ReconciliationStateError>)
    requires
        prepared.source.rows >= 0 && prepared.source.bytes >= 0,
        prepared.target.rows >= 0 && prepared.target.bytes >= 0,
    ensures
        r == completing(stored, *run, *prepared),
{
    let found = match require_run(stored, run, true) {
        Err(e) => return Err(e),
        Ok(found) => found,
    };
    if found.state == prepared.final_state() {
        return match prepared.validate_replay(found) {
            Err(e) => Err(e),
            Ok(()) => Ok(ReconciliationTransitionOutcome::AlreadyComplete),
        };
    }
    match require_transition(found.state, prepared.final_state()) {
        Err(e) => Err(e),
        Ok(()) => Ok(ReconciliationTransitionOutcome::Transitioned),
    }
}

/// The failure reason of the latest run is the given one.
pub open spec fn has_reason(stored: StoredReconciliationState, reason: Seq<char>) -> bool {
    stored.failure_reason matches Some(text) && text@ == reason
}

fn is_reason(stored: &StoredReconciliationState, reason: &str) -> (r: bool)
    ensures
        r == has_reason(*stored, reason@),
{
    match &stored.failure_reason {
        None => false,
        Some(text) => same_text(text.as_str(), reason),
    }
}

/// What is done about a failed run.
#[derive(Debug, Clone, Copy, PartialEq, Eq, Structural)]
pub enum FailureStep {
    /// The very failure is stored already.
    Observe,
    /// The failure is written with this number of consecutive failures.
    Write(i64),
}

/// What is done about the failure of a run, given the latest run.
pub open spec fn failing(
    stored: Option<&StoredReconciliationState>,
    run: ReconciliationRunIdentity,
    reason: Seq<char>,
) -> Result<FailureStep, ReconciliationStateError> {
    if requirement_fault(stored, run, true) is Some {
        Err(requirement_fault(stored, run, true)->0)
    } else {
        let found = stored->0;
        if found.state is Failed {
            if has_reason(*found, reason) {
                Ok(FailureStep::Observe)
            } else {
                Err(ReconciliationStateError::CompletionMismatch { field: "failure_reason" })
            }
        } else if !run_may_go(found.state, ReconciliationState::Failed) {
            Err(illegal_run(found.state, ReconciliationState::Failed))
        } else if found.consecutive_failures == u64::MAX {
            Err(
                ReconciliationStateError::StatisticOutOfRange {
                    field: "consecutive_failures",
                    value: found.consecutive_failures,
                },
            )
        } else if found.consecutive_failures + 1 > i64::MAX {
            Err(
                ReconciliationStateError::StatisticOutOfRange {
                    field: "consecutive_failures",
                    value: (found.consecutive_failures + 1) as u64,
                },
            )
        } else {
            Ok(FailureStep::Write((found.consecutive_failures + 1) as i64))
        }
    }
}

/// Decides what is done about the failure of a run.
pub fn judge_failure(
    stored: Option<&StoredReconciliationState>,
    run: &ReconciliationRunIdentity,
    reason: &str,
) -> (r: Result<FailureStep, ReconciliationStateError>)
    ensures
        r == failing(stored, *run, reason@),
{
    let found = match require_run(stored, run, true) {
        Err(e) => return Err(e),
        Ok(found) => found,
    };
    if found.state == ReconciliationState::Failed {
        return if is_reason(found, reason) {
            Ok(FailureStep::Observe)
        } else {
            Err(ReconciliationStateError::CompletionMismatch { field: "failure_reason" })
        };
    }
    match require_transition(found.state, ReconciliationState::Failed) {
        Err(e) => return Err(e),
        Ok(()) => {},
    }
    let failures = match found.consecutive_failures.checked_add(1) {
        None => {
            return Err(
                ReconciliationStateError::StatisticOutOfRange {
                    field: "consecutive_failures",
                    value: found.consecutive_failures,
                },
            );
        },
        Some(failures) => failures,
    };
    match database_statistic("consecutive_failures", failures) {
        Err(e) => Err(e),
        Ok(failures) => Ok(FailureStep::Write(failures)),
    }
}

/// What is done about superseding a run, given the latest run.
pub open spec fn superseding(
    stored: Option<&StoredReconciliationState>,
    run: ReconciliationRunIdentity,
    reason: Seq<char>,
) -> Result<ReconciliationTransitionOutcome, ReconciliationStateError> {
    if requirement_fault(stored, run, false) is Some {
        Err(requirement_fault(stored, run, false)->0)
    } else {
        let found = stored->0;
        let token = found.run.fence.fencing_token;
        if token > run.fence.fencing_token {
            Err(
                ReconciliationStateError::NewerStoredFence {
                    stored: token,
                    active: run.fence.fencing_token,
                },
            )
        } else if found.state is Superseded && token == run.fence.fencing_token {
            if has_reason(*found, reason) {
                Ok(ReconciliationTransitionOutcome::AlreadyComplete)
            } else {
                Err(ReconciliationStateError::CompletionMismatch { field: "failure_reason" })
            }
        } else {
            Ok(ReconciliationTransitionOutcome::Transitioned)
        }
    }
}

/// Decides what is done about superseding a run.
///
/// Unlike ordinary transitions, this operation may adopt a row written under an older fencing
/// token. It still validates the full run identity and rejects a row from a newer token.
pub fn judge_supersede(
    stored: Option<&StoredReconciliationState>,
    run: &ReconciliationRunIdentity,
    reason: &str,
) -> (r: Result<ReconciliationTransitionOutcome, ReconciliationStateError>)
    ensures
        r == superseding(stored, *run, reason@),
{
    let found = match require_run(stored, run, false) {
        Err(e) => return Err(e),
        Ok(found) => found,
    };
    match ensure_not_newer_fence(found, run.fence) {
        Err(e) => return Err(e),
        Ok(()) => {},
    }
    if found.state == ReconciliationState::Superseded && found.run.fence.fencing_token
        == run.fence.fencing_token {
        return if is_reason(found, reason) {
            Ok(ReconciliationTransitionOutcome::AlreadyComplete)
        } else {
            Err(ReconciliationStateError::CompletionMismatch { field: "failure_reason" })
        };
    }
    Ok(ReconciliationTransitionOutcome::Transitioned)
}

// ---------------------------------------------------------------------------------------------
// Reloads
// ---------------------------------------------------------------------------------------------

/// Where the target of a reload stands.
#[derive(Debug, Clone, Copy, PartialEq, Eq, Structural)]
pub enum ReloadTargetState {
    Original,
    RequestedSnapshotActive,
}

/// Why the activation is not the reload of the run, if it is not.
pub open spec fn reload_fault(
    run: ReconciliationRunIdentity,
    request: SnapshotActivationRequest,
) -> Option<ReconciliationStateError> {
    if request.fence.pipeline_id != run.fence.pipeline_id {
        Some(reload_mismatch("fence.pipeline_id"))
    } else if request.fence.topology_generation != run.fence.topology_generation {
        Some(reload_mismatch("fence.topology_generation"))
    } else if request.fence.fencing_token != run.fence.fencing_token {
        Some(reload_mismatch("fence.fencing_token"))
    } else if request.tables@.len() != 1 {
        Some(reload_mismatch("tables.len"))
    } else if reload_table_fault(run, request.tables@[0]) is Some {
        reload_table_fault(run, request.tables@[0])
    } else if request.initial_checkpoints@.len() != 1 {
        Some(reload_mismatch("initial_checkpoints.len"))
    } else {
        match reload_boundary_difference(run, request.initial_checkpoints@[0]) {
            Some(field) => Some(reload_mismatch(field)),
            None => None,
        }
    }
}

/// The error that names the field of a reload.
pub open spec fn reload_mismatch(field: &'static str) -> ReconciliationStateError {
    ReconciliationStateError::ReloadRequestMismatch { field }
}

/// Why the table is not that of the run in its next generation, if it is not.
pub open spec fn reload_table_fault(
    run: ReconciliationRunIdentity,
    table: SnapshotActivationTable,
) -> Option<ReconciliationStateError> {
    if table.target@ != run.target@ {
        Some(reload_mismatch("tables[0].target"))
    } else if table.source_relation_id != run.source_relation_id {
        Some(reload_mismatch("tables[0].source_relation_id"))
    } else if run.table_generation == u64::MAX {
        Some(ReconciliationStateError::ReloadGenerationOverflow(run.table_generation))
    } else if table.table_generation != run.table_generation + 1 {
        Some(reload_mismatch("tables[0].table_generation"))
    } else if table.schema_fingerprint@ != run.schema_fingerprint@ {
        Some(reload_mismatch("tables[0].schema_fingerprint"))
    } else {
        None
    }
}

/// The first field in which the boundary is not the snapshot of the run.
pub open spec fn reload_boundary_difference(
    run: ReconciliationRunIdentity,
    checkpoint: NodeCheckpoint,
) -> Option<&'static str> {
    if checkpoint.key.pipeline_id != run.fence.pipeline_id {
        Some("initial_checkpoints[0].key.pipeline_id")
    } else if checkpoint.key.topology_generation != run.fence.topology_generation {
        Some("initial_checkpoints[0].key.topology_generation")
    } else if checkpoint.key.node_id != run.source_node_id {
        Some("initial_checkpoints[0].key.node_id")
    } else if checkpoint.system_identifier != run.source_system_identifier {
        Some("initial_checkpoints[0].system_identifier")
    } else if checkpoint.timeline != run.source_timeline {
        Some("initial_checkpoints[0].timeline")
    } else if checkpoint.slot_name@ != run.temporary_slot_name@ {
        Some("initial_checkpoints[0].slot_name")
    } else if checkpoint.applied_lsn != run.source_snapshot_lsn {
        Some("initial_checkpoints[0].applied_lsn")
    } else {
        None
    }
}

fn check_reload_table(run: &ReconciliationRunIdentity, table: &SnapshotActivationTable) -> (r: Result<
    (),
    ReconciliationStateError,
>)
    ensures
        match r {
            Ok(()) => reload_table_fault(*run, *table) is None,
            Err(e) => reload_table_fault(*run, *table) == Some(e),
        },
{
    if !table.target.same(&run.target) {
        return Err(
            ReconciliationStateError::ReloadRequestMismatch { field: "tables[0].target" },
        );
    }
    if table.source_relation_id != run.source_relation_id {
        return Err(
            ReconciliationStateError::ReloadRequestMismatch {
                field: "tables[0].source_relation_id",
            },
        );
    }
    let next_generation = match run.table_generation.checked_add(1) {
        None => {
            return Err(ReconciliationStateError::ReloadGenerationOverflow(run.table_generation));
        },
        Some(generation) => generation,
    };
    if table.table_generation != next_generation {
        return Err(
            ReconciliationStateError::ReloadRequestMismatch {
                field: "tables[0].table_generation",
            },
        );
    }
    if !same_text(table.schema_fingerprint.as_str(), run.schema_fingerprint.as_str()) {
        return Err(
            ReconciliationStateError::ReloadRequestMismatch {
                field: "tables[0].schema_fingerprint",
            },
        );
    }
    Ok(())
}

/// The activation of a reload must use the run's exact source snapshot provenance and the next
/// table generation.
pub fn validate_reload_request(
    run: &ReconciliationRunIdentity,
    request: &SnapshotActivationRequest,
) -> (r: Result<(), ReconciliationStateError>)
    ensures
        match r {
            Ok(()) => reload_fault(*run, *request) is None,
            Err(e) => reload_fault(*run, *request) == Some(e),
        },
{
    let fence_difference: Option<&'static str> = if request.fence.pipeline_id
        != run.fence.pipeline_id {
        Some("fence.pipeline_id")
    } else if request.fence.topology_generation != run.fence.topology_generation {
        Some("fence.topology_generation")
    } else if request.fence.fencing_token != run.fence.fencing_token {
        Some("fence.fencing_token")
    } else {
        None
    };
    match fence_difference {
        Some(field) => return Err(ReconciliationStateError::ReloadRequestMismatch { field }),
        None => {},
    }
    if request.tables.len() != 1 {
        return Err(ReconciliationStateError::ReloadRequestMismatch { field: "tables.len" });
    }
    match check_reload_table(run, &request.tables[0]) {
        Err(e) => return Err(e),
        Ok(()) => {},
    }
    if request.initial_checkpoints.len() != 1 {
        return Err(
            ReconciliationStateError::ReloadRequestMismatch { field: "initial_checkpoints.len" },
        );
    }
    let checkpoint = &request.initial_checkpoints[0];
    let difference: Option<&'static str> = if checkpoint.key.pipeline_id
        != run.fence.pipeline_id {
        Some("initial_checkpoints[0].key.pipeline_id")
    } else if checkpoint.key.topology_generation != run.fence.topology_generation {
        Some("initial_checkpoints[0].key.topology_generation")
    } else if checkpoint.key.node_id != run.source_node_id {
        Some("initial_checkpoints[0].key.node_id")
    } else if checkpoint.system_identifier != run.source_system_identifier {
        Some("initial_checkpoints[0].system_identifier")
    } else if checkpoint.timeline != run.source_timeline {
        Some("initial_checkpoints[0].timeline")
    } else if !same_text(checkpoint.slot_name.as_str(), run.temporary_slot_name.as_str()) {
        Some("initial_checkpoints[0].slot_name")
    } else if checkpoint.applied_lsn != run.source_snapshot_lsn {
        Some("initial_checkpoints[0].applied_lsn")
    } else {
        None
    };
    match difference {
        Some(field) => Err(ReconciliationStateError::ReloadRequestMismatch { field }),
        None => Ok(()),
    }
}

/// Why the latest run cannot be reloaded, if it cannot. A reload that is complete may be repeated.
pub open spec fn reload_state_fault(
    stored: Option<&StoredReconciliationState>,
    run: ReconciliationRunIdentity,
) -> Option<ReconciliationStateError> {
    if requirement_fault(stored, run, true) is Some {
        requirement_fault(stored, run, true)
    } else if !(stored->0.state is ReloadPending || stored->0.state is Reloaded) {
        Some(illegal_run(stored->0.state, ReconciliationState::Reloaded))
    } else {
        None
    }
}

/// Checks that the latest run waits for its reload or has been reloaded, and gives its state.
pub fn judge_reload_state(
    stored: Option<&StoredReconciliationState>,
    run: &ReconciliationRunIdentity,
) -> (r: Result<ReconciliationState, ReconciliationStateError>)
    ensures
        match r {
            Ok(state) => reload_state_fault(stored, *run) is None && stored->0.state == state,
            Err(e) => reload_state_fault(stored, *run) == Some(e),
        },
{
    let found = match require_run(stored, run, true) {
        Err(e) => return Err(e),
        Ok(found) => found,
    };
    if found.state != ReconciliationState::ReloadPending && found.state
        != ReconciliationState::Reloaded {
        return Err(
            ReconciliationStateError::IllegalTransition {
                from: found.state.as_str(),
                to: ReconciliationState::Reloaded.as_str(),
            },
        );
    }
    Ok(found.state)
}

/// The error that names the field of a reload's target.
pub open spec fn target_mismatch(field: &'static str) -> ReconciliationStateError {
    ReconciliationStateError::ReloadTargetMismatch { field }
}

/// The target is active, owned by the run's pipeline, and has a catalog identity.
pub open spec fn reload_target_owned(
    relation: RelationState,
    run: ReconciliationRunIdentity,
) -> bool {
    relation matches RelationState::Managed(record) && identity_matches(
        record,
        run.fence.pipeline_id,
        run.source_relation_id,
    ) && record.fencing_token <= run.fence.fencing_token && record.state
        == ManagedTableState::Active && record.relation_oid is Some
}

/// The error tells why the target is not one to reload.
pub open spec fn refuses_reload_target(
    e: ReconciliationStateError,
    relation: RelationState,
    run: ReconciliationRunIdentity,
) -> bool {
    match relation {
        RelationState::Managed(record) => if !identity_matches(
            record,
            run.fence.pipeline_id,
            run.source_relation_id,
        ) {
            e matches ReconciliationStateError::Snapshot(inner) && refuses_owner(
                inner,
                run.target@,
                record,
                run.fence.pipeline_id,
                run.source_relation_id,
            )
        } else if record.fencing_token > run.fence.fencing_token {
            e matches ReconciliationStateError::Snapshot(inner) && refuses_fence(
                inner,
                run.target@,
                run.fence.fencing_token,
                record.fencing_token,
            )
        } else if record.state != ManagedTableState::Active {
            e == target_mismatch("state")
        } else {
            e == target_mismatch("target_relation_oid")
        },
        _ => e == target_mismatch("managed_state"),
    }
}

/// Checks the target of a reload and gives its registered catalog identity.
pub fn judge_reload_relation(relation: &RelationState, run: &ReconciliationRunIdentity) -> (r: Result<
    i64,
    ReconciliationStateError,
>)
    ensures
        match r {
            Ok(oid) => reload_target_owned(*relation, *run) && (
            *relation matches RelationState::Managed(record) && record.relation_oid == Some(oid)),
            Err(e) => !reload_target_owned(*relation, *run) && refuses_reload_target(
                e,
                *relation,
                *run,
            ),
        },
{
    let record = match relation {
        RelationState::Managed(record) => record,
        _ => {
            return Err(ReconciliationStateError::ReloadTargetMismatch { field: "managed_state" });
        },
    };
    match validate_managed_identity(
        &run.target,
        record,
        run.fence.pipeline_id,
        run.source_relation_id,
    ) {
        Err(e) => return Err(ReconciliationStateError::Snapshot(e)),
        Ok(()) => {},
    }
    match validate_managed_fence(&run.target, record, run.fence.fencing_token) {
        Err(e) => return Err(ReconciliationStateError::Snapshot(e)),
        Ok(()) => {},
    }
    if record.state != ManagedTableState::Active {
        return Err(ReconciliationStateError::ReloadTargetMismatch { field: "state" });
    }
    match record.relation_oid {
        None => Err(
            ReconciliationStateError::ReloadTargetMismatch { field: "target_relation_oid" },
        ),
        Some(oid) => Ok(oid),
    }
}

/// Where the target of a reload stands: at the run's own table, or at the requested snapshot.
pub open spec fn reload_target(
    record: ManagedTableRecord,
    physical: Option<i64>,
    run: ReconciliationRunIdentity,
    table: SnapshotActivationTable,
    group: Uuid,
) -> Result<ReloadTargetState, ReconciliationStateError> {
    if record.relation_oid != physical || physical is None {
        Err(target_mismatch("physical_target_relation_oid"))
    } else if record.table_generation == run.table_generation {
        if record.schema_fingerprint@ != run.schema_fingerprint@ {
            Err(target_mismatch("schema_fingerprint"))
        } else if physical->0 != run.target_relation_oid {
            Err(target_mismatch("target_relation_oid"))
        } else {
            Ok(ReloadTargetState::Original)
        }
    } else if record.table_generation != table.table_generation {
        Err(target_mismatch("table_generation"))
    } else if record.schema_fingerprint@ != table.schema_fingerprint@ {
        Err(target_mismatch("schema_fingerprint"))
    } else if record.snapshot_group_id != Some(group) {
        Err(target_mismatch("snapshot_group_id"))
    } else {
        Ok(ReloadTargetState::RequestedSnapshotActive)
    }
}

/// Tells where the target of a reload stands, given its metadata and its actual catalog identity.
pub fn judge_reload_target(
    record: &ManagedTableRecord,
    physical: Option<i64>,
    run: &ReconciliationRunIdentity,
    table: &SnapshotActivationTable,
    group: Uuid,
) -> (r: Result<ReloadTargetState, ReconciliationStateError>)
    requires
        record.relation_oid is Some,
    ensures
        r == reload_target(*record, physical, *run, *table, group),
{
    let registered: i64 = match record.relation_oid {
        None => 0,
        Some(oid) => oid,
    };
    let physical: i64 = match physical {
        None => {
            return Err(
                ReconciliationStateError::ReloadTargetMismatch {
                    field: "physical_target_relation_oid",
                },
            );
        },
        Some(oid) => oid,
    };
    if registered != physical {
        return Err(
            ReconciliationStateError::ReloadTargetMismatch {
                field: "physical_target_relation_oid",
            },
        );
    }
    if record.table_generation == run.table_generation {
        if !same_text(record.schema_fingerprint.as_str(), run.schema_fingerprint.as_str()) {
            return Err(
                ReconciliationStateError::ReloadTargetMismatch { field: "schema_fingerprint" },
            );
        }
        if physical != run.target_relation_oid as i64 {
            return Err(
                ReconciliationStateError::ReloadTargetMismatch { field: "target_relation_oid" },
            );
        }
        return Ok(ReloadTargetState::Original);
    }
    if record.table_generation != table.table_generation {
        return Err(
            ReconciliationStateError::ReloadTargetMismatch { field: "table_generation" },
        );
    }
    if !same_text(record.schema_fingerprint.as_str(), table.schema_fingerprint.as_str()) {
        return Err(
            ReconciliationStateError::ReloadTargetMismatch { field: "schema_fingerprint" },
        );
    }
    if !is_group(record.snapshot_group_id, group) {
        return Err(
            ReconciliationStateError::ReloadTargetMismatch { field: "snapshot_group_id" },
        );
    }
    Ok(ReloadTargetState::RequestedSnapshotActive)
}

/// Checks the target of a reload and tells where it stands, given what the target holds under its
/// name.
pub fn validate_reload_target(
    relation: &RelationState,
    physical: Option<i64>,
    run: &ReconciliationRunIdentity,
    request: &SnapshotActivationRequest,
) -> (r: Result<ReloadTargetState, ReconciliationStateError>)
    requires
        request.tables@.len() > 0,
    ensures
        if reload_target_owned(*relation, *run) {
            r == reload_target(
                relation->Managed_0,
                physical,
                *run,
                request.tables@[0],
                request.snapshot_group_id,
            )
        } else {
            r matches Err(e) && refuses_reload_target(e, *relation, *run)
        },
{
    match judge_reload_relation(relation, run) {
        Err(e) => return Err(e),
        Ok(_) => {},
    }
    match relation {
        RelationState::Managed(record) => judge_reload_target(
            record,
            physical,
            run,
            &request.tables[0],
            request.snapshot_group_id,
        ),
        _ => Err(ReconciliationStateError::ReloadTargetMismatch { field: "managed_state" }),
    }
}

/// What an activation means for the run: its completion has to be written where it transitions.
pub open spec fn reloading(
    state: ReconciliationState,
    target: ReloadTargetState,
    activation: SnapshotActivationDisposition,
) -> Result<ReconciliationTransitionOutcome, ReconciliationStateError> {
    match (state, target, activation) {
        (
            ReconciliationState::ReloadPending,
            ReloadTargetState::Original,
            SnapshotActivationDisposition::Activated,
        ) => Ok(ReconciliationTransitionOutcome::Transitioned),
        (
            ReconciliationState::ReloadPending,
            ReloadTargetState::RequestedSnapshotActive,
            SnapshotActivationDisposition::AlreadyActive,
        ) => Ok(ReconciliationTransitionOutcome::Transitioned),
        (
            ReconciliationState::Reloaded,
            ReloadTargetState::RequestedSnapshotActive,
            SnapshotActivationDisposition::AlreadyActive,
        ) => Ok(ReconciliationTransitionOutcome::AlreadyComplete),
        _ => Err(
            ReconciliationStateError::ReloadActivationStateMismatch {
                state: state.name(),
                activation,
            },
        ),
    }
}

pub fn judge_reload(
    state: ReconciliationState,
    target: ReloadTargetState,
    activation: SnapshotActivationDisposition,
) -> (r: Result<ReconciliationTransitionOutcome, ReconciliationStateError>)
    ensures
        r == reloading(state, target, activation),
{
    let pending = state == ReconciliationState::ReloadPending;
    let reloaded = state == ReconciliationState::Reloaded;
    let original = target == ReloadTargetState::Original;
    let activated = activation == SnapshotActivationDisposition::Activated;
    if pending && original && activated {
        Ok(ReconciliationTransitionOutcome::Transitioned)
    } else if pending && !original && !activated {
        Ok(ReconciliationTransitionOutcome::Transitioned)
    } else if reloaded && !original && !activated {
        Ok(ReconciliationTransitionOutcome::AlreadyComplete)
    } else {
        Err(
            ReconciliationStateError::ReloadActivationStateMismatch {
                state: state.as_str(),
                activation,
            },
        )
    }
}

// ---------------------------------------------------------------------------------------------
// Rows
// ---------------------------------------------------------------------------------------------

/// A run row as the target returns it.
#[derive(Debug, PartialEq, Eq)]
pub struct ReconciliationRow {
    pub pipeline_id: Uuid,
    pub topology_generation: i64,
    pub source_relation_id: i64,
    pub target_schema: String,
    pub target_table: String,
    pub target_relation_oid: i64,
    pub table_generation: i64,
    pub schema_fingerprint: String,
    pub run_id: Uuid,
    pub state: String,
    pub source_node_id: i32,
    pub temporary_slot_name: String,
    pub source_system_identifier: String,
    pub source_timeline: i64,
    pub source_snapshot_lsn: String,
    pub target_checkpoint_lsn: Option<String>,
    pub source: StatsRow,
    pub target: StatsRow,
    pub started_at: Timestamp,
    pub completed_at: Option<Timestamp>,
    pub last_consistent_at: Option<Timestamp>,
    pub last_mismatch_at: Option<Timestamp>,
    pub next_due_at: Option<Timestamp>,
    pub failure_reason: Option<String>,
    pub consecutive_failures: i64,
    pub fencing_token: i64,
}

/// The statistics of one side as the target returns them.
#[derive(Debug, PartialEq, Eq)]
pub struct StatsRow {
    pub rows: Option<i64>,
    pub bytes: Option<i64>,
    pub digest: Option<Vec<u8>>,
}

impl StatsRow {
    /// No statistics are stored.
    pub open spec fn absent(self) -> bool {
        self.rows is None && self.bytes is None && self.digest is None
    }

    /// The first column that has no meaning.
    pub open spec fn fault(
        self,
        rows_field: &'static str,
        bytes_field: &'static str,
        digest_field: &'static str,
    ) -> Option<PersistedFault> {
        if self.absent() {
            None
        } else if self.rows is None || self.bytes is None || self.digest is None {
            Some((rows_field, "partially populated statistics"@))
        } else if self.rows->0 < 0 {
            Some((rows_field, signed_decimal(self.rows->0 as int)))
        } else if self.bytes->0 < 0 {
            Some((bytes_field, signed_decimal(self.bytes->0 as int)))
        } else if self.digest->0@.len() != 64 {
            Some((digest_field, decimal(self.digest->0@.len()) + " bytes"@))
        } else {
            None
        }
    }

    /// The columns hold the statistics.
    pub open spec fn holds(self, stats: Option<ReconciliationStats>) -> bool {
        match stats {
            None => self.absent(),
            Some(stats) => {
                &&& self.rows matches Some(rows) && rows == stats.rows
                &&& self.bytes matches Some(size) && size == stats.bytes
                &&& self.digest matches Some(digest) && digest@ == stats.digest@
            },
        }
    }
}

fn invalid_number(field: &'static str, value: i64) -> (r: ReconciliationStateError)
    ensures
        run_reports(r, Some((field, signed_decimal(value as int)))),
{
    ReconciliationStateError::InvalidPersistedValue { field, value: render_signed(value) }
}

fn digest_of(octets: &Vec<u8>) -> (r: Option<[u8; 64]>)
    ensures
        match r {
            Some(digest) => digest@ == octets@,
            None => octets@.len() != 64,
        },
{
    if octets.len() != 64 {
        return None;
    }
    let mut out: [u8; 64] = [0u8; 64];
    let mut i: usize = 0;
    while i < 64
        invariant
            i <= 64,
            octets.len() == 64,
            forall|k: int| 0 <= k < i ==> out@[k] == octets@[k],
        decreases 64 - i,
    {
        out[i] = octets[i];
        i = i + 1;
    }
    proof {
        assert(out@ =~= octets@);
    }
    Some(out)
}

fn persisted_stats(
    row: &StatsRow,
    rows_field: &'static str,
    bytes_field: &'static str,
    digest_field: &'static str,
) -> (r: Result<Option<ReconciliationStats>, ReconciliationStateError>)
    ensures
        match r {
            Ok(stats) => row.fault(rows_field, bytes_field, digest_field) is None && row.holds(
                stats,
            ),
            Err(e) => run_reports(e, row.fault(rows_field, bytes_field, digest_field)),
        },
{
    if row.rows.is_none() && row.bytes.is_none() && row.digest.is_none() {
        return Ok(None);
    }
    let rows: i64 = match row.rows {
        None => {
            return Err(
                ReconciliationStateError::InvalidPersistedValue {
                    field: rows_field,
                    value: "partially populated statistics".to_string(),
                },
            );
        },
        Some(rows) => rows,
    };
    let size: i64 = match row.bytes {
        None => {
            return Err(
                ReconciliationStateError::InvalidPersistedValue {
                    field: rows_field,
                    value: "partially populated statistics".to_string(),
                },
            );
        },
        Some(size) => size,
    };
    let digest = match &row.digest {
        None => {
            return Err(
                ReconciliationStateError::InvalidPersistedValue {
                    field: rows_field,
                    value: "partially populated statistics".to_string(),
                },
            );
        },
        Some(digest) => digest,
    };
    if rows < 0 {
        return Err(invalid_number(rows_field, rows));
    }
    if size < 0 {
        return Err(invalid_number(bytes_field, size));
    }
    match digest_of(digest) {
        None => {
            let mut value = render_decimal(digest.len() as u64);
            value.append(" bytes");
            Err(ReconciliationStateError::InvalidPersistedValue { field: digest_field, value })
        },
        Some(digest) => Ok(
            Some(ReconciliationStats { rows: rows as u64, bytes: size as u64, digest }),
        ),
    }
}

/// A relation number that is stored as a bigint.
pub open spec fn is_relation_number(value: i64) -> bool {
    0 < value <= u32::MAX
}

impl ReconciliationRow {
    pub open spec fn target_name(self) -> NameView {
        NameView { schema: self.target_schema@, name: self.target_table@ }
    }

    /// The first column of the identity that has no meaning.
    pub open spec fn identity_fault(self) -> Option<PersistedFault> {
        if self.topology_generation < 0 {
            Some(("topology_generation", signed_decimal(self.topology_generation as int)))
        } else if !is_relation_number(self.source_relation_id) {
            Some(("source_relation_id", signed_decimal(self.source_relation_id as int)))
        } else if !is_relation_number(self.target_relation_oid) {
            Some(("target_relation_oid", signed_decimal(self.target_relation_oid as int)))
        } else if self.table_generation < 0 {
            Some(("table_generation", signed_decimal(self.table_generation as int)))
        } else if self.target_name().fault() is Some {
            Some(("target", self.target_name().fault()->0.message_text()))
        } else if self.run_id.value == 0 {
            Some(("run_id", self.run_id.text()))
        } else if unsigned_number(self.source_system_identifier@, u64::MAX as nat) is None {
            Some(("source_system_identifier", self.source_system_identifier@))
        } else if !is_relation_number(self.source_timeline) {
            Some(("source_timeline", signed_decimal(self.source_timeline as int)))
        } else if parsed_lsn(self.source_snapshot_lsn@) is None {
            Some(("source_snapshot_lsn", self.source_snapshot_lsn@))
        } else {
            None
        }
    }

    /// The first column that has no meaning.
    pub open spec fn fault(self) -> Option<PersistedFault> {
        let source = self.source.fault("source_rows", "source_bytes", "source_digest");
        let target = self.target.fault("target_rows", "target_bytes", "target_digest");
        if self.identity_fault() is Some {
            self.identity_fault()
        } else if self.target_checkpoint_lsn matches Some(text) && parsed_lsn(text@) is None {
            Some(("target_checkpoint_lsn", self.target_checkpoint_lsn->0@))
        } else if source is Some {
            source
        } else if target is Some {
            target
        } else if self.source.absent() != self.target.absent() {
            Some(("source_target_statistics", "only one side is present"@))
        } else if self.fencing_token <= 0 {
            Some(("fencing_token", signed_decimal(self.fencing_token as int)))
        } else if ReconciliationState::named(self.state@) is None {
            Some(("state", self.state@))
        } else if self.consecutive_failures < 0 {
            Some(("consecutive_failures", signed_decimal(self.consecutive_failures as int)))
        } else {
            None
        }
    }

    /// The row holds the identity of the run.
    pub open spec fn holds_run(self, run: ReconciliationRunIdentity) -> bool {
        &&& run.fence.pipeline_id.uuid == self.pipeline_id
        &&& run.fence.topology_generation == self.topology_generation
        &&& run.fence.fencing_token == self.fencing_token
        &&& run.source_relation_id == self.source_relation_id
        &&& run.target@ == self.target_name()
        &&& run.target_relation_oid == self.target_relation_oid
        &&& run.table_generation == self.table_generation
        &&& run.schema_fingerprint@ == self.schema_fingerprint@
        &&& run.run_id == self.run_id
        &&& run.source_node_id == self.source_node_id
        &&& run.temporary_slot_name@ == self.temporary_slot_name@
        &&& unsigned_number(self.source_system_identifier@, u64::MAX as nat) == Some(
            run.source_system_identifier as nat,
        )
        &&& run.source_timeline == self.source_timeline
        &&& parsed_lsn(self.source_snapshot_lsn@) == Some(run.source_snapshot_lsn.value as nat)
    }

    /// The row holds the run.
    pub open spec fn holds(self, stored: StoredReconciliationState) -> bool {
        &&& self.holds_run(stored.run)
        &&& ReconciliationState::named(self.state@) == Some(stored.state)
        &&& match (self.target_checkpoint_lsn, stored.target_checkpoint_lsn) {
            (None, None) => true,
            (Some(text), Some(lsn)) => parsed_lsn(text@) == Some(lsn.value as nat),
            _ => false,
        }
        &&& self.source.holds(stored.source)
        &&& self.target.holds(stored.target)
        &&& stored.started_at == self.started_at
        &&& stored.completed_at == self.completed_at
        &&& stored.last_consistent_at == self.last_consistent_at
        &&& stored.last_mismatch_at == self.last_mismatch_at
        &&& stored.next_due_at == self.next_due_at
        &&& stored.failure_reason == self.failure_reason
        &&& stored.consecutive_failures == self.consecutive_failures
    }
}

fn run_from_row(row: &ReconciliationRow) -> (r: Result<
    ReconciliationRunIdentity,
    ReconciliationStateError,
>)
    ensures
        match r {
            Ok(run) => row.identity_fault() is None && row.holds_run(run),
            Err(e) => run_reports(e, row.identity_fault()),
        },
{
    if row.topology_generation < 0 {
        return Err(invalid_number("topology_generation", row.topology_generation));
    }
    if row.source_relation_id <= 0 || row.source_relation_id > u32::MAX as i64 {
        return Err(invalid_number("source_relation_id", row.source_relation_id));
    }
    if row.target_relation_oid <= 0 || row.target_relation_oid > u32::MAX as i64 {
        return Err(invalid_number("target_relation_oid", row.target_relation_oid));
    }
    if row.table_generation < 0 {
        return Err(invalid_number("table_generation", row.table_generation));
    }
    let target = match QualifiedName::new(row.target_schema.as_str(), row.target_table.as_str()) {
        Err(e) => {
            return Err(
                ReconciliationStateError::InvalidPersistedValue {
                    field: "target",
                    value: e.message(),
                },
            );
        },
        Ok(name) => name,
    };
    if row.run_id.is_nil() {
        return Err(
            ReconciliationStateError::InvalidPersistedValue {
                field: "run_id",
                value: row.run_id.display(),
            },
        );
    }
    let source_system_identifier = match parse_u64(row.source_system_identifier.as_str()) {
        None => {
            return Err(
                ReconciliationStateError::InvalidPersistedValue {
                    field: "source_system_identifier",
                    value: row.source_system_identifier.clone(),
                },
            );
        },
        Some(number) => number,
    };
    if row.source_timeline <= 0 || row.source_timeline > u32::MAX as i64 {
        return Err(invalid_number("source_timeline", row.source_timeline));
    }
    let source_snapshot_lsn = match PgLsn::parse(row.source_snapshot_lsn.as_str()) {
        None => {
            return Err(
                ReconciliationStateError::InvalidPersistedValue {
                    field: "source_snapshot_lsn",
                    value: row.source_snapshot_lsn.clone(),
                },
            );
        },
        Some(lsn) => lsn,
    };
    Ok(
        ReconciliationRunIdentity {
            fence: PipelineFence {
                pipeline_id: PipelineId::from_uuid(row.pipeline_id),
                topology_generation: row.topology_generation as u64,
                fencing_token: row.fencing_token,
            },
            source_relation_id: row.source_relation_id as u32,
            target,
            target_relation_oid: row.target_relation_oid as u32,
            table_generation: row.table_generation as u64,
            schema_fingerprint: row.schema_fingerprint.clone(),
            run_id: row.run_id,
            source_node_id: row.source_node_id,
            temporary_slot_name: row.temporary_slot_name.clone(),
            source_system_identifier,
            source_timeline: row.source_timeline as u32,
            source_snapshot_lsn,
        },
    )
}

/// Reads a run row.
pub fn reconciliation_from_row(row: ReconciliationRow) -> (r: Result<
    StoredReconciliationState,
    ReconciliationStateError,
>)
    ensures
        match r {
            Ok(stored) => row.fault() is None && row.holds(stored),
            Err(e) => run_reports(e, row.fault()),
        },
{
    let run = match run_from_row(&row) {
        Err(e) => return Err(e),
        Ok(run) => run,
    };
    let target_checkpoint_lsn = match &row.target_checkpoint_lsn {
        None => None,
        Some(text) => match PgLsn::parse(text.as_str()) {
            None => {
                return Err(
                    ReconciliationStateError::InvalidPersistedValue {
                        field: "target_checkpoint_lsn",
                        value: text.clone(),
                    },
                );
            },
            Some(lsn) => Some(lsn),
        },
    };
    let source = match persisted_stats(
        &row.source,
        "source_rows",
        "source_bytes",
        "source_digest",
    ) {
        Err(e) => return Err(e),
        Ok(stats) => stats,
    };
    let target = match persisted_stats(
        &row.target,
        "target_rows",
        "target_bytes",
        "target_digest",
    ) {
        Err(e) => return Err(e),
        Ok(stats) => stats,
    };
    if source.is_some() != target.is_some() {
        return Err(
            ReconciliationStateError::InvalidPersistedValue {
                field: "source_target_statistics",
                value: "only one side is present".to_string(),
            },
        );
    }
    if row.fencing_token <= 0 {
        return Err(invalid_number("fencing_token", row.fencing_token));
    }
    let state = match ReconciliationState::from_str(row.state.as_str()) {
        Err(e) => return Err(e),
        Ok(state) => state,
    };
    if row.consecutive_failures < 0 {
        return Err(invalid_number("consecutive_failures", row.consecutive_failures));
    }
    Ok(
        StoredReconciliationState {
            run,
            state,
            target_checkpoint_lsn,
            source,
            target,
            started_at: row.started_at,
            completed_at: row.completed_at,
            last_consistent_at: row.last_consistent_at,
            last_mismatch_at: row.last_mismatch_at,
            next_due_at: row.next_due_at,
            failure_reason: row.failure_reason,
            consecutive_failures: row.consecutive_failures as u64,
        },
    )
}

// ---------------------------------------------------------------------------------------------
// Laws
// ---------------------------------------------------------------------------------------------

/// Every run state reads back from its stored text.
pub proof fn law_run_state_reads_back(state: ReconciliationState)
    ensures
        ReconciliationState::named(state.name()@) == Some(state),
{
    reveal_strlit("aligning");
    reveal_strlit("scanning");
    reveal_strlit("matched");
    reveal_strlit("reload_pending");
    reveal_strlit("reloaded");
    reveal_strlit("failed");
    reveal_strlit("superseded");
    assert("aligning"@[0] == 'a');
    assert("scanning"@[0] == 's' && "scanning"@.len() == 8);
    assert("matched"@[0] == 'm');
    assert("reload_pending"@[0] == 'r' && "reload_pending"@.len() == 14);
    assert("reloaded"@[0] == 'r' && "reloaded"@.len() == 8);
    assert("failed"@[0] == 'f');
    assert("superseded"@[0] == 's' && "superseded"@.len() == 10);
}

/// A run neither skips its alignment nor its reload, every unfinished run can fail, and a terminal
/// run stays as it is. Only an interrupted or a reloading run is unfinished.
pub proof fn law_runs_move_forward(from: ReconciliationState, to: ReconciliationState)
    ensures
        from.terminal() ==> !run_may_go(from, to),
        !from.terminal() ==> run_may_go(from, ReconciliationState::Failed),
        !from.terminal() <==> from.interrupted() || from is ReloadPending,
        run_may_go(from, to) && to is Matched ==> from is Scanning,
        run_may_go(from, to) && to is Reloaded ==> from is ReloadPending,
        run_may_go(from, to) ==> !run_may_go(to, from),
        !run_may_go(from, ReconciliationState::Superseded),
{
}

/// A scan never completes a reload by itself.
pub proof fn law_scan_never_reloads(prepared: PreparedScanCompletion)
    ensures
        !(prepared.end_state() is Reloaded),
        prepared.end_state() is Matched || prepared.end_state() is ReloadPending,
{
}

/// Beginning may be repeated: a stored run with the fields of the requested one is observed.
pub proof fn law_beginning_is_idempotent(
    stored: StoredReconciliationState,
    run: ReconciliationRunIdentity,
)
    requires
        same_run_fault(stored.run, run) is None,
        stored.run.fence.fencing_token == run.fence.fencing_token,
    ensures
        beginning(Some(&stored), run) == Ok::<BeginStep, ReconciliationStateError>(
            BeginStep::Observe(stored.state),
        ),
{
}

/// An unfinished run is never replaced, and a terminal one gives way to another table or source
/// only once it is superseded.
pub proof fn law_only_finished_runs_give_way(
    stored: StoredReconciliationState,
    run: ReconciliationRunIdentity,
)
    requires
        beginning(Some(&stored), run) == Ok::<BeginStep, ReconciliationStateError>(
            BeginStep::Replace,
        ),
    ensures
        stored.state.terminal(),
        stored.run.run_id != run.run_id,
        stored.run.fence.fencing_token <= run.fence.fencing_token,
        stored.state is Superseded || stable_difference(stored.run, run) is None,
{
}

/// A superseded run makes room for any later run of the same or a newer fence.
pub proof fn law_superseded_run_gives_way(
    stored: StoredReconciliationState,
    run: ReconciliationRunIdentity,
)
    requires
        stored.state is Superseded,
        stored.run.run_id != run.run_id,
        stored.run.fence.fencing_token <= run.fence.fencing_token,
    ensures
        beginning(Some(&stored), run) == Ok::<BeginStep, ReconciliationStateError>(
            BeginStep::Replace,
        ),
{
}

/// Completing may be repeated: a stored result with the same statistics is observed.
pub proof fn law_completing_is_idempotent(
    stored: StoredReconciliationState,
    run: ReconciliationRunIdentity,
    prepared: PreparedScanCompletion,
)
    requires
        requirement_fault(Some(&stored), run, true) is None,
        stored.state == prepared.end_state(),
        stored.source matches Some(stats) && stats_hold(prepared.source, stats),
        stored.target matches Some(stats) && stats_hold(prepared.target, stats),
    ensures
        completing(Some(&stored), run, prepared) == Ok::<
            ReconciliationTransitionOutcome,
            ReconciliationStateError,
        >(ReconciliationTransitionOutcome::AlreadyComplete),
{
}

/// A run is reloaded exactly once: its completion is written together with the activation of its
/// snapshot, and a repeated activation finds it complete.
pub proof fn law_reload_completes_once(
    target: ReloadTargetState,
    activation: SnapshotActivationDisposition,
)
    requires
        reloading(ReconciliationState::ReloadPending, target, activation) is Ok,
    ensures
        reloading(ReconciliationState::ReloadPending, target, activation) == Ok::<
            ReconciliationTransitionOutcome,
            ReconciliationStateError,
        >(ReconciliationTransitionOutcome::Transitioned),
        reloading(
            ReconciliationState::Reloaded,
            ReloadTargetState::RequestedSnapshotActive,
            SnapshotActivationDisposition::AlreadyActive,
        ) == Ok::<ReconciliationTransitionOutcome, ReconciliationStateError>(
            ReconciliationTransitionOutcome::AlreadyComplete,
        ),
        reloading(ReconciliationState::Reloaded, target, SnapshotActivationDisposition::Activated)
            is Err,
{
}

/// A started run reads back: a row that holds the parameters of a valid run has a meaning, and its
/// identity is that of the run.
pub proof fn law_started_run_reads_back(
    run: ReconciliationRunIdentity,
    parameters: RunParameters,
    row: ReconciliationRow,
)
    requires
        run_valid(run),
        parameters_start(parameters, run),
        row.pipeline_id == run.fence.pipeline_id.uuid,
        row.topology_generation == parameters.topology_generation,
        row.source_relation_id == parameters.source_relation_id,
        row.target_schema@ == run.target.schema@,
        row.target_table@ == run.target.name@,
        row.target_relation_oid == parameters.target_relation_oid,
        row.table_generation == parameters.table_generation,
        row.schema_fingerprint@ == run.schema_fingerprint@,
        row.run_id == run.run_id,
        row.source_node_id == run.source_node_id,
        row.temporary_slot_name@ == run.temporary_slot_name@,
        row.source_system_identifier@ == parameters.source_system_identifier@,
        row.source_timeline == parameters.source_timeline,
        row.source_snapshot_lsn@ == parameters.source_snapshot_lsn@,
        row.fencing_token == run.fence.fencing_token,
        row.state@ == "aligning"@,
        row.target_checkpoint_lsn is None,
        row.source.absent(),
        row.target.absent(),
        row.consecutive_failures >= 0,
    ensures
        row.fault() is None,
        row.holds_run(run),
{
    law_decimal_reads_back(run.source_system_identifier as nat, u64::MAX as nat);
    law_lsn_reads_back(run.source_snapshot_lsn);
    law_run_state_reads_back(ReconciliationState::Aligning);
}

/// Every terminal run gives way to a later one: whether it matched, was reloaded, failed or was
/// superseded, a run with another number of the same table and source, under the same or a newer
/// fence, replaces it.
pub proof fn law_every_terminal_run_gives_way(
    stored: StoredReconciliationState,
    run: ReconciliationRunIdentity,
)
    requires
        stored.run.run_id != run.run_id,
        stored.run.fence.fencing_token <= run.fence.fencing_token,
        stable_difference(stored.run, run) is None,
    ensures
        stored.state is Matched || stored.state is Reloaded || stored.state is Failed
            || stored.state is Superseded ==> beginning(Some(&stored), run) == Ok::<
            BeginStep,
            ReconciliationStateError,
        >(BeginStep::Replace),
        stored.state is Aligning || stored.state is Scanning || stored.state is ReloadPending ==> (
        beginning(Some(&stored), run) == Err::<BeginStep, ReconciliationStateError>(
            ReconciliationStateError::ActiveRunConflict {
                run_id: stored.run.run_id,
                state: stored.state.name(),
            },
        )),
{
}

/// Of the states, exactly the matched, the reloaded, the failed and the superseded one are terminal,
/// and exactly the aligning and the scanning one are interrupted by a restart.
pub proof fn law_the_terminal_states(state: ReconciliationState)
    ensures
        state.terminal() <==> state is Matched || state is Reloaded || state is Failed || state
            is Superseded,
        state.interrupted() <==> state is Aligning || state is Scanning,
{
}

/// The texts of the states, as the stored rows hold them.
pub proof fn law_run_state_texts(state: ReconciliationState)
    ensures
        state is Aligning ==> state.name() == "aligning",
        state is Scanning ==> state.name() == "scanning",
        state is Matched ==> state.name() == "matched",
        state is ReloadPending ==> state.name() == "reload_pending",
        state is Reloaded ==> state.name() == "reloaded",
        state is Failed ==> state.name() == "failed",
        state is Superseded ==> state.name() == "superseded",
{
}

/// The table and the source of a later run are those of the stored one exactly where the target
/// table with its identity, generation and fingerprint and the source node with its system and
/// timeline are the same.
pub proof fn law_stable_identity(
    stored: ReconciliationRunIdentity,
    run: ReconciliationRunIdentity,
)
    ensures
        stable_difference(stored, run) is None <==> {
            &&& stored.target@ == run.target@
            &&& stored.target_relation_oid == run.target_relation_oid
            &&& stored.table_generation == run.table_generation
            &&& stored.schema_fingerprint@ == run.schema_fingerprint@
            &&& stored.source_node_id == run.source_node_id
            &&& stored.source_system_identifier == run.source_system_identifier
            &&& stored.source_timeline == run.source_timeline
        },
{
}

/// A stored run is the requested one exactly where all fields but the fencing token are the same.
pub proof fn law_same_run(stored: ReconciliationRunIdentity, run: ReconciliationRunIdentity)
    ensures
        same_run_fault(stored, run) is None <==> {
            &&& stored.run_id == run.run_id
            &&& stored.fence.pipeline_id == run.fence.pipeline_id
            &&& stored.fence.topology_generation == run.fence.topology_generation
            &&& stored.source_relation_id == run.source_relation_id
            &&& stored.target@ == run.target@
            &&& stored.target_relation_oid == run.target_relation_oid
            &&& stored.table_generation == run.table_generation
            &&& stored.schema_fingerprint@ == run.schema_fingerprint@
            &&& stored.source_node_id == run.source_node_id
            &&& stored.temporary_slot_name@ == run.temporary_slot_name@
            &&& stored.source_system_identifier == run.source_system_identifier
            &&& stored.source_timeline == run.source_timeline
            &&& stored.source_snapshot_lsn == run.source_snapshot_lsn
        },
        stored.run_id != run.run_id ==> same_run_fault(stored, run) == Some(
            ReconciliationStateError::RunMismatch { stored: stored.run_id, requested: run.run_id },
        ),
{
}

/// A run begins where nothing is stored, and where a run of a newer fence is stored none begins.
pub proof fn law_runs_begin_under_their_fence(
    stored: StoredReconciliationState,
    run: ReconciliationRunIdentity,
)
    ensures
        beginning(None, run) == Ok::<BeginStep, ReconciliationStateError>(BeginStep::Insert),
        stored.run.fence.fencing_token > run.fence.fencing_token ==> (beginning(Some(&stored), run)
            == Err::<BeginStep, ReconciliationStateError>(
            ReconciliationStateError::NewerStoredFence {
                stored: stored.run.fence.fencing_token,
                active: run.fence.fencing_token,
            },
        )),
        stored.run.run_id == run.run_id && stored.run.fence.fencing_token
            != run.fence.fencing_token ==> beginning(Some(&stored), run) is Err,
        beginning(Some(&stored), run) != Ok::<BeginStep, ReconciliationStateError>(
            BeginStep::Insert,
        ),
{
}

/// What is stored of another run, under another fence or not at all is not moved by any step.
pub proof fn law_only_the_latest_run_moves(
    stored: StoredReconciliationState,
    run: ReconciliationRunIdentity,
    checkpoint: PgLsn,
    prepared: PreparedScanCompletion,
    reason: Seq<char>,
)
    requires
        same_run_fault(stored.run, run) is Some || stored.run.fence.fencing_token
            != run.fence.fencing_token,
    ensures
        scanning(Some(&stored), run, checkpoint) is Err,
        completing(Some(&stored), run, prepared) is Err,
        failing(Some(&stored), run, reason) is Err,
        reload_state_fault(Some(&stored), run) is Some,
        scanning(None, run, checkpoint) is Err,
        completing(None, run, prepared) is Err,
        failing(None, run, reason) is Err,
        superseding(None, run, reason) is Err,
        reload_state_fault(None, run) is Some,
{
}

/// A run starts to scan from its alignment; a scan that started at the same checkpoint is found
/// again, and in any other state, or at another checkpoint, the step is refused.
pub proof fn law_a_scan_starts_once(
    stored: StoredReconciliationState,
    run: ReconciliationRunIdentity,
    checkpoint: PgLsn,
)
    requires
        same_run_fault(stored.run, run) is None,
        stored.run.fence.fencing_token == run.fence.fencing_token,
    ensures
        stored.state is Aligning <==> scanning(Some(&stored), run, checkpoint) == Ok::<
            ReconciliationTransitionOutcome,
            ReconciliationStateError,
        >(ReconciliationTransitionOutcome::Transitioned),
        stored.state is Scanning && stored.target_checkpoint_lsn == Some(checkpoint) <==> scanning(
            Some(&stored),
            run,
            checkpoint,
        ) == Ok::<ReconciliationTransitionOutcome, ReconciliationStateError>(
            ReconciliationTransitionOutcome::AlreadyComplete,
        ),
{
}

/// A scan that runs is completed, whatever its result; a repeated result is found again where both
/// statistics are the stored ones, and every other state refuses the result.
pub proof fn law_a_scan_completes_once(
    stored: StoredReconciliationState,
    run: ReconciliationRunIdentity,
    prepared: PreparedScanCompletion,
)
    requires
        same_run_fault(stored.run, run) is None,
        stored.run.fence.fencing_token == run.fence.fencing_token,
    ensures
        stored.state is Scanning <==> completing(Some(&stored), run, prepared) == Ok::<
            ReconciliationTransitionOutcome,
            ReconciliationStateError,
        >(ReconciliationTransitionOutcome::Transitioned),
        completing(Some(&stored), run, prepared) == Ok::<
            ReconciliationTransitionOutcome,
            ReconciliationStateError,
        >(ReconciliationTransitionOutcome::AlreadyComplete) <==> {
            &&& (stored.state is Matched && prepared.next_due_at is Some) || (stored.state
                is ReloadPending && prepared.next_due_at is None)
            &&& stored.source matches Some(stats) && stats.rows == prepared.source.rows
                && stats.bytes == prepared.source.bytes && stats.digest@ == prepared.source.digest@
            &&& stored.target matches Some(stats) && stats.rows == prepared.target.rows
                && stats.bytes == prepared.target.bytes && stats.digest@ == prepared.target.digest@
        },
{
}

/// Every unfinished run can fail, and each failure counts one more; the same failure is found again
/// and another one is refused, and no other finished run can fail.
pub proof fn law_failures_are_counted(
    stored: StoredReconciliationState,
    run: ReconciliationRunIdentity,
    reason: Seq<char>,
)
    requires
        same_run_fault(stored.run, run) is None,
        stored.run.fence.fencing_token == run.fence.fencing_token,
        stored.consecutive_failures < i64::MAX,
    ensures
        stored.state is Aligning || stored.state is Scanning || stored.state is ReloadPending ==> (
        failing(Some(&stored), run, reason) matches Ok(FailureStep::Write(count)) && count
            == stored.consecutive_failures + 1),
        stored.state is Failed ==> (failing(Some(&stored), run, reason) == Ok::<
            FailureStep,
            ReconciliationStateError,
        >(FailureStep::Observe) <==> (stored.failure_reason matches Some(text) && text@ == reason)),
        stored.state is Failed ==> !(failing(Some(&stored), run, reason) matches Ok(
            FailureStep::Write(_),
        )),
        stored.state is Matched || stored.state is Reloaded || stored.state is Superseded
            ==> failing(Some(&stored), run, reason) is Err,
{
}

/// A run of the same or an older fence can be superseded in any state; the same superseding is
/// found again, and a newer fence is kept.
pub proof fn law_any_run_can_be_superseded(
    stored: StoredReconciliationState,
    run: ReconciliationRunIdentity,
    reason: Seq<char>,
)
    requires
        same_run_fault(stored.run, run) is None,
    ensures
        stored.run.fence.fencing_token > run.fence.fencing_token ==> superseding(
            Some(&stored),
            run,
            reason,
        ) is Err,
        stored.run.fence.fencing_token < run.fence.fencing_token ==> superseding(
            Some(&stored),
            run,
            reason,
        ) == Ok::<ReconciliationTransitionOutcome, ReconciliationStateError>(
            ReconciliationTransitionOutcome::Transitioned,
        ),
        stored.run.fence.fencing_token == run.fence.fencing_token && !(stored.state is Superseded)
            ==> superseding(Some(&stored), run, reason) == Ok::<
            ReconciliationTransitionOutcome,
            ReconciliationStateError,
        >(ReconciliationTransitionOutcome::Transitioned),
        stored.run.fence.fencing_token == run.fence.fencing_token && stored.state is Superseded ==> (
        superseding(Some(&stored), run, reason) == Ok::<
            ReconciliationTransitionOutcome,
            ReconciliationStateError,
        >(ReconciliationTransitionOutcome::AlreadyComplete) <==> (
        stored.failure_reason matches Some(text) && text@ == reason)),
{
}

/// A run moves along its way and nowhere else: alignment, scan, and then a match or a reload.
pub proof fn law_the_way_of_a_run(from: ReconciliationState, to: ReconciliationState)
    ensures
        run_may_go(from, to) <==> {
            ||| from is Aligning && to is Scanning
            ||| from is Scanning && to is Matched
            ||| from is Scanning && to is ReloadPending
            ||| from is ReloadPending && to is Reloaded
            ||| (from is Aligning || from is Scanning || from is ReloadPending) && to is Failed
        },
{
}

/// A scan that matched leads to a match and says when the next one is due; any other leads to a
/// reload.
pub proof fn law_results_lead_to_their_state(completion: ReconciliationScanCompletion)
    ensures
        completion is Matched <==> completion_due(completion) is Some,
        completion matches ReconciliationScanCompletion::Matched { source, target, next_due_at }
            ==> completion_due(completion) == Some(next_due_at) && completion_source(completion)
            == source && completion_target(completion) == target,
        completion matches ReconciliationScanCompletion::ReloadPending { source, target }
            ==> completion_source(completion) == source && completion_target(completion) == target,
        completion_fault(completion) is None <==> {
            &&& completion_source(completion).rows <= i64::MAX
            &&& completion_source(completion).bytes <= i64::MAX
            &&& completion_target(completion).rows <= i64::MAX
            &&& completion_target(completion).bytes <= i64::MAX
        },
{
}

/// An activation is the reload of a run exactly where it is under the same fence, loads the run's
/// one table in its next generation with the same fingerprint, and starts at the run's own source
/// snapshot.
pub proof fn law_a_reload_is_of_its_run(
    run: ReconciliationRunIdentity,
    request: SnapshotActivationRequest,
)
    ensures
        reload_fault(run, request) is None <==> {
            &&& request.fence.pipeline_id == run.fence.pipeline_id
            &&& request.fence.topology_generation == run.fence.topology_generation
            &&& request.fence.fencing_token == run.fence.fencing_token
            &&& request.tables@.len() == 1
            &&& request.tables@[0].target@ == run.target@
            &&& request.tables@[0].source_relation_id == run.source_relation_id
            &&& request.tables@[0].table_generation == run.table_generation + 1
            &&& request.tables@[0].schema_fingerprint@ == run.schema_fingerprint@
            &&& request.initial_checkpoints@.len() == 1
            &&& request.initial_checkpoints@[0].key.pipeline_id == run.fence.pipeline_id
            &&& request.initial_checkpoints@[0].key.topology_generation
                == run.fence.topology_generation
            &&& request.initial_checkpoints@[0].key.node_id == run.source_node_id
            &&& request.initial_checkpoints@[0].system_identifier == run.source_system_identifier
            &&& request.initial_checkpoints@[0].timeline == run.source_timeline
            &&& request.initial_checkpoints@[0].slot_name@ == run.temporary_slot_name@
            &&& request.initial_checkpoints@[0].applied_lsn == run.source_snapshot_lsn
        },
{
}

/// Only a run that waits for its reload, or has been reloaded, can be reloaded.
pub proof fn law_which_runs_are_reloaded(
    stored: StoredReconciliationState,
    run: ReconciliationRunIdentity,
)
    requires
        same_run_fault(stored.run, run) is None,
        stored.run.fence.fencing_token == run.fence.fencing_token,
    ensures
        reload_state_fault(Some(&stored), run) is None <==> stored.state is ReloadPending
            || stored.state is Reloaded,
{
}

/// The target of a reload is an active table of the run's pipeline and source relation with a
/// catalog identity, under the same or an older fence.
pub proof fn law_which_tables_are_reloaded(
    record: ManagedTableRecord,
    run: ReconciliationRunIdentity,
)
    ensures
        reload_target_owned(RelationState::Managed(record), run) <==> {
            &&& record.pipeline_id == run.fence.pipeline_id
            &&& record.source_relation_id == run.source_relation_id
            &&& record.fencing_token <= run.fence.fencing_token
            &&& record.state is Active
            &&& record.relation_oid is Some
        },
        forall|relation: RelationState| !(relation is Managed) ==> !#[trigger] reload_target_owned(
            relation,
            run,
        ),
{
}

/// The target of a reload stands at the run's own table where its generation, fingerprint and
/// identity are those of the run, and at the requested snapshot where its generation and
/// fingerprint are those of the request and it came from that very group; it must be the relation
/// that the metadata names.
pub proof fn law_where_a_reload_stands(
    record: ManagedTableRecord,
    physical: Option<i64>,
    run: ReconciliationRunIdentity,
    table: SnapshotActivationTable,
    group: Uuid,
)
    requires
        table.table_generation != run.table_generation,
    ensures
        reload_target(record, physical, run, table, group) == Ok::<
            ReloadTargetState,
            ReconciliationStateError,
        >(ReloadTargetState::Original) <==> {
            &&& record.relation_oid == Some(run.target_relation_oid as i64)
            &&& physical == record.relation_oid
            &&& record.table_generation == run.table_generation
            &&& record.schema_fingerprint@ == run.schema_fingerprint@
        },
        reload_target(record, physical, run, table, group) == Ok::<
            ReloadTargetState,
            ReconciliationStateError,
        >(ReloadTargetState::RequestedSnapshotActive) <==> {
            &&& record.relation_oid is Some
            &&& physical == record.relation_oid
            &&& record.table_generation == table.table_generation
            &&& record.schema_fingerprint@ == table.schema_fingerprint@
            &&& record.snapshot_group_id == Some(group)
        },
{
}

/// A waiting run is completed by the activation of its snapshot, also where the activation happened
/// before; a reloaded one is found complete only where nothing was activated anew.
pub proof fn law_reloads_complete_with_their_activation(
    state: ReconciliationState,
    target: ReloadTargetState,
    activation: SnapshotActivationDisposition,
)
    ensures
        reloading(state, target, activation) == Ok::<
            ReconciliationTransitionOutcome,
            ReconciliationStateError,
        >(ReconciliationTransitionOutcome::Transitioned) <==> state is ReloadPending && (target
            is Original <==> activation is Activated),
        reloading(state, target, activation) == Ok::<
            ReconciliationTransitionOutcome,
            ReconciliationStateError,
        >(ReconciliationTransitionOutcome::AlreadyComplete) <==> state is Reloaded && target
            is RequestedSnapshotActive && activation is AlreadyActive,
{
}

/// A run can be stored exactly where each of its numbers is given and can be stored, its names are
/// valid and its slot has a name of lower-case letters, digits and underscores that begins with a
/// letter and has at most 63 bytes.
pub proof fn law_which_runs_can_be_stored(run: ReconciliationRunIdentity)
    ensures
        run_valid(run) <==> {
            &&& run.fence.topology_generation <= i64::MAX
            &&& run.fence.fencing_token > 0
            &&& run.source_relation_id > 0
            &&& run.target_relation_oid > 0
            &&& run.target@.fault() is None
            &&& 0 < run.table_generation <= i64::MAX
            &&& run.schema_fingerprint@.len() > 0
            &&& !run.schema_fingerprint@.contains('\0')
            &&& run.run_id.value > 0
            &&& 0 < run.temporary_slot_name@.len()
            &&& encode_utf8(run.temporary_slot_name@).len() <= 63
            &&& 'a' <= run.temporary_slot_name@[0] <= 'z'
            &&& forall|i: int|
                0 <= i < run.temporary_slot_name@.len() ==> {
                    ||| 'a' <= #[trigger] run.temporary_slot_name@[i] <= 'z'
                    ||| '0' <= run.temporary_slot_name@[i] <= '9'
                    ||| run.temporary_slot_name@[i] == '_'
                }
            &&& run.source_system_identifier > 0
            &&& run.source_timeline > 0
            &&& run.source_snapshot_lsn.value > 0
        },
{
    let slot = run.temporary_slot_name@;
    if generated_slot_name(slot) {
        assert forall|i: int| 0 <= i < slot.len() implies 'a' <= #[trigger] slot[i] <= 'z' || '0'
            <= slot[i] <= '9' || slot[i] == '_' by {
            if i > 0 {
                assert(is_slot_char(slot[i]));
            }
        }
    }
    if slot.len() > 0 && (forall|i: int|
        0 <= i < slot.len() ==> {
            ||| 'a' <= #[trigger] slot[i] <= 'z'
            ||| '0' <= slot[i] <= '9'
            ||| slot[i] == '_'
        }) {
        assert forall|i: int| 0 < i < slot.len() implies is_slot_char(#[trigger] slot[i]) by {}
    }
}

/// A reason can be stored exactly where it is a text without NUL of 1 to 4096 bytes.
pub proof fn law_which_reasons_can_be_stored(reason: Seq<char>)
    ensures
        reason_fault(reason) is None <==> {
            &&& reason.len() > 0
            &&& !reason.contains('\0')
            &&& encode_utf8(reason).len() <= 4096
        },
{
}

/// A run can be looked up under a positive token, a generation that can be stored and a relation.
pub proof fn law_which_runs_can_be_looked_up(fence: PipelineFence, source_relation_id: u32)
    ensures
        key_fault(fence, source_relation_id) is None <==> {
            &&& fence.topology_generation <= i64::MAX
            &&& fence.fencing_token > 0
            &&& source_relation_id > 0
        },
{
}

/// Stored statistics have a meaning exactly where all three parts are absent, or where all are
/// there, neither count is negative and the digest has 64 bytes.
pub proof fn law_which_statistics_have_a_meaning(
    row: StatsRow,
    rows_field: &'static str,
    bytes_field: &'static str,
    digest_field: &'static str,
)
    ensures
        row.fault(rows_field, bytes_field, digest_field) is None <==> {
            ||| row.rows is None && row.bytes is None && row.digest is None
            ||| {
                &&& row.rows matches Some(rows) && rows >= 0
                &&& row.bytes matches Some(size) && size >= 0
                &&& row.digest matches Some(digest) && digest@.len() == 64
            }
        },
{
}

/// A stored run has a meaning exactly where every column does, and both sides have statistics or
/// neither has.
pub proof fn law_which_runs_have_a_meaning(row: ReconciliationRow)
    ensures
        row.fault() is None <==> {
            &&& row.topology_generation >= 0
            &&& 0 < row.source_relation_id <= u32::MAX
            &&& 0 < row.target_relation_oid <= u32::MAX
            &&& row.table_generation >= 0
            &&& (NameView { schema: row.target_schema@, name: row.target_table@ }).fault() is None
            &&& row.run_id.value != 0
            &&& unsigned_number(row.source_system_identifier@, u64::MAX as nat) is Some
            &&& 0 < row.source_timeline <= u32::MAX
            &&& parsed_lsn(row.source_snapshot_lsn@) is Some
            &&& row.target_checkpoint_lsn matches Some(text) ==> parsed_lsn(text@) is Some
            &&& row.source.fault("source_rows", "source_bytes", "source_digest") is None
            &&& row.target.fault("target_rows", "target_bytes", "target_digest") is None
            &&& row.source.rows is None <==> row.target.rows is None
            &&& row.fencing_token > 0
            &&& ReconciliationState::named(row.state@) is Some
            &&& row.consecutive_failures >= 0
        },
{
}

/// What a restart does about an unfinished run: an interrupted scan is restarted, a pending reload
/// is restarted as such, and a finished run is none of its business.
pub proof fn law_what_a_restart_does(
    stored: StoredReconciliationState,
    r: Result<ReconciliationStartupRecovery, ReconciliationStateError>,
)
    requires
        call_ensures(startup_recovery_from_stored, (stored,), r),
    ensures
        stored.state is Aligning || stored.state is Scanning ==> r == Ok::<
            ReconciliationStartupRecovery,
            ReconciliationStateError,
        >(ReconciliationStartupRecovery::RestartInterruptedScan(stored)),
        stored.state is ReloadPending ==> r == Ok::<
            ReconciliationStartupRecovery,
            ReconciliationStateError,
        >(ReconciliationStartupRecovery::RestartPendingReload(stored)),
        stored.state is Matched || stored.state is Reloaded || stored.state is Failed
            || stored.state is Superseded ==> r is Err,
{
}

/// What is decided about a run that begins over a terminal one of the same table and source: it
/// takes its place, whatever the terminal one came to.
pub proof fn law_decided_beginnings(
    stored: StoredReconciliationState,
    run: ReconciliationRunIdentity,
    r: Result<BeginStep, ReconciliationStateError>,
)
    requires
        call_ensures(judge_begin, (Some(&stored), &run), r),
    ensures
        r == Ok::<BeginStep, ReconciliationStateError>(BeginStep::Replace) <==> {
            &&& stored.run.fence.fencing_token <= run.fence.fencing_token
            &&& stored.run.run_id != run.run_id
            &&& stored.state is Superseded || ((stored.state is Matched || stored.state is Reloaded
                || stored.state is Failed) && stable_difference(stored.run, run) is None)
        },
        r == Ok::<BeginStep, ReconciliationStateError>(BeginStep::Observe(stored.state)) <==> {
            &&& stored.run.fence.fencing_token == run.fence.fencing_token
            &&& same_run_fault(stored.run, run) is None
        },
{
}

/// A snapshot boundary admits exactly the checkpoints that do not lie behind it, and one row is
/// written by every step.
pub proof fn law_what_steps_check(
    snapshot: PgLsn,
    checkpoint: PgLsn,
    aligned: Result<(), ReconciliationStateError>,
    written: u64,
    one: Result<(), ReconciliationStateError>,
)
    requires
        call_ensures(validate_checkpoint_alignment, (snapshot, checkpoint), aligned),
        call_ensures(ensure_one_row, (written,), one),
    ensures
        aligned is Ok <==> checkpoint.value <= snapshot.value,
        one is Ok <==> written == 1,
{
}

/// What is told of a reason that cannot be stored is so.
pub proof fn law_told_faults_of_reasons(reason: Seq<char>)
    ensures
        reason_fault(reason) matches Some(e) ==> {
            ||| e is InvalidReason && (reason.len() == 0 || reason.contains('\0'))
            ||| (e matches ReconciliationStateError::ReasonTooLong { actual_bytes, max_bytes }
                && actual_bytes == encode_utf8(reason).len() as usize && max_bytes
                == RECONCILIATION_REASON_MAX_BYTES && encode_utf8(reason).len()
                > RECONCILIATION_REASON_MAX_BYTES)
        },
{
}

/// What is told of a reload that is not of its run is so: the named field of its table or of its
/// boundary is another one than the run's.
pub proof fn law_told_faults_of_reloads(
    run: ReconciliationRunIdentity,
    table: SnapshotActivationTable,
    checkpoint: NodeCheckpoint,
)
    ensures
        reload_table_fault(run, table) matches Some(e) ==> {
            ||| e == reload_mismatch("tables[0].target") && table.target@ != run.target@
            ||| e == reload_mismatch("tables[0].source_relation_id") && table.source_relation_id
                != run.source_relation_id
            ||| e == ReconciliationStateError::ReloadGenerationOverflow(run.table_generation)
                && run.table_generation == u64::MAX
            ||| e == reload_mismatch("tables[0].table_generation") && table.table_generation as int
                != run.table_generation + 1
            ||| e == reload_mismatch("tables[0].schema_fingerprint") && table.schema_fingerprint@
                != run.schema_fingerprint@
        },
        reload_boundary_difference(run, checkpoint) matches Some(field) ==> {
            ||| field@ == "initial_checkpoints[0].key.pipeline_id"@ && checkpoint.key.pipeline_id
                != run.fence.pipeline_id
            ||| field@ == "initial_checkpoints[0].key.topology_generation"@
                && checkpoint.key.topology_generation != run.fence.topology_generation
            ||| field@ == "initial_checkpoints[0].key.node_id"@ && checkpoint.key.node_id
                != run.source_node_id
            ||| field@ == "initial_checkpoints[0].system_identifier"@ && checkpoint.system_identifier
                != run.source_system_identifier
            ||| field@ == "initial_checkpoints[0].timeline"@ && checkpoint.timeline
                != run.source_timeline
            ||| field@ == "initial_checkpoints[0].slot_name"@ && checkpoint.slot_name@
                != run.temporary_slot_name@
            ||| field@ == "initial_checkpoints[0].applied_lsn"@ && checkpoint.applied_lsn
                != run.source_snapshot_lsn
        },
{
}

/// What is told of a run that is not the stored one is so: it has another identifier, or differs
/// from the stored run of the same identifier.
pub proof fn law_told_faults_of_runs(
    stored: ReconciliationRunIdentity,
    run: ReconciliationRunIdentity,
)
    ensures
        stored.run_id != run.run_id <==> same_run_fault(stored, run) == Some(
            ReconciliationStateError::RunMismatch { stored: stored.run_id, requested: run.run_id },
        ),
        same_run_fault(stored, run) matches Some(e) ==> e is RunMismatch || (
        e matches ReconciliationStateError::RunIdentityMismatch { field } && run_difference(
            stored,
            run,
        ) == Some(field)),
{
}

} // verus!
