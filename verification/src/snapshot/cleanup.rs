//! Fail-closed cleanup for interrupted snapshot loads and retained quarantines.
//!
//! Cleanup is deliberately separate from activation. Both paths use the same target transaction
//! and pipeline fence, but cleanup never infers ownership from a table name alone. A loading
//! group must have an exact persisted manifest, and a quarantine must still have the exact catalog
//! object identity captured when it was registered.

use crate::checkpoint::{CheckpointError, PipelineFence};
use crate::ident::{PipelineId, Uuid};
use crate::schema::SchemaError;
use crate::snapshot::activation::{quarantine_name, quarantine_view};
use crate::snapshot::manifest::{SnapshotGroupStatus, StoredSnapshotGroup};
use crate::snapshot::progress::CompletedSnapshotTableIdentity;
use crate::snapshot::{
    is_group, ManagedTableRecord, ManagedTableState, RelationState, SnapshotActivationTable,
    SnapshotTargetError,
};
use crate::source::{CoreError, NameView, QualifiedName};
use crate::text::same_text;
use vstd::prelude::*;

verus! {

/// Reads and locks the loading groups of the pipeline `$1` that are older than the topology `$2`
/// and the fencing token `$3`.
pub const LOCK_STALE_GROUPS_SQL: &'static str =
    "SELECT snapshot_group_id, topology_generation, fencing_token FROM \"pg2cb_meta\".snapshot_groups WHERE pipeline_id = $1 AND state = 'loading' AND (topology_generation < $2 OR (topology_generation = $2 AND fencing_token < $3)) ORDER BY topology_generation, fencing_token, snapshot_group_id FOR UPDATE";

/// Reads and locks every shadow that is registered for the group `$2`.
pub const LOCK_GROUP_SHADOWS_SQL: &'static str =
    "SELECT target_schema, target_table FROM \"pg2cb_meta\".managed_tables WHERE pipeline_id = $1 AND snapshot_group_id = $2 AND state = 'shadow' FOR UPDATE";

/// Removes the metadata of a dropped shadow.
pub const DELETE_SHADOW_SQL: &'static str =
    "DELETE FROM \"pg2cb_meta\".managed_tables WHERE target_schema = $1 AND target_table = $2 AND pipeline_id = $3 AND snapshot_group_id = $4 AND state = 'shadow'";

/// Removes the tables of a group.
pub const DELETE_GROUP_TABLES_SQL: &'static str =
    "DELETE FROM \"pg2cb_meta\".snapshot_group_tables WHERE snapshot_group_id = $1";

/// Removes the node boundaries of a group.
pub const DELETE_GROUP_NODES_SQL: &'static str =
    "DELETE FROM \"pg2cb_meta\".snapshot_group_nodes WHERE snapshot_group_id = $1";

/// Removes the header of a loading group.
pub const DELETE_GROUP_SQL: &'static str =
    "DELETE FROM \"pg2cb_meta\".snapshot_groups WHERE snapshot_group_id = $1 AND pipeline_id = $2 AND topology_generation = $3 AND fencing_token = $4 AND state = 'loading'";

/// Reads and locks quarantines of the pipeline `$1` that are older than `$2` microseconds.
pub const LOCK_QUARANTINES_SQL: &'static str =
    "SELECT snapshot_group_id, original_schema, original_table, quarantine_schema, quarantine_table, quarantine_relation_oid, pipeline_id, topology_generation, source_relation_id, previous_snapshot_group_id, table_generation, schema_fingerprint, previous_fencing_token, fencing_token FROM \"pg2cb_meta\".snapshot_reconciliation_log WHERE pipeline_id = $1 AND purged_at IS NULL AND quarantine_relation_oid IS NOT NULL AND previous_fencing_token IS NOT NULL AND recorded_at <= clock_timestamp() - ($2::bigint * interval '1 microsecond') ORDER BY recorded_at, snapshot_group_id, original_schema, original_table LIMIT $3 FOR UPDATE";

/// Counts the records of one quarantine that are not purged.
pub const COUNT_QUARANTINE_RECORDS_SQL: &'static str =
    "SELECT count(*)::bigint FROM \"pg2cb_meta\".snapshot_reconciliation_log WHERE quarantine_schema = $1 AND quarantine_table = $2 AND purged_at IS NULL";

/// Removes the metadata of a dropped quarantine.
pub const DELETE_QUARANTINE_SQL: &'static str =
    "DELETE FROM \"pg2cb_meta\".managed_tables WHERE target_schema = $1 AND target_table = $2 AND pipeline_id = $3 AND state = 'quarantined' AND relation_oid = $4";

/// Marks the record of a dropped quarantine.
pub const MARK_QUARANTINE_PURGED_SQL: &'static str =
    "UPDATE \"pg2cb_meta\".snapshot_reconciliation_log SET purged_at = clock_timestamp(), purged_by_fencing_token = $6 WHERE snapshot_group_id = $1 AND original_schema = $2 AND original_table = $3 AND quarantine_schema = $4 AND quarantine_table = $5 AND purged_at IS NULL";

/// Authority and immutable ownership information required to remove one interrupted load.
///
/// `current_fence` is the lease currently held by the caller. `group_fence` is copied from the
/// persisted manifest and must match it exactly. The current lease may be newer than the group,
/// which is what permits restart recovery after a process crash without allowing an old holder to
/// delete a newer group.
#[derive(Debug, Clone, Copy, PartialEq, Eq, Structural)]
pub struct SnapshotGroupCleanupRequest {
    pub current_fence: PipelineFence,
    pub group_fence: PipelineFence,
    pub snapshot_group_id: Uuid,
}

/// Result of removing a loading group and all of its owned shadows.
#[derive(Debug, Clone, PartialEq, Eq)]
pub struct SnapshotCleanupOutcome {
    pub snapshot_group_id: Uuid,
    pub dropped_shadows: Vec<QualifiedName>,
}

/// How long a quarantined table is kept.
#[derive(Debug, Clone, Copy, PartialEq, Eq, Structural)]
pub struct Retention {
    pub nanoseconds: u128,
}

impl Retention {
    pub fn from_secs(seconds: u64) -> (r: Self)
        ensures
            r.nanoseconds == seconds * 1_000_000_000,
    {
        Retention { nanoseconds: seconds as u128 * 1_000_000_000 }
    }
}

/// Retention and work-budget controls for quarantine garbage collection.
///
/// `retention = None` is the safe default and makes the operation a no-op. A positive retention
/// is required before any destructive statement can be issued. `max_tables` bounds one
/// transaction so a large historical quarantine cannot monopolize the target database.
#[derive(Debug, Clone, Copy, PartialEq, Eq, Structural)]
pub struct QuarantineGcPolicy {
    pub retention: Option<Retention>,
    pub max_tables: u32,
}

impl Default for QuarantineGcPolicy {
    fn default() -> (r: Self)
        ensures
            r == (QuarantineGcPolicy { retention: None, max_tables: 100 }),
    {
        QuarantineGcPolicy { retention: None, max_tables: 100 }
    }
}

impl QuarantineGcPolicy {
    #[must_use]
    pub fn disabled() -> (r: Self)
        ensures
            r == (QuarantineGcPolicy { retention: None, max_tables: 100 }),
    {
        QuarantineGcPolicy { retention: None, max_tables: 100 }
    }

    /// Why the policy is not one to work by, if it is not. Without a retention there is no work.
    pub open spec fn fault(self) -> Option<SnapshotTargetError> {
        match self.retention {
            None => None,
            Some(retention) => if self.max_tables == 0 {
                Some(SnapshotTargetError::InvalidQuarantineBatchSize)
            } else if retention.nanoseconds == 0 {
                Some(SnapshotTargetError::InvalidQuarantineRetention)
            } else {
                None
            },
        }
    }

    pub fn enabled(retention: Retention, max_tables: u32) -> (r: Result<Self, SnapshotTargetError>)
        ensures
            ({
                let policy = QuarantineGcPolicy { retention: Some(retention), max_tables };
                match r {
                    Ok(made) => policy.fault() is None && made == policy,
                    Err(e) => policy.fault() == Some(e),
                }
            }),
    {
        let policy = QuarantineGcPolicy { retention: Some(retention), max_tables };
        match policy.validate() {
            Err(e) => Err(e),
            Ok(()) => Ok(policy),
        }
    }

    pub fn validate(self) -> (r: Result<(), SnapshotTargetError>)
        ensures
            match r {
                Ok(()) => self.fault() is None,
                Err(e) => self.fault() == Some(e),
            },
    {
        match self.retention {
            None => Ok(()),
            Some(retention) => {
                if self.max_tables == 0 {
                    Err(SnapshotTargetError::InvalidQuarantineBatchSize)
                } else if retention.nanoseconds == 0 {
                    Err(SnapshotTargetError::InvalidQuarantineRetention)
                } else {
                    Ok(())
                }
            },
        }
    }

    /// The retention in whole microseconds, at least one.
    pub open spec fn micros(self) -> Option<int> {
        match self.retention {
            None => None,
            Some(retention) => Some(
                if retention.nanoseconds < 1_000 {
                    1
                } else {
                    retention.nanoseconds as int / 1_000
                },
            ),
        }
    }

    pub fn retention_micros(self) -> (r: Result<Option<i64>, SnapshotTargetError>)
        ensures
            match r {
                Ok(None) => self.retention is None,
                Ok(Some(value)) => self.fault() is None && self.micros() == Some(value as int),
                Err(e) => if self.fault() is Some {
                    self.fault() == Some(e)
                } else {
                    &&& self.micros() matches Some(value) && value > i64::MAX
                    &&& e == SnapshotTargetError::InvalidQuarantineRetention
                },
            },
            self.retention is None ==> r is Ok,
    {
        match self.validate() {
            Err(e) => return Err(e),
            Ok(()) => {},
        }
        match self.retention {
            None => Ok(None),
            Some(retention) => {
                let micros: u128 = retention.nanoseconds / 1_000;
                if micros > i64::MAX as u128 {
                    return Err(SnapshotTargetError::InvalidQuarantineRetention);
                }
                if micros == 0 {
                    Ok(Some(1))
                } else {
                    Ok(Some(micros as i64))
                }
            },
        }
    }
}

/// Result of one quarantine GC pass.
#[derive(Debug, Clone, PartialEq, Eq)]
pub struct QuarantineGcOutcome {
    pub disabled: bool,
    pub dropped: Vec<QualifiedName>,
}

/// Destructive work needs a valid fencing token.
pub fn require_fencing_token(fence: PipelineFence) -> (r: Result<(), SnapshotTargetError>)
    ensures
        match r {
            Ok(()) => fence.fencing_token > 0,
            Err(e) => fence.fencing_token <= 0 && e == SnapshotTargetError::Checkpoint(
                CheckpointError::InvalidFencingToken,
            ),
        },
{
    if fence.fencing_token <= 0 {
        Err(SnapshotTargetError::Checkpoint(CheckpointError::InvalidFencingToken))
    } else {
        Ok(())
    }
}

/// The bounds of one pass over the quarantines of a pipeline.
#[derive(Debug, Clone, Copy, PartialEq, Eq, Structural)]
pub struct QuarantineGcBatch {
    pub retention_micros: i64,
    pub limit: i64,
}

/// Decides whether the policy asks for a pass, and within which bounds. Without a retention there
/// is none, whatever else the policy and the fence hold.
pub fn plan_quarantine_gc(policy: QuarantineGcPolicy, fence: PipelineFence) -> (r: Result<
    Option<QuarantineGcBatch>,
    SnapshotTargetError,
>)
    ensures
        match r {
            Ok(None) => policy.retention is None,
            Ok(Some(batch)) => {
                &&& policy.fault() is None
                &&& policy.micros() == Some(batch.retention_micros as int)
                &&& batch.limit == policy.max_tables
                &&& fence.fencing_token > 0
            },
            Err(e) => {
                &&& policy.retention is Some
                &&& if policy.fault() is Some {
                    policy.fault() == Some(e)
                } else if policy.micros()->0 > i64::MAX {
                    e == SnapshotTargetError::InvalidQuarantineRetention
                } else {
                    fence.fencing_token <= 0 && e == SnapshotTargetError::Checkpoint(
                        CheckpointError::InvalidFencingToken,
                    )
                }
            },
        },
{
    let retention_micros: i64 = match policy.retention_micros() {
        Err(e) => return Err(e),
        Ok(None) => return Ok(None),
        Ok(Some(micros)) => micros,
    };
    match require_fencing_token(fence) {
        Err(e) => Err(e),
        Ok(()) => Ok(
            Some(QuarantineGcBatch { retention_micros, limit: policy.max_tables as i64 }),
        ),
    }
}

// ---------------------------------------------------------------------------------------------
// Interrupted loads
// ---------------------------------------------------------------------------------------------

/// The caller may remove the group.
pub open spec fn may_clean(request: SnapshotGroupCleanupRequest) -> bool {
    &&& request.snapshot_group_id.value != 0
    &&& request.group_fence.fencing_token > 0
    &&& request.current_fence.pipeline_id == request.group_fence.pipeline_id
    &&& request.current_fence.topology_generation >= request.group_fence.topology_generation
    &&& request.current_fence.fencing_token >= request.group_fence.fencing_token
}

pub fn validate_cleanup_request(request: SnapshotGroupCleanupRequest) -> (r: Result<
    (),
    SnapshotTargetError,
>)
    ensures
        match r {
            Ok(()) => may_clean(request),
            Err(e) => !may_clean(request) && e == SnapshotTargetError::InvalidSnapshotCleanupFence,
        },
{
    if request.snapshot_group_id.is_nil() || request.current_fence.fencing_token <= 0
        || request.group_fence.fencing_token <= 0 || request.current_fence.pipeline_id
        != request.group_fence.pipeline_id || request.current_fence.topology_generation
        < request.group_fence.topology_generation || request.current_fence.fencing_token
        < request.group_fence.fencing_token {
        return Err(SnapshotTargetError::InvalidSnapshotCleanupFence);
    }
    Ok(())
}

/// The header of a stale group as the target returns it.
#[derive(Debug, Clone, Copy, PartialEq, Eq, Structural)]
pub struct StaleGroupRow {
    pub snapshot_group_id: Uuid,
    pub topology_generation: i64,
    pub fencing_token: i64,
}

/// The cleanup that a stale group asks for.
pub open spec fn stale_request(current: PipelineFence, row: StaleGroupRow) ->
    SnapshotGroupCleanupRequest {
    SnapshotGroupCleanupRequest {
        current_fence: current,
        group_fence: PipelineFence {
            pipeline_id: current.pipeline_id,
            topology_generation: row.topology_generation as u64,
            fencing_token: row.fencing_token,
        },
        snapshot_group_id: row.snapshot_group_id,
    }
}

/// Turns a stale group into a cleanup that the caller may run.
pub fn stale_cleanup(current: PipelineFence, row: StaleGroupRow) -> (r: Result<
    SnapshotGroupCleanupRequest,
    SnapshotTargetError,
>)
    ensures
        match r {
            Ok(request) => {
                &&& row.topology_generation >= 0
                &&& request == stale_request(current, row)
                &&& may_clean(request)
            },
            Err(e) => if row.topology_generation < 0 {
                e == SnapshotTargetError::CorruptSnapshotGroupManifest(row.snapshot_group_id)
            } else {
                !may_clean(stale_request(current, row)) && e
                    == SnapshotTargetError::InvalidSnapshotCleanupFence
            },
        },
{
    if row.topology_generation < 0 {
        return Err(SnapshotTargetError::CorruptSnapshotGroupManifest(row.snapshot_group_id));
    }
    let request = SnapshotGroupCleanupRequest {
        current_fence: current,
        group_fence: PipelineFence {
            pipeline_id: current.pipeline_id,
            topology_generation: row.topology_generation as u64,
            fencing_token: row.fencing_token,
        },
        snapshot_group_id: row.snapshot_group_id,
    };
    match validate_cleanup_request(request) {
        Err(e) => Err(e),
        Ok(()) => Ok(request),
    }
}

pub fn validate_group_fence(actual: &PipelineFence, request: SnapshotGroupCleanupRequest) -> (r:
    Result<(), SnapshotTargetError>)
    ensures
        match r {
            Ok(()) => *actual == request.group_fence,
            Err(e) => *actual != request.group_fence && e
                == (SnapshotTargetError::SnapshotGroupFenceMismatch {
                group: request.snapshot_group_id,
                expected_generation: request.group_fence.topology_generation,
                expected_token: request.group_fence.fencing_token,
                actual_generation: actual.topology_generation,
                actual_token: actual.fencing_token,
            }),
        },
{
    if *actual == request.group_fence {
        return Ok(());
    }
    Err(
        SnapshotTargetError::SnapshotGroupFenceMismatch {
            group: request.snapshot_group_id,
            expected_generation: request.group_fence.topology_generation,
            expected_token: request.group_fence.fencing_token,
            actual_generation: actual.topology_generation,
            actual_token: actual.fencing_token,
        },
    )
}

/// Only a loading group with exactly the expected fence is removed.
pub fn judge_cleanup_group(stored: &StoredSnapshotGroup, request: SnapshotGroupCleanupRequest) -> (r:
    Result<(), SnapshotTargetError>)
    ensures
        match r {
            Ok(()) => stored.request.fence == request.group_fence && stored.state
                == SnapshotGroupStatus::Loading,
            Err(e) => if stored.request.fence != request.group_fence {
                e == (SnapshotTargetError::SnapshotGroupFenceMismatch {
                    group: request.snapshot_group_id,
                    expected_generation: request.group_fence.topology_generation,
                    expected_token: request.group_fence.fencing_token,
                    actual_generation: stored.request.fence.topology_generation,
                    actual_token: stored.request.fence.fencing_token,
                })
            } else {
                stored.state == SnapshotGroupStatus::Active && e
                    == SnapshotTargetError::SnapshotGroupNotLoading(request.snapshot_group_id)
            },
        },
{
    match validate_group_fence(&stored.request.fence, request) {
        Err(e) => return Err(e),
        Ok(()) => {},
    }
    match stored.state {
        SnapshotGroupStatus::Loading => Ok(()),
        SnapshotGroupStatus::Active => Err(
            SnapshotTargetError::SnapshotGroupNotLoading(request.snapshot_group_id),
        ),
    }
}

/// The record is that of the manifest table's shadow, written under the group's own fence.
pub open spec fn shadow_owned(
    record: ManagedTableRecord,
    group: Uuid,
    fence: PipelineFence,
    table: SnapshotActivationTable,
) -> bool {
    &&& record.pipeline_id == fence.pipeline_id
    &&& record.snapshot_group_id == Some(group)
    &&& record.source_relation_id == table.source_relation_id
    &&& record.table_generation == table.table_generation
    &&& record.schema_fingerprint@ == table.schema_fingerprint@
    &&& record.state == ManagedTableState::Shadow
    &&& record.fencing_token == fence.fencing_token
    &&& record.relation_oid is Some
}

/// The error tells why the shadow is not the group's.
pub open spec fn refuses_shadow_owner(
    e: SnapshotTargetError,
    record: ManagedTableRecord,
    group: Uuid,
    fence: PipelineFence,
    table: SnapshotActivationTable,
) -> bool {
    if record.pipeline_id != fence.pipeline_id {
        e matches SnapshotTargetError::ManagedByOtherPipeline { table: t, expected, actual } && t@
            == table.shadow@.text() && expected == fence.pipeline_id && actual
            == record.pipeline_id
    } else if shadow_owned(
        ManagedTableRecord { relation_oid: Some(0), ..record },
        group,
        fence,
        table,
    ) {
        e matches SnapshotTargetError::MissingRelationIdentity(t) && t@ == table.shadow@.text()
    } else {
        e matches SnapshotTargetError::SnapshotTableManifestMismatch { group: g, table: t } && g
            == group && t@ == table.shadow@.text()
    }
}

pub fn validate_shadow_ownership(
    table: &SnapshotActivationTable,
    record: &ManagedTableRecord,
    group: Uuid,
    fence: &PipelineFence,
) -> (r: Result<(), SnapshotTargetError>)
    ensures
        match r {
            Ok(()) => shadow_owned(*record, group, *fence, *table),
            Err(e) => !shadow_owned(*record, group, *fence, *table) && refuses_shadow_owner(
                e,
                *record,
                group,
                *fence,
                *table,
            ),
        },
{
    if record.pipeline_id != fence.pipeline_id {
        return Err(
            SnapshotTargetError::ManagedByOtherPipeline {
                table: table.shadow.display(),
                expected: fence.pipeline_id,
                actual: record.pipeline_id,
            },
        );
    }
    if !is_group(record.snapshot_group_id, group) || record.source_relation_id
        != table.source_relation_id || record.table_generation != table.table_generation
        || !same_text(record.schema_fingerprint.as_str(), table.schema_fingerprint.as_str())
        || record.state != ManagedTableState::Shadow || record.fencing_token
        != fence.fencing_token {
        return Err(
            SnapshotTargetError::SnapshotTableManifestMismatch {
                group,
                table: table.shadow.display(),
            },
        );
    }
    if record.relation_oid.is_none() {
        return Err(SnapshotTargetError::MissingRelationIdentity(table.shadow.display()));
    }
    Ok(())
}

/// The shadow of a manifest table may be removed; one that was never loaded is not there.
pub open spec fn shadow_removable(
    state: RelationState,
    group: Uuid,
    fence: PipelineFence,
    table: SnapshotActivationTable,
) -> bool {
    match state {
        RelationState::Vacant => true,
        RelationState::Managed(record) => shadow_owned(record, group, fence, table),
        _ => false,
    }
}

/// The error tells why the shadow of a manifest table may not be removed.
pub open spec fn refuses_removal(
    e: SnapshotTargetError,
    state: RelationState,
    group: Uuid,
    fence: PipelineFence,
    table: SnapshotActivationTable,
) -> bool {
    match state {
        RelationState::Vacant => false,
        RelationState::Unmanaged => e matches SnapshotTargetError::ExistingUnmanagedTable(t) && t@
            == table.shadow@.text(),
        RelationState::ManagedObjectMissing(_) =>
            e matches SnapshotTargetError::ManagedRelationMissing(t) && t@ == table.shadow@.text(),
        RelationState::Managed(record) => refuses_shadow_owner(e, record, group, fence, table),
    }
}

/// Checks the shadow of one manifest table and gives its record, where it has one.
///
/// Registration precedes per-table COPY, so an interrupted group may legitimately have no
/// committed shadow yet for some manifest entries.
pub fn judge_cleanup_shadow(
    state: RelationState,
    group: Uuid,
    fence: &PipelineFence,
    table: &SnapshotActivationTable,
) -> (r: Result<Option<ManagedTableRecord>, SnapshotTargetError>)
    ensures
        match r {
            Ok(Some(record)) => state == RelationState::Managed(record) && shadow_owned(
                record,
                group,
                *fence,
                *table,
            ),
            Ok(None) => state is Vacant,
            Err(e) => !shadow_removable(state, group, *fence, *table) && refuses_removal(
                e,
                state,
                group,
                *fence,
                *table,
            ),
        },
{
    match state {
        RelationState::Vacant => Ok(None),
        RelationState::ManagedObjectMissing(_) => Err(
            SnapshotTargetError::ManagedRelationMissing(table.shadow.display()),
        ),
        RelationState::Unmanaged => Err(
            SnapshotTargetError::ExistingUnmanagedTable(table.shadow.display()),
        ),
        RelationState::Managed(record) => {
            match validate_shadow_ownership(table, &record, group, fence) {
                Err(e) => Err(e),
                Ok(()) => Ok(Some(record)),
            }
        },
    }
}

/// The relation is still the one that was registered.
pub fn validate_relation_identity(
    table: &QualifiedName,
    record: &ManagedTableRecord,
    actual: Option<i64>,
) -> (r: Result<i64, SnapshotTargetError>)
    ensures
        match r {
            Ok(oid) => record.relation_oid == Some(oid) && actual == Some(oid),
            Err(e) => match (record.relation_oid, actual) {
                (None, _) => e matches SnapshotTargetError::MissingRelationIdentity(t) && t@
                    == table@.text(),
                (Some(_), None) => e matches SnapshotTargetError::ManagedRelationMissing(t) && t@
                    == table@.text(),
                (Some(expected), Some(found)) => expected != found && (
                e matches SnapshotTargetError::RelationIdentityMismatch {
                    table: t,
                    expected: x,
                    actual: a,
                } && t@ == table@.text() && x == expected && a == found),
            },
        },
{
    let expected: i64 = match record.relation_oid {
        None => return Err(SnapshotTargetError::MissingRelationIdentity(table.display())),
        Some(oid) => oid,
    };
    let found: i64 = match actual {
        None => return Err(SnapshotTargetError::ManagedRelationMissing(table.display())),
        Some(oid) => oid,
    };
    if found != expected {
        return Err(
            SnapshotTargetError::RelationIdentityMismatch {
                table: table.display(),
                expected,
                actual: found,
            },
        );
    }
    Ok(expected)
}

/// The manifest names the shadow.
pub open spec fn names_shadow(tables: Seq<SnapshotActivationTable>, shadow: NameView) -> bool {
    exists|i: int| 0 <= i < tables.len() && (#[trigger] tables[i]).shadow@ == shadow
}

/// Refuses a registered shadow that the manifest does not name: whether it is safe to drop cannot
/// be told.
pub fn check_registered_shadow(tables: &[SnapshotActivationTable], schema: &str, name: &str) -> (r:
    Result<(), SnapshotTargetError>)
    ensures
        ({
            let shadow = NameView { schema: schema@, name: name@ };
            match r {
                Ok(()) => shadow.fault() is None && names_shadow(tables@, shadow),
                Err(e) => match shadow.fault() {
                    Some(fault) => e == SnapshotTargetError::Schema(SchemaError::Core(fault)),
                    None => !names_shadow(tables@, shadow) && (
                    e matches SnapshotTargetError::UnexpectedSnapshotShadow(t) && t@
                        == shadow.text()),
                },
            }
        }),
{
    let shadow = match QualifiedName::new(schema, name) {
        Err(e) => return Err(SnapshotTargetError::Schema(SchemaError::Core(e))),
        Ok(shadow) => shadow,
    };
    let mut i: usize = 0;
    while i < tables.len()
        invariant
            i <= tables.len(),
            shadow@ == (NameView { schema: schema@, name: name@ }),
            shadow@.fault() is None,
            forall|k: int| 0 <= k < i ==> (#[trigger] tables@[k]).shadow@ != shadow@,
        decreases tables.len() - i,
    {
        if tables[i].shadow.same(&shadow) {
            return Ok(());
        }
        i = i + 1;
    }
    Err(SnapshotTargetError::UnexpectedSnapshotShadow(shadow.display()))
}

/// As many rows of the manifest go away as it had.
pub fn ensure_manifest_removed(group: Uuid, deleted: u64, members: usize) -> (r: Result<
    (),
    SnapshotTargetError,
>)
    ensures
        match r {
            Ok(()) => deleted == members,
            Err(e) => deleted != members && e == SnapshotTargetError::CorruptSnapshotGroupManifest(
                group,
            ),
        },
{
    if deleted == members as u64 {
        Ok(())
    } else {
        Err(SnapshotTargetError::CorruptSnapshotGroupManifest(group))
    }
}

// ---------------------------------------------------------------------------------------------
// The cleanup of a group
// ---------------------------------------------------------------------------------------------

/// What the target holds under a name: its metadata, and the relation in the catalog.
#[derive(Debug, Clone, PartialEq, Eq)]
pub struct FoundRelation {
    pub state: RelationState,
    pub oid: Option<i64>,
}

/// The name of a shadow that is registered for a group, as the target returns it.
#[derive(Debug, Clone, PartialEq, Eq)]
pub struct ShadowRow {
    pub target_schema: String,
    pub target_table: String,
}

impl ShadowRow {
    pub open spec fn name(self) -> NameView {
        NameView { schema: self.target_schema@, name: self.target_table@ }
    }
}

/// The shadow of a manifest table is the group's own, and still the relation that was registered.
pub open spec fn shadow_droppable(
    found: FoundRelation,
    group: Uuid,
    fence: PipelineFence,
    table: SnapshotActivationTable,
) -> bool {
    found.state matches RelationState::Managed(record) && shadow_owned(record, group, fence, table)
        && found.oid == record.relation_oid
}

/// Nothing about the shadow of a manifest table stands against a cleanup.
pub open spec fn shadow_clear(
    found: FoundRelation,
    group: Uuid,
    fence: PipelineFence,
    table: SnapshotActivationTable,
) -> bool {
    found.state is Vacant || shadow_droppable(found, group, fence, table)
}

/// The error tells why the shadow of a manifest table stands against a cleanup.
pub open spec fn refuses_drop(
    e: SnapshotTargetError,
    found: FoundRelation,
    group: Uuid,
    fence: PipelineFence,
    table: SnapshotActivationTable,
) -> bool {
    if !shadow_removable(found.state, group, fence, table) {
        refuses_removal(e, found.state, group, fence, table)
    } else {
        found.state matches RelationState::Managed(record) && match found.oid {
            None => e matches SnapshotTargetError::ManagedRelationMissing(t) && t@
                == table.shadow@.text(),
            Some(actual) => e matches SnapshotTargetError::RelationIdentityMismatch {
                table: t,
                expected,
                actual: a,
            } && t@ == table.shadow@.text() && Some(expected) == record.relation_oid && a
                == actual,
        }
    }
}

/// The first of the first `count` manifest tables whose shadow stands against the cleanup.
pub open spec fn first_unclear(
    tables: Seq<SnapshotActivationTable>,
    found: Seq<FoundRelation>,
    group: Uuid,
    fence: PipelineFence,
    count: int,
) -> Option<int>
    decreases count,
{
    if count <= 0 {
        None
    } else if first_unclear(tables, found, group, fence, count - 1) is Some {
        first_unclear(tables, found, group, fence, count - 1)
    } else if shadow_clear(found[count - 1], group, fence, tables[count - 1]) {
        None
    } else {
        Some(count - 1)
    }
}

/// The registered shadow is one that the manifest names.
pub open spec fn registration_known(tables: Seq<SnapshotActivationTable>, row: ShadowRow) -> bool {
    row.name().fault() is None && names_shadow(tables, row.name())
}

/// The first of the first `count` registered shadows that the manifest does not name.
pub open spec fn first_unknown(
    tables: Seq<SnapshotActivationTable>,
    rows: Seq<ShadowRow>,
    count: int,
) -> Option<int>
    decreases count,
{
    if count <= 0 {
        None
    } else if first_unknown(tables, rows, count - 1) is Some {
        first_unknown(tables, rows, count - 1)
    } else if registration_known(tables, rows[count - 1]) {
        None
    } else {
        Some(count - 1)
    }
}

/// The error tells why a registered shadow is not one of the manifest.
pub open spec fn refuses_registration(e: SnapshotTargetError, row: ShadowRow) -> bool {
    match row.name().fault() {
        Some(fault) => e == SnapshotTargetError::Schema(SchemaError::Core(fault)),
        None => e matches SnapshotTargetError::UnexpectedSnapshotShadow(t) && t@
            == row.name().text(),
    }
}

/// The shadows of the first `count` manifest tables that a cleanup drops, in the manifest's order.
pub open spec fn group_drops(
    tables: Seq<SnapshotActivationTable>,
    found: Seq<FoundRelation>,
    count: int,
) -> Seq<CompletedSnapshotTableIdentity>
    decreases count,
{
    if count <= 0 {
        Seq::empty()
    } else {
        let before = group_drops(tables, found, count - 1);
        match (found[count - 1].state, found[count - 1].oid) {
            (RelationState::Managed(_), Some(oid)) => before.push(
                CompletedSnapshotTableIdentity {
                    table: tables[count - 1],
                    shadow_relation_oid: oid,
                },
            ),
            _ => before,
        }
    }
}

/// The group may be cleaned up: it is loading under exactly the expected fence.
pub open spec fn group_cleanable(
    stored: StoredSnapshotGroup,
    request: SnapshotGroupCleanupRequest,
) -> bool {
    stored.request.fence == request.group_fence && stored.state == SnapshotGroupStatus::Loading
}

/// The error tells why the group may not be cleaned up.
pub open spec fn refuses_group(
    e: SnapshotTargetError,
    stored: StoredSnapshotGroup,
    request: SnapshotGroupCleanupRequest,
) -> bool {
    if stored.request.fence != request.group_fence {
        e == (SnapshotTargetError::SnapshotGroupFenceMismatch {
            group: request.snapshot_group_id,
            expected_generation: request.group_fence.topology_generation,
            expected_token: request.group_fence.fencing_token,
            actual_generation: stored.request.fence.topology_generation,
            actual_token: stored.request.fence.fencing_token,
        })
    } else {
        e == SnapshotTargetError::SnapshotGroupNotLoading(request.snapshot_group_id)
    }
}

/// Decides the cleanup of a whole group: either every shadow that it loaded is dropped, or
/// nothing is.
///
/// `found` tells what the target holds under the shadow's name of each manifest table, and
/// `registered` every shadow that is registered for the group.
pub fn plan_cleanup(
    stored: &StoredSnapshotGroup,
    request: SnapshotGroupCleanupRequest,
    found: &[FoundRelation],
    registered: &[ShadowRow],
) -> (r: Result<Vec<CompletedSnapshotTableIdentity>, SnapshotTargetError>)
    requires
        found@.len() == stored.request.tables@.len(),
    ensures
        ({
            let tables = stored.request.tables@;
            let group = request.snapshot_group_id;
            let fence = stored.request.fence;
            let unclear = first_unclear(tables, found@, group, fence, tables.len() as int);
            let unknown = first_unknown(tables, registered@, registered@.len() as int);
            match r {
                Ok(drops) => {
                    &&& group_cleanable(*stored, request)
                    &&& unclear is None
                    &&& unknown is None
                    &&& drops@ == group_drops(tables, found@, tables.len() as int)
                },
                Err(e) => if !group_cleanable(*stored, request) {
                    refuses_group(e, *stored, request)
                } else if unclear is Some {
                    refuses_drop(e, found@[unclear->0], group, fence, tables[unclear->0])
                } else {
                    unknown is Some && refuses_registration(e, registered@[unknown->0])
                },
            }
        }),
{
    match judge_cleanup_group(stored, request) {
        Err(e) => return Err(e),
        Ok(()) => {},
    }
    let tables = &stored.request.tables;
    let group = request.snapshot_group_id;
    let fence = stored.request.fence;
    let mut drops: Vec<CompletedSnapshotTableIdentity> = Vec::new();
    let mut i: usize = 0;
    while i < tables.len()
        invariant
            i <= tables@.len(),
            tables@ == stored.request.tables@,
            fence == stored.request.fence,
            group == request.snapshot_group_id,
            found@.len() == tables@.len(),
            group_cleanable(*stored, request),
            first_unclear(tables@, found@, group, fence, i as int) is None,
            drops@ == group_drops(tables@, found@, i as int),
        decreases tables.len() - i,
    {
        let ghost at = i as int;
        match judge_shadow_drop(&found[i], group, &fence, &tables[i]) {
            Err(e) => {
                proof {
                    assert(first_unclear(tables@, found@, group, fence, at + 1) == Some(at));
                    lemma_first_unclear_stays(
                        tables@,
                        found@,
                        group,
                        fence,
                        at + 1,
                        tables@.len() as int,
                    );
                }
                return Err(e);
            },
            Ok(None) => {},
            Ok(Some(oid)) => {
                drops.push(
                    CompletedSnapshotTableIdentity {
                        table: tables[i].clone(),
                        shadow_relation_oid: oid,
                    },
                );
            },
        }
        i = i + 1;
    }
    let mut n: usize = 0;
    while n < registered.len()
        invariant
            n <= registered@.len(),
            tables@ == stored.request.tables@,
            first_unknown(tables@, registered@, n as int) is None,
            first_unclear(tables@, found@, group, fence, tables@.len() as int) is None,
            group_cleanable(*stored, request),
            fence == stored.request.fence,
            group == request.snapshot_group_id,
        decreases registered.len() - n,
    {
        let ghost at = n as int;
        match check_registered_shadow(
            tables.as_slice(),
            registered[n].target_schema.as_str(),
            registered[n].target_table.as_str(),
        ) {
            Err(e) => {
                proof {
                    assert(first_unknown(tables@, registered@, at + 1) == Some(at));
                    lemma_first_unknown_stays(
                        tables@,
                        registered@,
                        at + 1,
                        registered@.len() as int,
                    );
                }
                return Err(e);
            },
            Ok(()) => {},
        }
        n = n + 1;
    }
    Ok(drops)
}

/// Checks what the target holds under the name of a manifest table's shadow, and gives the
/// relation that may be dropped, where there is one.
fn judge_shadow_drop(
    found: &FoundRelation,
    group: Uuid,
    fence: &PipelineFence,
    table: &SnapshotActivationTable,
) -> (r: Result<Option<i64>, SnapshotTargetError>)
    ensures
        match r {
            Ok(None) => found.state is Vacant,
            Ok(Some(oid)) => shadow_droppable(*found, group, *fence, *table) && found.oid == Some(
                oid,
            ),
            Err(e) => !shadow_clear(*found, group, *fence, *table) && refuses_drop(
                e,
                *found,
                group,
                *fence,
                *table,
            ),
        },
{
    match judge_cleanup_shadow(found.state.clone(), group, fence, table) {
        Err(e) => Err(e),
        Ok(None) => Ok(None),
        Ok(Some(record)) => match validate_relation_identity(&table.shadow, &record, found.oid) {
            Err(e) => Err(e),
            Ok(oid) => Ok(Some(oid)),
        },
    }
}

proof fn lemma_first_unclear_stays(
    tables: Seq<SnapshotActivationTable>,
    found: Seq<FoundRelation>,
    group: Uuid,
    fence: PipelineFence,
    from: int,
    to: int,
)
    requires
        0 <= from <= to,
        first_unclear(tables, found, group, fence, from) is Some,
    ensures
        first_unclear(tables, found, group, fence, to) == first_unclear(
            tables,
            found,
            group,
            fence,
            from,
        ),
    decreases to - from,
{
    if from < to {
        lemma_first_unclear_stays(tables, found, group, fence, from, to - 1);
    }
}

proof fn lemma_first_unknown_stays(
    tables: Seq<SnapshotActivationTable>,
    rows: Seq<ShadowRow>,
    from: int,
    to: int,
)
    requires
        0 <= from <= to,
        first_unknown(tables, rows, from) is Some,
    ensures
        first_unknown(tables, rows, to) == first_unknown(tables, rows, from),
    decreases to - from,
{
    if from < to {
        lemma_first_unknown_stays(tables, rows, from, to - 1);
    }
}

// ---------------------------------------------------------------------------------------------
// Quarantines
// ---------------------------------------------------------------------------------------------

/// The immutable record of a quarantined table.
#[derive(Debug, PartialEq, Eq)]
pub struct QuarantineRecord {
    pub snapshot_group_id: Uuid,
    pub original: QualifiedName,
    pub quarantine: QualifiedName,
    pub relation_oid: i64,
    pub pipeline_id: PipelineId,
    pub topology_generation: u64,
    pub source_relation_id: u32,
    pub previous_snapshot_group_id: Option<Uuid>,
    pub table_generation: u64,
    pub schema_fingerprint: String,
    pub previous_fencing_token: i64,
    pub fencing_token: i64,
}

/// The record of a quarantined table as the target returns it.
#[derive(Debug, PartialEq, Eq)]
pub struct QuarantineRow {
    pub snapshot_group_id: Uuid,
    pub original_schema: String,
    pub original_table: String,
    pub quarantine_schema: String,
    pub quarantine_table: String,
    pub quarantine_relation_oid: Option<i64>,
    pub pipeline_id: Uuid,
    pub topology_generation: i64,
    pub source_relation_id: i64,
    pub previous_snapshot_group_id: Option<Uuid>,
    pub table_generation: i64,
    pub schema_fingerprint: String,
    pub previous_fencing_token: Option<i64>,
    pub fencing_token: i64,
}

impl QuarantineRow {
    pub open spec fn original(self) -> NameView {
        NameView { schema: self.original_schema@, name: self.original_table@ }
    }

    pub open spec fn quarantine(self) -> NameView {
        NameView { schema: self.quarantine_schema@, name: self.quarantine_table@ }
    }

    /// Why the row names no relations, if it does not.
    pub open spec fn name_fault(self) -> Option<CoreError> {
        if self.original().fault() is Some {
            self.original().fault()
        } else {
            self.quarantine().fault()
        }
    }

    /// The numbers of the row are in range.
    pub open spec fn in_range(self) -> bool {
        &&& self.topology_generation >= 0
        &&& 0 <= self.source_relation_id <= u32::MAX
        &&& self.table_generation >= 0
    }

    /// The row has a catalog identity.
    pub open spec fn identified(self) -> bool {
        self.quarantine_relation_oid matches Some(oid) && oid > 0
    }

    /// The row tells a valid owner.
    pub open spec fn owned(self) -> bool {
        &&& self.previous_fencing_token matches Some(token) && token > 0
        &&& self.snapshot_group_id.value != 0
        &&& self.schema_fingerprint@.len() > 0
        &&& self.fencing_token > 0
    }

    /// The row holds the record.
    pub open spec fn holds(self, record: QuarantineRecord) -> bool {
        &&& record.snapshot_group_id == self.snapshot_group_id
        &&& record.original@ == self.original()
        &&& record.quarantine@ == self.quarantine()
        &&& self.quarantine_relation_oid == Some(record.relation_oid)
        &&& record.pipeline_id.uuid == self.pipeline_id
        &&& record.topology_generation == self.topology_generation
        &&& record.source_relation_id == self.source_relation_id
        &&& record.previous_snapshot_group_id == self.previous_snapshot_group_id
        &&& record.table_generation == self.table_generation
        &&& record.schema_fingerprint == self.schema_fingerprint
        &&& self.previous_fencing_token == Some(record.previous_fencing_token)
        &&& record.fencing_token == self.fencing_token
    }
}

/// The error names the quarantine whose record is not to be trusted.
pub open spec fn mismatches_record(e: SnapshotTargetError, quarantine: NameView) -> bool {
    e matches SnapshotTargetError::QuarantineRecordMismatch(t) && t@ == quarantine.text()
}

/// Reads the record of a quarantined table.
pub fn quarantine_record_from_row(row: QuarantineRow) -> (r: Result<
    QuarantineRecord,
    SnapshotTargetError,
>)
    ensures
        match r {
            Ok(record) => {
                &&& row.name_fault() is None
                &&& row.in_range()
                &&& row.identified()
                &&& row.owned()
                &&& row.holds(record)
            },
            Err(e) => match row.name_fault() {
                Some(fault) => e == SnapshotTargetError::Schema(SchemaError::Core(fault)),
                None => if row.in_range() && !row.identified() {
                    e matches SnapshotTargetError::MissingRelationIdentity(t) && t@
                        == row.quarantine().text()
                } else {
                    &&& !row.in_range() || !row.owned()
                    &&& mismatches_record(e, row.quarantine())
                },
            },
        },
{
    let original = match QualifiedName::new(
        row.original_schema.as_str(),
        row.original_table.as_str(),
    ) {
        Err(e) => return Err(SnapshotTargetError::Schema(SchemaError::Core(e))),
        Ok(name) => name,
    };
    let quarantine = match QualifiedName::new(
        row.quarantine_schema.as_str(),
        row.quarantine_table.as_str(),
    ) {
        Err(e) => return Err(SnapshotTargetError::Schema(SchemaError::Core(e))),
        Ok(name) => name,
    };
    if row.topology_generation < 0 || row.source_relation_id < 0 || row.source_relation_id
        > u32::MAX as i64 || row.table_generation < 0 {
        return Err(SnapshotTargetError::QuarantineRecordMismatch(quarantine.display()));
    }
    let relation_oid: i64 = match row.quarantine_relation_oid {
        None => {
            return Err(SnapshotTargetError::MissingRelationIdentity(quarantine.display()));
        },
        Some(oid) => oid,
    };
    if relation_oid <= 0 {
        return Err(SnapshotTargetError::MissingRelationIdentity(quarantine.display()));
    }
    let previous_fencing_token: i64 = match row.previous_fencing_token {
        None => {
            return Err(SnapshotTargetError::QuarantineRecordMismatch(quarantine.display()));
        },
        Some(token) => token,
    };
    if previous_fencing_token <= 0 || row.snapshot_group_id.is_nil()
        || row.schema_fingerprint.as_str().is_empty() || row.fencing_token <= 0 {
        return Err(SnapshotTargetError::QuarantineRecordMismatch(quarantine.display()));
    }
    Ok(
        QuarantineRecord {
            snapshot_group_id: row.snapshot_group_id,
            original,
            quarantine,
            relation_oid,
            pipeline_id: PipelineId::from_uuid(row.pipeline_id),
            topology_generation: row.topology_generation as u64,
            source_relation_id: row.source_relation_id as u32,
            previous_snapshot_group_id: row.previous_snapshot_group_id,
            table_generation: row.table_generation as u64,
            schema_fingerprint: row.schema_fingerprint,
            previous_fencing_token,
            fencing_token: row.fencing_token,
        },
    )
}

/// The caller's fence covers the record.
pub open spec fn fence_covers(record: QuarantineRecord, fence: PipelineFence) -> bool {
    &&& record.pipeline_id == fence.pipeline_id
    &&& record.topology_generation <= fence.topology_generation
    &&& record.fencing_token <= fence.fencing_token
}

pub fn validate_quarantine_record(record: &QuarantineRecord, fence: PipelineFence) -> (r: Result<
    (),
    SnapshotTargetError,
>)
    ensures
        match r {
            Ok(()) => fence_covers(*record, fence),
            Err(e) => !fence_covers(*record, fence) && e
                == SnapshotTargetError::InvalidSnapshotCleanupFence,
        },
{
    if record.pipeline_id != fence.pipeline_id || record.topology_generation
        > fence.topology_generation || record.fencing_token > fence.fencing_token {
        return Err(SnapshotTargetError::InvalidSnapshotCleanupFence);
    }
    Ok(())
}

/// The metadata that the table had before it went into quarantine.
pub open spec fn previous_record(record: QuarantineRecord) -> ManagedTableRecord {
    ManagedTableRecord {
        pipeline_id: record.pipeline_id,
        snapshot_group_id: record.previous_snapshot_group_id,
        relation_oid: Some(record.relation_oid),
        source_relation_id: record.source_relation_id,
        table_generation: record.table_generation,
        schema_fingerprint: record.schema_fingerprint,
        state: ManagedTableState::Quarantined,
        fencing_token: record.previous_fencing_token,
    }
}

/// The quarantine must have the name that its record leads to.
pub fn check_quarantine_name(record: &QuarantineRecord) -> (r: Result<(), SnapshotTargetError>)
    ensures
        ({
            let expected = quarantine_view(record.original@, previous_record(*record));
            match r {
                Ok(()) => expected.fault() is None && expected == record.quarantine@,
                Err(e) => match expected.fault() {
                    Some(fault) => e == SnapshotTargetError::Schema(SchemaError::Core(fault)),
                    None => expected != record.quarantine@ && mismatches_record(
                        e,
                        record.quarantine@,
                    ),
                },
            }
        }),
{
    let previous = ManagedTableRecord {
        pipeline_id: record.pipeline_id,
        snapshot_group_id: record.previous_snapshot_group_id,
        relation_oid: Some(record.relation_oid),
        source_relation_id: record.source_relation_id,
        table_generation: record.table_generation,
        schema_fingerprint: record.schema_fingerprint.clone(),
        state: ManagedTableState::Quarantined,
        fencing_token: record.previous_fencing_token,
    };
    let expected = match quarantine_name(&record.original, &previous) {
        Err(e) => return Err(e),
        Ok(name) => name,
    };
    if !expected.same(&record.quarantine) {
        return Err(SnapshotTargetError::QuarantineRecordMismatch(record.quarantine.display()));
    }
    Ok(())
}

/// The managed metadata is that of the recorded quarantine.
pub open spec fn metadata_matches(record: QuarantineRecord, managed: ManagedTableRecord) -> bool {
    &&& managed.state == ManagedTableState::Quarantined
    &&& managed.pipeline_id == record.pipeline_id
    &&& managed.snapshot_group_id == record.previous_snapshot_group_id
    &&& managed.source_relation_id == record.source_relation_id
    &&& managed.table_generation == record.table_generation
    &&& managed.schema_fingerprint@ == record.schema_fingerprint@
    &&& managed.fencing_token == record.fencing_token
    &&& managed.relation_oid == Some(record.relation_oid)
}

fn same_optional_group(a: Option<Uuid>, b: Option<Uuid>) -> (r: bool)
    ensures
        r == (a == b),
{
    match b {
        Some(group) => is_group(a, group),
        None => a.is_none(),
    }
}

/// Checks that the relation is the recorded quarantine, and gives its metadata.
pub fn judge_quarantine(record: &QuarantineRecord, state: RelationState) -> (r: Result<
    ManagedTableRecord,
    SnapshotTargetError,
>)
    ensures
        match r {
            Ok(managed) => state == RelationState::Managed(managed) && metadata_matches(
                *record,
                managed,
            ),
            Err(e) => match state {
                RelationState::Managed(managed) => !metadata_matches(*record, managed) && (
                e matches SnapshotTargetError::QuarantineMetadataMismatch(t) && t@
                    == record.quarantine@.text()),
                _ => e matches SnapshotTargetError::MissingQuarantineMetadata(t) && t@
                    == record.quarantine@.text(),
            },
        },
{
    let managed = match state {
        RelationState::Managed(managed) => managed,
        _ => {
            return Err(
                SnapshotTargetError::MissingQuarantineMetadata(record.quarantine.display()),
            );
        },
    };
    if managed.state != ManagedTableState::Quarantined || managed.pipeline_id
        != record.pipeline_id || !same_optional_group(
        managed.snapshot_group_id,
        record.previous_snapshot_group_id,
    ) || managed.source_relation_id != record.source_relation_id || managed.table_generation
        != record.table_generation || !same_text(
        managed.schema_fingerprint.as_str(),
        record.schema_fingerprint.as_str(),
    ) || managed.fencing_token != record.fencing_token {
        return Err(SnapshotTargetError::QuarantineMetadataMismatch(record.quarantine.display()));
    }
    match managed.relation_oid {
        None => Err(SnapshotTargetError::QuarantineMetadataMismatch(record.quarantine.display())),
        Some(oid) => {
            if oid != record.relation_oid {
                Err(SnapshotTargetError::QuarantineMetadataMismatch(record.quarantine.display()))
            } else {
                Ok(managed)
            }
        },
    }
}

/// Each quarantine has exactly one record that is not purged.
pub fn check_single_record(record: &QuarantineRecord, count: i64) -> (r: Result<
    (),
    SnapshotTargetError,
>)
    ensures
        match r {
            Ok(()) => count == 1,
            Err(e) => count != 1 && mismatches_record(e, record.quarantine@),
        },
{
    if count == 1 {
        Ok(())
    } else {
        Err(SnapshotTargetError::QuarantineRecordMismatch(record.quarantine.display()))
    }
}

/// The recorded quarantine may be dropped.
pub open spec fn purgeable(
    record: QuarantineRecord,
    fence: PipelineFence,
    found: FoundRelation,
    count: i64,
) -> bool {
    let expected = quarantine_view(record.original@, previous_record(record));
    &&& fence_covers(record, fence)
    &&& expected.fault() is None
    &&& expected == record.quarantine@
    &&& found.state matches RelationState::Managed(managed) && metadata_matches(record, managed)
    &&& found.oid == Some(record.relation_oid)
    &&& count == 1
}

/// The error tells why the recorded quarantine may not be dropped.
pub open spec fn refuses_purge(
    e: SnapshotTargetError,
    record: QuarantineRecord,
    fence: PipelineFence,
    found: FoundRelation,
) -> bool {
    let expected = quarantine_view(record.original@, previous_record(record));
    if !fence_covers(record, fence) {
        e == SnapshotTargetError::InvalidSnapshotCleanupFence
    } else if expected.fault() is Some {
        e == SnapshotTargetError::Schema(SchemaError::Core(expected.fault()->0))
    } else if expected != record.quarantine@ {
        mismatches_record(e, record.quarantine@)
    } else {
        match found.state {
            RelationState::Managed(managed) => if !metadata_matches(record, managed) {
                e matches SnapshotTargetError::QuarantineMetadataMismatch(t) && t@
                    == record.quarantine@.text()
            } else {
                match found.oid {
                    None => e matches SnapshotTargetError::ManagedRelationMissing(t) && t@
                        == record.quarantine@.text(),
                    Some(actual) => if actual != record.relation_oid {
                        e matches SnapshotTargetError::RelationIdentityMismatch {
                            table: t,
                            expected: x,
                            actual: a,
                        } && t@ == record.quarantine@.text() && x == record.relation_oid && a
                            == actual
                    } else {
                        mismatches_record(e, record.quarantine@)
                    },
                }
            },
            _ => e matches SnapshotTargetError::MissingQuarantineMetadata(t) && t@
                == record.quarantine@.text(),
        }
    }
}

/// Decides whether a recorded quarantine is dropped: `found` tells what the target holds under its
/// name, and `count` how many records about it are not purged.
pub fn judge_purge(
    record: &QuarantineRecord,
    fence: PipelineFence,
    found: FoundRelation,
    count: i64,
) -> (r: Result<(), SnapshotTargetError>)
    ensures
        match r {
            Ok(()) => purgeable(*record, fence, found, count),
            Err(e) => !purgeable(*record, fence, found, count) && refuses_purge(
                e,
                *record,
                fence,
                found,
            ),
        },
{
    match validate_quarantine_record(record, fence) {
        Err(e) => return Err(e),
        Ok(()) => {},
    }
    match check_quarantine_name(record) {
        Err(e) => return Err(e),
        Ok(()) => {},
    }
    let managed = match judge_quarantine(record, found.state) {
        Err(e) => return Err(e),
        Ok(managed) => managed,
    };
    match validate_relation_identity(&record.quarantine, &managed, found.oid) {
        Err(e) => return Err(e),
        Ok(_) => {},
    }
    check_single_record(record, count)
}

// ---------------------------------------------------------------------------------------------
// Laws
// ---------------------------------------------------------------------------------------------

#[verifier::spinoff_prover]
#[verifier::rlimit(40)]
proof fn lemma_drops(
    tables: Seq<SnapshotActivationTable>,
    found: Seq<FoundRelation>,
    group: Uuid,
    fence: PipelineFence,
    count: int,
)
    requires
        0 <= count <= tables.len(),
        found.len() == tables.len(),
        first_unclear(tables, found, group, fence, count) is None,
    ensures
        forall|i: int|
            #![trigger tables[i]]
            0 <= i < count ==> shadow_clear(found[i], group, fence, tables[i]) && (
            shadow_droppable(found[i], group, fence, tables[i]) ==> group_drops(
                tables,
                found,
                count,
            ).contains(
                CompletedSnapshotTableIdentity {
                    table: tables[i],
                    shadow_relation_oid: found[i].oid->0,
                },
            )),
        forall|k: int|
            #![trigger group_drops(tables, found, count)[k]]
            0 <= k < group_drops(tables, found, count).len() ==> exists|i: int|
                {
                    &&& 0 <= i < count
                    &&& (#[trigger] tables[i]) == group_drops(tables, found, count)[k].table
                    &&& shadow_droppable(found[i], group, fence, tables[i])
                    &&& found[i].oid == Some(
                        group_drops(tables, found, count)[k].shadow_relation_oid,
                    )
                },
    decreases count,
{
    if count > 0 {
        lemma_drops(tables, found, group, fence, count - 1);
        let before = group_drops(tables, found, count - 1);
        let after = group_drops(tables, found, count);
        let last = count - 1;
        assert(shadow_clear(found[last], group, fence, tables[last]));
        assert forall|i: int| #![trigger tables[i]] 0 <= i < count && shadow_droppable(
            found[i],
            group,
            fence,
            tables[i],
        ) implies after.contains(
            CompletedSnapshotTableIdentity {
                table: tables[i],
                shadow_relation_oid: found[i].oid->0,
            },
        ) by {
            let own = CompletedSnapshotTableIdentity {
                table: tables[i],
                shadow_relation_oid: found[i].oid->0,
            };
            if i < last {
                assert(before.contains(own));
                let k = choose|k: int| 0 <= k < before.len() && before[k] == own;
                assert(after[k] == own);
            } else {
                assert(after == before.push(own));
                assert(after[before.len() as int] == own);
            }
        }
        assert forall|k: int| #![trigger after[k]] 0 <= k < after.len() implies exists|i: int|
            {
                &&& 0 <= i < count
                &&& (#[trigger] tables[i]) == after[k].table
                &&& shadow_droppable(found[i], group, fence, tables[i])
                &&& found[i].oid == Some(after[k].shadow_relation_oid)
            } by {
            if k < before.len() {
                assert(after[k] == before[k]);
                let i = choose|i: int|
                    {
                        &&& 0 <= i < last
                        &&& (#[trigger] tables[i]) == before[k].table
                        &&& shadow_droppable(found[i], group, fence, tables[i])
                        &&& found[i].oid == Some(before[k].shadow_relation_oid)
                    };
                assert(tables[i] == after[k].table);
            } else {
                assert(tables[last] == after[k].table);
            }
        }
    }
}

/// A cleanup drops exactly the group's own shadows: each is a registered table's, holds the exact
/// ownership of the group and is still the relation that was registered; and where the group
/// loaded a shadow, it is dropped.
pub proof fn law_cleanup_drops_exactly_its_own(
    tables: Seq<SnapshotActivationTable>,
    found: Seq<FoundRelation>,
    group: Uuid,
    fence: PipelineFence,
)
    requires
        found.len() == tables.len(),
        first_unclear(tables, found, group, fence, tables.len() as int) is None,
    ensures
        forall|i: int|
            #![trigger tables[i]]
            0 <= i < tables.len() && !(found[i].state is Vacant) ==> group_drops(
                tables,
                found,
                tables.len() as int,
            ).contains(
                CompletedSnapshotTableIdentity {
                    table: tables[i],
                    shadow_relation_oid: found[i].oid->0,
                },
            ),
        forall|k: int|
            #![trigger group_drops(tables, found, tables.len() as int)[k]]
            0 <= k < group_drops(tables, found, tables.len() as int).len() ==> exists|i: int|
                {
                    &&& 0 <= i < tables.len()
                    &&& (#[trigger] tables[i]) == group_drops(
                        tables,
                        found,
                        tables.len() as int,
                    )[k].table
                    &&& shadow_droppable(found[i], group, fence, tables[i])
                    &&& found[i].oid == Some(
                        group_drops(tables, found, tables.len() as int)[k].shadow_relation_oid,
                    )
                },
{
    lemma_drops(tables, found, group, fence, tables.len() as int);
}

proof fn lemma_unclear_is_found(
    tables: Seq<SnapshotActivationTable>,
    found: Seq<FoundRelation>,
    group: Uuid,
    fence: PipelineFence,
    at: int,
    count: int,
)
    requires
        0 <= at < count,
        !shadow_clear(found[at], group, fence, tables[at]),
    ensures
        first_unclear(tables, found, group, fence, count) is Some,
    decreases count,
{
    if at < count - 1 {
        lemma_unclear_is_found(tables, found, group, fence, at, count - 1);
    }
}

/// A single shadow that is not exactly the group's stops the whole cleanup: no plan is made, so
/// no object is dropped.
pub proof fn law_one_foreign_shadow_stops_the_cleanup(
    tables: Seq<SnapshotActivationTable>,
    found: Seq<FoundRelation>,
    group: Uuid,
    fence: PipelineFence,
    at: int,
)
    requires
        0 <= at < tables.len(),
        !(found[at].state is Vacant),
        !shadow_droppable(found[at], group, fence, tables[at]),
    ensures
        first_unclear(tables, found, group, fence, tables.len() as int) is Some,
{
    lemma_unclear_is_found(tables, found, group, fence, at, tables.len() as int);
}

/// The record of a quarantine holds what an activation under the fence wrote about it.
pub open spec fn recorded_by_activation(
    row: QuarantineRow,
    fence: PipelineFence,
    group: Uuid,
    original: NameView,
    previous: ManagedTableRecord,
) -> bool {
    &&& row.snapshot_group_id == group
    &&& row.original() == original
    &&& row.quarantine() == quarantine_view(original, previous)
    &&& row.quarantine_relation_oid == previous.relation_oid
    &&& row.pipeline_id == fence.pipeline_id.uuid
    &&& row.topology_generation == fence.topology_generation
    &&& row.source_relation_id == previous.source_relation_id
    &&& row.previous_snapshot_group_id == previous.snapshot_group_id
    &&& row.table_generation == previous.table_generation
    &&& row.schema_fingerprint@ == previous.schema_fingerprint@
    &&& row.previous_fencing_token == Some(previous.fencing_token)
    &&& row.fencing_token == fence.fencing_token
}

/// What an activation put into quarantine can be collected later: its record is read, its name
/// and its metadata are recognised, and a fence at least as new covers it.
pub proof fn law_quarantined_table_is_recognised(
    row: QuarantineRow,
    record: QuarantineRecord,
    fence: PipelineFence,
    later: PipelineFence,
    group: Uuid,
    original: NameView,
    previous: ManagedTableRecord,
)
    requires
        recorded_by_activation(row, fence, group, original, previous),
        row.holds(record),
        previous.pipeline_id == fence.pipeline_id,
        previous.relation_oid matches Some(oid) && oid > 0,
        previous.fencing_token > 0,
        previous.schema_fingerprint@.len() > 0,
        group.value != 0,
        fence.fencing_token > 0,
        original.fault() is None,
        quarantine_view(original, previous).fault() is None,
        later.pipeline_id == fence.pipeline_id,
        later.topology_generation >= fence.topology_generation,
        later.fencing_token >= fence.fencing_token,
    ensures
        row.name_fault() is None,
        row.in_range() && row.identified() && row.owned(),
        fence_covers(record, later),
        quarantine_view(record.original@, previous_record(record)) == record.quarantine@,
        metadata_matches(
            record,
            ManagedTableRecord {
                state: ManagedTableState::Quarantined,
                fencing_token: fence.fencing_token,
                ..previous
            },
        ),
{
}

/// A worker cannot remove the load of a newer topology or fence, nor that of another pipeline.
pub proof fn law_newer_loads_are_kept(request: SnapshotGroupCleanupRequest)
    requires
        request.group_fence.pipeline_id != request.current_fence.pipeline_id
            || request.group_fence.topology_generation > request.current_fence.topology_generation
            || request.group_fence.fencing_token > request.current_fence.fencing_token,
    ensures
        !may_clean(request),
{
}

/// A policy can be worked by exactly where it has no retention, or one that is not zero with a batch
/// that is not empty; the retention counts in whole microseconds, at least one.
pub proof fn law_which_policies_can_be_worked_by(policy: QuarantineGcPolicy)
    ensures
        policy.retention is None ==> policy.fault() is None && policy.micros() is None,
        policy.retention matches Some(retention) ==> {
            &&& policy.fault() is None <==> policy.max_tables > 0 && retention.nanoseconds > 0
            &&& policy.micros() matches Some(micros) && micros >= 1 && (retention.nanoseconds
                >= 1_000 ==> micros * 1_000 <= retention.nanoseconds < (micros + 1) * 1_000) && (
            retention.nanoseconds < 1_000 ==> micros == 1)
        },
{
    if policy.retention is Some {
        let n = policy.retention->0.nanoseconds as int;
        assert((n / 1_000) * 1_000 <= n < (n / 1_000 + 1) * 1_000) by (nonlinear_arith);
    }
}

/// A group may be removed exactly by a worker of its own pipeline whose topology and token are at
/// least as new as the group's.
pub proof fn law_who_may_clean(request: SnapshotGroupCleanupRequest)
    ensures
        may_clean(request) <==> {
            &&& request.snapshot_group_id.value > 0
            &&& request.group_fence.fencing_token > 0
            &&& request.group_fence.pipeline_id == request.current_fence.pipeline_id
            &&& request.group_fence.topology_generation
                <= request.current_fence.topology_generation
            &&& request.group_fence.fencing_token <= request.current_fence.fencing_token
        },
{
}

/// A shadow is the group's own exactly where its record names the pipeline, the group, the table
/// with its generation and fingerprint and the group's token, is a shadow and has an identity; it is
/// dropped only while it still is the registered relation.
pub proof fn law_which_shadows_are_dropped(
    record: ManagedTableRecord,
    oid: Option<i64>,
    group: Uuid,
    fence: PipelineFence,
    table: SnapshotActivationTable,
)
    ensures
        ({
            let own = {
                &&& record.pipeline_id == fence.pipeline_id
                &&& record.snapshot_group_id == Some(group)
                &&& record.source_relation_id == table.source_relation_id
                &&& record.table_generation == table.table_generation
                &&& record.schema_fingerprint@ == table.schema_fingerprint@
                &&& record.state is Shadow
                &&& record.fencing_token == fence.fencing_token
                &&& record.relation_oid is Some
            };
            &&& shadow_owned(record, group, fence, table) <==> own
            &&& shadow_removable(RelationState::Managed(record), group, fence, table) <==> own
            &&& shadow_removable(RelationState::Vacant, group, fence, table)
            &&& !shadow_removable(RelationState::Unmanaged, group, fence, table)
            &&& !shadow_removable(
                RelationState::ManagedObjectMissing(record),
                group,
                fence,
                table,
            )
            &&& forall|found: FoundRelation|
                {
                    &&& (#[trigger] shadow_droppable(found, group, fence, table)) ==> found.state
                        is Managed
                    &&& shadow_clear(found, group, fence, table) <==> found.state is Vacant
                        || shadow_droppable(found, group, fence, table)
                    &&& found.state == RelationState::Managed(record) && found.oid == oid ==> (
                    shadow_droppable(found, group, fence, table) <==> own && oid
                        == record.relation_oid)
                }
        }),
{
}

/// A group is cleaned up exactly while it is loading under the expected fence.
pub proof fn law_which_groups_are_cleaned(
    stored: StoredSnapshotGroup,
    request: SnapshotGroupCleanupRequest,
)
    ensures
        group_cleanable(stored, request) <==> {
            &&& stored.state is Loading
            &&& stored.request.fence.pipeline_id == request.group_fence.pipeline_id
            &&& stored.request.fence.topology_generation
                == request.group_fence.topology_generation
            &&& stored.request.fence.fencing_token == request.group_fence.fencing_token
        },
{
}

/// Nothing stops a cleanup exactly where every shadow of the manifest is free or the group's own,
/// and every registered shadow is one that the manifest names.
pub proof fn law_what_stops_a_cleanup(
    tables: Seq<SnapshotActivationTable>,
    found: Seq<FoundRelation>,
    rows: Seq<ShadowRow>,
    group: Uuid,
    fence: PipelineFence,
    count: int,
)
    requires
        0 <= count,
    ensures
        first_unclear(tables, found, group, fence, count) is None <==> forall|i: int|
            0 <= i < count ==> shadow_clear(#[trigger] found[i], group, fence, tables[i]),
        first_unknown(tables, rows, count) is None <==> forall|i: int|
            0 <= i < count ==> {
                &&& (#[trigger] rows[i]).name().fault() is None
                &&& exists|k: int|
                    0 <= k < tables.len() && (#[trigger] tables[k]).shadow@ == rows[i].name()
            },
    decreases count,
{
    if count > 0 {
        law_what_stops_a_cleanup(tables, found, rows, group, fence, count - 1);
        if first_unclear(tables, found, group, fence, count) is None {
            assert forall|i: int| 0 <= i < count implies shadow_clear(
                #[trigger] found[i],
                group,
                fence,
                tables[i],
            ) by {
                assert(i < count - 1 || i == count - 1);
            }
        }
        if first_unknown(tables, rows, count) is None {
            assert forall|i: int| 0 <= i < count implies (#[trigger] rows[i]).name().fault() is None
                && exists|k: int|
                0 <= k < tables.len() && (#[trigger] tables[k]).shadow@ == rows[i].name() by {
                if i == count - 1 {
                    assert(registration_known(tables, rows[i]));
                }
            }
        } else if first_unknown(tables, rows, count - 1) is None {
            assert(!registration_known(tables, rows[count - 1]));
        }
    }
}

/// A recorded quarantine is dropped exactly where the fence is at least as new as the record, the
/// name is the one that the record's table gets, the metadata is that of the record, the relation is
/// the recorded one, and it was recorded once.
pub proof fn law_which_quarantines_are_purged(
    record: QuarantineRecord,
    fence: PipelineFence,
    managed: ManagedTableRecord,
    found: FoundRelation,
    count: i64,
)
    requires
        found.state == RelationState::Managed(managed),
    ensures
        purgeable(record, fence, found, count) <==> {
            let name = quarantine_view(record.original@, previous_record(record));
            &&& record.pipeline_id == fence.pipeline_id
            &&& record.topology_generation <= fence.topology_generation
            &&& record.fencing_token <= fence.fencing_token
            &&& name.fault() is None
            &&& record.quarantine@ == name
            &&& managed.state is Quarantined
            &&& managed.pipeline_id == record.pipeline_id
            &&& managed.snapshot_group_id == record.previous_snapshot_group_id
            &&& managed.source_relation_id == record.source_relation_id
            &&& managed.table_generation == record.table_generation
            &&& managed.schema_fingerprint@ == record.schema_fingerprint@
            &&& managed.fencing_token == record.fencing_token
            &&& managed.relation_oid == Some(record.relation_oid)
            &&& found.oid == Some(record.relation_oid)
            &&& count == 1
        },
        forall|other: FoundRelation|
            !(other.state is Managed) ==> !#[trigger] purgeable(record, fence, other, count),
{
}

/// A quarantine row can be trusted exactly where its numbers are in range, it has a positive catalog
/// identity, and it tells a valid owner.
pub proof fn law_which_quarantine_rows_are_trusted(row: QuarantineRow)
    ensures
        row.in_range() <==> row.topology_generation >= 0 && 0 <= row.source_relation_id <= u32::MAX
            && row.table_generation >= 0,
        row.identified() <==> (row.quarantine_relation_oid matches Some(oid) && oid > 0),
        row.owned() <==> {
            &&& row.previous_fencing_token matches Some(token) && token > 0
            &&& row.snapshot_group_id.value > 0
            &&& row.schema_fingerprint@.len() > 0
            &&& row.fencing_token > 0
        },
        row.name_fault() is None <==> {
            &&& (NameView { schema: row.original_schema@, name: row.original_table@ }).fault()
                is None
            &&& (NameView { schema: row.quarantine_schema@, name: row.quarantine_table@ }).fault()
                is None
        },
{
}

/// A stale group is cleaned under the fence that it was found with, by a worker of the same
/// pipeline that is not older.
pub proof fn law_how_stale_groups_are_cleaned(
    current: PipelineFence,
    row: StaleGroupRow,
    r: Result<SnapshotGroupCleanupRequest, SnapshotTargetError>,
)
    requires
        call_ensures(stale_cleanup, (current, row), r),
    ensures
        r is Ok <==> {
            &&& row.topology_generation >= 0
            &&& row.snapshot_group_id.value != 0
            &&& row.fencing_token > 0
            &&& current.topology_generation as int >= row.topology_generation as int
            &&& current.fencing_token >= row.fencing_token
        },
        r matches Ok(request) ==> {
            &&& request.current_fence == current
            &&& request.snapshot_group_id == row.snapshot_group_id
            &&& request.group_fence.pipeline_id == current.pipeline_id
            &&& request.group_fence.topology_generation as int == row.topology_generation as int
            &&& request.group_fence.fencing_token == row.fencing_token
        },
{
}

/// A group is removed only while it is loading and only under the fence that was asked for.
pub proof fn law_which_groups_are_removed(
    stored: StoredSnapshotGroup,
    request: SnapshotGroupCleanupRequest,
    r: Result<(), SnapshotTargetError>,
)
    requires
        call_ensures(judge_cleanup_group, (&stored, request), r),
    ensures
        r is Ok <==> stored.state is Loading && stored.request.fence == request.group_fence,
        stored.request.fence == request.group_fence && stored.state is Active ==> r == Err::<
            (),
            SnapshotTargetError,
        >(SnapshotTargetError::SnapshotGroupNotLoading(request.snapshot_group_id)),
{
}

/// A registered shadow is dropped only where the manifest names it.
pub proof fn law_which_registered_shadows_are_known(
    tables: &[SnapshotActivationTable],
    schema: &str,
    name: &str,
    r: Result<(), SnapshotTargetError>,
)
    requires
        call_ensures(check_registered_shadow, (tables, schema, name), r),
    ensures
        r is Ok ==> exists|i: int|
            0 <= i < tables@.len() && #[trigger] tables@[i].shadow@.schema == schema@
                && tables@[i].shadow@.name == name@,
        forall|i: int|
            0 <= i < tables@.len() && #[trigger] tables@[i].shadow@.schema == schema@
                && tables@[i].shadow@.name == name@ && tables@[i].shadow@.fault() is None ==> r
                is Ok,
{
    if r is Ok {
        let shadow = NameView { schema: schema@, name: name@ };
        assert(names_shadow(tables@, shadow));
        let i = choose|i: int| 0 <= i < tables@.len() && #[trigger] tables@[i].shadow@ == shadow;
        assert(tables@[i].shadow@.schema == schema@);
    }
    assert forall|i: int|
        0 <= i < tables@.len() && #[trigger] tables@[i].shadow@.schema == schema@
            && tables@[i].shadow@.name == name@ && tables@[i].shadow@.fault() is None implies r
        is Ok by {
        let shadow = NameView { schema: schema@, name: name@ };
        assert(tables@[i].shadow@ == shadow);
        assert(names_shadow(tables@, shadow));
    }
}

/// A quarantined table is purged under a fence of its pipeline that is not older in either part.
pub proof fn law_which_fences_purge(
    record: QuarantineRecord,
    fence: PipelineFence,
    r: Result<(), SnapshotTargetError>,
)
    requires
        call_ensures(validate_quarantine_record, (&record, fence), r),
    ensures
        r is Ok <==> {
            &&& record.pipeline_id == fence.pipeline_id
            &&& record.topology_generation <= fence.topology_generation
            &&& record.fencing_token <= fence.fencing_token
        },
{
}

/// Nothing is purged without a retention; a batch is as large as its policy allows and needs a
/// positive token.
pub proof fn law_planned_purges(
    policy: QuarantineGcPolicy,
    fence: PipelineFence,
    r: Result<Option<QuarantineGcBatch>, SnapshotTargetError>,
)
    requires
        call_ensures(plan_quarantine_gc, (policy, fence), r),
    ensures
        policy.retention is None <==> r == Ok::<Option<QuarantineGcBatch>, SnapshotTargetError>(
            None,
        ),
        r matches Ok(Some(batch)) ==> batch.limit as int == policy.max_tables as int && policy.micros()
            == Some(batch.retention_micros as int) && fence.fencing_token > 0,
        policy.retention is Some && policy.fault() is None && policy.micros()->0 <= i64::MAX
            && fence.fencing_token > 0 ==> r is Ok,
{
}

/// A cleanup of a group removes its whole manifest.
pub proof fn law_whole_manifests_are_removed(
    group: Uuid,
    deleted: u64,
    members: usize,
    r: Result<(), SnapshotTargetError>,
)
    requires
        call_ensures(ensure_manifest_removed, (group, deleted, members), r),
    ensures
        r is Ok <==> deleted as int == members as int,
        r is Err ==> r == Err::<(), SnapshotTargetError>(
            SnapshotTargetError::CorruptSnapshotGroupManifest(group),
        ),
{
}

/// A quarantine that is read from a row holds what the row holds.
pub proof fn law_quarantines_hold_their_rows(
    row: QuarantineRow,
    r: Result<QuarantineRecord, SnapshotTargetError>,
)
    requires
        call_ensures(quarantine_record_from_row, (row,), r),
    ensures
        r matches Ok(record) ==> {
            &&& record.snapshot_group_id == row.snapshot_group_id
            &&& row.quarantine_relation_oid == Some(record.relation_oid)
            &&& record.pipeline_id.uuid == row.pipeline_id
            &&& record.topology_generation as int == row.topology_generation as int
            &&& record.source_relation_id as int == row.source_relation_id as int
            &&& record.previous_snapshot_group_id == row.previous_snapshot_group_id
            &&& record.table_generation as int == row.table_generation as int
            &&& record.schema_fingerprint@ == row.schema_fingerprint@
            &&& row.previous_fencing_token == Some(record.previous_fencing_token)
            &&& record.fencing_token == row.fencing_token
        },
{
}

} // verus!
