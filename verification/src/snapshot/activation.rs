//! Atomic activation of a complete snapshot group.

use crate::checkpoint::{
    advance_model, check_advance, checkpoint_fault, checkpoint_reached, reached_model, stored_of,
    CheckpointError, NodeCheckpoint, PipelineFence, StoredNodeCheckpoint,
};
use crate::digest::{
    be_bytes, frameable, framed, hex_text, law_framing_is_unambiguous, push_field, render_hex,
    sha256, sha256_digest,
};
use crate::ident::{big_endian, law_big_endian_differs, pow256, Uuid};
use crate::schema::SchemaError;
use crate::snapshot::manifest::{
    acceptable, canonical_request, first_table_difference, is_canonical, refuses_request,
    same_request, table_difference, table_views, RequestView, SnapshotGroupStatus,
    StoredSnapshotGroup,
};
use crate::snapshot::progress::CompletedSnapshotTableIdentity;
use crate::snapshot::{
    activation_matches, database_generation, identity_matches, is_group, matches_activation,
    refuses_fence, refuses_owner, unexpected_state, validate_managed_fence,
    validate_managed_identity, ManagedTableRecord, ManagedTableState, RelationState,
    SnapshotActivationDisposition, SnapshotActivationOutcome, SnapshotActivationRequest,
    SnapshotActivationTable, SnapshotTargetError,
};
use crate::source::{NameView, QualifiedName};
use crate::sql::{
    identifier_render_fault, name_render_fault, quote_identifier, quote_qualified_name, quoted,
    quoted_name,
};
use crate::text::same_text;
use vstd::prelude::*;
use vstd::utf8::{encode_utf8, encode_utf8_decode_utf8};

verus! {

/// Reads and locks the active tables of the pipeline `$1`.
pub const LOCK_ACTIVE_TABLES_SQL: &'static str =
    "SELECT target_schema, target_table, pipeline_id, snapshot_group_id, relation_oid, source_relation_id, table_generation, schema_fingerprint, state, fencing_token FROM \"pg2cb_meta\".managed_tables WHERE pipeline_id = $1 AND state = 'active' ORDER BY target_schema, target_table FOR UPDATE";

/// Reads and locks the active groups of the pipeline `$1` in the topology `$2`.
pub const LOCK_ACTIVE_GROUPS_SQL: &'static str =
    "SELECT snapshot_group_id FROM \"pg2cb_meta\".snapshot_groups WHERE pipeline_id = $1 AND topology_generation = $2 AND state = 'active' ORDER BY snapshot_group_id FOR UPDATE";

/// Records why a table went into quarantine.
pub const INSERT_RECONCILIATION_LOG_SQL: &'static str =
    "INSERT INTO \"pg2cb_meta\".snapshot_reconciliation_log (snapshot_group_id, original_schema, original_table, quarantine_schema, quarantine_table, quarantine_relation_oid, pipeline_id, topology_generation, source_relation_id, previous_snapshot_group_id, table_generation, schema_fingerprint, reason, previous_fencing_token, fencing_token) VALUES ($1, $2, $3, $4, $5, $6, $7, $8, $9, $10, $11, $12, $13, $14, $15)";

/// Registers a managed table under its new name.
pub const INSERT_MANAGED_TABLE_SQL: &'static str =
    "INSERT INTO \"pg2cb_meta\".managed_tables (target_schema, target_table, pipeline_id, snapshot_group_id, relation_oid, source_relation_id, table_generation, schema_fingerprint, state, fencing_token) VALUES ($1, $2, $3, $4, $5, $6, $7, $8, $9, $10)";

#[allow(inconsistent_fields)]
#[derive(Debug, PartialEq, Eq)]
pub enum TableActivationState {
    Pending { shadow: ManagedTableRecord, previous_active: Option<ManagedTableRecord> },
    Active { target: ManagedTableRecord },
}

#[derive(Debug, Clone, Copy, PartialEq, Eq, Structural)]
pub enum ReconciliationReason {
    Replaced,
    Stale,
}

impl ReconciliationReason {
    pub open spec fn name(self) -> &'static str {
        match self {
            ReconciliationReason::Replaced => "replaced",
            ReconciliationReason::Stale => "stale",
        }
    }

    pub fn as_str(self) -> (r: &'static str)
        ensures
            r == self.name(),
    {
        match self {
            ReconciliationReason::Replaced => "replaced",
            ReconciliationReason::Stale => "stale",
        }
    }
}

/// An active table that the new group no longer names.
#[derive(Debug, Clone, PartialEq, Eq)]
pub struct StaleActiveTable {
    pub target: QualifiedName,
    pub record: ManagedTableRecord,
}

#[derive(Debug, Clone, PartialEq, Eq)]
pub struct QuarantinePlan {
    pub original: QualifiedName,
    pub quarantine: QualifiedName,
    pub record: ManagedTableRecord,
    pub reason: ReconciliationReason,
}

// ---------------------------------------------------------------------------------------------
// Classification
// ---------------------------------------------------------------------------------------------

/// The relation is free, or this pipeline owns it in the expected state.
pub open spec fn relation_owned(
    state: RelationState,
    fence: PipelineFence,
    source_relation_id: u32,
    expected: ManagedTableState,
) -> bool {
    match state {
        RelationState::Vacant => true,
        RelationState::Managed(record) => identity_matches(
            record,
            fence.pipeline_id,
            source_relation_id,
        ) && record.fencing_token <= fence.fencing_token && record.state == expected,
        _ => false,
    }
}

/// The error tells why the relation is not this pipeline's.
pub open spec fn refuses_relation(
    e: SnapshotTargetError,
    name: NameView,
    state: RelationState,
    fence: PipelineFence,
    source_relation_id: u32,
    expected: ManagedTableState,
) -> bool {
    match state {
        RelationState::Vacant => false,
        RelationState::Unmanaged => e matches SnapshotTargetError::ExistingUnmanagedTable(t) && t@
            == name.text(),
        RelationState::ManagedObjectMissing(_) =>
            e matches SnapshotTargetError::ManagedRelationMissing(t) && t@ == name.text(),
        RelationState::Managed(record) => if !identity_matches(
            record,
            fence.pipeline_id,
            source_relation_id,
        ) {
            refuses_owner(e, name, record, fence.pipeline_id, source_relation_id)
        } else if record.fencing_token > fence.fencing_token {
            refuses_fence(e, name, fence.fencing_token, record.fencing_token)
        } else {
            unexpected_state(e, name, expected.name(), record.state)
        },
    }
}

/// The record of a relation, where it has one.
pub open spec fn record_of(state: RelationState) -> Option<ManagedTableRecord> {
    match state {
        RelationState::Managed(record) => Some(record),
        _ => None,
    }
}

pub fn require_state(table: &QualifiedName, record: &ManagedTableRecord, expected: ManagedTableState) -> (r:
    Result<(), SnapshotTargetError>)
    ensures
        match r {
            Ok(()) => record.state == expected,
            Err(e) => record.state != expected && unexpected_state(
                e,
                table@,
                expected.name(),
                record.state,
            ),
        },
{
    if record.state == expected {
        Ok(())
    } else {
        Err(
            SnapshotTargetError::UnexpectedManagedTableState {
                table: table.display(),
                expected: expected.as_str(),
                actual: record.state.as_str().to_string(),
            },
        )
    }
}

fn check_relation(
    name: &QualifiedName,
    state: RelationState,
    fence: PipelineFence,
    source_relation_id: u32,
    expected: ManagedTableState,
) -> (r: Result<Option<ManagedTableRecord>, SnapshotTargetError>)
    ensures
        match r {
            Ok(record) => relation_owned(state, fence, source_relation_id, expected) && record
                == record_of(state),
            Err(e) => !relation_owned(state, fence, source_relation_id, expected)
                && refuses_relation(e, name@, state, fence, source_relation_id, expected),
        },
{
    match state {
        RelationState::Vacant => Ok(None),
        RelationState::Unmanaged => Err(
            SnapshotTargetError::ExistingUnmanagedTable(name.display()),
        ),
        RelationState::ManagedObjectMissing(_) => Err(
            SnapshotTargetError::ManagedRelationMissing(name.display()),
        ),
        RelationState::Managed(record) => {
            match validate_managed_identity(
                name,
                &record,
                fence.pipeline_id,
                source_relation_id,
            ) {
                Err(e) => return Err(e),
                Ok(()) => {},
            }
            match validate_managed_fence(name, &record, fence.fencing_token) {
                Err(e) => return Err(e),
                Ok(()) => {},
            }
            match require_state(name, &record, expected) {
                Err(e) => return Err(e),
                Ok(()) => {},
            }
            Ok(Some(record))
        },
    }
}

/// Both relations are free or this pipeline's, and the shadow is that of the group.
pub open spec fn relations_ready(
    fence: PipelineFence,
    group: Uuid,
    table: SnapshotActivationTable,
    target: RelationState,
    shadow: RelationState,
) -> bool {
    &&& relation_owned(target, fence, table.source_relation_id, ManagedTableState::Active)
    &&& relation_owned(shadow, fence, table.source_relation_id, ManagedTableState::Shadow)
    &&& shadow matches RelationState::Managed(record) ==> activation_matches(record, table, group)
}

/// How far the activation of a table is, if it can go on at all.
pub open spec fn classification(
    fence: PipelineFence,
    group: Uuid,
    table: SnapshotActivationTable,
    target: RelationState,
    shadow: RelationState,
) -> Option<TableActivationState> {
    if !relations_ready(fence, group, table, target, shadow) {
        None
    } else {
        match (record_of(target), record_of(shadow)) {
            (Some(active), None) => if activation_matches(active, table, group) {
                Some(TableActivationState::Active { target: active })
            } else {
                None
            },
            (Some(active), Some(loaded)) => if activation_matches(active, table, group)
                || active.table_generation >= table.table_generation {
                None
            } else {
                Some(
                    TableActivationState::Pending { shadow: loaded, previous_active: Some(active) },
                )
            },
            (None, Some(loaded)) => Some(
                TableActivationState::Pending { shadow: loaded, previous_active: None },
            ),
            (None, None) => None,
        }
    }
}

/// The error tells why a shadow is not that of the group.
pub open spec fn refuses_loaded(
    e: SnapshotTargetError,
    group: Uuid,
    table: SnapshotActivationTable,
    record: ManagedTableRecord,
) -> bool {
    if record.snapshot_group_id != Some(group) {
        e matches SnapshotTargetError::ShadowSnapshotGroupMismatch { table: t, expected, actual }
            && t@ == table.shadow@.text() && expected == group && actual
            == record.snapshot_group_id
    } else if record.table_generation != table.table_generation {
        e matches SnapshotTargetError::ShadowGenerationMismatch { table: t, expected, actual } && t@
            == table.shadow@.text() && expected == table.table_generation && actual
            == record.table_generation
    } else {
        e matches SnapshotTargetError::ShadowFingerprintMismatch(t) && t@ == table.shadow@.text()
    }
}

/// The error tells why the activation of a table cannot go on.
pub open spec fn refuses_classification(
    e: SnapshotTargetError,
    fence: PipelineFence,
    group: Uuid,
    table: SnapshotActivationTable,
    target: RelationState,
    shadow: RelationState,
) -> bool {
    if !relation_owned(target, fence, table.source_relation_id, ManagedTableState::Active) {
        refuses_relation(
            e,
            table.target@,
            target,
            fence,
            table.source_relation_id,
            ManagedTableState::Active,
        )
    } else if !relation_owned(shadow, fence, table.source_relation_id, ManagedTableState::Shadow) {
        refuses_relation(
            e,
            table.shadow@,
            shadow,
            fence,
            table.source_relation_id,
            ManagedTableState::Shadow,
        )
    } else if !relations_ready(fence, group, table, target, shadow) {
        refuses_loaded(e, group, table, record_of(shadow)->0)
    } else {
        match (record_of(target), record_of(shadow)) {
            (Some(active), Some(_)) => if activation_matches(active, table, group) {
                e matches SnapshotTargetError::IncompleteShadow(t) && t@ == table.shadow@.text()
            } else {
                e matches SnapshotTargetError::ActivationGenerationNotNewer {
                    table: t,
                    active: a,
                    proposed,
                } && t@ == table.target@.text() && a == active.table_generation && proposed
                    == table.table_generation
            },
            _ => e matches SnapshotTargetError::IncompleteShadow(t) && t@ == table.shadow@.text(),
        }
    }
}

fn check_loaded(table: &SnapshotActivationTable, record: &ManagedTableRecord, group: Uuid) -> (r:
    Result<(), SnapshotTargetError>)
    requires
        record.source_relation_id == table.source_relation_id,
    ensures
        match r {
            Ok(()) => activation_matches(*record, *table, group),
            Err(e) => !activation_matches(*record, *table, group) && refuses_loaded(
                e,
                group,
                *table,
                *record,
            ),
        },
{
    if !is_group(record.snapshot_group_id, group) {
        return Err(
            SnapshotTargetError::ShadowSnapshotGroupMismatch {
                table: table.shadow.display(),
                expected: group,
                actual: record.snapshot_group_id,
            },
        );
    }
    if record.table_generation != table.table_generation {
        return Err(
            SnapshotTargetError::ShadowGenerationMismatch {
                table: table.shadow.display(),
                expected: table.table_generation,
                actual: record.table_generation,
            },
        );
    }
    if !same_text(record.schema_fingerprint.as_str(), table.schema_fingerprint.as_str()) {
        return Err(SnapshotTargetError::ShadowFingerprintMismatch(table.shadow.display()));
    }
    Ok(())
}

/// Tells how far the activation of one table is, given its two relations.
pub fn classify_table(
    request: &SnapshotActivationRequest,
    table: &SnapshotActivationTable,
    target: RelationState,
    shadow: RelationState,
) -> (r: Result<TableActivationState, SnapshotTargetError>)
    ensures
        match r {
            Ok(state) => classification(
                request.fence,
                request.snapshot_group_id,
                *table,
                target,
                shadow,
            ) == Some(state),
            Err(e) => {
                &&& classification(
                    request.fence,
                    request.snapshot_group_id,
                    *table,
                    target,
                    shadow,
                ) is None
                &&& refuses_classification(
                    e,
                    request.fence,
                    request.snapshot_group_id,
                    *table,
                    target,
                    shadow,
                )
            },
        },
{
    let active = match check_relation(
        &table.target,
        target,
        request.fence,
        table.source_relation_id,
        ManagedTableState::Active,
    ) {
        Err(e) => return Err(e),
        Ok(record) => record,
    };
    let loaded = match check_relation(
        &table.shadow,
        shadow,
        request.fence,
        table.source_relation_id,
        ManagedTableState::Shadow,
    ) {
        Err(e) => return Err(e),
        Ok(record) => record,
    };
    match &loaded {
        None => {},
        Some(record) => {
            match check_loaded(table, record, request.snapshot_group_id) {
                Err(e) => return Err(e),
                Ok(()) => {},
            }
        },
    }
    match active {
        None => match loaded {
            None => Err(SnapshotTargetError::IncompleteShadow(table.shadow.display())),
            Some(shadow) => Ok(
                TableActivationState::Pending { shadow, previous_active: None },
            ),
        },
        Some(active) => {
            let done = matches_activation(&active, table, request.snapshot_group_id);
            match loaded {
                None => {
                    if done {
                        Ok(TableActivationState::Active { target: active })
                    } else {
                        Err(SnapshotTargetError::IncompleteShadow(table.shadow.display()))
                    }
                },
                Some(shadow) => {
                    if done {
                        return Err(SnapshotTargetError::IncompleteShadow(table.shadow.display()));
                    }
                    if active.table_generation >= table.table_generation {
                        return Err(
                            SnapshotTargetError::ActivationGenerationNotNewer {
                                table: table.target.display(),
                                active: active.table_generation,
                                proposed: table.table_generation,
                            },
                        );
                    }
                    Ok(
                        TableActivationState::Pending { shadow, previous_active: Some(active) },
                    )
                },
            }
        },
    }
}

/// Every table is active already.
pub open spec fn all_active(states: Seq<TableActivationState>) -> bool {
    forall|i: int| 0 <= i < states.len() ==> #[trigger] states[i] is Active
}

/// No table is active yet.
pub open spec fn all_pending(states: Seq<TableActivationState>) -> bool {
    forall|i: int| 0 <= i < states.len() ==> #[trigger] states[i] is Pending
}

/// Whether the whole group is active; a group cannot be so in part.
pub fn group_is_active(states: &[TableActivationState]) -> (r: Result<bool, SnapshotTargetError>)
    ensures
        match r {
            Ok(true) => all_active(states@),
            Ok(false) => states@.len() > 0 && all_pending(states@),
            Err(e) => !all_active(states@) && !all_pending(states@) && e
                == SnapshotTargetError::MixedActivationState,
        },
{
    let mut seen_active = false;
    let mut seen_pending = false;
    let mut i: usize = 0;
    while i < states.len()
        invariant
            i <= states.len(),
            seen_active <==> exists|k: int| 0 <= k < i && #[trigger] states@[k] is Active,
            seen_pending <==> exists|k: int| 0 <= k < i && #[trigger] states@[k] is Pending,
        decreases states.len() - i,
    {
        match &states[i] {
            TableActivationState::Active { .. } => {
                seen_active = true;
                assert(states@[i as int] is Active);
            },
            TableActivationState::Pending { .. } => {
                seen_pending = true;
                assert(states@[i as int] is Pending);
            },
        }
        i = i + 1;
    }
    if !seen_pending {
        proof {
            assert forall|k: int| 0 <= k < states@.len() implies #[trigger] states@[k] is Active by {
                assert(!(states@[k] is Pending));
            }
        }
        Ok(true)
    } else if !seen_active {
        proof {
            assert forall|k: int| 0 <= k < states@.len() implies #[trigger] states@[k] is Pending by {
                assert(!(states@[k] is Active));
            }
        }
        Ok(false)
    } else {
        Err(SnapshotTargetError::MixedActivationState)
    }
}

/// Decides whether an activation is a retry, given the stored status and all tables. The stored
/// status must agree with the tables.
pub fn judge_activation(
    snapshot_group_id: Uuid,
    stored: SnapshotGroupStatus,
    states: &[TableActivationState],
) -> (r: Result<bool, SnapshotTargetError>)
    ensures
        match r {
            Ok(true) => all_active(states@) && stored == SnapshotGroupStatus::Active,
            Ok(false) => states@.len() > 0 && all_pending(states@) && stored
                == SnapshotGroupStatus::Loading,
            Err(e) => if !all_active(states@) && !all_pending(states@) {
                e == SnapshotTargetError::MixedActivationState
            } else {
                &&& e == SnapshotTargetError::CorruptSnapshotGroupManifest(snapshot_group_id)
                &&& all_active(states@) <==> stored == SnapshotGroupStatus::Loading
            },
        },
{
    match group_is_active(states) {
        Err(e) => Err(e),
        Ok(true) => {
            if stored != SnapshotGroupStatus::Active {
                Err(SnapshotTargetError::CorruptSnapshotGroupManifest(snapshot_group_id))
            } else {
                Ok(true)
            }
        },
        Ok(false) => {
            if stored != SnapshotGroupStatus::Loading {
                proof {
                    assert(!(states@[0] is Active));
                }
                Err(SnapshotTargetError::CorruptSnapshotGroupManifest(snapshot_group_id))
            } else {
                Ok(false)
            }
        },
    }
}

// ---------------------------------------------------------------------------------------------
// Progress behind an activation
// ---------------------------------------------------------------------------------------------

/// The catalog identity of the rows that a table was loaded with.
pub open spec fn loaded_oid(state: TableActivationState) -> Option<i64> {
    match state {
        TableActivationState::Pending { shadow, .. } => shadow.relation_oid,
        TableActivationState::Active { target } => target.relation_oid,
    }
}

/// The table has a catalog identity.
pub open spec fn has_identity(state: TableActivationState) -> bool {
    loaded_oid(state) matches Some(oid) && oid > 0
}

/// Binds the progress of each table to the relation that holds its rows.
pub fn activation_progress_identities(
    tables: &[SnapshotActivationTable],
    states: &[TableActivationState],
) -> (r: Result<Vec<CompletedSnapshotTableIdentity>, SnapshotTargetError>)
    ensures
        match r {
            Ok(identities) => {
                &&& tables@.len() == states@.len()
                &&& identities@.len() == tables@.len()
                &&& forall|i: int|
                    0 <= i < identities@.len() ==> {
                        &&& (#[trigger] identities@[i]).table == tables@[i]
                        &&& loaded_oid(states@[i]) == Some(identities@[i].shadow_relation_oid)
                        &&& identities@[i].shadow_relation_oid > 0
                    }
            },
            Err(e) => if tables@.len() != states@.len() {
                e == SnapshotTargetError::DuplicateActivationIdentity
            } else {
                exists|i: int|
                    {
                        &&& 0 <= i < states@.len()
                        &&& !has_identity(#[trigger] states@[i])
                        &&& forall|k: int| 0 <= k < i ==> has_identity(#[trigger] states@[k])
                        &&& (e matches SnapshotTargetError::MissingRelationIdentity(t) && t@
                            == tables@[i].target@.text())
                    }
            },
        },
{
    if tables.len() != states.len() {
        return Err(SnapshotTargetError::DuplicateActivationIdentity);
    }
    let mut identities: Vec<CompletedSnapshotTableIdentity> = Vec::new();
    let mut i: usize = 0;
    while i < tables.len()
        invariant
            i <= tables.len(),
            tables.len() == states.len(),
            identities@.len() == i,
            forall|k: int| 0 <= k < i ==> has_identity(#[trigger] states@[k]),
            forall|k: int|
                0 <= k < i ==> {
                    &&& (#[trigger] identities@[k]).table == tables@[k]
                    &&& loaded_oid(states@[k]) == Some(identities@[k].shadow_relation_oid)
                    &&& identities@[k].shadow_relation_oid > 0
                },
        decreases tables.len() - i,
    {
        let oid = match &states[i] {
            TableActivationState::Pending { shadow, .. } => shadow.relation_oid,
            TableActivationState::Active { target } => target.relation_oid,
        };
        proof {
            assert(oid == loaded_oid(states@[i as int]));
        }
        let oid: i64 = match oid {
            None => {
                proof {
                    assert(!has_identity(states@[i as int]));
                }
                return Err(
                    SnapshotTargetError::MissingRelationIdentity(tables[i].target.display()),
                );
            },
            Some(oid) => oid,
        };
        if oid <= 0 {
            proof {
                assert(!has_identity(states@[i as int]));
            }
            return Err(SnapshotTargetError::MissingRelationIdentity(tables[i].target.display()));
        }
        proof {
            assert(has_identity(states@[i as int]));
        }
        identities.push(
            CompletedSnapshotTableIdentity { table: tables[i].clone(), shadow_relation_oid: oid },
        );
        i = i + 1;
    }
    Ok(identities)
}

// ---------------------------------------------------------------------------------------------
// Checkpoints
// ---------------------------------------------------------------------------------------------

/// An active group must have reached each of its node boundaries.
pub fn require_boundary_reached(
    current: Option<&StoredNodeCheckpoint>,
    boundary: &NodeCheckpoint,
) -> (r: Result<(), SnapshotTargetError>)
    ensures
        match reached_model(stored_of(current), *boundary) {
            Ok(true) => r is Ok,
            Ok(false) => r == Err::<(), SnapshotTargetError>(
                SnapshotTargetError::ActiveCheckpointIncomplete(boundary.key.node_id),
            ),
            Err(e) => r == Err::<(), SnapshotTargetError>(SnapshotTargetError::Checkpoint(e)),
        },
{
    match checkpoint_reached(current, boundary) {
        Err(e) => Err(SnapshotTargetError::Checkpoint(e)),
        Ok(reached) => {
            if reached {
                Ok(())
            } else {
                Err(SnapshotTargetError::ActiveCheckpointIncomplete(boundary.key.node_id))
            }
        },
    }
}

/// A node boundary must be one that the stored checkpoint may advance to.
pub fn require_boundary_admitted(
    current: Option<&StoredNodeCheckpoint>,
    boundary: &NodeCheckpoint,
) -> (r: Result<(), SnapshotTargetError>)
    ensures
        match advance_model(stored_of(current), *boundary) {
            Ok(_) => r is Ok,
            Err(e) => r == Err::<(), SnapshotTargetError>(SnapshotTargetError::Checkpoint(e)),
        },
{
    match check_advance(current, boundary) {
        Err(e) => Err(SnapshotTargetError::Checkpoint(e)),
        Ok(_) => Ok(()),
    }
}

// ---------------------------------------------------------------------------------------------
// Stale tables
// ---------------------------------------------------------------------------------------------

/// Whether the manifest names the target.
pub open spec fn names_target(tables: Seq<SnapshotActivationTable>, target: NameView) -> bool {
    exists|i: int| 0 <= i < tables.len() && (#[trigger] tables[i]).target@ == target
}

pub fn is_target_named(tables: &[SnapshotActivationTable], target: &QualifiedName) -> (r: bool)
    ensures
        r == names_target(tables@, target@),
{
    let mut i: usize = 0;
    while i < tables.len()
        invariant
            i <= tables.len(),
            forall|k: int| 0 <= k < i ==> (#[trigger] tables@[k]).target@ != target@,
        decreases tables.len() - i,
    {
        if tables[i].target.same(target) {
            return true;
        }
        i = i + 1;
    }
    false
}

/// Accepts an active table that the group no longer names, unless a newer fence owns it or its
/// relation is gone.
pub fn judge_stale_table(
    target: QualifiedName,
    record: ManagedTableRecord,
    exists_physically: bool,
    fencing_token: i64,
) -> (r: Result<StaleActiveTable, SnapshotTargetError>)
    ensures
        match r {
            Ok(stale) => {
                &&& record.fencing_token <= fencing_token
                &&& exists_physically
                &&& stale.target == target
                &&& stale.record == record
            },
            Err(e) => if record.fencing_token > fencing_token {
                refuses_fence(e, target@, fencing_token, record.fencing_token)
            } else {
                !exists_physically && (e matches SnapshotTargetError::ManagedRelationMissing(t)
                    && t@ == target@.text())
            },
        },
{
    match validate_managed_fence(&target, &record, fencing_token) {
        Err(e) => return Err(e),
        Ok(()) => {},
    }
    if !exists_physically {
        return Err(SnapshotTargetError::ManagedRelationMissing(target.display()));
    }
    Ok(StaleActiveTable { target, record })
}

// ---------------------------------------------------------------------------------------------
// Quarantine names
// ---------------------------------------------------------------------------------------------

/// The 64-bit two's complement of a fencing token.
pub open spec fn token_bits(token: i64) -> nat {
    if token >= 0 {
        token as nat
    } else {
        (token + 0x1_0000_0000_0000_0000) as nat
    }
}

/// What the name of a quarantined table is derived from.
pub open spec fn quarantine_fields(target: NameView, record: ManagedTableRecord) -> Seq<Seq<u8>> {
    seq![
        encode_utf8(target.schema),
        encode_utf8(target.name),
        record.pipeline_id.uuid.octets(),
        big_endian(record.source_relation_id as nat, 4),
        big_endian(record.table_generation as nat, 8),
        encode_utf8(record.schema_fingerprint@),
        big_endian(token_bits(record.fencing_token), 8),
    ]
}

/// The name that a table has in quarantine, in the schema that it was in.
pub open spec fn quarantine_view(target: NameView, record: ManagedTableRecord) -> NameView {
    NameView {
        schema: target.schema,
        name: "pg2cb_q_"@ + hex_text(sha256(framed(quarantine_fields(target, record))).take(16)),
    }
}

fn digest_quarantine(target: &QualifiedName, record: &ManagedTableRecord) -> (r: [u8; 32])
    ensures
        r@ == sha256(framed(quarantine_fields(target@, *record))),
{
    let bits: u64 = if record.fencing_token >= 0 {
        record.fencing_token as u64
    } else {
        (record.fencing_token as i128 + 0x1_0000_0000_0000_0000) as u64
    };
    let schema = target.schema.as_str().as_bytes();
    let name = target.name.as_str().as_bytes();
    let pipeline = record.pipeline_id.uuid.as_bytes();
    let relation = be_bytes(record.source_relation_id as u64, 4);
    let generation = be_bytes(record.table_generation, 8);
    let fingerprint = record.schema_fingerprint.as_str().as_bytes();
    let token = be_bytes(bits, 8);
    let mut out: Vec<u8> = Vec::new();
    let ghost f0 = Seq::<Seq<u8>>::empty();
    let ghost f1 = f0.push(schema@);
    let ghost f2 = f1.push(name@);
    let ghost f3 = f2.push(pipeline@);
    let ghost f4 = f3.push(relation@);
    let ghost f5 = f4.push(generation@);
    let ghost f6 = f5.push(fingerprint@);
    push_field(&mut out, schema, Ghost(f0));
    push_field(&mut out, name, Ghost(f1));
    push_field(&mut out, pipeline.as_slice(), Ghost(f2));
    push_field(&mut out, relation.as_slice(), Ghost(f3));
    push_field(&mut out, generation.as_slice(), Ghost(f4));
    push_field(&mut out, fingerprint, Ghost(f5));
    push_field(&mut out, token.as_slice(), Ghost(f6));
    proof {
        assert(f6.push(token@) =~= quarantine_fields(target@, *record));
    }
    sha256_digest(out.as_slice())
}

/// The name that a table has in quarantine: short, and different for every owner.
pub fn quarantine_name(target: &QualifiedName, record: &ManagedTableRecord) -> (r: Result<
    QualifiedName,
    SnapshotTargetError,
>)
    ensures
        match r {
            Ok(name) => {
                &&& name@ == quarantine_view(target@, *record)
                &&& name@.fault() is None
                &&& name@.name.len() == 40
            },
            Err(e) => quarantine_view(target@, *record).fault() is Some && e
                == SnapshotTargetError::Schema(
                SchemaError::Core(quarantine_view(target@, *record).fault()->0),
            ),
        },
{
    let digest = digest_quarantine(target, record);
    let half = vstd::slice::slice_subrange(digest.as_slice(), 0, 16);
    proof {
        assert(half@ =~= digest@.take(16));
        reveal_strlit("pg2cb_q_");
    }
    let mut name = "pg2cb_q_".to_string();
    name.append(render_hex(half).as_str());
    match QualifiedName::new(target.schema.as_str(), name.as_str()) {
        Err(e) => Err(SnapshotTargetError::Schema(SchemaError::Core(e))),
        Ok(name) => Ok(name),
    }
}

/// Names that no quarantine may take.
#[derive(Debug)]
pub struct ReservedNames {
    names: Vec<QualifiedName>,
}

impl View for ReservedNames {
    type V = Seq<NameView>;

    closed spec fn view(&self) -> Seq<NameView> {
        Seq::new(self.names@.len(), |i: int| self.names@[i]@)
    }
}

/// The names of the manifest's relations, each target before its shadow.
pub open spec fn manifest_names(tables: Seq<SnapshotActivationTable>) -> Seq<NameView>
    decreases tables.len(),
{
    if tables.len() == 0 {
        Seq::empty()
    } else {
        manifest_names(tables.drop_last()).push(tables.last().target@).push(tables.last().shadow@)
    }
}

/// The names of stale tables.
pub open spec fn stale_names(stale: Seq<StaleActiveTable>) -> Seq<NameView> {
    Seq::new(stale.len(), |i: int| stale[i].target@)
}

impl ReservedNames {
    /// Reserves every relation of the manifest, and the original names of stale tables as well:
    /// a quarantine name can then not collide with another source table.
    pub fn new(tables: &[SnapshotActivationTable], stale: &[StaleActiveTable]) -> (r: Self)
        ensures
            r@ == manifest_names(tables@) + stale_names(stale@),
    {
        let mut reserved = ReservedNames { names: Vec::new() };
        proof {
            assert(reserved@ =~= manifest_names(tables@.take(0)));
        }
        let mut i: usize = 0;
        while i < tables.len()
            invariant
                i <= tables.len(),
                reserved@ == manifest_names(tables@.take(i as int)),
            decreases tables.len() - i,
        {
            let ghost before = reserved@;
            reserved.names.push(tables[i].target.clone());
            reserved.names.push(tables[i].shadow.clone());
            proof {
                let next = tables@.take(i + 1);
                assert(next.drop_last() =~= tables@.take(i as int));
                assert(reserved@ =~= before.push(next.last().target@).push(next.last().shadow@));
            }
            i = i + 1;
        }
        let ghost named = manifest_names(tables@);
        proof {
            assert(tables@.take(i as int) =~= tables@);
            assert(reserved@ =~= named + stale_names(stale@.take(0)));
        }
        let mut n: usize = 0;
        while n < stale.len()
            invariant
                n <= stale.len(),
                reserved@ == named + stale_names(stale@.take(n as int)),
            decreases stale.len() - n,
        {
            let ghost before = reserved@;
            reserved.names.push(stale[n].target.clone());
            proof {
                assert(reserved@ =~= before.push(stale@[n as int].target@));
                assert(reserved@ =~= named + stale_names(stale@.take(n + 1)));
            }
            n = n + 1;
        }
        proof {
            assert(stale@.take(n as int) =~= stale@);
        }
        reserved
    }

    /// Reserves a name, unless it is reserved already.
    pub fn reserve(&mut self, name: &QualifiedName) -> (r: bool)
        ensures
            r == !old(self)@.contains(name@),
            final(self)@ == if r {
                old(self)@.push(name@)
            } else {
                old(self)@
            },
    {
        let ghost before = self@;
        let mut i: usize = 0;
        while i < self.names.len()
            invariant
                i <= self.names@.len(),
                self@ == before,
                before.len() == self.names@.len(),
                forall|k: int| 0 <= k < i ==> #[trigger] before[k] != name@,
            decreases self.names.len() - i,
        {
            proof {
                assert(before[i as int] == self.names@[i as int]@);
            }
            if self.names[i].same(name) {
                return false;
            }
            i = i + 1;
        }
        self.names.push(name.clone());
        proof {
            assert(self@ =~= before.push(name@));
        }
        true
    }
}

/// Names and reserves the quarantine of a table.
pub fn reserve_quarantine(
    reserved: &mut ReservedNames,
    original: &QualifiedName,
    record: &ManagedTableRecord,
) -> (r: Result<QualifiedName, SnapshotTargetError>)
    ensures
        match r {
            Ok(name) => {
                &&& name@ == quarantine_view(original@, *record)
                &&& name@.fault() is None
                &&& !old(reserved)@.contains(name@)
                &&& final(reserved)@ == old(reserved)@.push(name@)
            },
            Err(e) => {
                &&& final(reserved)@ == old(reserved)@
                &&& match quarantine_view(original@, *record).fault() {
                    Some(fault) => e == SnapshotTargetError::Schema(SchemaError::Core(fault)),
                    None => {
                        &&& old(reserved)@.contains(quarantine_view(original@, *record))
                        &&& conflicts(e, quarantine_view(original@, *record))
                    },
                }
            },
        },
{
    let name = match quarantine_name(original, record) {
        Err(e) => return Err(e),
        Ok(name) => name,
    };
    if !reserved.reserve(&name) {
        return Err(SnapshotTargetError::QuarantineNameConflict(name.display()));
    }
    Ok(name)
}

/// The error names the quarantine that is taken.
pub open spec fn conflicts(e: SnapshotTargetError, quarantine: NameView) -> bool {
    e matches SnapshotTargetError::QuarantineNameConflict(t) && t@ == quarantine.text()
}

/// A quarantine must not exist in any form.
pub fn require_vacant(quarantine: &QualifiedName, state: &RelationState) -> (r: Result<
    (),
    SnapshotTargetError,
>)
    ensures
        match r {
            Ok(()) => *state is Vacant,
            Err(e) => !(*state is Vacant) && conflicts(e, quarantine@),
        },
{
    match state {
        RelationState::Vacant => Ok(()),
        _ => Err(SnapshotTargetError::QuarantineNameConflict(quarantine.display())),
    }
}

/// Plans the quarantine of a stale table under its reserved name.
pub fn plan_stale_quarantine(
    reserved: &mut ReservedNames,
    stale: StaleActiveTable,
    fencing_token: i64,
) -> (r: Result<QuarantinePlan, SnapshotTargetError>)
    ensures
        match r {
            Ok(plan) => {
                &&& stale.record.fencing_token <= fencing_token
                &&& plan.original == stale.target
                &&& plan.quarantine@ == quarantine_view(stale.target@, stale.record)
                &&& plan.quarantine@.fault() is None
                &&& plan.record == stale.record
                &&& plan.reason == ReconciliationReason::Stale
                &&& !old(reserved)@.contains(plan.quarantine@)
                &&& final(reserved)@ == old(reserved)@.push(plan.quarantine@)
            },
            Err(e) => {
                &&& final(reserved)@ == old(reserved)@
                &&& if stale.record.fencing_token > fencing_token {
                    refuses_fence(e, stale.target@, fencing_token, stale.record.fencing_token)
                } else {
                    match quarantine_view(stale.target@, stale.record).fault() {
                        Some(fault) => e == SnapshotTargetError::Schema(SchemaError::Core(fault)),
                        None => {
                            &&& old(reserved)@.contains(
                                quarantine_view(stale.target@, stale.record),
                            )
                            &&& conflicts(e, quarantine_view(stale.target@, stale.record))
                        },
                    }
                }
            },
        },
{
    match validate_managed_fence(&stale.target, &stale.record, fencing_token) {
        Err(e) => return Err(e),
        Ok(()) => {},
    }
    match reserve_quarantine(reserved, &stale.target, &stale.record) {
        Err(e) => Err(e),
        Ok(quarantine) => Ok(
            QuarantinePlan {
                original: stale.target,
                quarantine,
                record: stale.record,
                reason: ReconciliationReason::Stale,
            },
        ),
    }
}

// ---------------------------------------------------------------------------------------------
// The steps of an activation
// ---------------------------------------------------------------------------------------------

/// One change that an activation makes.
#[allow(inconsistent_fields)]
#[derive(Debug, PartialEq, Eq)]
pub enum ActivationStep {
    /// Renames a table inside its schema.
    Rename { table: QualifiedName, new_name: String },
    /// Moves the metadata of a table to its new name and state.
    Relocate {
        from: QualifiedName,
        to: QualifiedName,
        record: ManagedTableRecord,
        state: ManagedTableState,
    },
    /// Records that a table went into quarantine.
    Log {
        original: QualifiedName,
        quarantine: QualifiedName,
        record: ManagedTableRecord,
        reason: ReconciliationReason,
    },
}

/// The steps that bring a table into quarantine.
pub open spec fn quarantine_steps(
    original: QualifiedName,
    quarantine: QualifiedName,
    record: ManagedTableRecord,
    reason: ReconciliationReason,
) -> Seq<ActivationStep> {
    seq![
        ActivationStep::Rename { table: original, new_name: quarantine.name },
        ActivationStep::Relocate {
            from: original,
            to: quarantine,
            record,
            state: ManagedTableState::Quarantined,
        },
        ActivationStep::Log { original, quarantine, record, reason },
    ]
}

/// The steps that put a loaded shadow in the place of its target.
pub open spec fn promotion_steps(table: SnapshotActivationTable, shadow: ManagedTableRecord) -> Seq<
    ActivationStep,
> {
    let relocate = ActivationStep::Relocate {
        from: table.shadow,
        to: table.target,
        record: shadow,
        state: ManagedTableState::Active,
    };
    if table.shadow.name@ != table.target.name@ {
        seq![
            ActivationStep::Rename { table: table.shadow, new_name: table.target.name },
            relocate,
        ]
    } else {
        seq![relocate]
    }
}

/// The steps that activate one table: what was active goes first.
pub open spec fn table_steps(
    table: SnapshotActivationTable,
    state: TableActivationState,
    quarantine: Option<QualifiedName>,
) -> Seq<ActivationStep> {
    match state {
        TableActivationState::Active { .. } => Seq::empty(),
        TableActivationState::Pending { shadow, previous_active } => {
            let first = match (previous_active, quarantine) {
                (Some(record), Some(name)) => quarantine_steps(
                    table.target,
                    name,
                    record,
                    ReconciliationReason::Replaced,
                ),
                _ => Seq::empty(),
            };
            first + promotion_steps(table, shadow)
        },
    }
}

/// The steps that activate the first tables.
pub open spec fn all_table_steps(
    tables: Seq<SnapshotActivationTable>,
    states: Seq<TableActivationState>,
    quarantines: Seq<Option<QualifiedName>>,
    count: int,
) -> Seq<ActivationStep>
    decreases count,
{
    if count <= 0 {
        Seq::empty()
    } else {
        all_table_steps(tables, states, quarantines, count - 1) + table_steps(
            tables[count - 1],
            states[count - 1],
            quarantines[count - 1],
        )
    }
}

/// The steps that bring stale tables into quarantine.
pub open spec fn stale_steps(plans: Seq<QuarantinePlan>) -> Seq<ActivationStep>
    decreases plans.len(),
{
    if plans.len() == 0 {
        Seq::empty()
    } else {
        stale_steps(plans.drop_last()) + quarantine_steps(
            plans.last().original,
            plans.last().quarantine,
            plans.last().record,
            plans.last().reason,
        )
    }
}

fn push_quarantine_steps(
    steps: &mut Vec<ActivationStep>,
    original: &QualifiedName,
    quarantine: &QualifiedName,
    record: &ManagedTableRecord,
    reason: ReconciliationReason,
)
    ensures
        final(steps)@ == old(steps)@ + quarantine_steps(*original, *quarantine, *record, reason),
{
    let ghost before = steps@;
    steps.push(
        ActivationStep::Rename { table: original.clone(), new_name: quarantine.name.clone() },
    );
    steps.push(
        ActivationStep::Relocate {
            from: original.clone(),
            to: quarantine.clone(),
            record: record.clone(),
            state: ManagedTableState::Quarantined,
        },
    );
    steps.push(
        ActivationStep::Log {
            original: original.clone(),
            quarantine: quarantine.clone(),
            record: record.clone(),
            reason,
        },
    );
    proof {
        assert(steps@ =~= before + quarantine_steps(*original, *quarantine, *record, reason));
    }
}

fn push_table_steps(
    steps: &mut Vec<ActivationStep>,
    table: &SnapshotActivationTable,
    state: &TableActivationState,
    quarantine: &Option<QualifiedName>,
)
    ensures
        final(steps)@ == old(steps)@ + table_steps(*table, *state, *quarantine),
{
    let ghost before = steps@;
    match state {
        TableActivationState::Active { .. } => {
            proof {
                assert(steps@ =~= before + table_steps(*table, *state, *quarantine));
            }
        },
        TableActivationState::Pending { shadow, previous_active } => {
            match previous_active {
                None => {},
                Some(record) => match quarantine {
                    None => {},
                    Some(name) => {
                        push_quarantine_steps(
                            steps,
                            &table.target,
                            name,
                            record,
                            ReconciliationReason::Replaced,
                        );
                    },
                },
            }
            if !same_text(table.shadow.name.as_str(), table.target.name.as_str()) {
                steps.push(
                    ActivationStep::Rename {
                        table: table.shadow.clone(),
                        new_name: table.target.name.clone(),
                    },
                );
            }
            steps.push(
                ActivationStep::Relocate {
                    from: table.shadow.clone(),
                    to: table.target.clone(),
                    record: shadow.clone(),
                    state: ManagedTableState::Active,
                },
            );
            proof {
                assert(steps@ =~= before + table_steps(*table, *state, *quarantine));
            }
        },
    }
}

/// The steps that quarantine stale tables.
pub fn plan_stale_steps(plans: &[QuarantinePlan]) -> (r: Vec<ActivationStep>)
    ensures
        r@ == stale_steps(plans@),
{
    let mut steps: Vec<ActivationStep> = Vec::new();
    let mut i: usize = 0;
    proof {
        assert(steps@ =~= stale_steps(plans@.take(0)));
    }
    while i < plans.len()
        invariant
            i <= plans.len(),
            steps@ == stale_steps(plans@.take(i as int)),
        decreases plans.len() - i,
    {
        push_quarantine_steps(
            &mut steps,
            &plans[i].original,
            &plans[i].quarantine,
            &plans[i].record,
            plans[i].reason,
        );
        proof {
            assert(plans@.take(i + 1).drop_last() =~= plans@.take(i as int));
        }
        i = i + 1;
    }
    proof {
        assert(plans@.take(i as int) =~= plans@);
    }
    steps
}

/// The steps of an activation in the order in which they are made: table by table, then the
/// stale tables.
pub fn activation_steps(
    tables: &[SnapshotActivationTable],
    states: &[TableActivationState],
    quarantines: &[Option<QualifiedName>],
    stale: &[QuarantinePlan],
) -> (r: Vec<ActivationStep>)
    requires
        tables@.len() == states@.len(),
        tables@.len() == quarantines@.len(),
    ensures
        r@ == all_table_steps(tables@, states@, quarantines@, tables@.len() as int) + stale_steps(
            stale@,
        ),
{
    let mut steps: Vec<ActivationStep> = Vec::new();
    let mut i: usize = 0;
    proof {
        assert(steps@ =~= all_table_steps(tables@, states@, quarantines@, 0));
    }
    while i < tables.len()
        invariant
            i <= tables.len(),
            tables@.len() == states@.len(),
            tables@.len() == quarantines@.len(),
            steps@ == all_table_steps(tables@, states@, quarantines@, i as int),
        decreases tables.len() - i,
    {
        push_table_steps(&mut steps, &tables[i], &states[i], &quarantines[i]);
        i = i + 1;
    }
    let mut rest = plan_stale_steps(stale);
    steps.append(&mut rest);
    steps
}

/// The quarantines of the first tables.
pub open spec fn replaced_names(quarantines: Seq<Option<QualifiedName>>) -> Seq<QualifiedName>
    decreases quarantines.len(),
{
    if quarantines.len() == 0 {
        Seq::empty()
    } else {
        match quarantines.last() {
            Some(name) => replaced_names(quarantines.drop_last()).push(name),
            None => replaced_names(quarantines.drop_last()),
        }
    }
}

/// The quarantines of stale tables.
pub open spec fn stale_quarantines(plans: Seq<QuarantinePlan>) -> Seq<QualifiedName> {
    Seq::new(plans.len(), |i: int| plans[i].quarantine)
}

/// What an activation reports as quarantined: replaced tables first, then stale ones.
pub fn quarantined_names(quarantines: &[Option<QualifiedName>], stale: &[QuarantinePlan]) -> (r:
    Vec<QualifiedName>)
    ensures
        r@ == replaced_names(quarantines@) + stale_quarantines(stale@),
{
    let mut names: Vec<QualifiedName> = Vec::new();
    let mut i: usize = 0;
    proof {
        assert(names@ =~= replaced_names(quarantines@.take(0)));
    }
    while i < quarantines.len()
        invariant
            i <= quarantines.len(),
            names@ == replaced_names(quarantines@.take(i as int)),
        decreases quarantines.len() - i,
    {
        proof {
            assert(quarantines@.take(i + 1).drop_last() =~= quarantines@.take(i as int));
        }
        match &quarantines[i] {
            None => {},
            Some(name) => names.push(name.clone()),
        }
        i = i + 1;
    }
    let ghost replaced = replaced_names(quarantines@);
    proof {
        assert(quarantines@.take(i as int) =~= quarantines@);
        assert(names@ =~= replaced + stale_quarantines(stale@.take(0)));
    }
    let mut n: usize = 0;
    while n < stale.len()
        invariant
            n <= stale.len(),
            names@ == replaced + stale_quarantines(stale@.take(n as int)),
        decreases stale.len() - n,
    {
        names.push(stale[n].quarantine.clone());
        proof {
            assert(names@ =~= replaced + stale_quarantines(stale@.take(n + 1)));
        }
        n = n + 1;
    }
    proof {
        assert(stale@.take(n as int) =~= stale@);
    }
    names
}

// ---------------------------------------------------------------------------------------------
// The decision of an activation
// ---------------------------------------------------------------------------------------------

/// What the target holds under the two names of a manifest table.
#[derive(Debug, Clone, PartialEq, Eq)]
pub struct TableRelations {
    pub target: RelationState,
    pub shadow: RelationState,
}

/// How far the activation of one of the manifest's tables is.
pub open spec fn classified(
    request: SnapshotActivationRequest,
    found: Seq<TableRelations>,
    i: int,
) -> Option<TableActivationState> {
    classification(
        request.fence,
        request.snapshot_group_id,
        request.tables@[i],
        found[i].target,
        found[i].shadow,
    )
}

/// The error tells why the activation of one of the manifest's tables cannot go on.
pub open spec fn refuses_table(
    e: SnapshotTargetError,
    request: SnapshotActivationRequest,
    found: Seq<TableRelations>,
    i: int,
) -> bool {
    refuses_classification(
        e,
        request.fence,
        request.snapshot_group_id,
        request.tables@[i],
        found[i].target,
        found[i].shadow,
    )
}

/// Tells how far the activation of every table is; the first that cannot go on is reported.
pub fn classify_tables(request: &SnapshotActivationRequest, found: &[TableRelations]) -> (r: Result<
    Vec<TableActivationState>,
    SnapshotTargetError,
>)
    requires
        found@.len() == request.tables@.len(),
    ensures
        match r {
            Ok(states) => {
                &&& states@.len() == found@.len()
                &&& forall|i: int|
                    0 <= i < found@.len() ==> #[trigger] classified(*request, found@, i) == Some(
                        states@[i],
                    )
            },
            Err(e) => exists|i: int|
                {
                    &&& 0 <= i < found@.len()
                    &&& #[trigger] classified(*request, found@, i) is None
                    &&& forall|k: int|
                        0 <= k < i ==> #[trigger] classified(*request, found@, k) is Some
                    &&& refuses_table(e, *request, found@, i)
                },
        },
{
    let mut states: Vec<TableActivationState> = Vec::new();
    let mut i: usize = 0;
    while i < found.len()
        invariant
            i <= found@.len(),
            found@.len() == request.tables@.len(),
            states@.len() == i,
            forall|k: int|
                0 <= k < i ==> #[trigger] classified(*request, found@, k) == Some(states@[k]),
        decreases found.len() - i,
    {
        match classify_table(
            request,
            &request.tables[i],
            found[i].target.clone(),
            found[i].shadow.clone(),
        ) {
            Err(e) => {
                proof {
                    assert(classified(*request, found@, i as int) is None);
                }
                return Err(e);
            },
            Ok(state) => {
                proof {
                    assert(classified(*request, found@, i as int) == Some(state));
                }
                states.push(state);
            },
        }
        i = i + 1;
    }
    Ok(states)
}

/// The node's checkpoint is what the activation needs: a retry must find the boundary reached, a
/// first activation one that it may advance to.
pub open spec fn boundary_passes(
    retry: bool,
    current: Seq<Option<StoredNodeCheckpoint>>,
    boundaries: Seq<NodeCheckpoint>,
    i: int,
) -> bool {
    if retry {
        reached_model(current[i], boundaries[i]) == Ok::<bool, CheckpointError>(true)
    } else {
        advance_model(current[i], boundaries[i]) is Ok
    }
}

/// The error tells why a node's checkpoint is not what the activation needs.
pub open spec fn refuses_boundary(
    e: SnapshotTargetError,
    retry: bool,
    current: Option<StoredNodeCheckpoint>,
    boundary: NodeCheckpoint,
) -> bool {
    if retry {
        match reached_model(current, boundary) {
            Ok(_) => e == SnapshotTargetError::ActiveCheckpointIncomplete(boundary.key.node_id),
            Err(fault) => e == SnapshotTargetError::Checkpoint(fault),
        }
    } else {
        advance_model(current, boundary) matches Err(fault) && e == SnapshotTargetError::Checkpoint(
            fault,
        )
    }
}

/// Every node's checkpoint is what the activation needs.
pub open spec fn boundaries_pass(
    retry: bool,
    current: Seq<Option<StoredNodeCheckpoint>>,
    boundaries: Seq<NodeCheckpoint>,
) -> bool {
    forall|i: int|
        0 <= i < boundaries.len() ==> #[trigger] boundary_passes(retry, current, boundaries, i)
}

/// The error is that of the first node whose checkpoint is not what the activation needs.
pub open spec fn refuses_boundaries(
    e: SnapshotTargetError,
    retry: bool,
    current: Seq<Option<StoredNodeCheckpoint>>,
    boundaries: Seq<NodeCheckpoint>,
) -> bool {
    exists|i: int|
        {
            &&& 0 <= i < boundaries.len()
            &&& !(#[trigger] boundary_passes(retry, current, boundaries, i))
            &&& forall|k: int|
                0 <= k < i ==> #[trigger] boundary_passes(retry, current, boundaries, k)
            &&& refuses_boundary(e, retry, current[i], boundaries[i])
        }
}

/// Checks the checkpoint of every node of the group.
pub fn judge_boundaries(
    retry: bool,
    current: &[Option<StoredNodeCheckpoint>],
    boundaries: &[NodeCheckpoint],
) -> (r: Result<(), SnapshotTargetError>)
    requires
        current@.len() == boundaries@.len(),
    ensures
        match r {
            Ok(()) => boundaries_pass(retry, current@, boundaries@),
            Err(e) => refuses_boundaries(e, retry, current@, boundaries@),
        },
{
    let mut i: usize = 0;
    while i < boundaries.len()
        invariant
            i <= boundaries@.len(),
            current@.len() == boundaries@.len(),
            forall|k: int|
                0 <= k < i ==> #[trigger] boundary_passes(retry, current@, boundaries@, k),
        decreases boundaries.len() - i,
    {
        let stored = match &current[i] {
            Some(stored) => Some(stored),
            None => None,
        };
        let judged = if retry {
            require_boundary_reached(stored, &boundaries[i])
        } else {
            require_boundary_admitted(stored, &boundaries[i])
        };
        proof {
            assert(stored_of(stored) == current@[i as int]);
        }
        match judged {
            Err(e) => {
                proof {
                    assert(!boundary_passes(retry, current@, boundaries@, i as int));
                }
                return Err(e);
            },
            Ok(()) => {
                proof {
                    assert(boundary_passes(retry, current@, boundaries@, i as int));
                }
            },
        }
        i = i + 1;
    }
    Ok(())
}

/// The quarantine of the table that a promotion replaces, where it replaces one.
pub open spec fn replaced_view(table: SnapshotActivationTable, state: TableActivationState) ->
    Option<NameView> {
    match state {
        TableActivationState::Pending { previous_active: Some(record), .. } => Some(
            quarantine_view(table.target@, record),
        ),
        _ => None,
    }
}

/// The quarantines of what the first `count` promotions replace.
pub open spec fn replaced_views(
    tables: Seq<SnapshotActivationTable>,
    states: Seq<TableActivationState>,
    count: int,
) -> Seq<NameView>
    decreases count,
{
    if count <= 0 {
        Seq::empty()
    } else {
        let before = replaced_views(tables, states, count - 1);
        match replaced_view(tables[count - 1], states[count - 1]) {
            Some(name) => before.push(name),
            None => before,
        }
    }
}

/// The quarantines of the first `count` stale tables.
pub open spec fn stale_views(stale: Seq<StaleActiveTable>, count: int) -> Seq<NameView>
    decreases count,
{
    if count <= 0 {
        Seq::empty()
    } else {
        stale_views(stale, count - 1).push(
            quarantine_view(stale[count - 1].target@, stale[count - 1].record),
        )
    }
}

/// A quarantine that is a name, reserved for nothing else, and holds nothing.
pub open spec fn quarantine_free(
    name: NameView,
    reserved: Seq<NameView>,
    found: RelationState,
) -> bool {
    &&& name.fault() is None
    &&& !reserved.contains(name)
    &&& found is Vacant
}

/// The error tells why a quarantine cannot be used.
pub open spec fn refuses_quarantine(e: SnapshotTargetError, name: NameView) -> bool {
    match name.fault() {
        Some(fault) => e == SnapshotTargetError::Schema(SchemaError::Core(fault)),
        None => conflicts(e, name),
    }
}

/// What the promotion of one table replaces can go into quarantine.
pub open spec fn replaced_free(
    tables: Seq<SnapshotActivationTable>,
    states: Seq<TableActivationState>,
    found: Seq<RelationState>,
    reserved: Seq<NameView>,
    i: int,
) -> bool {
    replaced_view(tables[i], states[i]) matches Some(name) ==> quarantine_free(
        name,
        reserved + replaced_views(tables, states, i),
        found[i],
    )
}

/// Everything that promotions replace can go into quarantine.
pub open spec fn all_replaced_free(
    tables: Seq<SnapshotActivationTable>,
    states: Seq<TableActivationState>,
    found: Seq<RelationState>,
    reserved: Seq<NameView>,
) -> bool {
    forall|i: int|
        0 <= i < tables.len() ==> #[trigger] replaced_free(tables, states, found, reserved, i)
}

/// The error is that of the first replaced table that cannot go into quarantine.
pub open spec fn refuses_replaced(
    e: SnapshotTargetError,
    tables: Seq<SnapshotActivationTable>,
    states: Seq<TableActivationState>,
    found: Seq<RelationState>,
    reserved: Seq<NameView>,
) -> bool {
    exists|i: int|
        {
            &&& 0 <= i < tables.len()
            &&& !(#[trigger] replaced_free(tables, states, found, reserved, i))
            &&& forall|k: int|
                0 <= k < i ==> #[trigger] replaced_free(tables, states, found, reserved, k)
            &&& refuses_quarantine(e, replaced_view(tables[i], states[i])->0)
        }
}

/// The quarantine has the expected name, or there is none.
pub open spec fn names_quarantine(
    quarantine: Option<QualifiedName>,
    expected: Option<NameView>,
) -> bool {
    match (quarantine, expected) {
        (Some(name), Some(view)) => name@ == view,
        (None, None) => true,
        _ => false,
    }
}

/// Names and reserves the quarantine of every table that a promotion replaces. `found` tells what
/// the target holds under each of these names.
pub fn plan_replaced(
    tables: &[SnapshotActivationTable],
    states: &[TableActivationState],
    found: &[RelationState],
    reserved: &mut ReservedNames,
) -> (r: Result<Vec<Option<QualifiedName>>, SnapshotTargetError>)
    requires
        tables@.len() == states@.len(),
        tables@.len() == found@.len(),
    ensures
        match r {
            Ok(quarantines) => {
                &&& all_replaced_free(tables@, states@, found@, old(reserved)@)
                &&& final(reserved)@ == old(reserved)@ + replaced_views(
                    tables@,
                    states@,
                    tables@.len() as int,
                )
                &&& quarantines@.len() == tables@.len()
                &&& forall|i: int|
                    0 <= i < tables@.len() ==> names_quarantine(
                        #[trigger] quarantines@[i],
                        replaced_view(tables@[i], states@[i]),
                    )
            },
            Err(e) => refuses_replaced(e, tables@, states@, found@, old(reserved)@),
        },
{
    let ghost before = reserved@;
    let mut quarantines: Vec<Option<QualifiedName>> = Vec::new();
    let mut i: usize = 0;
    proof {
        assert(reserved@ =~= before + replaced_views(tables@, states@, 0));
    }
    while i < tables.len()
        invariant
            i <= tables@.len(),
            tables@.len() == states@.len(),
            tables@.len() == found@.len(),
            before == old(reserved)@,
            reserved@ == before + replaced_views(tables@, states@, i as int),
            quarantines@.len() == i,
            forall|k: int|
                0 <= k < i ==> #[trigger] replaced_free(tables@, states@, found@, before, k),
            forall|k: int|
                0 <= k < i ==> names_quarantine(
                    #[trigger] quarantines@[k],
                    replaced_view(tables@[k], states@[k]),
                ),
        decreases tables.len() - i,
    {
        let ghost at = i as int;
        let ghost taken = reserved@;
        match &states[i] {
            TableActivationState::Pending { previous_active: Some(record), .. } => {
                let name = match reserve_quarantine(reserved, &tables[i].target, record) {
                    Err(e) => {
                        proof {
                            assert(!replaced_free(tables@, states@, found@, before, at));
                        }
                        return Err(e);
                    },
                    Ok(name) => name,
                };
                match require_vacant(&name, &found[i]) {
                    Err(e) => {
                        proof {
                            assert(!replaced_free(tables@, states@, found@, before, at));
                        }
                        return Err(e);
                    },
                    Ok(()) => {},
                }
                proof {
                    assert(reserved@ =~= before + replaced_views(tables@, states@, at + 1));
                    assert(replaced_free(tables@, states@, found@, before, at));
                }
                quarantines.push(Some(name));
            },
            _ => {
                proof {
                    assert(replaced_view(tables@[at], states@[at]) is None);
                    assert(replaced_free(tables@, states@, found@, before, at));
                }
                quarantines.push(None);
            },
        }
        i = i + 1;
    }
    Ok(quarantines)
}

/// A stale table can go into quarantine.
pub open spec fn stale_free(
    stale: Seq<StaleActiveTable>,
    found: Seq<RelationState>,
    reserved: Seq<NameView>,
    fencing_token: i64,
    i: int,
) -> bool {
    &&& stale[i].record.fencing_token <= fencing_token
    &&& quarantine_free(
        quarantine_view(stale[i].target@, stale[i].record),
        reserved + stale_views(stale, i),
        found[i],
    )
}

/// Every stale table can go into quarantine.
pub open spec fn all_stale_free(
    stale: Seq<StaleActiveTable>,
    found: Seq<RelationState>,
    reserved: Seq<NameView>,
    fencing_token: i64,
) -> bool {
    forall|i: int|
        0 <= i < stale.len() ==> #[trigger] stale_free(stale, found, reserved, fencing_token, i)
}

/// The error is that of the first stale table that cannot go into quarantine.
pub open spec fn refuses_stale(
    e: SnapshotTargetError,
    stale: Seq<StaleActiveTable>,
    found: Seq<RelationState>,
    reserved: Seq<NameView>,
    fencing_token: i64,
) -> bool {
    exists|i: int|
        {
            &&& 0 <= i < stale.len()
            &&& !(#[trigger] stale_free(stale, found, reserved, fencing_token, i))
            &&& forall|k: int|
                0 <= k < i ==> #[trigger] stale_free(stale, found, reserved, fencing_token, k)
            &&& if stale[i].record.fencing_token > fencing_token {
                refuses_fence(e, stale[i].target@, fencing_token, stale[i].record.fencing_token)
            } else {
                refuses_quarantine(e, quarantine_view(stale[i].target@, stale[i].record))
            }
        }
}

/// The plan brings the stale table into its quarantine.
pub open spec fn plans_stale(plan: QuarantinePlan, stale: StaleActiveTable) -> bool {
    &&& plan.original == stale.target
    &&& plan.quarantine@ == quarantine_view(stale.target@, stale.record)
    &&& plan.record == stale.record
    &&& plan.reason == ReconciliationReason::Stale
}

/// Names and reserves the quarantine of every stale table. `found` tells what the target holds
/// under each of these names.
pub fn plan_stale(
    stale: &[StaleActiveTable],
    found: &[RelationState],
    fencing_token: i64,
    reserved: &mut ReservedNames,
) -> (r: Result<Vec<QuarantinePlan>, SnapshotTargetError>)
    requires
        stale@.len() == found@.len(),
    ensures
        match r {
            Ok(plans) => {
                &&& all_stale_free(stale@, found@, old(reserved)@, fencing_token)
                &&& final(reserved)@ == old(reserved)@ + stale_views(stale@, stale@.len() as int)
                &&& plans@.len() == stale@.len()
                &&& forall|i: int|
                    0 <= i < stale@.len() ==> plans_stale(#[trigger] plans@[i], stale@[i])
            },
            Err(e) => refuses_stale(e, stale@, found@, old(reserved)@, fencing_token),
        },
{
    let ghost before = reserved@;
    let mut plans: Vec<QuarantinePlan> = Vec::new();
    let mut i: usize = 0;
    proof {
        assert(reserved@ =~= before + stale_views(stale@, 0));
    }
    while i < stale.len()
        invariant
            i <= stale@.len(),
            stale@.len() == found@.len(),
            before == old(reserved)@,
            reserved@ == before + stale_views(stale@, i as int),
            plans@.len() == i,
            forall|k: int|
                0 <= k < i ==> #[trigger] stale_free(stale@, found@, before, fencing_token, k),
            forall|k: int| 0 <= k < i ==> plans_stale(#[trigger] plans@[k], stale@[k]),
        decreases stale.len() - i,
    {
        let ghost at = i as int;
        let table = StaleActiveTable {
            target: stale[i].target.clone(),
            record: stale[i].record.clone(),
        };
        let plan = match plan_stale_quarantine(reserved, table, fencing_token) {
            Err(e) => {
                proof {
                    assert(!stale_free(stale@, found@, before, fencing_token, at));
                }
                return Err(e);
            },
            Ok(plan) => plan,
        };
        match require_vacant(&plan.quarantine, &found[i]) {
            Err(e) => {
                proof {
                    assert(!stale_free(stale@, found@, before, fencing_token, at));
                }
                return Err(e);
            },
            Ok(()) => {},
        }
        proof {
            assert(reserved@ =~= before + stale_views(stale@, at + 1));
            assert(stale_free(stale@, found@, before, fencing_token, at));
        }
        plans.push(plan);
        i = i + 1;
    }
    Ok(plans)
}

/// What an activation finds in the target.
#[derive(Debug)]
pub struct ActivationEvidence {
    /// How far each table of the manifest is.
    pub states: Vec<TableActivationState>,
    /// What stands under the quarantine of the table that each promotion replaces; where it
    /// replaces none, nothing is read of it.
    pub replaced_quarantines: Vec<RelationState>,
    /// Active tables that the manifest does not name.
    pub stale: Vec<StaleActiveTable>,
    /// What stands under the quarantine of each stale table.
    pub stale_quarantines: Vec<RelationState>,
    /// The checkpoint of the node of each boundary.
    pub checkpoints: Vec<Option<StoredNodeCheckpoint>>,
}

impl ActivationEvidence {
    /// The evidence speaks of every part of the request.
    pub open spec fn covers(self, request: SnapshotActivationRequest) -> bool {
        &&& self.states@.len() == request.tables@.len()
        &&& self.replaced_quarantines@.len() == request.tables@.len()
        &&& self.stale_quarantines@.len() == self.stale@.len()
        &&& self.checkpoints@.len() == request.initial_checkpoints@.len()
    }

    /// The names that no quarantine may take, before any is given one.
    pub open spec fn reserved(self, request: SnapshotActivationRequest) -> Seq<NameView> {
        manifest_names(request.tables@) + stale_names(self.stale@)
    }

    /// The names that no stale table's quarantine may take.
    pub open spec fn reserved_with_replaced(self, request: SnapshotActivationRequest) -> Seq<
        NameView,
    > {
        self.reserved(request) + replaced_views(
            request.tables@,
            self.states@,
            request.tables@.len() as int,
        )
    }
}

/// The stored status and the tables tell the same.
pub open spec fn status_agrees(
    status: SnapshotGroupStatus,
    states: Seq<TableActivationState>,
) -> bool {
    if all_active(states) {
        status == SnapshotGroupStatus::Active
    } else {
        all_pending(states) && status == SnapshotGroupStatus::Loading
    }
}

/// Nothing stands against the activation.
pub open spec fn activation_ready(
    request: SnapshotActivationRequest,
    status: SnapshotGroupStatus,
    evidence: ActivationEvidence,
) -> bool {
    &&& status_agrees(status, evidence.states@)
    &&& boundaries_pass(
        all_active(evidence.states@),
        evidence.checkpoints@,
        request.initial_checkpoints@,
    )
    &&& all_replaced_free(
        request.tables@,
        evidence.states@,
        evidence.replaced_quarantines@,
        evidence.reserved(request),
    )
    &&& all_stale_free(
        evidence.stale@,
        evidence.stale_quarantines@,
        evidence.reserved_with_replaced(request),
        request.fence.fencing_token,
    )
}

/// The error tells what stands against the activation: first that the group is active in part, then
/// its status, its boundaries, the quarantines of replaced tables and those of stale ones.
pub open spec fn refuses_activation(
    e: SnapshotTargetError,
    request: SnapshotActivationRequest,
    status: SnapshotGroupStatus,
    evidence: ActivationEvidence,
) -> bool {
    let states = evidence.states@;
    if !all_active(states) && !all_pending(states) {
        e == SnapshotTargetError::MixedActivationState
    } else if !status_agrees(status, states) {
        e == SnapshotTargetError::CorruptSnapshotGroupManifest(request.snapshot_group_id)
    } else if !boundaries_pass(
        all_active(states),
        evidence.checkpoints@,
        request.initial_checkpoints@,
    ) {
        refuses_boundaries(
            e,
            all_active(states),
            evidence.checkpoints@,
            request.initial_checkpoints@,
        )
    } else if !all_replaced_free(
        request.tables@,
        states,
        evidence.replaced_quarantines@,
        evidence.reserved(request),
    ) {
        refuses_replaced(
            e,
            request.tables@,
            states,
            evidence.replaced_quarantines@,
            evidence.reserved(request),
        )
    } else {
        refuses_stale(
            e,
            evidence.stale@,
            evidence.stale_quarantines@,
            evidence.reserved_with_replaced(request),
            request.fence.fencing_token,
        )
    }
}

/// Everything that an activation changes.
#[derive(Debug)]
pub struct ActivationPlan {
    /// The quarantine of the table that each promotion replaces.
    pub quarantines: Vec<Option<QualifiedName>>,
    /// The stale tables and their quarantines.
    pub stale: Vec<QuarantinePlan>,
    /// The changes, in their order.
    pub steps: Vec<ActivationStep>,
    /// What the activation reports.
    pub outcome: SnapshotActivationOutcome,
}

impl ActivationPlan {
    /// The plan is the one that the evidence asks for.
    pub open spec fn follows(
        self,
        request: SnapshotActivationRequest,
        evidence: ActivationEvidence,
    ) -> bool {
        &&& self.quarantines@.len() == request.tables@.len()
        &&& forall|i: int|
            0 <= i < request.tables@.len() ==> names_quarantine(
                #[trigger] self.quarantines@[i],
                replaced_view(request.tables@[i], evidence.states@[i]),
            )
        &&& self.stale@.len() == evidence.stale@.len()
        &&& forall|i: int|
            0 <= i < evidence.stale@.len() ==> plans_stale(
                #[trigger] self.stale@[i],
                evidence.stale@[i],
            )
        &&& self.steps@ == all_table_steps(
            request.tables@,
            evidence.states@,
            self.quarantines@,
            request.tables@.len() as int,
        ) + stale_steps(self.stale@)
        &&& self.outcome.quarantined@ == replaced_names(self.quarantines@) + stale_quarantines(
            self.stale@,
        )
        &&& self.outcome.disposition == if all_active(evidence.states@) {
            SnapshotActivationDisposition::AlreadyActive
        } else {
            SnapshotActivationDisposition::Activated
        }
    }
}

/// Decides a whole activation before its first change: either everything is planned, or nothing
/// is.
///
/// A group whose tables are all active is one that was activated before: then only tables that
/// have become stale since are moved.
pub fn plan_activation(
    request: &SnapshotActivationRequest,
    status: SnapshotGroupStatus,
    evidence: &ActivationEvidence,
) -> (r: Result<ActivationPlan, SnapshotTargetError>)
    requires
        evidence.covers(*request),
    ensures
        match r {
            Ok(plan) => activation_ready(*request, status, *evidence) && plan.follows(
                *request,
                *evidence,
            ),
            Err(e) => refuses_activation(e, *request, status, *evidence),
        },
{
    let retry = match judge_activation(
        request.snapshot_group_id,
        status,
        evidence.states.as_slice(),
    ) {
        Err(e) => return Err(e),
        Ok(retry) => retry,
    };
    proof {
        if !retry {
            assert(!(evidence.states@[0] is Active));
        }
    }
    match judge_boundaries(
        retry,
        evidence.checkpoints.as_slice(),
        request.initial_checkpoints.as_slice(),
    ) {
        Err(e) => return Err(e),
        Ok(()) => {},
    }
    let mut reserved = ReservedNames::new(request.tables.as_slice(), evidence.stale.as_slice());
    let quarantines = match plan_replaced(
        request.tables.as_slice(),
        evidence.states.as_slice(),
        evidence.replaced_quarantines.as_slice(),
        &mut reserved,
    ) {
        Err(e) => return Err(e),
        Ok(quarantines) => quarantines,
    };
    let stale = match plan_stale(
        evidence.stale.as_slice(),
        evidence.stale_quarantines.as_slice(),
        request.fence.fencing_token,
        &mut reserved,
    ) {
        Err(e) => return Err(e),
        Ok(stale) => stale,
    };
    let steps = activation_steps(
        request.tables.as_slice(),
        evidence.states.as_slice(),
        quarantines.as_slice(),
        stale.as_slice(),
    );
    let quarantined = quarantined_names(quarantines.as_slice(), stale.as_slice());
    let disposition = if retry {
        SnapshotActivationDisposition::AlreadyActive
    } else {
        SnapshotActivationDisposition::Activated
    };
    Ok(
        ActivationPlan {
            quarantines,
            stale,
            steps,
            outcome: SnapshotActivationOutcome { disposition, quarantined },
        },
    )
}

/// The statement that renames a table inside its schema.
pub fn rename_table_sql(table: &QualifiedName, new_name: &str) -> (r: Result<
    String,
    SnapshotTargetError,
>)
    ensures
        match r {
            Ok(text) => {
                &&& name_render_fault(table@) is None
                &&& identifier_render_fault(new_name@) is None
                &&& text@ == "ALTER TABLE "@ + quoted_name(table@) + " RENAME TO "@ + quoted(
                    new_name@,
                )
            },
            Err(e) => if name_render_fault(table@) is Some {
                e == SnapshotTargetError::Sql(name_render_fault(table@)->0)
            } else {
                identifier_render_fault(new_name@) is Some && e == SnapshotTargetError::Sql(
                    identifier_render_fault(new_name@)->0,
                )
            },
        },
{
    let from = match quote_qualified_name(table) {
        Err(e) => return Err(SnapshotTargetError::Sql(e)),
        Ok(text) => text,
    };
    let to = match quote_identifier(new_name) {
        Err(e) => return Err(SnapshotTargetError::Sql(e)),
        Ok(text) => text,
    };
    let mut out = "ALTER TABLE ".to_string();
    out.append(from.as_str());
    out.append(" RENAME TO ");
    out.append(to.as_str());
    Ok(out)
}

/// The numeric parameters of the statements that move the metadata of a table.
#[derive(Debug, Clone, Copy, PartialEq, Eq, Structural)]
pub struct RecordParameters {
    pub source_relation_id: i64,
    pub table_generation: i64,
}

/// Gives the numeric parameters of a record.
pub fn record_parameters(record: &ManagedTableRecord) -> (r: Result<
    RecordParameters,
    SnapshotTargetError,
>)
    ensures
        match r {
            Ok(parameters) => {
                &&& record.table_generation <= i64::MAX
                &&& parameters.source_relation_id == record.source_relation_id
                &&& parameters.table_generation == record.table_generation
            },
            Err(e) => record.table_generation > i64::MAX && e
                == SnapshotTargetError::GenerationOutOfRange(record.table_generation),
        },
{
    match database_generation(record.table_generation) {
        Err(e) => Err(e),
        Ok(table_generation) => Ok(
            RecordParameters {
                source_relation_id: record.source_relation_id as i64,
                table_generation,
            },
        ),
    }
}

// ---------------------------------------------------------------------------------------------
// Resuming an active group
// ---------------------------------------------------------------------------------------------

/// A pipeline resumes from exactly one active group.
pub fn choose_active_group(fence: PipelineFence, groups: &[Uuid]) -> (r: Result<
    Uuid,
    SnapshotTargetError,
>)
    ensures
        match r {
            Ok(group) => groups@.len() == 1 && group == groups@[0],
            Err(e) => if groups@.len() == 0 {
                e == (SnapshotTargetError::MissingActiveSnapshotGroup {
                    pipeline: fence.pipeline_id,
                    generation: fence.topology_generation,
                })
            } else {
                groups@.len() > 1 && e == (SnapshotTargetError::MultipleActiveSnapshotGroups {
                    pipeline: fence.pipeline_id,
                    generation: fence.topology_generation,
                })
            },
        },
{
    if groups.len() == 0 {
        Err(
            SnapshotTargetError::MissingActiveSnapshotGroup {
                pipeline: fence.pipeline_id,
                generation: fence.topology_generation,
            },
        )
    } else if groups.len() == 1 {
        Ok(groups[0])
    } else {
        Err(
            SnapshotTargetError::MultipleActiveSnapshotGroups {
                pipeline: fence.pipeline_id,
                generation: fence.topology_generation,
            },
        )
    }
}

/// The stored group is active and older than or as old as the fence.
pub open spec fn resumable(stored: StoredSnapshotGroup, fence: PipelineFence) -> bool {
    &&& stored.state == SnapshotGroupStatus::Active
    &&& stored.request.fence.pipeline_id == fence.pipeline_id
    &&& stored.request.fence.topology_generation == fence.topology_generation
    &&& stored.request.fence.fencing_token <= fence.fencing_token
}

/// The request that a resuming worker expects to find.
pub open spec fn expected_request(
    stored: StoredSnapshotGroup,
    fence: PipelineFence,
    tables: Seq<SnapshotActivationTable>,
) -> RequestView {
    RequestView { fence, tables: table_views(tables), ..stored.request@ }
}

/// The error tells why a worker cannot resume from the stored group.
pub open spec fn refuses_resume(
    e: SnapshotTargetError,
    stored: StoredSnapshotGroup,
    fence: PipelineFence,
    tables: Seq<SnapshotActivationTable>,
) -> bool {
    let expected = expected_request(stored, fence, tables);
    if !resumable(stored, fence) {
        e == SnapshotTargetError::CorruptSnapshotGroupManifest(stored.request.snapshot_group_id)
    } else if !acceptable(expected) {
        refuses_request(e, expected)
    } else {
        exists|canonical: RequestView|
            {
                &&& #[trigger] same_request(canonical, expected)
                &&& is_canonical(canonical)
                &&& (e matches SnapshotTargetError::SnapshotGroupManifestMismatch {
                    group,
                    difference,
                } && group == stored.request.snapshot_group_id && table_difference(
                    stored.request@.tables,
                    canonical.tables,
                ) == Some(difference@))
            }
    }
}

/// Checks the tables of a resuming worker against the stored group, and gives the request that
/// they make up.
///
/// The group's original fencing token is immutable provenance: the worker holds the current fence,
/// while the tables must be exactly those of the manifest.
pub fn validate_active_manifest(
    stored: &StoredSnapshotGroup,
    fence: PipelineFence,
    tables: &Vec<SnapshotActivationTable>,
) -> (r: Result<SnapshotActivationRequest, SnapshotTargetError>)
    ensures
        match r {
            Ok(request) => {
                &&& resumable(*stored, fence)
                &&& acceptable(expected_request(*stored, fence, tables@))
                &&& same_request(request@, expected_request(*stored, fence, tables@))
                &&& is_canonical(request@)
                &&& table_difference(stored.request@.tables, request@.tables) is None
            },
            Err(e) => refuses_resume(e, *stored, fence, tables@),
        },
{
    let group = stored.request.snapshot_group_id;
    if stored.state != SnapshotGroupStatus::Active || stored.request.fence.pipeline_id
        != fence.pipeline_id || stored.request.fence.topology_generation
        != fence.topology_generation || stored.request.fence.fencing_token > fence.fencing_token {
        return Err(SnapshotTargetError::CorruptSnapshotGroupManifest(group));
    }
    let asked = SnapshotActivationRequest {
        fence,
        snapshot_group_id: group,
        tables: tables.clone(),
        initial_checkpoints: stored.request.initial_checkpoints.clone(),
    };
    proof {
        assert(asked@.tables =~= table_views(tables@));
        assert(asked@.initial_checkpoints =~= stored.request@.initial_checkpoints);
        assert(asked@ == expected_request(*stored, fence, tables@));
    }
    let canonical = match canonical_request(&asked) {
        Err(e) => return Err(e),
        Ok(canonical) => canonical,
    };
    match first_table_difference(&stored.request.tables, &canonical.tables) {
        None => Ok(canonical),
        Some(difference) => {
            proof {
                assert(same_request(canonical@, expected_request(*stored, fence, tables@)));
            }
            Err(SnapshotTargetError::SnapshotGroupManifestMismatch { group, difference })
        },
    }
}

/// Every table of an active group must be active.
pub fn require_active(state: &TableActivationState) -> (r: Result<(), SnapshotTargetError>)
    ensures
        match r {
            Ok(()) => *state is Active,
            Err(e) => *state is Pending && e == SnapshotTargetError::MixedActivationState,
        },
{
    match state {
        TableActivationState::Active { .. } => Ok(()),
        TableActivationState::Pending { .. } => Err(SnapshotTargetError::MixedActivationState),
    }
}

/// One of the manifest's tables is active.
pub open spec fn is_resumed(
    request: SnapshotActivationRequest,
    found: Seq<TableRelations>,
    i: int,
) -> bool {
    classified(request, found, i) matches Some(TableActivationState::Active { .. })
}

/// Checks that every table of an active group is active; the first that is not is reported.
pub fn judge_resumed_tables(request: &SnapshotActivationRequest, found: &[TableRelations]) -> (r:
    Result<Vec<TableActivationState>, SnapshotTargetError>)
    requires
        found@.len() == request.tables@.len(),
    ensures
        match r {
            Ok(states) => {
                &&& states@.len() == found@.len()
                &&& all_active(states@)
                &&& forall|i: int|
                    0 <= i < found@.len() ==> #[trigger] classified(*request, found@, i) == Some(
                        states@[i],
                    )
            },
            Err(e) => exists|i: int|
                {
                    &&& 0 <= i < found@.len()
                    &&& !(#[trigger] is_resumed(*request, found@, i))
                    &&& forall|k: int| 0 <= k < i ==> #[trigger] is_resumed(*request, found@, k)
                    &&& if classified(*request, found@, i) is None {
                        refuses_table(e, *request, found@, i)
                    } else {
                        e == SnapshotTargetError::MixedActivationState
                    }
                },
        },
{
    let mut states: Vec<TableActivationState> = Vec::new();
    let mut i: usize = 0;
    while i < found.len()
        invariant
            i <= found@.len(),
            found@.len() == request.tables@.len(),
            states@.len() == i,
            all_active(states@),
            forall|k: int|
                0 <= k < i ==> #[trigger] classified(*request, found@, k) == Some(states@[k]),
            forall|k: int| 0 <= k < i ==> #[trigger] is_resumed(*request, found@, k),
        decreases found.len() - i,
    {
        let state = match classify_table(
            request,
            &request.tables[i],
            found[i].target.clone(),
            found[i].shadow.clone(),
        ) {
            Err(e) => {
                proof {
                    assert(!is_resumed(*request, found@, i as int));
                }
                return Err(e);
            },
            Ok(state) => state,
        };
        proof {
            assert(classified(*request, found@, i as int) == Some(state));
        }
        match require_active(&state) {
            Err(e) => {
                proof {
                    assert(!is_resumed(*request, found@, i as int));
                }
                return Err(e);
            },
            Ok(()) => {},
        }
        proof {
            assert(is_resumed(*request, found@, i as int));
        }
        states.push(state);
        i = i + 1;
    }
    Ok(states)
}

// ---------------------------------------------------------------------------------------------
// Laws
// ---------------------------------------------------------------------------------------------

/// No name occurs twice, and none is reserved.
pub open spec fn names_are_free(names: Seq<NameView>, reserved: Seq<NameView>) -> bool {
    &&& forall|i: int| 0 <= i < names.len() ==> !reserved.contains(#[trigger] names[i])
    &&& forall|i: int, j: int|
        #![trigger names[i], names[j]]
        0 <= i < j < names.len() ==> names[i] != names[j]
}

proof fn lemma_push_free(names: Seq<NameView>, reserved: Seq<NameView>, name: NameView)
    requires
        names_are_free(names, reserved),
        !(reserved + names).contains(name),
    ensures
        names_are_free(names.push(name), reserved),
{
    let all = reserved + names;
    assert forall|i: int| 0 <= i < names.push(name).len() implies !reserved.contains(
        #[trigger] names.push(name)[i],
    ) by {
        if i == names.len() && reserved.contains(name) {
            let k = choose|k: int| 0 <= k < reserved.len() && reserved[k] == name;
            assert(all[k] == name);
        }
    }
    assert forall|i: int, j: int|
        #![trigger names.push(name)[i], names.push(name)[j]]
        0 <= i < j < names.push(name).len() implies names.push(name)[i] != names.push(name)[j] by {
        if j == names.len() && names[i] == name {
            assert(all[reserved.len() + i] == name);
        }
    }
}

proof fn lemma_replaced_free(
    tables: Seq<SnapshotActivationTable>,
    states: Seq<TableActivationState>,
    found: Seq<RelationState>,
    reserved: Seq<NameView>,
    count: int,
)
    requires
        0 <= count <= tables.len(),
        all_replaced_free(tables, states, found, reserved),
    ensures
        names_are_free(replaced_views(tables, states, count), reserved),
    decreases count,
{
    if count > 0 {
        lemma_replaced_free(tables, states, found, reserved, count - 1);
        assert(replaced_free(tables, states, found, reserved, count - 1));
        match replaced_view(tables[count - 1], states[count - 1]) {
            Some(name) => lemma_push_free(
                replaced_views(tables, states, count - 1),
                reserved,
                name,
            ),
            None => {},
        }
    }
}

proof fn lemma_stale_free(
    stale: Seq<StaleActiveTable>,
    found: Seq<RelationState>,
    named: Seq<NameView>,
    reserved: Seq<NameView>,
    fencing_token: i64,
    count: int,
)
    requires
        0 <= count <= stale.len(),
        names_are_free(named, reserved),
        all_stale_free(stale, found, reserved + named, fencing_token),
    ensures
        names_are_free(named + stale_views(stale, count), reserved),
    decreases count,
{
    if count == 0 {
        assert(named + stale_views(stale, count) =~= named);
    } else {
        lemma_stale_free(stale, found, named, reserved, fencing_token, count - 1);
        let before = stale_views(stale, count - 1);
        let name = quarantine_view(stale[count - 1].target@, stale[count - 1].record);
        assert(stale_free(stale, found, reserved + named, fencing_token, count - 1));
        assert(reserved + (named + before) =~= (reserved + named) + before);
        lemma_push_free(named + before, reserved, name);
        assert(named + stale_views(stale, count) =~= (named + before).push(name));
    }
}

/// The quarantines of an activation never collide: no two tables share one, none is the name of a
/// table of the manifest, and none is the original name of a stale table.
pub proof fn law_quarantines_never_collide(
    request: SnapshotActivationRequest,
    status: SnapshotGroupStatus,
    evidence: ActivationEvidence,
)
    requires
        activation_ready(request, status, evidence),
    ensures
        names_are_free(
            replaced_views(request.tables@, evidence.states@, request.tables@.len() as int)
                + stale_views(evidence.stale@, evidence.stale@.len() as int),
            evidence.reserved(request),
        ),
{
    let n = request.tables@.len() as int;
    let reserved = evidence.reserved(request);
    lemma_replaced_free(
        request.tables@,
        evidence.states@,
        evidence.replaced_quarantines@,
        reserved,
        n,
    );
    lemma_stale_free(
        evidence.stale@,
        evidence.stale_quarantines@,
        replaced_views(request.tables@, evidence.states@, n),
        reserved,
        request.fence.fencing_token,
        evidence.stale@.len() as int,
    );
}

proof fn lemma_active_tables_stay(
    tables: Seq<SnapshotActivationTable>,
    states: Seq<TableActivationState>,
    quarantines: Seq<Option<QualifiedName>>,
    count: int,
)
    requires
        0 <= count <= states.len(),
        all_active(states),
    ensures
        all_table_steps(tables, states, quarantines, count).len() == 0,
    decreases count,
{
    if count > 0 {
        lemma_active_tables_stay(tables, states, quarantines, count - 1);
        assert(states[count - 1] is Active);
    }
}

/// An activation may be retried after it succeeded: where the whole group is active and no table is
/// stale, the plan changes nothing and says so.
pub proof fn law_retried_activation_changes_nothing(
    request: SnapshotActivationRequest,
    evidence: ActivationEvidence,
    plan: ActivationPlan,
)
    requires
        evidence.covers(request),
        all_active(evidence.states@),
        evidence.stale@.len() == 0,
        plan.follows(request, evidence),
    ensures
        plan.steps@.len() == 0,
        plan.outcome.disposition == SnapshotActivationDisposition::AlreadyActive,
        plan.outcome.quarantined@.len() == 0,
{
    lemma_active_tables_stay(
        request.tables@,
        evidence.states@,
        plan.quarantines@,
        request.tables@.len() as int,
    );
    assert forall|i: int| 0 <= i < plan.quarantines@.len() implies #[trigger] plan.quarantines@[i]
        is None by {
        assert(evidence.states@[i] is Active);
    }
    lemma_no_replaced_names(plan.quarantines@);
}

proof fn lemma_no_replaced_names(quarantines: Seq<Option<QualifiedName>>)
    requires
        forall|i: int| 0 <= i < quarantines.len() ==> #[trigger] quarantines[i] is None,
    ensures
        replaced_names(quarantines).len() == 0,
    decreases quarantines.len(),
{
    if quarantines.len() > 0 {
        assert forall|i: int| 0 <= i < quarantines.drop_last().len() implies #[trigger] quarantines.drop_last()[i]
            is None by {
            assert(quarantines[i] is None);
        }
        lemma_no_replaced_names(quarantines.drop_last());
        assert(quarantines[quarantines.len() - 1] is None);
    }
}

/// Activation may be retried: once the shadow of a pending table has been promoted, the same
/// request finds the table active.
pub proof fn law_activated_table_is_active(
    fence: PipelineFence,
    group: Uuid,
    table: SnapshotActivationTable,
    target: RelationState,
    shadow: RelationState,
)
    requires
        classification(fence, group, table, target, shadow) matches Some(
            TableActivationState::Pending { .. },
        ),
    ensures
        ({
            let loaded = record_of(shadow)->0;
            let promoted = ManagedTableRecord {
                state: ManagedTableState::Active,
                fencing_token: fence.fencing_token,
                ..loaded
            };
            classification(
                fence,
                group,
                table,
                RelationState::Managed(promoted),
                RelationState::Vacant,
            ) == Some(TableActivationState::Active { target: promoted })
        }),
{
}

/// A table is only replaced by a newer generation.
pub proof fn law_only_newer_generations_replace(
    fence: PipelineFence,
    group: Uuid,
    table: SnapshotActivationTable,
    target: RelationState,
    shadow: RelationState,
)
    requires
        classification(fence, group, table, target, shadow) matches Some(
            TableActivationState::Pending { previous_active, .. },
        ) && previous_active is Some,
    ensures
        record_of(target) matches Some(active) && active.table_generation
            < table.table_generation && active.fencing_token <= fence.fencing_token,
{
}

proof fn lemma_table_steps_included(
    tables: Seq<SnapshotActivationTable>,
    states: Seq<TableActivationState>,
    quarantines: Seq<Option<QualifiedName>>,
    count: int,
    at: int,
)
    requires
        0 <= at < count,
    ensures
        exists|from: int|
            {
                &&& 0 <= from
                &&& from + table_steps(tables[at], states[at], quarantines[at]).len()
                    <= all_table_steps(tables, states, quarantines, count).len()
                &&& #[trigger] all_table_steps(tables, states, quarantines, count).subrange(
                    from,
                    from + table_steps(tables[at], states[at], quarantines[at]).len(),
                ) == table_steps(tables[at], states[at], quarantines[at])
            },
    decreases count,
{
    let all = all_table_steps(tables, states, quarantines, count);
    let before = all_table_steps(tables, states, quarantines, count - 1);
    let own = table_steps(tables[at], states[at], quarantines[at]);
    if at == count - 1 {
        let from = before.len() as int;
        assert(all.subrange(from, from + own.len()) =~= own);
    } else {
        lemma_table_steps_included(tables, states, quarantines, count - 1, at);
        let from = choose|from: int|
            {
                &&& 0 <= from
                &&& from + own.len() <= before.len()
                &&& #[trigger] before.subrange(from, from + own.len()) == own
            };
        assert(all.subrange(from, from + own.len()) =~= before.subrange(from, from + own.len()));
    }
}

/// Every pending table of an activation is promoted: its shadow's metadata moves to its target.
/// Where another table was active there, that one has been moved to its quarantine before.
pub proof fn law_every_pending_table_is_promoted(
    tables: Seq<SnapshotActivationTable>,
    states: Seq<TableActivationState>,
    quarantines: Seq<Option<QualifiedName>>,
    at: int,
)
    requires
        tables.len() == states.len(),
        tables.len() == quarantines.len(),
        0 <= at < tables.len(),
        states[at] is Pending,
    ensures
        ({
            let steps = all_table_steps(tables, states, quarantines, tables.len() as int);
            let shadow = states[at]->shadow;
            let promotion = ActivationStep::Relocate {
                from: tables[at].shadow,
                to: tables[at].target,
                record: shadow,
                state: ManagedTableState::Active,
            };
            &&& steps.contains(promotion)
            &&& (states[at]->previous_active is Some && quarantines[at] is Some) ==> exists|p: int|
                {
                    &&& 0 <= p < steps.len()
                    &&& #[trigger] steps[p] == promotion
                    &&& exists|q: int|
                        0 <= q < p && #[trigger] steps[q] == (ActivationStep::Relocate {
                            from: tables[at].target,
                            to: quarantines[at]->0,
                            record: states[at]->previous_active->0,
                            state: ManagedTableState::Quarantined,
                        })
                }
        }),
{
    let n = tables.len() as int;
    let steps = all_table_steps(tables, states, quarantines, n);
    let own = table_steps(tables[at], states[at], quarantines[at]);
    let shadow = states[at]->shadow;
    let promotion = ActivationStep::Relocate {
        from: tables[at].shadow,
        to: tables[at].target,
        record: shadow,
        state: ManagedTableState::Active,
    };
    lemma_table_steps_included(tables, states, quarantines, n, at);
    let from = choose|from: int|
        {
            &&& 0 <= from
            &&& from + own.len() <= steps.len()
            &&& #[trigger] steps.subrange(from, from + own.len()) == own
        };
    let p = from + own.len() - 1;
    assert(own.last() == promotion);
    assert(steps.subrange(from, from + own.len())[own.len() - 1] == steps[p]);
    assert(steps[p] == promotion);
    if states[at]->previous_active is Some && quarantines[at] is Some {
        assert(steps.subrange(from, from + own.len())[1] == steps[from + 1]);
        assert(own[1] == (ActivationStep::Relocate {
            from: tables[at].target,
            to: quarantines[at]->0,
            record: states[at]->previous_active->0,
            state: ManagedTableState::Quarantined,
        }));
        assert(0 <= from + 1 < p);
    }
}

/// The name of a quarantined table is derived from its whole identity: the digested bytes are the
/// same only for the same target, owner, generation, schema and fencing token.
pub proof fn law_quarantine_name_is_owner_specific(
    target_a: NameView,
    a: ManagedTableRecord,
    target_b: NameView,
    b: ManagedTableRecord,
)
    requires
        frameable(quarantine_fields(target_a, a)),
        frameable(quarantine_fields(target_b, b)),
        framed(quarantine_fields(target_a, a)) == framed(quarantine_fields(target_b, b)),
    ensures
        target_a == target_b,
        a.pipeline_id == b.pipeline_id,
        a.source_relation_id == b.source_relation_id,
        a.table_generation == b.table_generation,
        a.schema_fingerprint@ == b.schema_fingerprint@,
        a.fencing_token == b.fencing_token,
{
    let x = quarantine_fields(target_a, a);
    let y = quarantine_fields(target_b, b);
    law_framing_is_unambiguous(x, y);
    assert(x[0] == y[0] && x[1] == y[1] && x[2] == y[2] && x[3] == y[3] && x[4] == y[4] && x[5]
        == y[5] && x[6] == y[6]);
    encode_utf8_decode_utf8(target_a.schema);
    encode_utf8_decode_utf8(target_b.schema);
    encode_utf8_decode_utf8(target_a.name);
    encode_utf8_decode_utf8(target_b.name);
    encode_utf8_decode_utf8(a.schema_fingerprint@);
    encode_utf8_decode_utf8(b.schema_fingerprint@);
    reveal_with_fuel(pow256, 17);
    law_big_endian_differs(
        a.pipeline_id.uuid.value as nat,
        b.pipeline_id.uuid.value as nat,
        16,
    );
    law_big_endian_differs(a.source_relation_id as nat, b.source_relation_id as nat, 4);
    law_big_endian_differs(a.table_generation as nat, b.table_generation as nat, 8);
    law_big_endian_differs(token_bits(a.fencing_token), token_bits(b.fencing_token), 8);
}

/// How far the activation of a table is: it is active where the target holds the group's table and
/// no shadow is left, and pending where the shadow holds the group's table and the target is free or
/// holds an older generation. Every relation in question is this pipeline's under no newer fence.
pub proof fn law_how_far_a_table_is(
    fence: PipelineFence,
    group: Uuid,
    table: SnapshotActivationTable,
    active: ManagedTableRecord,
    loaded: ManagedTableRecord,
)
    ensures
        ({
            let owns = |record: ManagedTableRecord|
                {
                    &&& record.pipeline_id == fence.pipeline_id
                    &&& record.source_relation_id == table.source_relation_id
                    &&& record.fencing_token <= fence.fencing_token
                };
            let of_group = |record: ManagedTableRecord|
                {
                    &&& record.snapshot_group_id == Some(group)
                    &&& record.source_relation_id == table.source_relation_id
                    &&& record.table_generation == table.table_generation
                    &&& record.schema_fingerprint@ == table.schema_fingerprint@
                };
            let there = RelationState::Managed(active);
            let shadow = RelationState::Managed(loaded);
            let vacant = RelationState::Vacant;
            &&& classification(fence, group, table, vacant, vacant) is None
            &&& classification(fence, group, table, there, vacant) == (if owns(active)
                && active.state is Active && of_group(active) {
                Some(TableActivationState::Active { target: active })
            } else {
                None
            })
            &&& classification(fence, group, table, vacant, shadow) == (if owns(loaded)
                && loaded.state is Shadow && of_group(loaded) {
                Some(TableActivationState::Pending { shadow: loaded, previous_active: None })
            } else {
                None
            })
            &&& classification(fence, group, table, there, shadow) == (if owns(active)
                && active.state is Active && owns(loaded) && loaded.state is Shadow && of_group(
                loaded,
            ) && active.table_generation < table.table_generation {
                Some(
                    TableActivationState::Pending { shadow: loaded, previous_active: Some(active) },
                )
            } else {
                None
            })
        }),
{
}

/// A relation without metadata, or metadata without its relation, stops the activation of a table.
pub proof fn law_unclear_relations_stop_an_activation(
    fence: PipelineFence,
    group: Uuid,
    table: SnapshotActivationTable,
    target: RelationState,
    shadow: RelationState,
)
    requires
        target is Unmanaged || target is ManagedObjectMissing || shadow is Unmanaged || shadow
            is ManagedObjectMissing,
    ensures
        classification(fence, group, table, target, shadow) is None,
{
}

/// The status of a group agrees with its tables exactly where an active group has only active
/// tables and a loading one only pending ones.
pub proof fn law_when_a_status_agrees(
    status: SnapshotGroupStatus,
    states: Seq<TableActivationState>,
)
    requires
        states.len() > 0,
    ensures
        status_agrees(status, states) <==> {
            ||| status is Active && forall|i: int|
                0 <= i < states.len() ==> (#[trigger] states[i]) is Active
            ||| status is Loading && forall|i: int|
                0 <= i < states.len() ==> (#[trigger] states[i]) is Pending
        },
{
    if all_active(states) {
        assert(states[0] is Active);
    }
    if all_pending(states) {
        assert(states[0] is Pending);
    }
}

/// The steps of one table, in order: what was active is renamed to its quarantine, its metadata
/// moves there and the move is logged; then the shadow takes the target's name, unless it has it
/// already, and its metadata moves to the target as active. An active table needs no step.
pub proof fn law_the_steps_of_a_table(
    table: SnapshotActivationTable,
    shadow: ManagedTableRecord,
    previous: ManagedTableRecord,
    quarantine: QualifiedName,
)
    ensures
        ({
            let away = seq![
                ActivationStep::Rename { table: table.target, new_name: quarantine.name },
                ActivationStep::Relocate {
                    from: table.target,
                    to: quarantine,
                    record: previous,
                    state: ManagedTableState::Quarantined,
                },
                ActivationStep::Log {
                    original: table.target,
                    quarantine,
                    record: previous,
                    reason: ReconciliationReason::Replaced,
                },
            ];
            let rename = ActivationStep::Rename {
                table: table.shadow,
                new_name: table.target.name,
            };
            let promote = ActivationStep::Relocate {
                from: table.shadow,
                to: table.target,
                record: shadow,
                state: ManagedTableState::Active,
            };
            let replacing = TableActivationState::Pending {
                shadow,
                previous_active: Some(previous),
            };
            let first = TableActivationState::Pending { shadow, previous_active: None };
            let active = TableActivationState::Active { target: shadow };
            &&& table.shadow.name@ != table.target.name@ ==> {
                &&& table_steps(table, replacing, Some(quarantine)) == away + seq![rename, promote]
                &&& table_steps(table, first, None) == seq![rename, promote]
            }
            &&& table.shadow.name@ == table.target.name@ ==> {
                &&& table_steps(table, replacing, Some(quarantine)) == away + seq![promote]
                &&& table_steps(table, first, None) == seq![promote]
            }
            &&& table_steps(table, active, None).len() == 0
        }),
{
    let first = TableActivationState::Pending { shadow, previous_active: None };
    assert(table_steps(table, first, None) =~= promotion_steps(table, shadow));
}

/// A stale table is renamed to its quarantine, its metadata moves there, and the move is logged.
pub proof fn law_the_steps_of_a_stale_table(plan: QuarantinePlan)
    ensures
        stale_steps(seq![plan]) == seq![
            ActivationStep::Rename { table: plan.original, new_name: plan.quarantine.name },
            ActivationStep::Relocate {
                from: plan.original,
                to: plan.quarantine,
                record: plan.record,
                state: ManagedTableState::Quarantined,
            },
            ActivationStep::Log {
                original: plan.original,
                quarantine: plan.quarantine,
                record: plan.record,
                reason: plan.reason,
            },
        ],
{
    assert(seq![plan].drop_last() =~= Seq::empty());
    assert(stale_steps(Seq::<QuarantinePlan>::empty()) =~= Seq::empty());
    assert(stale_steps(seq![plan]) =~= quarantine_steps(
        plan.original,
        plan.quarantine,
        plan.record,
        plan.reason,
    ));
}

/// The steps of several tables are those of each, in the order of the manifest.
pub proof fn law_tables_are_activated_in_order(
    tables: Seq<SnapshotActivationTable>,
    states: Seq<TableActivationState>,
    quarantines: Seq<Option<QualifiedName>>,
    count: int,
)
    requires
        0 <= count,
    ensures
        all_table_steps(tables, states, quarantines, 0).len() == 0,
        all_table_steps(tables, states, quarantines, count + 1) == all_table_steps(
            tables,
            states,
            quarantines,
            count,
        ) + table_steps(tables[count], states[count], quarantines[count]),
{
}

/// The quarantine of a table stands in the table's own schema, under a name of 40 characters that
/// begins with `pg2cb_q_`; one that replaces nothing needs none.
pub proof fn law_the_name_of_a_quarantine(
    table: SnapshotActivationTable,
    shadow: ManagedTableRecord,
    previous: ManagedTableRecord,
)
    requires
        sha256(framed(quarantine_fields(table.target@, previous))).len() == 32,
    ensures
        ({
            let name = quarantine_view(table.target@, previous);
            &&& name.schema == table.target@.schema
            &&& name.name.len() == 40
            &&& name.name.take(8) == "pg2cb_q_"@
            &&& replaced_view(
                table,
                TableActivationState::Pending { shadow, previous_active: Some(previous) },
            ) == Some(name)
            &&& replaced_view(
                table,
                TableActivationState::Pending { shadow, previous_active: None },
            ) is None
            &&& replaced_view(table, TableActivationState::Active { target: shadow }) is None
        }),
{
    reveal_strlit("pg2cb_q_");
    let digest = sha256(framed(quarantine_fields(table.target@, previous))).take(16);
    let name = quarantine_view(table.target@, previous);
    crate::digest::law_hex_text(digest, 0);
    assert(name.name.take(8) =~= "pg2cb_q_"@);
}

/// A name is free for a quarantine exactly where it is a valid name, reserved for nothing else, and
/// nothing stands there.
pub proof fn law_which_quarantines_are_free(
    name: NameView,
    reserved: Seq<NameView>,
    found: RelationState,
)
    ensures
        quarantine_free(name, reserved, found) <==> {
            &&& name.fault() is None
            &&& forall|i: int| 0 <= i < reserved.len() ==> #[trigger] reserved[i] != name
            &&& found == RelationState::Vacant
        },
{
    if !reserved.contains(name) {
        assert forall|i: int| 0 <= i < reserved.len() implies #[trigger] reserved[i] != name by {}
    }
}

/// A first activation needs, for every node, a checkpoint that may advance to the boundary; a retry
/// needs one that has reached it.
pub proof fn law_what_boundaries_need(
    current: Seq<Option<StoredNodeCheckpoint>>,
    boundaries: Seq<NodeCheckpoint>,
)
    ensures
        boundaries_pass(false, current, boundaries) <==> forall|i: int|
            0 <= i < boundaries.len() ==> advance_model(#[trigger] current[i], boundaries[i]) is Ok,
        boundaries_pass(true, current, boundaries) <==> forall|i: int|
            0 <= i < boundaries.len() ==> reached_model(#[trigger] current[i], boundaries[i])
                == Ok::<bool, CheckpointError>(true),
{
    if boundaries_pass(false, current, boundaries) {
        assert forall|i: int| 0 <= i < boundaries.len() implies advance_model(
            #[trigger] current[i],
            boundaries[i],
        ) is Ok by {
            assert(boundary_passes(false, current, boundaries, i));
        }
    }
    if boundaries_pass(true, current, boundaries) {
        assert forall|i: int| 0 <= i < boundaries.len() implies reached_model(
            #[trigger] current[i],
            boundaries[i],
        ) == Ok::<bool, CheckpointError>(true) by {
            assert(boundary_passes(true, current, boundaries, i));
        }
    }
}

/// A group is resumed exactly where it is active, of the same pipeline and topology, and of no newer
/// fence.
pub proof fn law_which_groups_are_resumed(stored: StoredSnapshotGroup, fence: PipelineFence)
    ensures
        resumable(stored, fence) <==> {
            &&& stored.state is Active
            &&& stored.request.fence.pipeline_id == fence.pipeline_id
            &&& stored.request.fence.topology_generation == fence.topology_generation
            &&& stored.request.fence.fencing_token <= fence.fencing_token
        },
{
}

/// A table has a catalog identity exactly where what was loaded has a positive one: the shadow's
/// before the activation, the target's after it.
pub proof fn law_which_tables_have_an_identity(
    record: ManagedTableRecord,
    previous: Option<ManagedTableRecord>,
)
    ensures
        has_identity(TableActivationState::Active { target: record }) <==> (
        record.relation_oid matches Some(oid) && oid > 0),
        has_identity(
            TableActivationState::Pending { shadow: record, previous_active: previous },
        ) <==> (record.relation_oid matches Some(oid) && oid > 0),
{
}

/// An activation is a retry exactly where the stored group and every table are active, and goes on
/// exactly where the group is loading and every table waits; nothing in between is accepted.
pub proof fn law_decided_activations(
    group: Uuid,
    stored: SnapshotGroupStatus,
    states: &[TableActivationState],
    r: Result<bool, SnapshotTargetError>,
)
    requires
        call_ensures(judge_activation, (group, stored, states), r),
        states@.len() > 0,
    ensures
        r == Ok::<bool, SnapshotTargetError>(true) <==> stored is Active && forall|i: int|
            0 <= i < states@.len() ==> #[trigger] states@[i] is Active,
        r == Ok::<bool, SnapshotTargetError>(false) <==> stored is Loading && forall|i: int|
            0 <= i < states@.len() ==> #[trigger] states@[i] is Pending,
        (exists|i: int, j: int|
            0 <= i < states@.len() && 0 <= j < states@.len() && #[trigger] states@[i] is Active
                && #[trigger] states@[j] is Pending) ==> r == Err::<bool, SnapshotTargetError>(
            SnapshotTargetError::MixedActivationState,
        ),
{
    assert(states@[0] is Active <==> !(states@[0] is Pending));
}

/// An active table that its group no longer names is retired exactly where it exists and no newer
/// fence owns it.
pub proof fn law_which_stale_tables_are_retired(
    target: QualifiedName,
    record: ManagedTableRecord,
    exists_physically: bool,
    fencing_token: i64,
    r: Result<StaleActiveTable, SnapshotTargetError>,
)
    requires
        call_ensures(judge_stale_table, (target, record, exists_physically, fencing_token), r),
    ensures
        r is Ok <==> exists_physically && record.fencing_token <= fencing_token,
        r matches Ok(stale) ==> stale.target == target && stale.record == record,
{
}

/// A pipeline resumes from the one active group that there is.
pub proof fn law_which_group_is_resumed(
    fence: PipelineFence,
    groups: &[Uuid],
    r: Result<Uuid, SnapshotTargetError>,
)
    requires
        call_ensures(choose_active_group, (fence, groups), r),
    ensures
        groups@.len() == 1 ==> r == Ok::<Uuid, SnapshotTargetError>(groups@[0]),
        groups@.len() == 0 ==> (r matches Err(
            SnapshotTargetError::MissingActiveSnapshotGroup { pipeline, generation },
        ) && pipeline == fence.pipeline_id && generation == fence.topology_generation),
        groups@.len() > 1 ==> (r matches Err(
            SnapshotTargetError::MultipleActiveSnapshotGroups { pipeline, generation },
        ) && pipeline == fence.pipeline_id && generation == fence.topology_generation),
{
}

/// A boundary that was reached is at or behind the stored checkpoint of the same source; one that
/// lies ahead of it, or has no checkpoint, was not reached.
pub proof fn law_reached_boundaries(
    current: StoredNodeCheckpoint,
    boundary: NodeCheckpoint,
    r: Result<(), SnapshotTargetError>,
    missing: Result<(), SnapshotTargetError>,
)
    requires
        checkpoint_fault(boundary) is None,
        current.checkpoint.key == boundary.key,
        current.checkpoint.system_identifier == boundary.system_identifier,
        current.checkpoint.timeline == boundary.timeline,
        current.checkpoint.slot_name@ == boundary.slot_name@,
        call_ensures(require_boundary_reached, (Some(&current), &boundary), r),
        call_ensures(require_boundary_reached, (None::<&StoredNodeCheckpoint>, &boundary), missing),
    ensures
        missing is Err,
        r is Ok <==> boundary.applied_lsn.value <= current.checkpoint.applied_lsn.value,
{
}

/// A boundary is admitted exactly where the stored checkpoint of the same source, if there is one,
/// is not ahead of it.
pub proof fn law_admitted_boundaries(
    current: StoredNodeCheckpoint,
    boundary: NodeCheckpoint,
    r: Result<(), SnapshotTargetError>,
    first: Result<(), SnapshotTargetError>,
)
    requires
        checkpoint_fault(boundary) is None,
        current.checkpoint.key == boundary.key,
        current.checkpoint.system_identifier == boundary.system_identifier,
        current.checkpoint.timeline == boundary.timeline,
        current.checkpoint.slot_name@ == boundary.slot_name@,
        call_ensures(require_boundary_admitted, (Some(&current), &boundary), r),
        call_ensures(require_boundary_admitted, (None::<&StoredNodeCheckpoint>, &boundary), first),
    ensures
        first is Ok,
        r is Ok <==> current.checkpoint.applied_lsn.value <= boundary.applied_lsn.value,
{
}

/// A record is stored as it is, where the database can hold its generation.
pub proof fn law_stored_records(
    record: ManagedTableRecord,
    r: Result<RecordParameters, SnapshotTargetError>,
)
    requires
        call_ensures(record_parameters, (&record,), r),
    ensures
        r is Ok <==> record.table_generation <= i64::MAX,
        r matches Ok(stored) ==> stored.source_relation_id as int == record.source_relation_id as int
            && stored.table_generation as int == record.table_generation as int,
{
}

/// A table is renamed to the quoted new name, inside its own schema.
pub proof fn law_renaming_text(
    table: QualifiedName,
    new_name: &str,
    r: Result<String, SnapshotTargetError>,
)
    requires
        call_ensures(rename_table_sql, (&table, new_name), r),
    ensures
        r matches Ok(text) ==> text@ == "ALTER TABLE "@ + quoted_name(table@) + " RENAME TO "@
            + quoted(new_name@),
        r is Ok <==> name_render_fault(table@) is None && identifier_render_fault(new_name@)
            is None,
{
}

/// Resumed tables are all active.
pub proof fn law_resumed_tables_are_active(
    request: SnapshotActivationRequest,
    found: &[TableRelations],
    r: Result<Vec<TableActivationState>, SnapshotTargetError>,
    i: int,
)
    requires
        found@.len() == request.tables@.len(),
        call_ensures(judge_resumed_tables, (&request, found), r),
        0 <= i < found@.len(),
    ensures
        r matches Ok(states) ==> states@.len() == found@.len() && states@[i] is Active,
{
}

proof fn lemma_replaced_views(
    tables: Seq<SnapshotActivationTable>,
    states: Seq<TableActivationState>,
    i: int,
    count: int,
)
    requires
        0 <= i < count,
        replaced_view(tables[i], states[i]) is Some,
    ensures
        replaced_views(tables, states, count).contains(replaced_view(tables[i], states[i])->0),
    decreases count,
{
    let before = replaced_views(tables, states, count - 1);
    let views = replaced_views(tables, states, count);
    let name = replaced_view(tables[i], states[i])->0;
    if i == count - 1 {
        assert(views.last() == name);
    } else {
        lemma_replaced_views(tables, states, i, count - 1);
        let k = choose|k: int| 0 <= k < before.len() && before[k] == name;
        assert(views[k] == name);
    }
}

proof fn lemma_stale_views(stale: Seq<StaleActiveTable>, i: int, count: int)
    requires
        0 <= i < count,
    ensures
        stale_views(stale, count).contains(quarantine_view(stale[i].target@, stale[i].record)),
    decreases count,
{
    let before = stale_views(stale, count - 1);
    let views = stale_views(stale, count);
    let name = quarantine_view(stale[i].target@, stale[i].record);
    if i == count - 1 {
        assert(views.last() == name);
    } else {
        lemma_stale_views(stale, i, count - 1);
        let k = choose|k: int| 0 <= k < before.len() && before[k] == name;
        assert(views[k] == name);
    }
}

proof fn lemma_manifest_names(tables: Seq<SnapshotActivationTable>, i: int)
    requires
        0 <= i < tables.len(),
    ensures
        manifest_names(tables).contains(tables[i].target@),
        manifest_names(tables).contains(tables[i].shadow@),
    decreases tables.len(),
{
    let before = manifest_names(tables.drop_last());
    let names = manifest_names(tables);
    assert(names.len() == before.len() + 2);
    if i == tables.len() - 1 {
        assert(names[before.len() as int] == tables[i].target@);
        assert(names[(before.len() + 1) as int] == tables[i].shadow@);
    } else {
        lemma_manifest_names(tables.drop_last(), i);
        let a = choose|k: int| 0 <= k < before.len() && before[k] == tables[i].target@;
        let b = choose|k: int| 0 <= k < before.len() && before[k] == tables[i].shadow@;
        assert(names[a] == tables[i].target@);
        assert(names[b] == tables[i].shadow@);
    }
}

/// A planned activation loses no table: whatever is replaced or no longer named goes into a
/// quarantine of its own, where nothing stands and which is neither a target nor a shadow of the
/// manifest.
#[verifier::spinoff_prover]
#[verifier::rlimit(60)]
pub proof fn law_no_table_is_lost(
    request: SnapshotActivationRequest,
    status: SnapshotGroupStatus,
    evidence: ActivationEvidence,
    r: Result<ActivationPlan, SnapshotTargetError>,
)
    requires
        evidence.covers(request),
        call_ensures(plan_activation, (&request, status, &evidence), r),
    ensures
        r matches Ok(plan) ==> {
            &&& plan.outcome.disposition is AlreadyActive <==> all_active(evidence.states@)
            &&& forall|i: int|
                0 <= i < request.tables@.len() ==> {
                    let replaces = evidence.states@[i] is Pending
                        && evidence.states@[i]->previous_active is Some;
                    &&& (#[trigger] plan.quarantines@[i]) is Some <==> replaces
                    &&& replaces ==> evidence.replaced_quarantines@[i] is Vacant
                }
            &&& forall|i: int, k: int|
                #![trigger plan.quarantines@[i], request.tables@[k]]
                0 <= i < request.tables@.len() && 0 <= k < request.tables@.len()
                    && plan.quarantines@[i] is Some ==> plan.quarantines@[i]->0@
                    != request.tables@[k].target@ && plan.quarantines@[i]->0@
                    != request.tables@[k].shadow@
            &&& forall|i: int, j: int|
                0 <= i < j < request.tables@.len() && (#[trigger] plan.quarantines@[i]) is Some && (
                #[trigger] plan.quarantines@[j]) is Some ==> plan.quarantines@[i]->0@
                    != plan.quarantines@[j]->0@
            &&& plan.stale@.len() == evidence.stale@.len()
            &&& forall|i: int|
                0 <= i < evidence.stale@.len() ==> {
                    &&& (#[trigger] plan.stale@[i]).original == evidence.stale@[i].target
                    &&& plan.stale@[i].record == evidence.stale@[i].record
                    &&& plan.stale@[i].reason is Stale
                    &&& evidence.stale_quarantines@[i] is Vacant
                }
            &&& forall|i: int, j: int|
                0 <= i < j < evidence.stale@.len() ==> (#[trigger] plan.stale@[i]).quarantine@ != (
                #[trigger] plan.stale@[j]).quarantine@
            &&& forall|i: int, k: int|
                0 <= i < evidence.stale@.len() && 0 <= k < request.tables@.len() && (
                #[trigger] plan.quarantines@[k]) is Some ==> (#[trigger] plan.stale@[i]).quarantine@
                    != plan.quarantines@[k]->0@
        },
{
    if let Ok(plan) = r {
        let tables = request.tables@;
        let states = evidence.states@;
        let reserved = evidence.reserved(request);
        assert forall|i: int| 0 <= i < tables.len() implies {
            &&& names_quarantine(
                #[trigger] plan.quarantines@[i],
                replaced_view(tables[i], states[i]),
            )
            &&& replaced_free(tables, states, evidence.replaced_quarantines@, reserved, i)
        } by {}
        assert forall|i: int, k: int|
            #![trigger plan.quarantines@[i], request.tables@[k]]
            0 <= i < tables.len() && 0 <= k < tables.len() && plan.quarantines@[i]
                is Some implies plan.quarantines@[i]->0@ != tables[k].target@
            && plan.quarantines@[i]->0@ != tables[k].shadow@ by {
            lemma_manifest_names(tables, k);
            let taken = reserved + replaced_views(tables, states, i);
            let names = manifest_names(tables);
            let a = choose|n: int| 0 <= n < names.len() && names[n] == tables[k].target@;
            let b = choose|n: int| 0 <= n < names.len() && names[n] == tables[k].shadow@;
            assert(taken[a] == tables[k].target@);
            assert(taken[b] == tables[k].shadow@);
            assert(replaced_free(tables, states, evidence.replaced_quarantines@, reserved, i));
        }
        assert forall|i: int, j: int|
            0 <= i < j < tables.len() && (#[trigger] plan.quarantines@[i]) is Some && (
            #[trigger] plan.quarantines@[j]) is Some implies plan.quarantines@[i]->0@
            != plan.quarantines@[j]->0@ by {
            lemma_replaced_views(tables, states, i, j);
            let views = replaced_views(tables, states, j);
            let name = replaced_view(tables[i], states[i])->0;
            let k = choose|k: int| 0 <= k < views.len() && views[k] == name;
            assert((reserved + views)[reserved.len() + k] == name);
            assert(replaced_free(tables, states, evidence.replaced_quarantines@, reserved, j));
        }
        let more = evidence.reserved_with_replaced(request);
        assert forall|i: int| 0 <= i < evidence.stale@.len() implies {
            &&& plans_stale(#[trigger] plan.stale@[i], evidence.stale@[i])
            &&& stale_free(
                evidence.stale@,
                evidence.stale_quarantines@,
                more,
                request.fence.fencing_token,
                i,
            )
        } by {}
        assert forall|i: int, j: int| 0 <= i < j < evidence.stale@.len() implies (
        #[trigger] plan.stale@[i]).quarantine@ != (#[trigger] plan.stale@[j]).quarantine@ by {
            lemma_stale_views(evidence.stale@, i, j);
            let views = stale_views(evidence.stale@, j);
            let name = quarantine_view(evidence.stale@[i].target@, evidence.stale@[i].record);
            let k = choose|k: int| 0 <= k < views.len() && views[k] == name;
            assert((more + views)[more.len() + k] == name);
            assert(stale_free(
                evidence.stale@,
                evidence.stale_quarantines@,
                more,
                request.fence.fencing_token,
                j,
            ));
        }
        assert forall|i: int, k: int|
            0 <= i < evidence.stale@.len() && 0 <= k < tables.len() && (
            #[trigger] plan.quarantines@[k]) is Some implies (#[trigger] plan.stale@[i]).quarantine@
            != plan.quarantines@[k]->0@ by {
            lemma_replaced_views(tables, states, k, tables.len() as int);
            let views = replaced_views(tables, states, tables.len() as int);
            let name = replaced_view(tables[k], states[k])->0;
            let n = choose|n: int| 0 <= n < views.len() && views[n] == name;
            assert(more[reserved.len() + n] == name);
            assert((more + stale_views(evidence.stale@, i))[reserved.len() + n] == name);
            assert(stale_free(
                evidence.stale@,
                evidence.stale_quarantines@,
                more,
                request.fence.fencing_token,
                i,
            ));
        }
    }
}

} // verus!
