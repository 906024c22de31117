//! Strongly typed initial snapshot loads into shadow tables.

use crate::checkpoint::{CheckpointError, NodeCheckpoint, PersistedFault, PipelineFence};
use crate::ident::{PipelineId, Uuid};
use crate::schema::{
    column_names, law_planned_table, plan_create_table_with_storage, table_model, CreateTablePlan,
    SchemaError, SchemaFault, TableView,
};
use crate::snapshot::progress::{SnapshotPageApplyOutcome, SnapshotTableProgress};
use crate::source::{clone_texts, NameView, QualifiedName, TableSchema};
use crate::sql::{
    list_quoted, name_render_fault, quotable, quote_identifier, quote_qualified_name, quoted,
    quoted_list, quoted_name, identifier_render_fault, SqlRenderError,
};
use crate::storage::TargetStorage;
use crate::text::{render_signed, same_text, signed_decimal, texts};
use vstd::prelude::*;

pub mod activation;
pub mod cleanup;
pub mod manifest;
pub mod progress;
pub mod types;

verus! {

pub const RELATION_EXISTS_SQL: &'static str = "SELECT EXISTS (SELECT 1 FROM pg_catalog.pg_class AS c JOIN pg_catalog.pg_namespace AS n ON n.oid = c.relnamespace WHERE n.nspname = $1 AND c.relname = $2)";

pub const TYPE_EXISTS_SQL: &'static str = "SELECT EXISTS (SELECT 1 FROM pg_catalog.pg_type AS t JOIN pg_catalog.pg_namespace AS n ON n.oid = t.typnamespace WHERE n.nspname = $1 AND t.typname = $2)";

/// Reads the managed-table row of the relation `$1`.`$2` and locks it.
pub const LOCK_MANAGED_TABLE_SQL: &'static str =
    "SELECT pipeline_id, snapshot_group_id, relation_oid, source_relation_id, table_generation, schema_fingerprint, state, fencing_token FROM \"pg2cb_meta\".managed_tables WHERE target_schema = $1 AND target_table = $2 FOR UPDATE";

/// Reads the catalog identity of the relation `$1`.`$2`.
pub const RELATION_OID_SQL: &'static str = "SELECT c.oid::bigint AS relation_oid
               FROM pg_catalog.pg_class AS c
               JOIN pg_catalog.pg_namespace AS n ON n.oid = c.relnamespace
              WHERE n.nspname = $1
                AND c.relname = $2
                AND c.relkind IN ('r', 'p', 'f')";

/// Removes the managed-table row of the relation `$1`.`$2`.
pub const DELETE_MANAGED_TABLE_SQL: &'static str =
    "DELETE FROM \"pg2cb_meta\".managed_tables WHERE target_schema = $1 AND target_table = $2";

/// Registers a new shadow table.
pub const REGISTER_SHADOW_SQL: &'static str =
    "INSERT INTO \"pg2cb_meta\".managed_tables (target_schema, target_table, pipeline_id, snapshot_group_id, relation_oid, source_relation_id, table_generation, schema_fingerprint, state, fencing_token) VALUES ($1, $2, $3, $4, $5, $6, $7, $8, 'shadow', $9)";

#[allow(inconsistent_fields)]
#[derive(Debug, PartialEq, Eq)]
pub enum SnapshotTargetError {
    Schema(SchemaError),
    Sql(SqlRenderError),
    Checkpoint(CheckpointError),
    /// The target table and the shadow table must be different.
    TargetIsShadow,
    /// The target table and the shadow table must use the same schema.
    CrossSchemaShadowUnsupported { target: String, shadow: String },
    /// An existing table is not owned by pg2cb metadata.
    ExistingUnmanagedTable(String),
    ManagedByOtherPipeline { table: String, expected: PipelineId, actual: PipelineId },
    ManagedByOtherSource { table: String, expected: u32, actual: u32 },
    ManagedByNewerFence { object: String, current: i64, actual: i64 },
    /// A managed relation is recorded in metadata but is missing physically.
    ManagedRelationMissing(String),
    UnexpectedManagedTableState { table: String, expected: &'static str, actual: String },
    ShadowGenerationMismatch { table: String, expected: u64, actual: u64 },
    ShadowFingerprintMismatch(String),
    /// The target table is already active for this snapshot generation.
    TargetAlreadyActive(String),
    /// A prerequisite type already exists and cannot be recreated safely.
    ExistingPrerequisiteType(String),
    ManagedPrerequisiteTypeMissing(String),
    PrerequisiteTypeManagedByOtherPipeline {
        name: String,
        expected: PipelineId,
        actual: PipelineId,
    },
    PrerequisiteTypeDefinitionMismatch(String),
    UnsupportedPrerequisiteTypeEvolution { name: String, reason: String },
    SourceStream(String),
    CopySink(String),
    PageCommitObserver(String),
    CopyAlreadyCompleted,
    /// A snapshot transaction cannot commit before its COPY completes.
    CopyNotCompleted,
    /// Snapshot ownership requires a positive fencing token and a non-empty fingerprint.
    InvalidOwnership,
    /// A snapshot group id must not be nil.
    InvalidSnapshotGroupId,
    SnapshotGroupNotRegistered(Uuid),
    /// A snapshot group has a corrupt or incomplete persisted manifest.
    CorruptSnapshotGroupManifest(Uuid),
    SnapshotGroupManifestMismatch { group: Uuid, difference: String },
    SnapshotGroupAlreadyActive(Uuid),
    SnapshotGroupNotLoading(Uuid),
    SnapshotGroupOwnedByTableTransition(Uuid),
    SnapshotGroupNotOwnedByTableTransition(Uuid),
    SnapshotGroupTransitionMismatch(Uuid),
    /// The cleanup authority and the group fence do not match.
    InvalidSnapshotCleanupFence,
    SnapshotGroupFenceMismatch {
        group: Uuid,
        expected_generation: u64,
        expected_token: i64,
        actual_generation: u64,
        actual_token: i64,
    },
    UnexpectedSnapshotShadow(String),
    /// Cleanup cannot verify the physical identity of a relation.
    MissingRelationIdentity(String),
    RelationIdentityMismatch { table: String, expected: i64, actual: i64 },
    InvalidQuarantineRetention,
    InvalidQuarantineBatchSize,
    MissingQuarantineMetadata(String),
    QuarantineMetadataMismatch(String),
    QuarantineRecordMismatch(String),
    MissingActiveSnapshotGroup { pipeline: PipelineId, generation: u64 },
    MultipleActiveSnapshotGroups { pipeline: PipelineId, generation: u64 },
    SnapshotTableNotInManifest { group: Uuid, table: String },
    SnapshotTableManifestMismatch { group: Uuid, table: String },
    ShadowSnapshotGroupMismatch { table: String, expected: Uuid, actual: Option<Uuid> },
    /// A table generation exceeds the target bigint range.
    GenerationOutOfRange(u64),
    InvalidManagedTableValue { table: String, field: &'static str, value: String },
    /// Activation requires at least one table and one node checkpoint.
    EmptyActivationGroup,
    /// Activation contains a duplicate target, shadow, source relation, or node identity.
    DuplicateActivationIdentity,
    EmptyActivationFingerprint(String),
    InvalidActivationSourceRelation,
    ActivationGenerationNotNewer { table: String, active: u64, proposed: u64 },
    /// Activation contains a mixture of pending and already-active tables.
    MixedActivationState,
    /// The active managed-table set does not exactly match the requested source inventory.
    ActiveTableSetMismatch,
    ActiveTableFingerprintMismatch(String),
    /// A shadow is missing or is not completely owned by this activation.
    IncompleteShadow(String),
    ActiveCheckpointIncomplete(i32),
    /// An activation checkpoint has a zero consistent point.
    ZeroInitialCheckpoint(i32),
    QuarantineNameConflict(String),
    UnexpectedMetadataWriteCount(u64),
    MissingSnapshotProgress(String),
    /// A group does not have one progress identity per manifest table.
    IncompleteSnapshotProgress(Uuid),
    SnapshotProgressIncomplete(String),
    SnapshotProgressIdentityMismatch { table: String, field: &'static str },
    InvalidSnapshotProgressValue { table: String, field: &'static str, value: String },
    InvalidSnapshotCursorValue,
    SnapshotCursorArityMismatch { expected: usize, actual: usize },
    SnapshotCursorArityOutOfRange(usize),
    SnapshotCursorDigestMismatch(String),
    SnapshotPaginationRequiresPrimaryKey(String),
    SnapshotCursorDidNotAdvance(String),
    EmptyIncompleteSnapshotPage(String),
    SnapshotCursorAdvancedWithoutRows(String),
    SnapshotProgressCounterOverflow(String),
    SnapshotProgressValueOutOfRange { field: &'static str, value: u64 },
    SnapshotProgressChanged(String),
    SnapshotProgressNotFresh(String),
    UnsupportedSnapshotProgressVersion { group: Uuid, version: u16 },
}

#[derive(Debug, PartialEq, Eq)]
pub struct SnapshotOwnership {
    pub fence: PipelineFence,
    pub snapshot_group_id: Uuid,
    pub schema_fingerprint: String,
}

impl Clone for SnapshotOwnership {
    fn clone(&self) -> (r: Self)
        ensures
            r == *self,
    {
        SnapshotOwnership {
            fence: self.fence,
            snapshot_group_id: self.snapshot_group_id,
            schema_fingerprint: self.schema_fingerprint.clone(),
        }
    }
}

/// Immutable SQL plan for loading one source table into a new typed shadow table.
#[derive(Debug, Clone, PartialEq, Eq)]
pub struct SnapshotTargetPlan {
    pub target: QualifiedName,
    pub shadow: CreateTablePlan,
    pub copy_sql: String,
    pub source_relation_id: u32,
    pub source_generation: u64,
}

#[derive(Debug, PartialEq, Eq)]
pub struct SnapshotActivationTable {
    pub target: QualifiedName,
    pub shadow: QualifiedName,
    pub source_relation_id: u32,
    pub table_generation: u64,
    pub schema_fingerprint: String,
}

/// The model of an activation table.
pub struct ActivationTableView {
    pub target: NameView,
    pub shadow: NameView,
    pub source_relation_id: u32,
    pub table_generation: u64,
    pub schema_fingerprint: Seq<char>,
}

impl View for SnapshotActivationTable {
    type V = ActivationTableView;

    open spec fn view(&self) -> ActivationTableView {
        ActivationTableView {
            target: self.target@,
            shadow: self.shadow@,
            source_relation_id: self.source_relation_id,
            table_generation: self.table_generation,
            schema_fingerprint: self.schema_fingerprint@,
        }
    }
}

impl Clone for SnapshotActivationTable {
    fn clone(&self) -> (r: Self)
        ensures
            r == *self,
    {
        SnapshotActivationTable {
            target: self.target.clone(),
            shadow: self.shadow.clone(),
            source_relation_id: self.source_relation_id,
            table_generation: self.table_generation,
            schema_fingerprint: self.schema_fingerprint.clone(),
        }
    }
}

impl SnapshotActivationTable {
    /// Whether both describe the same table in every field.
    pub fn same(&self, other: &Self) -> (r: bool)
        ensures
            r == (self@ == other@),
    {
        self.target.same(&other.target) && self.shadow.same(&other.shadow)
            && self.source_relation_id == other.source_relation_id && self.table_generation
            == other.table_generation && same_text(
            self.schema_fingerprint.as_str(),
            other.schema_fingerprint.as_str(),
        )
    }
}

#[derive(Debug, Clone, PartialEq, Eq)]
pub struct SnapshotActivationRequest {
    pub fence: PipelineFence,
    pub snapshot_group_id: Uuid,
    pub tables: Vec<SnapshotActivationTable>,
    /// Each LSN is the corresponding logical slot's snapshot consistent point.
    pub initial_checkpoints: Vec<NodeCheckpoint>,
}

#[derive(Debug, Clone, Copy, PartialEq, Eq, Structural)]
pub enum SnapshotActivationDisposition {
    Activated,
    AlreadyActive,
}

#[derive(Debug, Clone, PartialEq, Eq)]
pub struct SnapshotActivationOutcome {
    pub disposition: SnapshotActivationDisposition,
    pub quarantined: Vec<QualifiedName>,
}

/// Source/target identity required when resuming a pipeline. The persistent table generation is
/// intentionally omitted because target metadata is authoritative for table-local reloads.
#[derive(Debug, Clone, PartialEq, Eq)]
pub struct ActiveTableRequirement {
    pub target: QualifiedName,
    pub source_relation_id: u32,
    pub schema_fingerprint: String,
}

/// Validated persistent identity used to rebuild the runtime apply binding after restart.
#[derive(Debug, Clone, PartialEq, Eq)]
pub struct ActiveTableMetadata {
    pub target: QualifiedName,
    pub source_relation_id: u32,
    pub table_generation: u64,
    pub schema_fingerprint: String,
    pub snapshot_group_id: Option<Uuid>,
}

#[derive(Debug, Clone, Copy, PartialEq, Eq, Structural)]
pub enum SnapshotApplyMode {
    Copy,
}

#[derive(Debug, Clone, Copy, PartialEq, Eq, Structural)]
pub enum SnapshotApplyOutcome {
    Copied { rows: u64 },
}

// ---------------------------------------------------------------------------------------------
// Shadow plans
// ---------------------------------------------------------------------------------------------

/// The COPY statement that fills a shadow with explicitly named columns.
pub open spec fn shadow_copy_text(shadow: TableView) -> Seq<char> {
    "COPY "@ + quoted_name(shadow.target) + " ("@ + quoted_list(column_names(shadow.columns))
        + ") FROM STDIN WITH (FORMAT text, HEADER false, DELIMITER E'\\t', NULL E'\\\\N')"@
}

/// The plan loads the source table into the shadow for the target.
pub open spec fn shadow_planned(
    plan: SnapshotTargetPlan,
    source: TableSchema,
    target: NameView,
    shadow: NameView,
    storage: TargetStorage,
) -> bool {
    &&& plan.target@ == target
    &&& table_model(source, shadow, storage) == Ok::<TableView, SchemaFault>(plan.shadow@)
    &&& plan.copy_sql@ == shadow_copy_text(plan.shadow@)
    &&& plan.source_relation_id == source.relation_id
    &&& plan.source_generation == source.generation
}

/// The error tells why no shadow can be planned.
pub open spec fn refuses_shadow_plan(
    e: SnapshotTargetError,
    source: TableSchema,
    target: NameView,
    shadow: NameView,
    storage: TargetStorage,
) -> bool {
    if target == shadow {
        e == SnapshotTargetError::TargetIsShadow
    } else if target.schema != shadow.schema {
        e matches SnapshotTargetError::CrossSchemaShadowUnsupported { target: t, shadow: s } && t@
            == target.text() && s@ == shadow.text()
    } else {
        e matches SnapshotTargetError::Schema(inner) && table_model(source, shadow, storage)
            == Err::<TableView, SchemaFault>(inner@)
    }
}

/// Plan a shadow using the same explicit storage profile as its eventual active table.
pub fn plan_snapshot_target_with_storage(
    source: &TableSchema,
    target: QualifiedName,
    shadow: QualifiedName,
    storage: TargetStorage,
) -> (r: Result<SnapshotTargetPlan, SnapshotTargetError>)
    ensures
        match r {
            Ok(plan) => {
                &&& target@ != shadow@
                &&& target@.schema == shadow@.schema
                &&& shadow_planned(plan, *source, target@, shadow@, storage)
            },
            Err(e) => refuses_shadow_plan(e, *source, target@, shadow@, storage),
        },
{
    if target.same(&shadow) {
        return Err(SnapshotTargetError::TargetIsShadow);
    }
    if !same_text(target.schema.as_str(), shadow.schema.as_str()) {
        return Err(
            SnapshotTargetError::CrossSchemaShadowUnsupported {
                target: target.display(),
                shadow: shadow.display(),
            },
        );
    }
    let ghost shadow_view = shadow@;
    let planned = match plan_create_table_with_storage(source, shadow, storage) {
        Err(e) => return Err(SnapshotTargetError::Schema(e)),
        Ok(planned) => planned,
    };
    proof {
        law_planned_table(*source, shadow_view, storage);
    }
    let quoted_shadow = match quote_qualified_name(&planned.target) {
        Err(e) => return Err(SnapshotTargetError::Sql(e)),
        Ok(text) => text,
    };
    let mut columns: Vec<String> = Vec::new();
    let mut i: usize = 0;
    while i < planned.columns.len()
        invariant
            i <= planned.columns.len(),
            columns@.len() == i,
            forall|k: int| 0 <= k < i ==> (#[trigger] columns@[k])@ == planned.columns@[k].name@,
        decreases planned.columns.len() - i,
    {
        columns.push(planned.columns[i].name.clone());
        i = i + 1;
    }
    proof {
        assert(texts(columns@) =~= column_names(planned@.columns));
    }
    let mut copy_sql = "COPY ".to_string();
    copy_sql.append(quoted_shadow.as_str());
    copy_sql.append(" (");
    copy_sql.append(list_quoted("", &columns, "", ", ").as_str());
    copy_sql.append(
        ") FROM STDIN WITH (FORMAT text, HEADER false, DELIMITER E'\\t', NULL E'\\\\N')",
    );
    Ok(
        SnapshotTargetPlan {
            target,
            shadow: planned,
            copy_sql,
            source_relation_id: source.relation_id,
            source_generation: source.generation,
        },
    )
}

/// Plan a distinct shadow table with exactly the source column types and column order.
pub fn plan_snapshot_target(source: &TableSchema, target: QualifiedName, shadow: QualifiedName) -> (r: Result<
    SnapshotTargetPlan,
    SnapshotTargetError,
>)
    ensures
        match r {
            Ok(plan) => {
                &&& target@ != shadow@
                &&& target@.schema == shadow@.schema
                &&& shadow_planned(plan, *source, target@, shadow@, TargetStorage::AoColumn)
            },
            Err(e) => refuses_shadow_plan(e, *source, target@, shadow@, TargetStorage::AoColumn),
        },
{
    plan_snapshot_target_with_storage(source, target, shadow, TargetStorage::default())
}

impl SnapshotTargetPlan {
    /// The manifest entry of this plan.
    pub open spec fn activation_view(self, schema_fingerprint: Seq<char>) -> ActivationTableView {
        ActivationTableView {
            target: self.target@,
            shadow: self.shadow.target@,
            source_relation_id: self.source_relation_id,
            table_generation: self.source_generation,
            schema_fingerprint,
        }
    }

    #[must_use]
    pub fn activation_table(&self, schema_fingerprint: &str) -> (r: SnapshotActivationTable)
        ensures
            r@ == self.activation_view(schema_fingerprint@),
    {
        SnapshotActivationTable {
            target: self.target.clone(),
            shadow: self.shadow.target.clone(),
            source_relation_id: self.source_relation_id,
            table_generation: self.source_generation,
            schema_fingerprint: schema_fingerprint.to_string(),
        }
    }
}

/// The statement that makes sure a schema exists.
pub fn create_schema_sql(schema: &str) -> (r: Result<String, SnapshotTargetError>)
    ensures
        match r {
            Ok(text) => quotable(schema@) && text@ == "CREATE SCHEMA IF NOT EXISTS "@ + quoted(
                schema@,
            ),
            Err(e) => identifier_render_fault(schema@) is Some && e == SnapshotTargetError::Sql(
                identifier_render_fault(schema@)->0,
            ),
        },
{
    match quote_identifier(schema) {
        Err(e) => Err(SnapshotTargetError::Sql(e)),
        Ok(name) => {
            let mut out = "CREATE SCHEMA IF NOT EXISTS ".to_string();
            out.append(name.as_str());
            Ok(out)
        },
    }
}

/// The statement that drops a table.
pub fn drop_table_sql(table: &QualifiedName) -> (r: Result<String, SnapshotTargetError>)
    ensures
        match r {
            Ok(text) => name_render_fault(table@) is None && text@ == "DROP TABLE "@ + quoted_name(
                table@,
            ),
            Err(e) => name_render_fault(table@) is Some && e == SnapshotTargetError::Sql(
                name_render_fault(table@)->0,
            ),
        },
{
    match quote_qualified_name(table) {
        Err(e) => Err(SnapshotTargetError::Sql(e)),
        Ok(name) => {
            let mut out = "DROP TABLE ".to_string();
            out.append(name.as_str());
            Ok(out)
        },
    }
}

pub fn database_generation(generation: u64) -> (r: Result<i64, SnapshotTargetError>)
    ensures
        match r {
            Ok(value) => generation <= i64::MAX && value == generation,
            Err(e) => generation > i64::MAX && e == SnapshotTargetError::GenerationOutOfRange(
                generation,
            ),
        },
{
    if generation <= i64::MAX as u64 {
        Ok(generation as i64)
    } else {
        Err(SnapshotTargetError::GenerationOutOfRange(generation))
    }
}

pub fn ensure_one_metadata_row(written: u64) -> (r: Result<(), SnapshotTargetError>)
    ensures
        match r {
            Ok(()) => written == 1,
            Err(e) => written != 1 && e == SnapshotTargetError::UnexpectedMetadataWriteCount(
                written,
            ),
        },
{
    if written == 1 {
        Ok(())
    } else {
        Err(SnapshotTargetError::UnexpectedMetadataWriteCount(written))
    }
}

pub fn validate_ownership(ownership: &SnapshotOwnership) -> (r: Result<(), SnapshotTargetError>)
    ensures
        match r {
            Ok(()) => ownership.fence.fencing_token > 0 && ownership.schema_fingerprint@.len() > 0
                && ownership.snapshot_group_id.value != 0,
            Err(e) => if ownership.fence.fencing_token <= 0
                || ownership.schema_fingerprint@.len() == 0 {
                e == SnapshotTargetError::InvalidOwnership
            } else {
                ownership.snapshot_group_id.value == 0 && e
                    == SnapshotTargetError::InvalidSnapshotGroupId
            },
        },
{
    if ownership.fence.fencing_token <= 0 || ownership.schema_fingerprint.as_str().is_empty() {
        Err(SnapshotTargetError::InvalidOwnership)
    } else if ownership.snapshot_group_id.is_nil() {
        Err(SnapshotTargetError::InvalidSnapshotGroupId)
    } else {
        Ok(())
    }
}

// ---------------------------------------------------------------------------------------------
// Managed relations
// ---------------------------------------------------------------------------------------------

#[derive(Debug, Clone, Copy, PartialEq, Eq, Structural)]
pub enum ManagedTableState {
    Shadow,
    Active,
    Blocked,
    Quarantined,
}

impl ManagedTableState {
    pub open spec fn name(self) -> &'static str {
        match self {
            ManagedTableState::Shadow => "shadow",
            ManagedTableState::Active => "active",
            ManagedTableState::Blocked => "blocked",
            ManagedTableState::Quarantined => "quarantined",
        }
    }

    pub fn as_str(self) -> (r: &'static str)
        ensures
            r == self.name(),
    {
        match self {
            ManagedTableState::Shadow => "shadow",
            ManagedTableState::Active => "active",
            ManagedTableState::Blocked => "blocked",
            ManagedTableState::Quarantined => "quarantined",
        }
    }

    /// The state that a stored text stands for.
    pub open spec fn named(value: Seq<char>) -> Option<ManagedTableState> {
        if value == "shadow"@ {
            Some(ManagedTableState::Shadow)
        } else if value == "active"@ {
            Some(ManagedTableState::Active)
        } else if value == "blocked"@ {
            Some(ManagedTableState::Blocked)
        } else if value == "quarantined"@ {
            Some(ManagedTableState::Quarantined)
        } else {
            None
        }
    }

    pub fn parse(table: &QualifiedName, value: String) -> (r: Result<Self, SnapshotTargetError>)
        ensures
            match r {
                Ok(state) => Self::named(value@) == Some(state),
                Err(e) => Self::named(value@) is None && managed_reports(
                    e,
                    table@,
                    Some(("state", value@)),
                ),
            },
    {
        if same_text(value.as_str(), "shadow") {
            Ok(ManagedTableState::Shadow)
        } else if same_text(value.as_str(), "active") {
            Ok(ManagedTableState::Active)
        } else if same_text(value.as_str(), "blocked") {
            Ok(ManagedTableState::Blocked)
        } else if same_text(value.as_str(), "quarantined") {
            Ok(ManagedTableState::Quarantined)
        } else {
            Err(
                SnapshotTargetError::InvalidManagedTableValue {
                    table: table.display(),
                    field: "state",
                    value,
                },
            )
        }
    }
}

/// Every managed-table state reads back from its stored text.
pub proof fn law_managed_state_reads_back(state: ManagedTableState)
    ensures
        ManagedTableState::named(state.name()@) == Some(state),
{
    reveal_strlit("shadow");
    reveal_strlit("active");
    reveal_strlit("blocked");
    reveal_strlit("quarantined");
    assert("shadow"@[0] == 's');
    assert("active"@[0] == 'a');
    assert("blocked"@[0] == 'b');
    assert("quarantined"@[0] == 'q');
}

#[derive(Debug, PartialEq, Eq)]
pub struct ManagedTableRecord {
    pub pipeline_id: PipelineId,
    pub snapshot_group_id: Option<Uuid>,
    /// PostgreSQL object identity captured at registration time.  Legacy rows may be `None`;
    /// destructive cleanup deliberately refuses to operate on those rows.
    pub relation_oid: Option<i64>,
    pub source_relation_id: u32,
    pub table_generation: u64,
    pub schema_fingerprint: String,
    pub state: ManagedTableState,
    pub fencing_token: i64,
}

impl Clone for ManagedTableRecord {
    fn clone(&self) -> (r: Self)
        ensures
            r == *self,
    {
        ManagedTableRecord {
            pipeline_id: self.pipeline_id,
            snapshot_group_id: self.snapshot_group_id,
            relation_oid: self.relation_oid,
            source_relation_id: self.source_relation_id,
            table_generation: self.table_generation,
            schema_fingerprint: self.schema_fingerprint.clone(),
            state: self.state,
            fencing_token: self.fencing_token,
        }
    }
}

#[derive(Debug, PartialEq, Eq)]
pub enum RelationState {
    Vacant,
    Unmanaged,
    ManagedObjectMissing(ManagedTableRecord),
    Managed(ManagedTableRecord),
}

impl Clone for RelationState {
    fn clone(&self) -> (r: Self)
        ensures
            r == *self,
    {
        match self {
            RelationState::Vacant => RelationState::Vacant,
            RelationState::Unmanaged => RelationState::Unmanaged,
            RelationState::ManagedObjectMissing(record) => RelationState::ManagedObjectMissing(
                record.clone(),
            ),
            RelationState::Managed(record) => RelationState::Managed(record.clone()),
        }
    }
}

/// What metadata and catalog together say of a relation.
pub fn relation_state(exists: bool, record: Option<ManagedTableRecord>) -> (r: RelationState)
    ensures
        r == match (exists, record) {
            (false, None) => RelationState::Vacant,
            (true, None) => RelationState::Unmanaged,
            (false, Some(record)) => RelationState::ManagedObjectMissing(record),
            (true, Some(record)) => RelationState::Managed(record),
        },
{
    match record {
        None => {
            if exists {
                RelationState::Unmanaged
            } else {
                RelationState::Vacant
            }
        },
        Some(record) => {
            if exists {
                RelationState::Managed(record)
            } else {
                RelationState::ManagedObjectMissing(record)
            }
        },
    }
}

/// A managed-table row as the target returns it.
#[derive(Debug, PartialEq, Eq)]
pub struct ManagedTableRow {
    pub pipeline_id: Uuid,
    pub snapshot_group_id: Option<Uuid>,
    pub relation_oid: Option<i64>,
    pub source_relation_id: i64,
    pub table_generation: i64,
    pub schema_fingerprint: String,
    pub state: String,
    pub fencing_token: i64,
}

/// The first column of a managed-table row that has no meaning.
pub open spec fn managed_row_fault(row: ManagedTableRow) -> Option<PersistedFault> {
    if !(0 <= row.source_relation_id <= u32::MAX) {
        Some(("source_relation_id", signed_decimal(row.source_relation_id as int)))
    } else if row.table_generation < 0 {
        Some(("table_generation", signed_decimal(row.table_generation as int)))
    } else if ManagedTableState::named(row.state@) is None {
        Some(("state", row.state@))
    } else {
        None
    }
}

/// The error names the table and the column and shows the stored value.
pub open spec fn managed_reports(
    e: SnapshotTargetError,
    table: NameView,
    fault: Option<PersistedFault>,
) -> bool {
    e matches SnapshotTargetError::InvalidManagedTableValue { table: t, field, value } && t@
        == table.text() && fault == Some((field, value@))
}

/// The record holds the values of the row.
pub open spec fn managed_row_holds(row: ManagedTableRow, record: ManagedTableRecord) -> bool {
    &&& record.pipeline_id.uuid == row.pipeline_id
    &&& record.snapshot_group_id == row.snapshot_group_id
    &&& record.relation_oid == row.relation_oid
    &&& record.source_relation_id == row.source_relation_id
    &&& record.table_generation == row.table_generation
    &&& record.schema_fingerprint == row.schema_fingerprint
    &&& ManagedTableState::named(row.state@) == Some(record.state)
    &&& record.fencing_token == row.fencing_token
}

/// Reads a managed-table row.
pub fn managed_table_record_from_row(table: &QualifiedName, row: ManagedTableRow) -> (r: Result<
    ManagedTableRecord,
    SnapshotTargetError,
>)
    ensures
        match r {
            Ok(record) => managed_row_fault(row) is None && managed_row_holds(row, record),
            Err(e) => managed_reports(e, table@, managed_row_fault(row)),
        },
{
    if row.source_relation_id < 0 || row.source_relation_id > u32::MAX as i64 {
        return Err(
            SnapshotTargetError::InvalidManagedTableValue {
                table: table.display(),
                field: "source_relation_id",
                value: render_signed(row.source_relation_id),
            },
        );
    }
    if row.table_generation < 0 {
        return Err(
            SnapshotTargetError::InvalidManagedTableValue {
                table: table.display(),
                field: "table_generation",
                value: render_signed(row.table_generation),
            },
        );
    }
    let state = match ManagedTableState::parse(table, row.state) {
        Err(e) => return Err(e),
        Ok(state) => state,
    };
    Ok(
        ManagedTableRecord {
            pipeline_id: PipelineId::from_uuid(row.pipeline_id),
            snapshot_group_id: row.snapshot_group_id,
            relation_oid: row.relation_oid,
            source_relation_id: row.source_relation_id as u32,
            table_generation: row.table_generation as u64,
            schema_fingerprint: row.schema_fingerprint,
            state,
            fencing_token: row.fencing_token,
        },
    )
}

/// The record belongs to the pipeline and the source relation.
pub open spec fn identity_matches(
    record: ManagedTableRecord,
    pipeline_id: PipelineId,
    source_relation_id: u32,
) -> bool {
    record.pipeline_id == pipeline_id && record.source_relation_id == source_relation_id
}

/// The error tells who else owns the relation.
pub open spec fn refuses_owner(
    e: SnapshotTargetError,
    table: NameView,
    record: ManagedTableRecord,
    pipeline_id: PipelineId,
    source_relation_id: u32,
) -> bool {
    if record.pipeline_id != pipeline_id {
        e matches SnapshotTargetError::ManagedByOtherPipeline { table: t, expected, actual } && t@
            == table.text() && expected == pipeline_id && actual == record.pipeline_id
    } else {
        e matches SnapshotTargetError::ManagedByOtherSource { table: t, expected, actual } && t@
            == table.text() && expected == source_relation_id && actual
            == record.source_relation_id
    }
}

pub fn validate_managed_identity(
    table: &QualifiedName,
    record: &ManagedTableRecord,
    pipeline_id: PipelineId,
    source_relation_id: u32,
) -> (r: Result<(), SnapshotTargetError>)
    ensures
        match r {
            Ok(()) => identity_matches(*record, pipeline_id, source_relation_id),
            Err(e) => !identity_matches(*record, pipeline_id, source_relation_id) && refuses_owner(
                e,
                table@,
                *record,
                pipeline_id,
                source_relation_id,
            ),
        },
{
    if record.pipeline_id != pipeline_id {
        return Err(
            SnapshotTargetError::ManagedByOtherPipeline {
                table: table.display(),
                expected: pipeline_id,
                actual: record.pipeline_id,
            },
        );
    }
    if record.source_relation_id != source_relation_id {
        return Err(
            SnapshotTargetError::ManagedByOtherSource {
                table: table.display(),
                expected: source_relation_id,
                actual: record.source_relation_id,
            },
        );
    }
    Ok(())
}

/// The error tells the newer fence.
pub open spec fn refuses_fence(
    e: SnapshotTargetError,
    object: NameView,
    current: i64,
    actual: i64,
) -> bool {
    e matches SnapshotTargetError::ManagedByNewerFence { object: o, current: c, actual: a } && o@
        == object.text() && c == current && a == actual
}

pub fn validate_managed_fence(table: &QualifiedName, record: &ManagedTableRecord, current: i64) -> (r: Result<
    (),
    SnapshotTargetError,
>)
    ensures
        match r {
            Ok(()) => record.fencing_token <= current,
            Err(e) => record.fencing_token > current && refuses_fence(
                e,
                table@,
                current,
                record.fencing_token,
            ),
        },
{
    if record.fencing_token > current {
        Err(
            SnapshotTargetError::ManagedByNewerFence {
                object: table.display(),
                current,
                actual: record.fencing_token,
            },
        )
    } else {
        Ok(())
    }
}

/// The record is that of the manifest table in the group.
pub open spec fn activation_matches(
    record: ManagedTableRecord,
    table: SnapshotActivationTable,
    snapshot_group_id: Uuid,
) -> bool {
    &&& record.snapshot_group_id == Some(snapshot_group_id)
    &&& record.source_relation_id == table.source_relation_id
    &&& record.table_generation == table.table_generation
    &&& record.schema_fingerprint@ == table.schema_fingerprint@
}

pub fn is_group(group: Option<Uuid>, expected: Uuid) -> (r: bool)
    ensures
        r == (group == Some(expected)),
{
    match group {
        Some(group) => group == expected,
        None => false,
    }
}

pub fn matches_activation(
    record: &ManagedTableRecord,
    table: &SnapshotActivationTable,
    snapshot_group_id: Uuid,
) -> (r: bool)
    ensures
        r == activation_matches(*record, *table, snapshot_group_id),
{
    is_group(record.snapshot_group_id, snapshot_group_id) && record.source_relation_id
        == table.source_relation_id && record.table_generation == table.table_generation
        && same_text(record.schema_fingerprint.as_str(), table.schema_fingerprint.as_str())
}

/// A new snapshot may be loaded for the target.
pub open spec fn target_loadable(
    state: RelationState,
    plan: SnapshotTargetPlan,
    ownership: SnapshotOwnership,
) -> bool {
    match state {
        RelationState::Vacant => true,
        RelationState::Managed(record) => {
            &&& identity_matches(record, ownership.fence.pipeline_id, plan.source_relation_id)
            &&& record.fencing_token <= ownership.fence.fencing_token
            &&& record.state == ManagedTableState::Active
            &&& !(record.table_generation == plan.source_generation && record.schema_fingerprint@
                == ownership.schema_fingerprint@)
        },
        _ => false,
    }
}

/// The error tells why no new snapshot may be loaded for the target.
pub open spec fn refuses_target(
    e: SnapshotTargetError,
    state: RelationState,
    plan: SnapshotTargetPlan,
    ownership: SnapshotOwnership,
) -> bool {
    let name = plan.target@.text();
    match state {
        RelationState::Vacant => false,
        RelationState::Unmanaged => e matches SnapshotTargetError::ExistingUnmanagedTable(t) && t@
            == name,
        RelationState::ManagedObjectMissing(_) =>
            e matches SnapshotTargetError::ManagedRelationMissing(t) && t@ == name,
        RelationState::Managed(record) => if !identity_matches(
            record,
            ownership.fence.pipeline_id,
            plan.source_relation_id,
        ) {
            refuses_owner(
                e,
                plan.target@,
                record,
                ownership.fence.pipeline_id,
                plan.source_relation_id,
            )
        } else if record.fencing_token > ownership.fence.fencing_token {
            refuses_fence(e, plan.target@, ownership.fence.fencing_token, record.fencing_token)
        } else if record.state != ManagedTableState::Active {
            unexpected_state(e, plan.target@, "active", record.state)
        } else {
            e matches SnapshotTargetError::TargetAlreadyActive(t) && t@ == name
        },
    }
}

/// The error tells the state that the relation is in.
pub open spec fn unexpected_state(
    e: SnapshotTargetError,
    table: NameView,
    expected: &'static str,
    actual: ManagedTableState,
) -> bool {
    e matches SnapshotTargetError::UnexpectedManagedTableState { table: t, expected: x, actual: a }
        && t@ == table.text() && x == expected && a@ == actual.name()@
}

pub fn validate_target_for_load(
    state: &RelationState,
    plan: &SnapshotTargetPlan,
    ownership: &SnapshotOwnership,
) -> (r: Result<(), SnapshotTargetError>)
    ensures
        match r {
            Ok(()) => target_loadable(*state, *plan, *ownership),
            Err(e) => !target_loadable(*state, *plan, *ownership) && refuses_target(
                e,
                *state,
                *plan,
                *ownership,
            ),
        },
{
    let record = match state {
        RelationState::Vacant => return Ok(()),
        RelationState::Unmanaged => {
            return Err(SnapshotTargetError::ExistingUnmanagedTable(plan.target.display()));
        },
        RelationState::ManagedObjectMissing(_) => {
            return Err(SnapshotTargetError::ManagedRelationMissing(plan.target.display()));
        },
        RelationState::Managed(record) => record,
    };
    match validate_managed_identity(
        &plan.target,
        record,
        ownership.fence.pipeline_id,
        plan.source_relation_id,
    ) {
        Err(e) => return Err(e),
        Ok(()) => {},
    }
    match validate_managed_fence(&plan.target, record, ownership.fence.fencing_token) {
        Err(e) => return Err(e),
        Ok(()) => {},
    }
    if record.state != ManagedTableState::Active {
        return Err(
            SnapshotTargetError::UnexpectedManagedTableState {
                table: plan.target.display(),
                expected: ManagedTableState::Active.as_str(),
                actual: record.state.as_str().to_string(),
            },
        );
    }
    if record.table_generation == plan.source_generation && same_text(
        record.schema_fingerprint.as_str(),
        ownership.schema_fingerprint.as_str(),
    ) {
        return Err(SnapshotTargetError::TargetAlreadyActive(plan.target.display()));
    }
    Ok(())
}

/// What becomes of an existing shadow.
pub enum ShadowVerdict {
    /// There is none.
    Absent,
    /// It is owned and will be rebuilt.
    Rebuild,
    Refused,
}

pub open spec fn shadow_verdict(
    state: RelationState,
    plan: SnapshotTargetPlan,
    ownership: SnapshotOwnership,
) -> ShadowVerdict {
    match state {
        RelationState::Vacant => ShadowVerdict::Absent,
        RelationState::Managed(record) => if !identity_matches(
            record,
            ownership.fence.pipeline_id,
            plan.source_relation_id,
        ) || record.fencing_token > ownership.fence.fencing_token || record.state
            != ManagedTableState::Shadow {
            ShadowVerdict::Refused
        } else if record.snapshot_group_id != Some(ownership.snapshot_group_id) {
            if record.fencing_token < ownership.fence.fencing_token {
                ShadowVerdict::Rebuild
            } else {
                ShadowVerdict::Refused
            }
        } else if record.table_generation == plan.source_generation && record.schema_fingerprint@
            == ownership.schema_fingerprint@ {
            ShadowVerdict::Rebuild
        } else {
            ShadowVerdict::Refused
        },
        _ => ShadowVerdict::Refused,
    }
}

/// The error tells why a shadow cannot be rebuilt.
pub open spec fn refuses_shadow(
    e: SnapshotTargetError,
    state: RelationState,
    plan: SnapshotTargetPlan,
    ownership: SnapshotOwnership,
) -> bool {
    let shadow = plan.shadow.target@;
    match state {
        RelationState::Vacant => false,
        RelationState::Unmanaged => e matches SnapshotTargetError::ExistingUnmanagedTable(t) && t@
            == shadow.text(),
        RelationState::ManagedObjectMissing(_) =>
            e matches SnapshotTargetError::ManagedRelationMissing(t) && t@ == shadow.text(),
        RelationState::Managed(record) => if !identity_matches(
            record,
            ownership.fence.pipeline_id,
            plan.source_relation_id,
        ) {
            refuses_owner(
                e,
                shadow,
                record,
                ownership.fence.pipeline_id,
                plan.source_relation_id,
            )
        } else if record.fencing_token > ownership.fence.fencing_token {
            refuses_fence(e, shadow, ownership.fence.fencing_token, record.fencing_token)
        } else if record.state != ManagedTableState::Shadow {
            unexpected_state(e, shadow, "shadow", record.state)
        } else if record.snapshot_group_id != Some(ownership.snapshot_group_id) {
            e matches SnapshotTargetError::ShadowSnapshotGroupMismatch {
                table,
                expected,
                actual,
            } && table@ == shadow.text() && expected == ownership.snapshot_group_id && actual
                == record.snapshot_group_id
        } else if record.table_generation != plan.source_generation {
            e matches SnapshotTargetError::ShadowGenerationMismatch { table, expected, actual }
                && table@ == shadow.text() && expected == plan.source_generation && actual
                == record.table_generation
        } else {
            e matches SnapshotTargetError::ShadowFingerprintMismatch(table) && table@
                == shadow.text()
        },
    }
}

/// Returns true when an exactly owned committed shadow may be safely replaced by this group.
pub fn validate_shadow_for_rebuild(
    state: &RelationState,
    plan: &SnapshotTargetPlan,
    ownership: &SnapshotOwnership,
) -> (r: Result<bool, SnapshotTargetError>)
    ensures
        match r {
            Ok(true) => shadow_verdict(*state, *plan, *ownership) is Rebuild,
            Ok(false) => shadow_verdict(*state, *plan, *ownership) is Absent,
            Err(e) => shadow_verdict(*state, *plan, *ownership) is Refused && refuses_shadow(
                e,
                *state,
                *plan,
                *ownership,
            ),
        },
{
    let record = match state {
        RelationState::Vacant => return Ok(false),
        RelationState::Unmanaged => {
            return Err(
                SnapshotTargetError::ExistingUnmanagedTable(plan.shadow.target.display()),
            );
        },
        RelationState::ManagedObjectMissing(_) => {
            return Err(
                SnapshotTargetError::ManagedRelationMissing(plan.shadow.target.display()),
            );
        },
        RelationState::Managed(record) => record,
    };
    match validate_managed_identity(
        &plan.shadow.target,
        record,
        ownership.fence.pipeline_id,
        plan.source_relation_id,
    ) {
        Err(e) => return Err(e),
        Ok(()) => {},
    }
    match validate_managed_fence(&plan.shadow.target, record, ownership.fence.fencing_token) {
        Err(e) => return Err(e),
        Ok(()) => {},
    }
    if record.state != ManagedTableState::Shadow {
        return Err(
            SnapshotTargetError::UnexpectedManagedTableState {
                table: plan.shadow.target.display(),
                expected: ManagedTableState::Shadow.as_str(),
                actual: record.state.as_str().to_string(),
            },
        );
    }
    if !is_group(record.snapshot_group_id, ownership.snapshot_group_id) {
        if record.fencing_token < ownership.fence.fencing_token {
            return Ok(true);
        }
        return Err(
            SnapshotTargetError::ShadowSnapshotGroupMismatch {
                table: plan.shadow.target.display(),
                expected: ownership.snapshot_group_id,
                actual: record.snapshot_group_id,
            },
        );
    }
    if record.table_generation != plan.source_generation {
        return Err(
            SnapshotTargetError::ShadowGenerationMismatch {
                table: plan.shadow.target.display(),
                expected: plan.source_generation,
                actual: record.table_generation,
            },
        );
    }
    if !same_text(record.schema_fingerprint.as_str(), ownership.schema_fingerprint.as_str()) {
        return Err(
            SnapshotTargetError::ShadowFingerprintMismatch(plan.shadow.target.display()),
        );
    }
    Ok(true)
}

/// The parameters that register a shadow whose relation was just created.
#[derive(Debug, PartialEq, Eq)]
pub struct ShadowRegistration {
    pub relation_oid: i64,
    pub source_relation_id: i64,
    pub table_generation: i64,
}

/// Decides how a new shadow is registered, given its catalog identity.
pub fn shadow_registration(plan: &SnapshotTargetPlan, relation_oid: Option<i64>) -> (r: Result<
    ShadowRegistration,
    SnapshotTargetError,
>)
    ensures
        match r {
            Ok(registration) => {
                &&& plan.source_generation <= i64::MAX
                &&& relation_oid == Some(registration.relation_oid)
                &&& registration.source_relation_id == plan.source_relation_id
                &&& registration.table_generation == plan.source_generation
            },
            Err(e) => if plan.source_generation > i64::MAX {
                e == SnapshotTargetError::GenerationOutOfRange(plan.source_generation)
            } else {
                relation_oid is None && (e matches SnapshotTargetError::ManagedRelationMissing(t)
                    && t@ == plan.shadow.target@.text())
            },
        },
{
    let table_generation = match database_generation(plan.source_generation) {
        Err(e) => return Err(e),
        Ok(generation) => generation,
    };
    match relation_oid {
        None => Err(SnapshotTargetError::ManagedRelationMissing(plan.shadow.target.display())),
        Some(relation_oid) => Ok(
            ShadowRegistration {
                relation_oid,
                source_relation_id: plan.source_relation_id as i64,
                table_generation,
            },
        ),
    }
}

// ---------------------------------------------------------------------------------------------
// Loading
// ---------------------------------------------------------------------------------------------

/// Observes the durable boundary after a bounded snapshot page transaction commits.
///
/// Returning an error makes the commit result intentionally ambiguous to the caller. The caller
/// must discard the source snapshot session; a later owner then fences and removes the loading
/// group before starting a fresh source snapshot.
pub trait SnapshotPageCommitObserver: Send + Sync {
    fn observe_after_commit(&self) -> Result<(), String>;
}

/// An observer that lets every commit stand.
#[derive(Debug)]
pub struct NoopSnapshotPageCommitObserver;

impl SnapshotPageCommitObserver for NoopSnapshotPageCommitObserver {
    fn observe_after_commit(&self) -> (r: Result<(), String>)
        ensures
            r is Ok,
    {
        Ok(())
    }
}

/// Durable, resumable driver for a bounded page-by-page shadow load. Holds the
/// last committed cursor so the caller can derive the next source range and
/// prove forward progress. Each page runs in its own
/// transaction and commits the copied rows together with the advanced cursor.
#[derive(Debug, Clone)]
pub struct SnapshotPageLoader {
    plan: SnapshotTargetPlan,
    ownership: SnapshotOwnership,
    cursor: Vec<String>,
    completed: bool,
}

impl SnapshotPageLoader {
    pub closed spec fn loaded_plan(self) -> SnapshotTargetPlan {
        self.plan
    }

    pub closed spec fn owner(self) -> SnapshotOwnership {
        self.ownership
    }

    pub closed spec fn position(self) -> Seq<String> {
        self.cursor@
    }

    pub closed spec fn done(self) -> bool {
        self.completed
    }

    /// Starts where the durable progress of the shadow stands.
    pub fn resume(
        plan: SnapshotTargetPlan,
        ownership: &SnapshotOwnership,
        progress: &SnapshotTableProgress,
    ) -> (r: Self)
        ensures
            r.loaded_plan() == plan,
            r.owner() == *ownership,
            r.position() == progress.cursor@,
            r.done() == progress.completed,
    {
        SnapshotPageLoader {
            plan,
            ownership: ownership.clone(),
            cursor: clone_texts(progress.cursor.as_slice()),
            completed: progress.completed,
        }
    }

    /// The last durably committed cursor. Empty means the scan starts at the
    /// table head; the caller maps this to `None` for the source pager.
    #[must_use]
    pub fn cursor(&self) -> (r: &[String])
        ensures
            r@ == self.position(),
    {
        self.cursor.as_slice()
    }

    /// Whether the durable progress row is already marked complete. A resumed
    /// loader that finds this true must skip straight to activation.
    #[must_use]
    pub fn is_completed(&self) -> (r: bool)
        ensures
            r == self.done(),
    {
        self.completed
    }

    #[must_use]
    pub fn plan(&self) -> (r: &SnapshotTargetPlan)
        ensures
            *r == self.loaded_plan(),
    {
        &self.plan
    }

    /// Who loads the shadow.
    pub fn ownership(&self) -> (r: &SnapshotOwnership)
        ensures
            *r == self.owner(),
    {
        &self.ownership
    }

    /// Takes over the committed progress of a page, unless the observer of the commit fails.
    ///
    /// After a failed observation the loader keeps its position: the commit result is ambiguous.
    pub fn settle(&mut self, outcome: &SnapshotPageApplyOutcome, observed: Result<(), String>) -> (r: Result<
        (),
        SnapshotTargetError,
    >)
        ensures
            final(self).loaded_plan() == old(self).loaded_plan(),
            final(self).owner() == old(self).owner(),
            match observed {
                Ok(()) => {
                    &&& r is Ok
                    &&& final(self).position() == outcome.committed().cursor@
                    &&& final(self).done() == outcome.committed().completed
                },
                Err(message) => {
                    &&& r == Err::<(), SnapshotTargetError>(
                        SnapshotTargetError::PageCommitObserver(message),
                    )
                    &&& final(self).position() == old(self).position()
                    &&& final(self).done() == old(self).done()
                },
            },
    {
        match observed {
            Err(message) => Err(SnapshotTargetError::PageCommitObserver(message)),
            Ok(()) => {
                let progress = outcome.progress();
                self.cursor = clone_texts(progress.cursor.as_slice());
                self.completed = progress.completed;
                Ok(())
            },
        }
    }
}

/// How far a whole-table COPY has come. Its stream must finish before commit is allowed.
#[derive(Debug, Clone, Copy, PartialEq, Eq, Structural)]
pub struct SnapshotCopyState {
    pub mode: SnapshotApplyMode,
    pub copied_rows: Option<u64>,
}

impl SnapshotCopyState {
    pub fn new() -> (r: Self)
        ensures
            r == (SnapshotCopyState { mode: SnapshotApplyMode::Copy, copied_rows: None }),
    {
        SnapshotCopyState { mode: SnapshotApplyMode::Copy, copied_rows: None }
    }

    /// A COPY runs once.
    pub fn check_start(&self) -> (r: Result<(), SnapshotTargetError>)
        ensures
            match r {
                Ok(()) => self.copied_rows is None,
                Err(e) => self.copied_rows is Some && e
                    == SnapshotTargetError::CopyAlreadyCompleted,
            },
    {
        if self.copied_rows.is_some() {
            Err(SnapshotTargetError::CopyAlreadyCompleted)
        } else {
            Ok(())
        }
    }

    /// Notes that the COPY finished.
    pub fn finished(self, rows: u64) -> (r: Self)
        ensures
            r == (SnapshotCopyState { copied_rows: Some(rows), ..self }),
    {
        SnapshotCopyState { copied_rows: Some(rows), ..self }
    }

    /// A transaction may commit only behind a finished COPY.
    pub fn check_commit(&self) -> (r: Result<SnapshotApplyOutcome, SnapshotTargetError>)
        ensures
            match r {
                Ok(SnapshotApplyOutcome::Copied { rows }) => self.copied_rows == Some(rows),
                Err(e) => self.copied_rows is None && e == SnapshotTargetError::CopyNotCompleted,
            },
    {
        match self.copied_rows {
            Some(rows) => Ok(SnapshotApplyOutcome::Copied { rows }),
            None => Err(SnapshotTargetError::CopyNotCompleted),
        }
    }
}

/// A shadow of another worker with the same or a newer fence is never rebuilt.
pub proof fn law_concurrent_shadow_is_kept(
    record: ManagedTableRecord,
    plan: SnapshotTargetPlan,
    ownership: SnapshotOwnership,
)
    requires
        record.snapshot_group_id != Some(ownership.snapshot_group_id),
        record.fencing_token >= ownership.fence.fencing_token,
    ensures
        shadow_verdict(RelationState::Managed(record), plan, ownership) is Refused,
{
}

/// A relation without metadata is never loaded over nor rebuilt.
pub proof fn law_unmanaged_relations_are_kept(plan: SnapshotTargetPlan, ownership: SnapshotOwnership)
    ensures
        !target_loadable(RelationState::Unmanaged, plan, ownership),
        shadow_verdict(RelationState::Unmanaged, plan, ownership) is Refused,
{
}

/// The texts of the states, as the stored rows hold them.
pub proof fn law_managed_state_texts(state: ManagedTableState)
    ensures
        state is Shadow ==> state.name() == "shadow",
        state is Active ==> state.name() == "active",
        state is Blocked ==> state.name() == "blocked",
        state is Quarantined ==> state.name() == "quarantined",
{
}

/// A snapshot is loaded for a target that is free, or that this pipeline and relation own as an
/// active table under the same or an older fence, unless it has that very generation and
/// fingerprint already.
pub proof fn law_which_targets_are_loaded(
    record: ManagedTableRecord,
    plan: SnapshotTargetPlan,
    ownership: SnapshotOwnership,
)
    ensures
        target_loadable(RelationState::Vacant, plan, ownership),
        !target_loadable(RelationState::ManagedObjectMissing(record), plan, ownership),
        target_loadable(RelationState::Managed(record), plan, ownership) <==> {
            &&& record.pipeline_id == ownership.fence.pipeline_id
            &&& record.source_relation_id == plan.source_relation_id
            &&& record.fencing_token <= ownership.fence.fencing_token
            &&& record.state is Active
            &&& record.table_generation != plan.source_generation || record.schema_fingerprint@
                != ownership.schema_fingerprint@
        },
{
}

/// An existing shadow is rebuilt exactly where this pipeline and relation own it as a shadow and it
/// is either of the same group, generation and fingerprint under no newer fence, or of another group
/// under an older fence. Without one there is nothing to rebuild.
pub proof fn law_which_shadows_are_rebuilt(
    record: ManagedTableRecord,
    plan: SnapshotTargetPlan,
    ownership: SnapshotOwnership,
)
    ensures
        shadow_verdict(RelationState::Vacant, plan, ownership) is Absent,
        shadow_verdict(RelationState::ManagedObjectMissing(record), plan, ownership) is Refused,
        !(shadow_verdict(RelationState::Managed(record), plan, ownership) is Absent),
        shadow_verdict(RelationState::Managed(record), plan, ownership) is Rebuild <==> {
            &&& record.pipeline_id == ownership.fence.pipeline_id
            &&& record.source_relation_id == plan.source_relation_id
            &&& record.state is Shadow
            &&& {
                ||| {
                    &&& record.snapshot_group_id == Some(ownership.snapshot_group_id)
                    &&& record.fencing_token <= ownership.fence.fencing_token
                    &&& record.table_generation == plan.source_generation
                    &&& record.schema_fingerprint@ == ownership.schema_fingerprint@
                }
                ||| {
                    &&& record.snapshot_group_id != Some(ownership.snapshot_group_id)
                    &&& record.fencing_token < ownership.fence.fencing_token
                }
            }
        },
{
}

/// A record is that of a manifest table exactly where group, relation, generation and fingerprint
/// are the same.
pub proof fn law_when_a_record_is_of_its_group(
    record: ManagedTableRecord,
    table: SnapshotActivationTable,
    group: Uuid,
)
    ensures
        activation_matches(record, table, group) <==> {
            &&& record.snapshot_group_id == Some(group)
            &&& record.source_relation_id == table.source_relation_id
            &&& record.table_generation == table.table_generation
            &&& record.schema_fingerprint@ == table.schema_fingerprint@
        },
        identity_matches(record, record.pipeline_id, record.source_relation_id),
        forall|pipeline: PipelineId, relation: u32|
            #[trigger] identity_matches(record, pipeline, relation) ==> pipeline
                == record.pipeline_id && relation == record.source_relation_id,
{
}

/// A stored row has a meaning exactly where its relation, generation and state do.
pub proof fn law_which_managed_rows_have_a_meaning(row: ManagedTableRow)
    ensures
        managed_row_fault(row) is None <==> {
            &&& 0 <= row.source_relation_id <= u32::MAX
            &&& row.table_generation >= 0
            &&& ManagedTableState::named(row.state@) is Some
        },
{
}

/// A shadow is filled by a COPY of its own quoted name and of each of its columns in order, in the
/// text format without a header, with tabs between the fields and `\N` for NULL.
pub proof fn law_shadow_copy_text(shadow: TableView)
    ensures
        shadow_copy_text(shadow) == "COPY "@ + quoted_name(shadow.target) + " ("@ + crate::text::joined(
            Seq::new(shadow.columns.len(), |i: int| quoted(shadow.columns[i].name)),
            ", "@,
        ) + ") FROM STDIN WITH (FORMAT text, HEADER false, DELIMITER E'\\t', NULL E'\\\\N')"@,
{
    reveal_strlit("");
    let names = column_names(shadow.columns);
    let bare = Seq::new(shadow.columns.len(), |i: int| quoted(shadow.columns[i].name));
    let plain = Seq::new(names.len(), |i: int| ""@ + quoted(names[i]) + ""@);
    assert forall|i: int| 0 <= i < names.len() implies plain[i] == bare[i] by {
        assert(""@ + quoted(names[i]) + ""@ =~= quoted(names[i]));
    }
    assert(plain =~= bare);
}

/// What is said of a relation: whether it exists and whether it is registered are told apart, and a
/// registered one comes with its record.
pub proof fn law_states_of_relations(
    record: ManagedTableRecord,
    vacant: RelationState,
    unmanaged: RelationState,
    missing: RelationState,
    managed: RelationState,
)
    requires
        call_ensures(relation_state, (false, None::<ManagedTableRecord>), vacant),
        call_ensures(relation_state, (true, None::<ManagedTableRecord>), unmanaged),
        call_ensures(relation_state, (false, Some(record)), missing),
        call_ensures(relation_state, (true, Some(record)), managed),
    ensures
        vacant is Vacant,
        unmanaged is Unmanaged,
        missing == RelationState::ManagedObjectMissing(record),
        managed == RelationState::Managed(record),
{
}

/// A load needs a positive token, a fingerprint and a group.
pub proof fn law_which_ownerships_are_valid(
    ownership: SnapshotOwnership,
    r: Result<(), SnapshotTargetError>,
)
    requires
        call_ensures(validate_ownership, (&ownership,), r),
    ensures
        r is Ok <==> {
            &&& ownership.fence.fencing_token > 0
            &&& ownership.schema_fingerprint@.len() > 0
            &&& ownership.snapshot_group_id.value != 0
        },
{
}

/// A new shadow is registered under its catalog identity for the relation and generation that it
/// was planned for.
pub proof fn law_how_shadows_are_registered(
    plan: SnapshotTargetPlan,
    relation_oid: i64,
    r: Result<ShadowRegistration, SnapshotTargetError>,
    missing: Result<ShadowRegistration, SnapshotTargetError>,
)
    requires
        call_ensures(shadow_registration, (&plan, Some(relation_oid)), r),
        call_ensures(shadow_registration, (&plan, None::<i64>), missing),
    ensures
        missing is Err,
        r is Ok <==> plan.source_generation <= i64::MAX,
        r matches Ok(registration) ==> {
            &&& registration.relation_oid == relation_oid
            &&& registration.source_relation_id as int == plan.source_relation_id as int
            &&& registration.table_generation as int == plan.source_generation as int
        },
{
}

/// A copy runs once and is committed with the rows that it counted: what is finished can be
/// committed and not started again, and what has not run can be started and not committed.
pub proof fn law_a_copy_runs_once(
    state: SnapshotCopyState,
    rows: u64,
    done: SnapshotCopyState,
    started: Result<(), SnapshotTargetError>,
    committed: Result<SnapshotApplyOutcome, SnapshotTargetError>,
)
    requires
        call_ensures(SnapshotCopyState::finished, (state, rows), done),
        call_ensures(SnapshotCopyState::check_start, (&done,), started),
        call_ensures(SnapshotCopyState::check_commit, (&done,), committed),
    ensures
        started == Err::<(), SnapshotTargetError>(SnapshotTargetError::CopyAlreadyCompleted),
        committed == Ok::<SnapshotApplyOutcome, SnapshotTargetError>(
            SnapshotApplyOutcome::Copied { rows },
        ),
{
}

/// A shadow is planned only beside its target: in the same schema and under another name.
pub proof fn law_where_shadows_are_planned(
    source: TableSchema,
    target: QualifiedName,
    shadow: QualifiedName,
    storage: TargetStorage,
    r: Result<SnapshotTargetPlan, SnapshotTargetError>,
)
    requires
        call_ensures(plan_snapshot_target_with_storage, (&source, target, shadow, storage), r),
    ensures
        target@ == shadow@ || target@.schema != shadow@.schema ==> r is Err,
        r matches Ok(plan) ==> {
            &&& plan.target@ == target@
            &&& plan.shadow.target@ == shadow@
            &&& plan.source_generation == source.generation
            &&& plan.source_relation_id == source.relation_id
        },
{
}

/// Why a target is not loaded is told truly: the error names the target, and what it says of its
/// owner, its fence or its state is so.
pub proof fn law_refused_targets(
    state: RelationState,
    record: ManagedTableRecord,
    plan: SnapshotTargetPlan,
    ownership: SnapshotOwnership,
    r: Result<(), SnapshotTargetError>,
)
    requires
        call_ensures(validate_target_for_load, (&state, &plan, &ownership), r),
        state matches RelationState::Managed(managed) ==> managed == record,
    ensures
        state is Vacant ==> r is Ok,
        state is Unmanaged ==> (r matches Err(SnapshotTargetError::ExistingUnmanagedTable(table))
            && table@ == plan.target@.text()),
        state is ManagedObjectMissing ==> (r matches Err(
            SnapshotTargetError::ManagedRelationMissing(table),
        ) && table@ == plan.target@.text()),
        r matches Err(SnapshotTargetError::ManagedByOtherPipeline { table, expected, actual }) ==> {
            &&& table@ == plan.target@.text()
            &&& expected == ownership.fence.pipeline_id
            &&& actual == record.pipeline_id
            &&& expected != actual
        },
        r matches Err(SnapshotTargetError::ManagedByOtherSource { table, expected, actual }) ==> {
            &&& table@ == plan.target@.text()
            &&& expected == plan.source_relation_id
            &&& actual == record.source_relation_id
            &&& expected != actual
        },
        r matches Err(SnapshotTargetError::ManagedByNewerFence { object, current, actual }) ==> {
            &&& object@ == plan.target@.text()
            &&& current == ownership.fence.fencing_token
            &&& actual == record.fencing_token
            &&& current < actual
        },
        r matches Err(SnapshotTargetError::UnexpectedManagedTableState { table, expected, actual })
            ==> {
            &&& table@ == plan.target@.text()
            &&& expected@ == "active"@
            &&& actual@ == record.state.name()@
            &&& record.state != ManagedTableState::Active
        },
        r matches Err(SnapshotTargetError::TargetAlreadyActive(table)) ==> {
            &&& table@ == plan.target@.text()
            &&& state is Managed
            &&& record.state == ManagedTableState::Active
            &&& record.pipeline_id == ownership.fence.pipeline_id
        },
        r matches Err(e) ==> {
            ||| e is ExistingUnmanagedTable
            ||| e is ManagedRelationMissing
            ||| e is ManagedByOtherPipeline
            ||| e is ManagedByOtherSource
            ||| e is ManagedByNewerFence
            ||| e is UnexpectedManagedTableState
            ||| e is TargetAlreadyActive
        },
{
}

/// Why a shadow is not rebuilt is told truly: the error names the shadow, and what it says of its
/// owner, its fence, its state, its group or its generation is so.
pub proof fn law_refused_shadows(
    state: RelationState,
    record: ManagedTableRecord,
    plan: SnapshotTargetPlan,
    ownership: SnapshotOwnership,
    r: Result<bool, SnapshotTargetError>,
)
    requires
        call_ensures(validate_shadow_for_rebuild, (&state, &plan, &ownership), r),
        state matches RelationState::Managed(managed) ==> managed == record,
    ensures
        state is Vacant <==> r == Ok::<bool, SnapshotTargetError>(false),
        state is Unmanaged ==> (r matches Err(SnapshotTargetError::ExistingUnmanagedTable(table))
            && table@ == plan.shadow.target@.text()),
        state is ManagedObjectMissing ==> (r matches Err(
            SnapshotTargetError::ManagedRelationMissing(table),
        ) && table@ == plan.shadow.target@.text()),
        r == Ok::<bool, SnapshotTargetError>(true) <==> {
            &&& state is Managed
            &&& record.pipeline_id == ownership.fence.pipeline_id
            &&& record.source_relation_id == plan.source_relation_id
            &&& record.state == ManagedTableState::Shadow
            &&& if record.snapshot_group_id == Some(ownership.snapshot_group_id) {
                &&& record.fencing_token <= ownership.fence.fencing_token
                &&& record.table_generation == plan.source_generation
                &&& record.schema_fingerprint@ == ownership.schema_fingerprint@
            } else {
                record.fencing_token < ownership.fence.fencing_token
            }
        },
        r matches Err(SnapshotTargetError::ManagedByOtherPipeline { table, expected, actual }) ==> {
            &&& table@ == plan.shadow.target@.text()
            &&& expected == ownership.fence.pipeline_id
            &&& actual == record.pipeline_id
            &&& expected != actual
        },
        r matches Err(SnapshotTargetError::ManagedByNewerFence { object, current, actual }) ==> {
            &&& object@ == plan.shadow.target@.text()
            &&& current == ownership.fence.fencing_token
            &&& actual == record.fencing_token
            &&& current < actual
        },
        r matches Err(SnapshotTargetError::UnexpectedManagedTableState { table, expected, actual })
            ==> {
            &&& table@ == plan.shadow.target@.text()
            &&& expected@ == "shadow"@
            &&& actual@ == record.state.name()@
            &&& record.state != ManagedTableState::Shadow
        },
        r matches Err(SnapshotTargetError::ShadowSnapshotGroupMismatch { table, expected, actual })
            ==> {
            &&& table@ == plan.shadow.target@.text()
            &&& expected == ownership.snapshot_group_id
            &&& actual == record.snapshot_group_id
            &&& Some(expected) != actual
        },
        r matches Err(SnapshotTargetError::ShadowGenerationMismatch { table, expected, actual })
            ==> {
            &&& table@ == plan.shadow.target@.text()
            &&& expected == plan.source_generation
            &&& actual == record.table_generation
            &&& expected != actual
        },
        r matches Err(SnapshotTargetError::ShadowFingerprintMismatch(table)) ==> {
            &&& table@ == plan.shadow.target@.text()
            &&& record.schema_fingerprint@ != ownership.schema_fingerprint@
        },
{
}

/// A record that is read from a row holds what the row holds.
pub proof fn law_records_hold_their_rows(
    table: QualifiedName,
    row: ManagedTableRow,
    r: Result<ManagedTableRecord, SnapshotTargetError>,
)
    requires
        call_ensures(managed_table_record_from_row, (&table, row), r),
    ensures
        r matches Ok(record) ==> {
            &&& record.pipeline_id.uuid == row.pipeline_id
            &&& record.snapshot_group_id == row.snapshot_group_id
            &&& record.relation_oid == row.relation_oid
            &&& record.source_relation_id as int == row.source_relation_id as int
            &&& record.table_generation as int == row.table_generation as int
            &&& record.schema_fingerprint@ == row.schema_fingerprint@
            &&& record.state.name()@ == row.state@
            &&& record.fencing_token == row.fencing_token
        },
{
}

/// The table of a plan that stands in a manifest is the planned one, under the given fingerprint.
pub proof fn law_the_table_of_a_plan(
    plan: SnapshotTargetPlan,
    schema_fingerprint: &str,
    r: SnapshotActivationTable,
)
    requires
        call_ensures(SnapshotTargetPlan::activation_table, (&plan, schema_fingerprint), r),
    ensures
        r.target@ == plan.target@,
        r.shadow@ == plan.shadow.target@,
        r.source_relation_id == plan.source_relation_id,
        r.table_generation == plan.source_generation,
        r.schema_fingerprint@ == schema_fingerprint@,
{
}

} // verus!
