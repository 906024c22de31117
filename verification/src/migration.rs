//! Target metadata migrations.

use crate::digest::{sha256, sha256_digest};
use crate::snapshot::types::same_octets;
use vstd::prelude::*;
use vstd::utf8::encode_utf8;

verus! {

pub const TARGET_METADATA_SCHEMA: &'static str = "pg2cb_meta";

/// The advisory lock under which migrations are applied.
pub const MIGRATION_LOCK_ID: i64 = 0x5047_3243_4254;

/// Takes the advisory lock `$1` until the transaction ends.
pub const MIGRATION_LOCK_SQL: &'static str = "SELECT pg_advisory_xact_lock($1)";

/// Reads the checksum of the applied migration `$1`.
pub const APPLIED_CHECKSUM_SQL: &'static str =
    "SELECT checksum FROM pg2cb_meta.schema_migrations WHERE version = $1";

/// Records an applied migration.
pub const RECORD_MIGRATION_SQL: &'static str =
    "INSERT INTO pg2cb_meta.schema_migrations (version, name, checksum) VALUES ($1, $2, $3)";

pub const TARGET_V1_SQL: &'static str = r#"
CREATE SCHEMA IF NOT EXISTS pg2cb_meta;

CREATE TABLE IF NOT EXISTS pg2cb_meta.schema_migrations (
    version bigint PRIMARY KEY,
    name text NOT NULL,
    checksum bytea NOT NULL,
    applied_at timestamptz NOT NULL DEFAULT clock_timestamp()
)
USING heap
DISTRIBUTED BY (version);

CREATE TABLE IF NOT EXISTS pg2cb_meta.pipeline_state (
    pipeline_id uuid PRIMARY KEY,
    topology_generation bigint NOT NULL CHECK (topology_generation >= 0),
    fencing_token bigint NOT NULL CHECK (fencing_token > 0),
    updated_at timestamptz NOT NULL DEFAULT clock_timestamp()
)
USING heap
DISTRIBUTED BY (pipeline_id);

CREATE TABLE IF NOT EXISTS pg2cb_meta.node_checkpoints (
    pipeline_id uuid NOT NULL,
    topology_generation bigint NOT NULL CHECK (topology_generation >= 0),
    node_id integer NOT NULL,
    system_identifier numeric(20, 0) NOT NULL CHECK (system_identifier >= 0),
    timeline bigint NOT NULL CHECK (timeline > 0 AND timeline <= 4294967295),
    slot_name text NOT NULL CHECK (slot_name <> ''),
    applied_lsn pg_lsn NOT NULL,
    fencing_token bigint NOT NULL CHECK (fencing_token > 0),
    updated_at timestamptz NOT NULL DEFAULT clock_timestamp(),
    PRIMARY KEY (pipeline_id, topology_generation, node_id)
)
USING heap
DISTRIBUTED BY (pipeline_id, topology_generation, node_id);

CREATE TABLE IF NOT EXISTS pg2cb_meta.managed_tables (
    target_schema text NOT NULL,
    target_table text NOT NULL,
    pipeline_id uuid NOT NULL,
    source_relation_id bigint NOT NULL CHECK (source_relation_id > 0),
    table_generation bigint NOT NULL CHECK (table_generation >= 0),
    schema_fingerprint text NOT NULL CHECK (schema_fingerprint <> ''),
    state text NOT NULL CHECK (state IN ('shadow', 'active', 'blocked', 'quarantined')),
    fencing_token bigint NOT NULL CHECK (fencing_token > 0),
    updated_at timestamptz NOT NULL DEFAULT clock_timestamp(),
    PRIMARY KEY (target_schema, target_table)
)
USING heap
DISTRIBUTED BY (target_schema, target_table);
"#;

pub const TARGET_V2_SQL: &'static str = r#"
CREATE TABLE IF NOT EXISTS pg2cb_meta.managed_types (
    type_schema text NOT NULL,
    type_name text NOT NULL,
    pipeline_id uuid NOT NULL,
    definition_checksum bytea NOT NULL CHECK (octet_length(definition_checksum) = 32),
    fencing_token bigint NOT NULL CHECK (fencing_token > 0),
    updated_at timestamptz NOT NULL DEFAULT clock_timestamp(),
    PRIMARY KEY (type_schema, type_name)
)
USING heap
DISTRIBUTED BY (type_schema, type_name);
"#;

pub const TARGET_V3_SQL: &'static str = r#"
ALTER TABLE pg2cb_meta.managed_tables
    ADD COLUMN IF NOT EXISTS snapshot_group_id uuid;

CREATE TABLE IF NOT EXISTS pg2cb_meta.snapshot_groups (
    snapshot_group_id uuid PRIMARY KEY,
    pipeline_id uuid NOT NULL,
    topology_generation bigint NOT NULL CHECK (topology_generation >= 0),
    fencing_token bigint NOT NULL CHECK (fencing_token > 0),
    state text NOT NULL CHECK (state IN ('loading', 'active')),
    table_count bigint NOT NULL CHECK (table_count > 0),
    node_count bigint NOT NULL CHECK (node_count > 0),
    manifest_checksum bytea NOT NULL CHECK (octet_length(manifest_checksum) = 32),
    created_at timestamptz NOT NULL DEFAULT clock_timestamp(),
    updated_at timestamptz NOT NULL DEFAULT clock_timestamp(),
    activated_at timestamptz
)
USING heap
DISTRIBUTED BY (snapshot_group_id);

CREATE INDEX IF NOT EXISTS snapshot_groups_pipeline_generation_idx
    ON pg2cb_meta.snapshot_groups (pipeline_id, topology_generation);

CREATE TABLE IF NOT EXISTS pg2cb_meta.snapshot_group_tables (
    snapshot_group_id uuid NOT NULL,
    target_schema text NOT NULL,
    target_table text NOT NULL,
    shadow_schema text NOT NULL,
    shadow_table text NOT NULL,
    source_relation_id bigint NOT NULL CHECK (source_relation_id > 0),
    table_generation bigint NOT NULL CHECK (table_generation >= 0),
    schema_fingerprint text NOT NULL CHECK (schema_fingerprint <> ''),
    PRIMARY KEY (snapshot_group_id, target_schema, target_table),
    UNIQUE (snapshot_group_id, shadow_schema, shadow_table),
    UNIQUE (snapshot_group_id, source_relation_id)
)
USING heap
DISTRIBUTED BY (snapshot_group_id);

CREATE TABLE IF NOT EXISTS pg2cb_meta.snapshot_group_nodes (
    snapshot_group_id uuid NOT NULL,
    node_id integer NOT NULL,
    system_identifier numeric(20, 0) NOT NULL CHECK (system_identifier >= 0),
    timeline bigint NOT NULL CHECK (timeline > 0 AND timeline <= 4294967295),
    slot_name text NOT NULL CHECK (slot_name <> ''),
    consistent_lsn pg_lsn NOT NULL,
    PRIMARY KEY (snapshot_group_id, node_id)
)
USING heap
DISTRIBUTED BY (snapshot_group_id);
"#;

pub const TARGET_V4_SQL: &'static str = r#"
CREATE TABLE IF NOT EXISTS pg2cb_meta.snapshot_reconciliation_log (
    snapshot_group_id uuid NOT NULL,
    original_schema text NOT NULL,
    original_table text NOT NULL,
    quarantine_schema text NOT NULL,
    quarantine_table text NOT NULL,
    pipeline_id uuid NOT NULL,
    topology_generation bigint NOT NULL CHECK (topology_generation >= 0),
    source_relation_id bigint NOT NULL CHECK (source_relation_id > 0),
    previous_snapshot_group_id uuid,
    table_generation bigint NOT NULL CHECK (table_generation >= 0),
    schema_fingerprint text NOT NULL CHECK (schema_fingerprint <> ''),
    reason text NOT NULL CHECK (reason IN ('replaced', 'stale')),
    fencing_token bigint NOT NULL CHECK (fencing_token > 0),
    recorded_at timestamptz NOT NULL DEFAULT clock_timestamp(),
    PRIMARY KEY (snapshot_group_id, original_schema, original_table)
)
USING heap
DISTRIBUTED BY (snapshot_group_id);
"#;

/// Metadata needed to make destructive cleanup identity-safe.
///
/// `relation_oid` is intentionally nullable for databases upgraded from V4.  Cleanup refuses
/// those legacy rows until a new, identity-bearing activation records the object.  The
/// reconciliation audit row is retained after a quarantine is dropped and records who performed
/// the purge.
pub const TARGET_V5_SQL: &'static str = r#"
ALTER TABLE pg2cb_meta.managed_tables
    ADD COLUMN IF NOT EXISTS relation_oid bigint;

ALTER TABLE pg2cb_meta.snapshot_reconciliation_log
    ADD COLUMN IF NOT EXISTS quarantine_relation_oid bigint,
    ADD COLUMN IF NOT EXISTS previous_fencing_token bigint,
    ADD COLUMN IF NOT EXISTS purged_at timestamptz,
    ADD COLUMN IF NOT EXISTS purged_by_fencing_token bigint;

CREATE INDEX IF NOT EXISTS managed_tables_pipeline_group_state_idx
    ON pg2cb_meta.managed_tables (pipeline_id, snapshot_group_id, state);

CREATE INDEX IF NOT EXISTS snapshot_reconciliation_gc_idx
    ON pg2cb_meta.snapshot_reconciliation_log (pipeline_id, recorded_at, snapshot_group_id);

CREATE INDEX IF NOT EXISTS snapshot_groups_loading_idx
    ON pg2cb_meta.snapshot_groups (pipeline_id, topology_generation, state, created_at);
"#;

/// Durable progress for source transactions applied in bounded target chunks.
///
/// The progress row is the immutable source transaction manifest plus the first sequence that has
/// not committed on the target.  Individual chunk identities are retained separately so a replay
/// can distinguish an exact committed chunk from a request whose boundaries or bytes changed.
pub const TARGET_V6_SQL: &'static str = r#"
CREATE TABLE IF NOT EXISTS pg2cb_meta.transaction_chunk_progress (
    pipeline_id uuid NOT NULL,
    topology_generation bigint NOT NULL CHECK (topology_generation >= 0),
    node_id integer NOT NULL,
    end_lsn pg_lsn NOT NULL,
    system_identifier numeric(20, 0) NOT NULL CHECK (system_identifier >= 0),
    timeline bigint NOT NULL CHECK (timeline > 0 AND timeline <= 4294967295),
    slot_name text NOT NULL CHECK (slot_name <> ''),
    xid bigint NOT NULL CHECK (xid > 0 AND xid <= 4294967295),
    manifest_version integer NOT NULL CHECK (manifest_version > 0 AND manifest_version <= 65535),
    record_count bigint NOT NULL CHECK (record_count >= 0),
    manifest_digest bytea NOT NULL CHECK (octet_length(manifest_digest) = 32),
    next_seq bigint NOT NULL CHECK (next_seq >= 0 AND next_seq <= record_count),
    fencing_token bigint NOT NULL CHECK (fencing_token > 0),
    created_at timestamptz NOT NULL DEFAULT clock_timestamp(),
    updated_at timestamptz NOT NULL DEFAULT clock_timestamp(),
    PRIMARY KEY (pipeline_id, topology_generation, node_id, end_lsn)
)
USING heap
DISTRIBUTED BY (pipeline_id, topology_generation, node_id);

CREATE TABLE IF NOT EXISTS pg2cb_meta.transaction_committed_chunks (
    pipeline_id uuid NOT NULL,
    topology_generation bigint NOT NULL CHECK (topology_generation >= 0),
    node_id integer NOT NULL,
    end_lsn pg_lsn NOT NULL,
    start_seq bigint NOT NULL CHECK (start_seq >= 0),
    end_seq bigint NOT NULL CHECK (end_seq > start_seq),
    chunk_digest bytea NOT NULL CHECK (octet_length(chunk_digest) = 32),
    fencing_token bigint NOT NULL CHECK (fencing_token > 0),
    committed_at timestamptz NOT NULL DEFAULT clock_timestamp(),
    PRIMARY KEY (pipeline_id, topology_generation, node_id, end_lsn, start_seq)
)
USING heap
DISTRIBUTED BY (pipeline_id, topology_generation, node_id);
"#;

/// Durable per-table progress for bounded snapshot COPY pages.
///
/// The cursor contains the source primary-key values in canonical text form and is advanced in
/// the same target transaction as the corresponding shadow-table COPY.  Distribution by the
/// snapshot group keeps group-wide activation checks colocated while remaining a prefix of every
/// unique key.
pub const TARGET_V7_SQL: &'static str = r#"
ALTER TABLE pg2cb_meta.snapshot_groups
    ADD COLUMN IF NOT EXISTS snapshot_progress_version integer NOT NULL DEFAULT 0
        CHECK (snapshot_progress_version IN (0, 1));

CREATE TABLE IF NOT EXISTS pg2cb_meta.snapshot_table_progress (
    snapshot_group_id uuid NOT NULL,
    target_schema text NOT NULL,
    target_table text NOT NULL,
    shadow_schema text NOT NULL,
    shadow_table text NOT NULL,
    pipeline_id uuid NOT NULL,
    topology_generation bigint NOT NULL CHECK (topology_generation >= 0),
    shadow_relation_oid bigint NOT NULL CHECK (shadow_relation_oid > 0),
    source_relation_id bigint NOT NULL CHECK (source_relation_id > 0),
    table_generation bigint NOT NULL CHECK (table_generation >= 0),
    schema_fingerprint text NOT NULL CHECK (schema_fingerprint <> ''),
    cursor_format_version integer NOT NULL CHECK (cursor_format_version = 1),
    primary_key_arity integer NOT NULL CHECK (primary_key_arity >= 0),
    cursor_values text[] NOT NULL DEFAULT ARRAY[]::text[]
        CHECK (array_position(cursor_values, NULL) IS NULL)
        CHECK (cardinality(cursor_values) = 0
            OR cardinality(cursor_values) = primary_key_arity),
    cursor_digest bytea NOT NULL CHECK (octet_length(cursor_digest) = 32),
    completed boolean NOT NULL DEFAULT false,
    pages_copied bigint NOT NULL DEFAULT 0 CHECK (pages_copied >= 0),
    rows_copied bigint NOT NULL DEFAULT 0 CHECK (rows_copied >= 0),
    fencing_token bigint NOT NULL CHECK (fencing_token > 0),
    created_at timestamptz NOT NULL DEFAULT clock_timestamp(),
    updated_at timestamptz NOT NULL DEFAULT clock_timestamp(),
    completed_at timestamptz,
    PRIMARY KEY (snapshot_group_id, target_schema, target_table),
    UNIQUE (snapshot_group_id, shadow_relation_oid),
    CHECK ((completed AND completed_at IS NOT NULL)
        OR (NOT completed AND completed_at IS NULL))
)
USING heap
DISTRIBUTED BY (snapshot_group_id);

CREATE INDEX IF NOT EXISTS snapshot_table_progress_pipeline_generation_idx
    ON pg2cb_meta.snapshot_table_progress (
        pipeline_id, topology_generation, snapshot_group_id, completed
    );
"#;

/// Durable schema-transition ledger for Phase 2 tight DDL follow.
///
/// Each row records one source DDL event that touches a managed relation, keyed
/// by the source LSN and transaction id so replayed WAL is idempotent. The
/// engine persists an event as `pending` before starting a table transition and
/// advances it through `in_transition` to `completed`/`failed`; a restart scans
/// unfinished source-transaction rows and resumes them in source-LSN order. `transitions` holds the
/// serialized per-table before/after descriptors so recovery does not depend on
/// re-reading the source catalog after the fact. Distribution by pipeline keeps
/// a pipeline's ordered event history colocated.
pub const TARGET_V8_SQL: &'static str = r#"
CREATE TABLE IF NOT EXISTS pg2cb_meta.schema_events (
    event_id uuid NOT NULL,
    pipeline_id uuid NOT NULL,
    topology_generation bigint NOT NULL CHECK (topology_generation >= 0),
    source_lsn pg_lsn NOT NULL,
    source_xid bigint NOT NULL CHECK (source_xid >= 0),
    command_tag text NOT NULL CHECK (command_tag <> ''),
    schema_fingerprint text NOT NULL,
    transitions jsonb NOT NULL DEFAULT '[]'::jsonb,
    state text NOT NULL DEFAULT 'pending'
        CHECK (state IN ('pending', 'in_transition', 'completed', 'failed')),
    failure_reason text,
    fencing_token bigint NOT NULL CHECK (fencing_token > 0),
    emitted_at timestamptz NOT NULL DEFAULT clock_timestamp(),
    processed_at timestamptz,
    -- Cloudberry requires the distribution key to be a subset of every UNIQUE/PK
    -- constraint. The real idempotency key is (pipeline_id, source_lsn, source_xid)
    -- and pipeline_id distributes a pipeline's ordered history to one segment.
    -- event_id is a UUIDv7 used only as an opaque record handle (never a lookup
    -- or FK), so it does not carry a separate UNIQUE constraint.
    PRIMARY KEY (pipeline_id, source_lsn, source_xid),
    CHECK ((state IN ('completed', 'failed')) = (processed_at IS NOT NULL)),
    CHECK ((state = 'failed') OR (failure_reason IS NULL))
)
USING heap
DISTRIBUTED BY (pipeline_id);

CREATE INDEX IF NOT EXISTS schema_events_pending_idx
    ON pg2cb_meta.schema_events (pipeline_id, topology_generation, source_lsn)
    WHERE state IN ('pending', 'in_transition');
"#;

pub const BOOTSTRAP_SQL: &'static str = r#"
CREATE SCHEMA IF NOT EXISTS pg2cb_meta;
CREATE TABLE IF NOT EXISTS pg2cb_meta.schema_migrations (
    version bigint PRIMARY KEY,
    name text NOT NULL,
    checksum bytea NOT NULL,
    applied_at timestamptz NOT NULL DEFAULT clock_timestamp()
)
USING heap
DISTRIBUTED BY (version);
"#;

#[derive(Debug, Clone, Copy, PartialEq, Eq)]
pub struct Migration {
    pub version: i64,
    pub name: &'static str,
    pub sql: &'static str,
}

#[derive(Debug, PartialEq, Eq)]
pub enum MigrationError {
    /// The checksum does not match the applied migration.
    ChecksumMismatch { version: i64 },
}

/// The migrations, oldest first.
pub open spec fn all_migrations() -> Seq<Migration> {
    seq![
        Migration { version: 1, name: "initial_target_metadata", sql: TARGET_V1_SQL },
        Migration { version: 2, name: "managed_user_types", sql: TARGET_V2_SQL },
        Migration { version: 3, name: "snapshot_group_manifests", sql: TARGET_V3_SQL },
        Migration { version: 4, name: "snapshot_reconciliation_log", sql: TARGET_V4_SQL },
        Migration { version: 5, name: "identity_safe_snapshot_cleanup", sql: TARGET_V5_SQL },
        Migration { version: 6, name: "durable_transaction_chunk_ledger", sql: TARGET_V6_SQL },
        Migration { version: 7, name: "durable_snapshot_table_progress", sql: TARGET_V7_SQL },
        Migration { version: 8, name: "schema_event_ledger", sql: TARGET_V8_SQL },
    ]
}

/// The migrations in the order in which they are applied.
pub fn migrations() -> (r: Vec<Migration>)
    ensures
        r@ == all_migrations(),
{
    let mut list: Vec<Migration> = Vec::new();
    list.push(Migration { version: 1, name: "initial_target_metadata", sql: TARGET_V1_SQL });
    list.push(Migration { version: 2, name: "managed_user_types", sql: TARGET_V2_SQL });
    list.push(Migration { version: 3, name: "snapshot_group_manifests", sql: TARGET_V3_SQL });
    list.push(Migration { version: 4, name: "snapshot_reconciliation_log", sql: TARGET_V4_SQL });
    list.push(Migration { version: 5, name: "identity_safe_snapshot_cleanup", sql: TARGET_V5_SQL });
    list.push(
        Migration { version: 6, name: "durable_transaction_chunk_ledger", sql: TARGET_V6_SQL },
    );
    list.push(
        Migration { version: 7, name: "durable_snapshot_table_progress", sql: TARGET_V7_SQL },
    );
    list.push(Migration { version: 8, name: "schema_event_ledger", sql: TARGET_V8_SQL });
    proof {
        assert(list@ =~= all_migrations());
    }
    list
}

/// The digest that tells whether a migration is the applied one.
pub fn migration_checksum(migration: &Migration) -> (r: [u8; 32])
    ensures
        r@ == sha256(encode_utf8(migration.sql@)),
{
    sha256_digest(migration.sql.as_bytes())
}

/// Whether a migration has to be applied, given the checksum of the one that was applied under
/// its version and its own.
pub fn judge_checksum(version: i64, applied: Option<&Vec<u8>>, checksum: &[u8]) -> (r: Result<
    bool,
    MigrationError,
>)
    ensures
        match applied {
            None => r == Ok::<bool, MigrationError>(true),
            Some(stored) => if stored@ == checksum@ {
                r == Ok::<bool, MigrationError>(false)
            } else {
                r == Err::<bool, MigrationError>(MigrationError::ChecksumMismatch { version })
            },
        },
{
    match applied {
        None => Ok(true),
        Some(stored) => {
            if same_octets(stored.as_slice(), checksum) {
                Ok(false)
            } else {
                Err(MigrationError::ChecksumMismatch { version })
            }
        },
    }
}

/// Decides about one migration: its checksum where it has to be applied, nothing where it has
/// been applied already. A migration that changed after it was applied is refused.
pub fn judge_migration(migration: &Migration, applied: Option<&Vec<u8>>) -> (r: Result<
    Option<[u8; 32]>,
    MigrationError,
>)
    ensures
        match applied {
            None => r matches Ok(Some(checksum)) && checksum@ == sha256(
                encode_utf8(migration.sql@),
            ),
            Some(stored) => if stored@ == sha256(encode_utf8(migration.sql@)) {
                r == Ok::<Option<[u8; 32]>, MigrationError>(None)
            } else {
                r == Err::<Option<[u8; 32]>, MigrationError>(
                    MigrationError::ChecksumMismatch { version: migration.version },
                )
            },
        },
{
    let checksum = migration_checksum(migration);
    match judge_checksum(migration.version, applied, checksum.as_slice()) {
        Err(e) => Err(e),
        Ok(true) => Ok(Some(checksum)),
        Ok(false) => Ok(None),
    }
}

/// Migrations are numbered from one without a gap, in the order in which they are applied.
pub proof fn law_versions_have_no_gap(position: int)
    requires
        0 <= position < all_migrations().len(),
    ensures
        all_migrations()[position].version == position + 1,
{
}

/// A migration is applied exactly where none was applied under its version, is left alone where the
/// applied one has its checksum, and is refused where it has another.
pub proof fn law_when_a_migration_is_applied(
    migration: Migration,
    applied: Option<&Vec<u8>>,
    r: Result<Option<[u8; 32]>, MigrationError>,
)
    requires
        call_ensures(judge_migration, (&migration, applied), r),
    ensures
        ({
            let own = sha256(encode_utf8(migration.sql@));
            &&& applied is None ==> (r matches Ok(Some(checksum)) && checksum@ == own)
            &&& applied matches Some(stored) ==> {
                &&& stored@ == own ==> r == Ok::<Option<[u8; 32]>, MigrationError>(None)
                &&& stored@ != own ==> r == Err::<Option<[u8; 32]>, MigrationError>(
                    MigrationError::ChecksumMismatch { version: migration.version },
                )
            }
        }),
{
}

} // verus!
