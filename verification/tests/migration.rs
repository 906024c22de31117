use sha2::{Digest, Sha256};
use target_cloudberry::migration::{migrations, TARGET_V1_SQL, TARGET_V2_SQL, TARGET_V3_SQL, TARGET_V4_SQL, TARGET_V5_SQL, TARGET_V6_SQL, TARGET_V7_SQL, TARGET_V8_SQL};
use target_cloudberry::migration::{
    judge_checksum, judge_migration, migration_checksum, MigrationError,
};

#[test]
fn target_metadata_uses_heap_and_pk_colocated_distribution() {
    assert!(TARGET_V1_SQL.contains("CREATE TABLE IF NOT EXISTS pg2cb_meta.pipeline_state"));
    assert!(TARGET_V1_SQL.contains("applied_lsn pg_lsn NOT NULL"));
    assert!(TARGET_V1_SQL.contains("system_identifier numeric(20, 0)"));
    assert!(TARGET_V1_SQL.contains("USING heap"));
    assert!(
        TARGET_V1_SQL.contains("DISTRIBUTED BY (pipeline_id, topology_generation, node_id)")
    );
    assert!(TARGET_V2_SQL.contains("CREATE TABLE IF NOT EXISTS pg2cb_meta.managed_types"));
    assert!(TARGET_V2_SQL.contains(
        "definition_checksum bytea NOT NULL CHECK (octet_length(definition_checksum) = 32)"
    ));
    assert!(TARGET_V2_SQL.contains("DISTRIBUTED BY (type_schema, type_name)"));
    assert!(TARGET_V3_SQL.contains("ADD COLUMN IF NOT EXISTS snapshot_group_id uuid"));
    assert!(TARGET_V3_SQL.contains("CREATE TABLE IF NOT EXISTS pg2cb_meta.snapshot_groups"));
    assert!(
        TARGET_V3_SQL.contains("CREATE TABLE IF NOT EXISTS pg2cb_meta.snapshot_group_tables")
    );
    assert!(
        TARGET_V3_SQL.contains("CREATE TABLE IF NOT EXISTS pg2cb_meta.snapshot_group_nodes")
    );
    assert_eq!(
        TARGET_V3_SQL
            .matches("DISTRIBUTED BY (snapshot_group_id)")
            .count(),
        3
    );
    assert!(
        TARGET_V4_SQL
            .contains("CREATE TABLE IF NOT EXISTS pg2cb_meta.snapshot_reconciliation_log")
    );
    assert!(TARGET_V4_SQL.contains("reason IN ('replaced', 'stale')"));
    assert!(TARGET_V4_SQL.contains("DISTRIBUTED BY (snapshot_group_id)"));
    assert!(TARGET_V5_SQL.contains("ADD COLUMN IF NOT EXISTS relation_oid bigint"));
    assert!(TARGET_V5_SQL.contains("ADD COLUMN IF NOT EXISTS purged_at timestamptz"));
    assert!(TARGET_V5_SQL.contains("quarantine_relation_oid bigint"));
    assert!(TARGET_V5_SQL.contains("previous_fencing_token bigint"));
    assert!(TARGET_V5_SQL.contains("purged_by_fencing_token bigint"));
    assert!(TARGET_V5_SQL.contains("snapshot_reconciliation_gc_idx"));
    assert!(
        TARGET_V6_SQL
            .contains("CREATE TABLE IF NOT EXISTS pg2cb_meta.transaction_chunk_progress")
    );
    assert!(
        TARGET_V6_SQL
            .contains("PRIMARY KEY (pipeline_id, topology_generation, node_id, end_lsn)")
    );
    assert!(TARGET_V6_SQL.contains("system_identifier numeric(20, 0)"));
    assert!(TARGET_V6_SQL.contains("manifest_version integer NOT NULL"));
    assert!(TARGET_V6_SQL.contains("record_count bigint NOT NULL"));
    assert!(
        TARGET_V6_SQL.contains(
            "manifest_digest bytea NOT NULL CHECK (octet_length(manifest_digest) = 32)"
        )
    );
    assert!(
        TARGET_V6_SQL
            .contains("CREATE TABLE IF NOT EXISTS pg2cb_meta.transaction_committed_chunks")
    );
    assert!(
        TARGET_V6_SQL
            .contains("chunk_digest bytea NOT NULL CHECK (octet_length(chunk_digest) = 32)")
    );
    assert_eq!(
        TARGET_V6_SQL
            .matches("DISTRIBUTED BY (pipeline_id, topology_generation, node_id)")
            .count(),
        2
    );
    assert!(
        TARGET_V7_SQL.contains("CREATE TABLE IF NOT EXISTS pg2cb_meta.snapshot_table_progress")
    );
    assert!(TARGET_V7_SQL.contains(
        "ADD COLUMN IF NOT EXISTS snapshot_progress_version integer NOT NULL DEFAULT 0"
    ));
    assert!(
        TARGET_V7_SQL.contains("PRIMARY KEY (snapshot_group_id, target_schema, target_table)")
    );
    assert!(TARGET_V7_SQL.contains("shadow_schema text NOT NULL"));
    assert!(TARGET_V7_SQL.contains("shadow_table text NOT NULL"));
    assert!(TARGET_V7_SQL.contains("shadow_relation_oid bigint NOT NULL"));
    assert!(TARGET_V7_SQL.contains("UNIQUE (snapshot_group_id, shadow_relation_oid)"));
    assert!(TARGET_V7_SQL.contains("cursor_format_version integer NOT NULL"));
    assert!(TARGET_V7_SQL.contains("primary_key_arity integer NOT NULL"));
    assert!(TARGET_V7_SQL.contains("cursor_values text[] NOT NULL"));
    assert!(TARGET_V7_SQL.contains("cursor_digest bytea NOT NULL"));
    assert!(TARGET_V7_SQL.contains("completed boolean NOT NULL DEFAULT false"));
    assert!(TARGET_V7_SQL.contains("pages_copied bigint NOT NULL DEFAULT 0"));
    assert!(TARGET_V7_SQL.contains("rows_copied bigint NOT NULL DEFAULT 0"));
    assert!(TARGET_V7_SQL.contains("DISTRIBUTED BY (snapshot_group_id)"));
}

#[test]
fn migration_versions_and_checksums_are_stable() {
    let migrations = migrations();
    assert_eq!(migrations.len(), 8);
    assert_eq!(migrations[0].version, 1);
    assert_eq!(migrations[1].version, 2);
    assert_eq!(migrations[2].version, 3);
    assert_eq!(migrations[3].version, 4);
    assert_eq!(migrations[4].version, 5);
    assert_eq!(migrations[5].version, 6);
    assert_eq!(migrations[6].version, 7);
    assert_eq!(migrations[7].version, 8);
    assert_eq!(
        Sha256::digest(migrations[0].sql),
        Sha256::digest(TARGET_V1_SQL)
    );
    assert_eq!(
        Sha256::digest(migrations[1].sql),
        Sha256::digest(TARGET_V2_SQL)
    );
    assert_eq!(
        Sha256::digest(migrations[2].sql),
        Sha256::digest(TARGET_V3_SQL)
    );
    assert_eq!(
        Sha256::digest(migrations[3].sql),
        Sha256::digest(TARGET_V4_SQL)
    );
    assert_eq!(
        Sha256::digest(migrations[4].sql),
        Sha256::digest(TARGET_V5_SQL)
    );
    assert_eq!(
        Sha256::digest(migrations[5].sql),
        Sha256::digest(TARGET_V6_SQL)
    );
    assert_eq!(
        Sha256::digest(migrations[6].sql),
        Sha256::digest(TARGET_V7_SQL)
    );
    assert_eq!(
        Sha256::digest(migrations[7].sql),
        Sha256::digest(TARGET_V8_SQL)
    );
}

#[test]
fn v8_defines_the_schema_event_ledger() {
    assert!(TARGET_V8_SQL.contains("CREATE TABLE IF NOT EXISTS pg2cb_meta.schema_events"));
    assert!(TARGET_V8_SQL.contains("event_id uuid NOT NULL"));
    assert!(TARGET_V8_SQL.contains("source_lsn pg_lsn NOT NULL"));
    assert!(TARGET_V8_SQL.contains("source_xid bigint NOT NULL"));
    assert!(TARGET_V8_SQL.contains("transitions jsonb NOT NULL"));
    assert!(TARGET_V8_SQL.contains("state text NOT NULL DEFAULT 'pending'"));
    assert!(TARGET_V8_SQL.contains("PRIMARY KEY (pipeline_id, source_lsn, source_xid)"));
    // No standalone UNIQUE(event_id): Cloudberry requires the distribution key
    // to be a subset of every unique constraint, and event_id is not a lookup key.
    assert!(!TARGET_V8_SQL.contains("UNIQUE (event_id)"));
    assert!(TARGET_V8_SQL.contains("DISTRIBUTED BY (pipeline_id)"));
    assert!(TARGET_V8_SQL.contains("schema_events_pending_idx"));
}

#[test]
fn migrations_run_once_and_never_change() {
    for (index, migration) in target_cloudberry::migration::migrations().iter().enumerate() {
        assert_eq!(migration.version, index as i64 + 1);
        let checksum: [u8; 32] = Sha256::digest(migration.sql.as_bytes()).into();
        assert_eq!(migration_checksum(migration), checksum);
        assert_eq!(judge_migration(migration, None), Ok(Some(checksum)));
        assert_eq!(judge_migration(migration, Some(&checksum.to_vec())), Ok(None));
        assert_eq!(
            judge_migration(migration, Some(&vec![0; 32])),
            Err(MigrationError::ChecksumMismatch { version: migration.version })
        );
    }
    assert_eq!(
        judge_checksum(3, Some(&vec![1, 2]), &[1, 2, 3]),
        Err(MigrationError::ChecksumMismatch { version: 3 })
    );
}
