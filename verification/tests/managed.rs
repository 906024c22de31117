use target_cloudberry::checkpoint::PipelineFence;
use target_cloudberry::ident::{PipelineId, Uuid};
use target_cloudberry::managed::{validate_and_order_identities, validate_input_identity, validate_relation_identity, validate_stored_identity, ManagedTableError, StoredManagedTableIdentity, TableApplyIdentity, LOAD_RELATION_OID_SQL, LOCK_MANAGED_TABLE_SQL};
use target_cloudberry::source::QualifiedName;
use target_cloudberry::managed::{judge_managed_row, judge_relation, ManagedTableRow, TableLock};

fn random_id() -> Uuid {
    Uuid::from_u128(uuid::Uuid::now_v7().as_u128())
}

fn random_pipeline() -> PipelineId {
    PipelineId::from_uuid(random_id())
}

fn fence() -> PipelineFence {
    PipelineFence {
        pipeline_id: random_pipeline(),
        topology_generation: 7,
        fencing_token: 11,
    }
}

fn identity(schema: &str, name: &str) -> TableApplyIdentity {
    TableApplyIdentity {
        target: QualifiedName::new(schema, name).unwrap(),
        source_relation_id: 42,
        table_generation: 7,
        schema_fingerprint: "sha256:abc".to_owned(),
    }
}

fn stored(fence: PipelineFence) -> StoredManagedTableIdentity {
    StoredManagedTableIdentity {
        pipeline_id: fence.pipeline_id,
        relation_oid: Some(1234),
        source_relation_id: 42,
        table_generation: 7,
        schema_fingerprint: "sha256:abc".to_owned(),
        state: "active".to_owned(),
        fencing_token: fence.fencing_token,
    }
}

#[test]
fn identities_are_sorted_and_duplicate_targets_fail_closed() {
    let identities = [identity("z", "b"), identity("a", "z"), identity("a", "a")];
    let identities = identities.iter().collect::<Vec<_>>();
    let ordered = validate_and_order_identities(&identities).unwrap();
    let names = ordered
        .iter()
        .map(|identity| identity.target.display())
        .collect::<Vec<_>>();
    assert_eq!(names, ["a.a", "a.z", "z.b"]);

    let duplicate = [identity("a", "same"), identity("a", "same")];
    let duplicate = duplicate.iter().collect::<Vec<_>>();
    assert!(matches!(
        validate_and_order_identities(&duplicate),
        Err(ManagedTableError::DuplicateTarget(table)) if table == "a.same"
    ));
}

#[test]
fn input_identity_rejects_values_target_metadata_cannot_store() {
    let mut value = identity("public", "items");
    value.source_relation_id = 0;
    assert!(matches!(
        validate_input_identity(&value),
        Err(ManagedTableError::InvalidSourceRelationId(_))
    ));
    value = identity("public", "items");
    value.schema_fingerprint.clear();
    assert!(matches!(
        validate_input_identity(&value),
        Err(ManagedTableError::InvalidSchemaFingerprint(_))
    ));
    value = identity("public", "items");
    value.table_generation = u64::MAX;
    assert!(matches!(
        validate_input_identity(&value),
        Err(ManagedTableError::GenerationOutOfRange { .. })
    ));
}

#[test]
fn active_identity_requires_every_persisted_field() {
    let fence = fence();
    let expected = identity("public", "items");
    let current = stored(fence);
    assert_eq!(
        validate_stored_identity(fence, &expected, &current).unwrap(),
        1234
    );

    let mut changed = current.clone();
    changed.pipeline_id = random_pipeline();
    assert!(matches!(
        validate_stored_identity(fence, &expected, &changed),
        Err(ManagedTableError::PipelineMismatch { .. })
    ));
    changed = current.clone();
    changed.source_relation_id += 1;
    assert!(matches!(
        validate_stored_identity(fence, &expected, &changed),
        Err(ManagedTableError::SourceRelationMismatch { .. })
    ));
    changed = current.clone();
    changed.table_generation += 1;
    assert!(matches!(
        validate_stored_identity(fence, &expected, &changed),
        Err(ManagedTableError::GenerationMismatch { .. })
    ));
    changed = current.clone();
    changed.schema_fingerprint.push_str("-changed");
    assert!(matches!(
        validate_stored_identity(fence, &expected, &changed),
        Err(ManagedTableError::SchemaFingerprintMismatch(_))
    ));
    changed = current.clone();
    changed.state = "blocked".to_owned();
    assert!(matches!(
        validate_stored_identity(fence, &expected, &changed),
        Err(ManagedTableError::StateMismatch { .. })
    ));
    changed = current.clone();
    changed.relation_oid = None;
    assert!(matches!(
        validate_stored_identity(fence, &expected, &changed),
        Err(ManagedTableError::MissingRelationIdentity(_))
    ));
}

#[test]
fn older_table_fence_is_adoptable_but_newer_fence_is_rejected() {
    let fence = fence();
    let expected = identity("public", "items");
    let mut current = stored(fence);
    current.fencing_token -= 1;
    assert!(validate_stored_identity(fence, &expected, &current).is_ok());

    current.fencing_token = fence.fencing_token + 1;
    assert!(matches!(
        validate_stored_identity(fence, &expected, &current),
        Err(ManagedTableError::NewerFence {
            current: 11,
            actual: 12,
            ..
        })
    ));
}

#[test]
fn physical_relation_oid_must_match_after_the_table_lock() {
    let table = QualifiedName::new("public", "items").unwrap();
    assert!(validate_relation_identity(&table, 42, 42).is_ok());
    assert!(matches!(
        validate_relation_identity(&table, 42, 43),
        Err(ManagedTableError::RelationIdentityMismatch {
            expected: 42,
            actual: 43,
            ..
        })
    ));
}

#[test]
fn sql_locks_metadata_and_filters_catalog_identity() {
    assert!(LOCK_MANAGED_TABLE_SQL.contains("target_schema = $1"));
    assert!(LOCK_MANAGED_TABLE_SQL.contains("target_table = $2"));
    assert!(LOCK_MANAGED_TABLE_SQL.trim_end().ends_with("FOR UPDATE"));
    assert!(LOAD_RELATION_OID_SQL.contains("c.oid::bigint"));
    assert!(LOAD_RELATION_OID_SQL.contains("c.relkind IN ('r', 'p')"));
}

fn managed_row(fence: PipelineFence) -> ManagedTableRow {
    ManagedTableRow {
        pipeline_id: fence.pipeline_id.as_uuid(),
        relation_oid: Some(1234),
        source_relation_id: 42,
        table_generation: 7,
        schema_fingerprint: "sha256:abc".to_owned(),
        state: "active".to_owned(),
        fencing_token: fence.fencing_token,
    }
}

#[test]
fn a_managed_table_is_locked_by_its_quoted_name() {
    let fence = fence();
    let expected = identity("public", "it\"ems");
    assert_eq!(
        judge_managed_row(fence, &expected, Some(managed_row(fence))),
        Ok(TableLock {
            lock_sql: "LOCK TABLE \"public\".\"it\"\"ems\" IN ROW EXCLUSIVE MODE".to_owned(),
            relation_oid: 1234,
        })
    );
    assert_eq!(
        judge_managed_row(fence, &expected, None),
        Err(ManagedTableError::MissingMetadata("public.it\"ems".to_owned()))
    );
    let mut spoilt = managed_row(fence);
    spoilt.source_relation_id = -1;
    assert_eq!(
        judge_managed_row(fence, &expected, Some(spoilt)),
        Err(ManagedTableError::InvalidPersistedValue {
            table: "public.it\"ems".to_owned(),
            field: "source_relation_id",
            value: "-1".to_owned()
        })
    );
}

#[test]
fn the_physical_table_is_the_registered_one() {
    let table = QualifiedName::new("public", "items").unwrap();
    assert_eq!(judge_relation(&table, 5, Some(5)), Ok(()));
    assert_eq!(
        judge_relation(&table, 5, None),
        Err(ManagedTableError::PhysicalRelationMissing("public.items".to_owned()))
    );
    assert_eq!(
        judge_relation(&table, 5, Some(6)),
        Err(ManagedTableError::RelationIdentityMismatch {
            table: "public.items".to_owned(),
            expected: 5,
            actual: 6
        })
    );
}
