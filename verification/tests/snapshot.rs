use target_cloudberry::checkpoint::PipelineFence;
use target_cloudberry::ident::{PipelineId, Uuid};
use target_cloudberry::snapshot::types::{classify_prerequisite_type, plan_enum_evolution, EnumAlteration, ManagedTypeAction, ManagedTypeRecord};
use target_cloudberry::snapshot::{database_generation, plan_snapshot_target, plan_snapshot_target_with_storage, validate_ownership, validate_shadow_for_rebuild, validate_target_for_load, ManagedTableRecord, ManagedTableState, RelationState, SnapshotOwnership, SnapshotTargetError};
use target_cloudberry::source::{ColumnSchema, GeneratedColumn, IdentityColumn, PgType, PgTypeKind, QualifiedName, ReplicaIdentity, TableKind, TableSchema};
use target_cloudberry::storage::TargetStorage;
use target_cloudberry::schema::{plan_type, UserTypePlan};
use target_cloudberry::snapshot::manifest::{SnapshotGroupStatus, StoredSnapshotGroup};
use target_cloudberry::snapshot::progress::{
    bind_progress, initial_progress, SnapshotPageApplyOutcome, SnapshotProgressIdentity,
    SNAPSHOT_PROGRESS_VERSION,
};
use target_cloudberry::snapshot::types::{
    definition_checksum, desired_labels, judge_prerequisite, reconcile_prerequisite_type,
    require_enum_kind,
};
use target_cloudberry::snapshot::{
    create_schema_sql, drop_table_sql, ensure_one_metadata_row, managed_table_record_from_row,
    relation_state, shadow_registration, ManagedTableRow, NoopSnapshotPageCommitObserver,
    SnapshotApplyMode, SnapshotApplyOutcome, SnapshotCopyState, SnapshotPageCommitObserver,
    SnapshotActivationRequest, SnapshotPageLoader, SnapshotTargetPlan,
};
use target_cloudberry::sql::SqlRenderError;

fn random_id() -> Uuid {
    Uuid::from_u128(uuid::Uuid::now_v7().as_u128())
}

fn random_pipeline() -> PipelineId {
    PipelineId::from_uuid(random_id())
}

fn column(attnum: i16, name: &str, kind: PgTypeKind, pk: Option<u16>) -> ColumnSchema {
    ColumnSchema {
        attnum,
        name: name.to_owned(),
        data_type: PgType {
            oid: u32::try_from(attnum).unwrap(),
            name: QualifiedName::new("pg_catalog", name).unwrap(),
            kind,
        },
        nullable: pk.is_none(),
        primary_key_ordinal: pk,
        generated: GeneratedColumn::Never,
        identity: IdentityColumn::Never,
        collation: None,
    }
}

fn table() -> TableSchema {
    TableSchema {
        relation_id: 42,
        generation: 7,
        name: QualifiedName::new("source", "items").unwrap(),
        kind: TableKind::Ordinary,
        replica_identity: ReplicaIdentity::Default,
        columns: vec![
            column(1, "id", PgTypeKind::Int8, Some(1)),
            column(2, "payload", PgTypeKind::Text, None),
            column(3, "raw", PgTypeKind::Bytea, None),
        ],
        distribution_key: Vec::new(),
        partition_key: Vec::new(),
    }
}

#[test]
fn plans_a_distinct_typed_shadow_and_explicit_text_copy() {
    let plan = plan_snapshot_target(
        &table(),
        QualifiedName::new("target", "items").unwrap(),
        QualifiedName::new("target", "items_shadow").unwrap(),
    )
    .unwrap();
    assert_eq!(plan.target.display(), "target.items");
    assert_eq!(plan.shadow.target.display(), "target.items_shadow");
    assert!(plan.shadow.create_sql.contains("\"id\" bigint"));
    assert!(plan.shadow.create_sql.contains("\"raw\" bytea"));
    assert!(
        plan.copy_sql
            .starts_with("COPY \"target\".\"items_shadow\" (\"id\", \"payload\", \"raw\")")
    );
    assert!(plan.copy_sql.contains("FORMAT text"));
    assert!(plan.copy_sql.contains("DELIMITER E'\\t'"));
    assert!(plan.copy_sql.contains("NULL E'\\\\N'"));
    assert!(!plan.copy_sql.contains('*'));
    assert_eq!(plan.source_relation_id, 42);
    assert_eq!(plan.source_generation, 7);
    assert_eq!(plan.shadow.storage, TargetStorage::AoColumn);
}

#[test]
fn shadow_keeps_the_explicit_business_storage_profile() {
    let plan = plan_snapshot_target_with_storage(
        &table(),
        QualifiedName::new("target", "items").unwrap(),
        QualifiedName::new("target", "items_shadow").unwrap(),
        TargetStorage::PaxExperimental,
    )
    .unwrap();
    assert_eq!(plan.shadow.storage, TargetStorage::PaxExperimental);
    assert!(plan.shadow.create_sql.contains("USING pax"));
}

#[test]
fn rejects_target_shadow_alias_cross_schema_and_invalid_ownership() {
    let name = QualifiedName::new("target", "items").unwrap();
    assert!(matches!(
        plan_snapshot_target(&table(), name.clone(), name),
        Err(SnapshotTargetError::TargetIsShadow)
    ));
    assert!(matches!(
        plan_snapshot_target(
            &table(),
            QualifiedName::new("target", "items").unwrap(),
            QualifiedName::new("temporary", "items_shadow").unwrap(),
        ),
        Err(SnapshotTargetError::CrossSchemaShadowUnsupported { .. })
    ));
    let mut ownership = SnapshotOwnership {
        fence: PipelineFence {
            pipeline_id: random_pipeline(),
            topology_generation: 1,
            fencing_token: 1,
        },
        snapshot_group_id: Uuid::from_u128(1),
        schema_fingerprint: String::new(),
    };
    assert!(matches!(
        validate_ownership(&ownership),
        Err(SnapshotTargetError::InvalidOwnership)
    ));
    ownership.schema_fingerprint = "sha256:abc".to_owned();
    ownership.fence.fencing_token = 0;
    assert!(matches!(
        validate_ownership(&ownership),
        Err(SnapshotTargetError::InvalidOwnership)
    ));
    assert!(matches!(
        database_generation(u64::MAX),
        Err(SnapshotTargetError::GenerationOutOfRange(u64::MAX))
    ));
}

#[test]
fn committed_shadow_is_rebuilt_only_with_exact_ownership() {
    let plan = plan_snapshot_target(
        &table(),
        QualifiedName::new("target", "items").unwrap(),
        QualifiedName::new("target", "items_shadow").unwrap(),
    )
    .unwrap();
    let ownership = SnapshotOwnership {
        fence: PipelineFence {
            pipeline_id: random_pipeline(),
            topology_generation: 1,
            fencing_token: 2,
        },
        snapshot_group_id: Uuid::from_u128(1),
        schema_fingerprint: "sha256:abc".to_owned(),
    };
    let record = ManagedTableRecord {
        pipeline_id: ownership.fence.pipeline_id,
        snapshot_group_id: Some(ownership.snapshot_group_id),
        relation_oid: None,
        source_relation_id: 42,
        table_generation: 7,
        schema_fingerprint: ownership.schema_fingerprint.clone(),
        state: ManagedTableState::Shadow,
        fencing_token: 1,
    };
    assert!(
        validate_shadow_for_rebuild(&RelationState::Managed(record.clone()), &plan, &ownership)
            .unwrap()
    );

    let mut stale_group = record.clone();
    stale_group.snapshot_group_id = Some(Uuid::from_u128(2));
    assert!(
        validate_shadow_for_rebuild(&RelationState::Managed(stale_group), &plan, &ownership)
            .unwrap()
    );

    let mut concurrent_group = record.clone();
    concurrent_group.snapshot_group_id = Some(Uuid::from_u128(2));
    concurrent_group.fencing_token = ownership.fence.fencing_token;
    assert!(matches!(
        validate_shadow_for_rebuild(
            &RelationState::Managed(concurrent_group),
            &plan,
            &ownership
        ),
        Err(SnapshotTargetError::ShadowSnapshotGroupMismatch { .. })
    ));

    let mut newer_fence = record.clone();
    newer_fence.fencing_token = ownership.fence.fencing_token + 1;
    assert!(matches!(
        validate_shadow_for_rebuild(&RelationState::Managed(newer_fence), &plan, &ownership),
        Err(SnapshotTargetError::ManagedByNewerFence {
            current: 2,
            actual: 3,
            ..
        })
    ));

    let mut wrong = record;
    wrong.schema_fingerprint.push_str("-different");
    assert!(matches!(
        validate_shadow_for_rebuild(&RelationState::Managed(wrong), &plan, &ownership),
        Err(SnapshotTargetError::ShadowFingerprintMismatch(_))
    ));

    let active = ManagedTableRecord {
        pipeline_id: ownership.fence.pipeline_id,
        snapshot_group_id: Some(ownership.snapshot_group_id),
        relation_oid: None,
        source_relation_id: 42,
        table_generation: 7,
        schema_fingerprint: ownership.schema_fingerprint.clone(),
        state: ManagedTableState::Active,
        fencing_token: 2,
    };
    assert!(matches!(
        validate_target_for_load(&RelationState::Managed(active), &plan, &ownership),
        Err(SnapshotTargetError::TargetAlreadyActive(_))
    ));
}

#[test]
fn managed_user_type_reuse_requires_pipeline_and_definition_match() {
    let name = QualifiedName::new("target", "status").unwrap();
    let pipeline_id = random_pipeline();
    let checksum = vec![1, 2, 3];
    let record = ManagedTypeRecord {
        pipeline_id,
        definition_checksum: checksum.clone(),
        fencing_token: 1,
    };
    assert_eq!(
        classify_prerequisite_type(&name, false, None, pipeline_id, 2, &checksum).unwrap(),
        ManagedTypeAction::Create
    );
    assert_eq!(
        classify_prerequisite_type(&name, true, Some(&record), pipeline_id, 2, &checksum)
            .unwrap(),
        ManagedTypeAction::Reuse
    );
    assert!(matches!(
        classify_prerequisite_type(&name, true, Some(&record), random_pipeline(), 2, &checksum),
        Err(SnapshotTargetError::PrerequisiteTypeManagedByOtherPipeline { .. })
    ));
    assert!(matches!(
        classify_prerequisite_type(&name, true, Some(&record), pipeline_id, 2, &[9]),
        Ok(ManagedTypeAction::Reconcile)
    ));
    assert!(matches!(
        classify_prerequisite_type(&name, true, None, pipeline_id, 2, &checksum),
        Err(SnapshotTargetError::ExistingPrerequisiteType(_))
    ));

    let mut newer_fence = record;
    newer_fence.fencing_token = 3;
    assert!(matches!(
        classify_prerequisite_type(&name, true, Some(&newer_fence), pipeline_id, 2, &checksum),
        Err(SnapshotTargetError::ManagedByNewerFence {
            current: 2,
            actual: 3,
            ..
        })
    ));
}

#[test]
fn enum_evolution_adds_labels_without_reordering_existing_values() {
    let existing = strings(&["new", "done"]);
    let desired = strings(&["queued", "new", "running", "done", "archived"]);
    assert_eq!(
        plan_enum_evolution(&existing, &desired).unwrap(),
        vec![
            EnumAlteration::AddBefore {
                label: "queued".into(),
                before: "new".into(),
            },
            EnumAlteration::AddBefore {
                label: "running".into(),
                before: "done".into(),
            },
            EnumAlteration::Append {
                label: "archived".into(),
            },
        ]
    );
}

#[test]
fn enum_evolution_supports_unambiguous_positional_renames() {
    assert_eq!(
        plan_enum_evolution(&strings(&["new", "done"]), &strings(&["ready", "closed"]))
            .unwrap(),
        vec![
            EnumAlteration::Rename {
                from: "new".into(),
                to: "ready".into(),
            },
            EnumAlteration::Rename {
                from: "done".into(),
                to: "closed".into(),
            },
        ]
    );
}

#[test]
fn enum_evolution_rejects_removal_reorder_and_mixed_changes() {
    assert!(
        plan_enum_evolution(&strings(&["new", "done"]), &strings(&["done", "new"])).is_err()
    );
    assert!(plan_enum_evolution(&strings(&["new", "done"]), &strings(&["new"])).is_err());
    assert!(
        plan_enum_evolution(
            &strings(&["new", "done"]),
            &strings(&["ready", "running", "done"])
        )
        .is_err()
    );
}

fn strings(values: &[&str]) -> Vec<String> {
    values.iter().map(|value| (*value).to_owned()).collect()
}

fn items_plan() -> SnapshotTargetPlan {
    plan_snapshot_target(
        &table(),
        QualifiedName::new("target", "items").unwrap(),
        QualifiedName::new("target", "items_shadow").unwrap(),
    )
    .unwrap()
}

fn owner() -> SnapshotOwnership {
    SnapshotOwnership {
        fence: PipelineFence {
            pipeline_id: PipelineId::from_uuid(Uuid::from_u128(4)),
            topology_generation: 1,
            fencing_token: 2,
        },
        snapshot_group_id: Uuid::from_u128(1),
        schema_fingerprint: "sha256:abc".to_owned(),
    }
}

fn managed_row() -> ManagedTableRow {
    ManagedTableRow {
        pipeline_id: Uuid::from_u128(4),
        snapshot_group_id: Some(Uuid::from_u128(1)),
        relation_oid: Some(16_384),
        source_relation_id: 42,
        table_generation: 7,
        schema_fingerprint: "sha256:abc".to_owned(),
        state: "shadow".to_owned(),
        fencing_token: 2,
    }
}

fn managed_record() -> ManagedTableRecord {
    let shadow = QualifiedName::new("target", "items_shadow").unwrap();
    managed_table_record_from_row(&shadow, managed_row()).unwrap()
}

fn status_type(labels: &[&str]) -> UserTypePlan {
    plan_type(
        &PgType {
            oid: 90_001,
            name: QualifiedName::new("source", "status").unwrap(),
            kind: PgTypeKind::Enum { labels: strings(labels) },
        },
        "target",
    )
    .unwrap()
    .prerequisites
    .remove(0)
}

#[test]
fn snapshot_objects_are_named_in_quotes() {
    assert_eq!(create_schema_sql("we ird").unwrap(), "CREATE SCHEMA IF NOT EXISTS \"we ird\"");
    assert_eq!(
        create_schema_sql(""),
        Err(SnapshotTargetError::Sql(SqlRenderError::EmptyIdentifier))
    );
    assert_eq!(
        drop_table_sql(&QualifiedName::new("target", "items").unwrap()).unwrap(),
        "DROP TABLE \"target\".\"items\""
    );
    let registration = shadow_registration(&items_plan(), Some(16_384)).unwrap();
    assert_eq!(registration.relation_oid, 16_384);
    assert_eq!(registration.source_relation_id, 42);
    assert_eq!(registration.table_generation, 7);
    assert_eq!(
        shadow_registration(&items_plan(), None),
        Err(SnapshotTargetError::ManagedRelationMissing("target.items_shadow".to_owned()))
    );
    assert_eq!(ensure_one_metadata_row(1), Ok(()));
    assert_eq!(
        ensure_one_metadata_row(0),
        Err(SnapshotTargetError::UnexpectedMetadataWriteCount(0))
    );
}

#[test]
fn a_relation_is_described_by_its_record_and_its_object() {
    assert_eq!(relation_state(false, None), RelationState::Vacant);
    assert_eq!(relation_state(true, None), RelationState::Unmanaged);
    assert_eq!(
        relation_state(false, Some(managed_record())),
        RelationState::ManagedObjectMissing(managed_record())
    );
    assert_eq!(
        relation_state(true, Some(managed_record())),
        RelationState::Managed(managed_record())
    );
    let shadow = QualifiedName::new("target", "items_shadow").unwrap();
    let faults: [(fn(&mut ManagedTableRow), &str, &str); 3] = [
        (|row| row.source_relation_id = -1, "source_relation_id", "-1"),
        (|row| row.table_generation = -7, "table_generation", "-7"),
        (|row| row.state = "lost".to_owned(), "state", "lost"),
    ];
    for (spoil, field, value) in faults {
        let mut spoilt = managed_row();
        spoil(&mut spoilt);
        assert_eq!(
            managed_table_record_from_row(&shadow, spoilt),
            Err(SnapshotTargetError::InvalidManagedTableValue {
                table: "target.items_shadow".to_owned(),
                field,
                value: value.to_owned()
            })
        );
    }
}

#[test]
fn foreign_and_incomplete_relations_are_never_loaded_over() {
    let plan = items_plan();
    let owner = owner();
    let shadow = |state| validate_shadow_for_rebuild(&state, &plan, &owner);
    assert_eq!(shadow(RelationState::Vacant), Ok(false));
    assert_eq!(
        shadow(RelationState::Unmanaged),
        Err(SnapshotTargetError::ExistingUnmanagedTable("target.items_shadow".to_owned()))
    );
    assert_eq!(
        shadow(RelationState::ManagedObjectMissing(managed_record())),
        Err(SnapshotTargetError::ManagedRelationMissing("target.items_shadow".to_owned()))
    );
    let changed = |change: fn(&mut ManagedTableRecord)| {
        let mut record = managed_record();
        change(&mut record);
        shadow(RelationState::Managed(record))
    };
    assert!(matches!(
        changed(|record| record.pipeline_id = PipelineId::from_uuid(Uuid::from_u128(5))),
        Err(SnapshotTargetError::ManagedByOtherPipeline { .. })
    ));
    assert_eq!(
        changed(|record| record.source_relation_id = 43),
        Err(SnapshotTargetError::ManagedByOtherSource {
            table: "target.items_shadow".to_owned(),
            expected: 42,
            actual: 43
        })
    );
    assert_eq!(
        changed(|record| record.state = ManagedTableState::Blocked),
        Err(SnapshotTargetError::UnexpectedManagedTableState {
            table: "target.items_shadow".to_owned(),
            expected: "shadow",
            actual: "blocked".to_owned()
        })
    );
    assert_eq!(
        changed(|record| record.table_generation = 6),
        Err(SnapshotTargetError::ShadowGenerationMismatch {
            table: "target.items_shadow".to_owned(),
            expected: 7,
            actual: 6
        })
    );
}

#[test]
fn prerequisite_types_are_created_reused_or_evolved() {
    let prerequisite = status_type(&["new", "done"]);
    let owner = owner();
    let checksum = definition_checksum(&prerequisite.create_sql);
    assert_eq!(
        judge_prerequisite(&prerequisite, false, None, owner.fence),
        Ok((ManagedTypeAction::Create, checksum))
    );
    let mut managed = ManagedTypeRecord {
        pipeline_id: owner.fence.pipeline_id,
        definition_checksum: checksum.to_vec(),
        fencing_token: 2,
    };
    assert_eq!(
        judge_prerequisite(&prerequisite, true, Some(&managed), owner.fence),
        Ok((ManagedTypeAction::Reuse, checksum))
    );
    assert_eq!(
        judge_prerequisite(&prerequisite, false, Some(&managed), owner.fence),
        Err(SnapshotTargetError::ManagedPrerequisiteTypeMissing("target.status".to_owned()))
    );
    managed.definition_checksum[0] ^= 1;
    assert_eq!(
        judge_prerequisite(&prerequisite, true, Some(&managed), owner.fence),
        Ok((ManagedTypeAction::Reconcile, checksum))
    );

    assert_eq!(*desired_labels(&prerequisite).unwrap(), strings(&["new", "done"]));
    assert_eq!(require_enum_kind(&prerequisite.name, "e"), Ok(()));
    assert_eq!(
        require_enum_kind(&prerequisite.name, "d"),
        Err(SnapshotTargetError::UnsupportedPrerequisiteTypeEvolution {
            name: "target.status".to_owned(),
            reason: "managed object is PostgreSQL type kind `d`, expected enum".to_owned()
        })
    );
    assert_eq!(
        reconcile_prerequisite_type(
            &prerequisite.name,
            &strings(&["new"]),
            &strings(&["it's", "new", "done"])
        )
        .unwrap(),
        [
            "ALTER TYPE \"target\".\"status\" ADD VALUE E'it''s' BEFORE E'new'",
            "ALTER TYPE \"target\".\"status\" ADD VALUE E'done'",
        ]
    );
    assert_eq!(
        reconcile_prerequisite_type(&prerequisite.name, &strings(&["old"]), &strings(&["new"]))
            .unwrap(),
        ["ALTER TYPE \"target\".\"status\" RENAME VALUE E'old' TO E'new'"]
    );
    assert!(matches!(
        reconcile_prerequisite_type(
            &prerequisite.name,
            &strings(&["a", "b"]),
            &strings(&["b", "a"])
        ),
        Err(SnapshotTargetError::UnsupportedPrerequisiteTypeEvolution { .. })
    ));
}

#[test]
fn a_copy_runs_once_and_before_its_commit() {
    let state = SnapshotCopyState::new();
    assert_eq!(state.mode, SnapshotApplyMode::Copy);
    assert_eq!(state.check_start(), Ok(()));
    assert_eq!(state.check_commit(), Err(SnapshotTargetError::CopyNotCompleted));
    let finished = state.finished(12);
    assert_eq!(finished.check_start(), Err(SnapshotTargetError::CopyAlreadyCompleted));
    assert_eq!(finished.check_commit(), Ok(SnapshotApplyOutcome::Copied { rows: 12 }));
}

#[test]
fn a_loader_follows_the_committed_cursor() {
    let owner = owner();
    let mut progress = initial_progress(SnapshotProgressIdentity {
        fence: owner.fence,
        snapshot_group_id: owner.snapshot_group_id,
        target: QualifiedName::new("target", "items").unwrap(),
        shadow: QualifiedName::new("target", "items_shadow").unwrap(),
        shadow_relation_oid: 16_384,
        source_relation_id: 42,
        table_generation: 7,
        schema_fingerprint: owner.schema_fingerprint.clone(),
        primary_key_arity: 1,
    });
    let mut loader = SnapshotPageLoader::resume(items_plan(), &owner, &progress);
    assert!(loader.cursor().is_empty());
    assert!(!loader.is_completed());
    assert_eq!(*loader.plan(), items_plan());
    assert_eq!(*loader.ownership(), owner);

    progress.cursor = strings(&["10"]);
    progress.completed = true;
    let outcome = SnapshotPageApplyOutcome::Applied(progress.clone());
    assert_eq!(
        loader.settle(&outcome, Err("lost".to_owned())),
        Err(SnapshotTargetError::PageCommitObserver("lost".to_owned()))
    );
    assert!(loader.cursor().is_empty());
    let observed = NoopSnapshotPageCommitObserver.observe_after_commit();
    assert_eq!(loader.settle(&outcome, observed), Ok(()));
    assert_eq!(loader.cursor(), ["10"]);
    assert!(loader.is_completed());
    assert_eq!(*outcome.progress(), progress);
}

#[test]
fn progress_is_bound_to_the_registered_shadow() {
    let plan = plan_snapshot_target(
        &table(),
        QualifiedName::new("target", "items").unwrap(),
        QualifiedName::new("target", "items_shadow").unwrap(),
    )
    .unwrap();
    let ownership = SnapshotOwnership {
        fence: PipelineFence {
            pipeline_id: PipelineId::from_uuid(Uuid::from_u128(1)),
            topology_generation: 3,
            fencing_token: 7,
        },
        snapshot_group_id: Uuid::from_u128(2),
        schema_fingerprint: "sha256:items".to_owned(),
    };
    let mut stored = StoredSnapshotGroup {
        state: SnapshotGroupStatus::Loading,
        snapshot_progress_version: SNAPSHOT_PROGRESS_VERSION,
        request: SnapshotActivationRequest {
            fence: ownership.fence,
            snapshot_group_id: ownership.snapshot_group_id,
            tables: vec![plan.activation_table("sha256:items")],
            initial_checkpoints: vec![],
        },
    };
    let record = ManagedTableRecord {
        pipeline_id: ownership.fence.pipeline_id,
        snapshot_group_id: Some(ownership.snapshot_group_id),
        relation_oid: Some(16_384),
        source_relation_id: 42,
        table_generation: 7,
        schema_fingerprint: "sha256:items".to_owned(),
        state: ManagedTableState::Shadow,
        fencing_token: 7,
    };
    let shadow = RelationState::Managed(record.clone());
    let vacant = RelationState::Vacant;
    let identity =
        bind_progress(&stored, &plan, &ownership, &vacant, &shadow, Some(16_384)).unwrap();
    assert_eq!(identity.shadow_relation_oid, 16_384);
    assert_eq!(identity.primary_key_arity, 1);
    assert_eq!(identity.target, plan.target);
    assert_eq!(
        bind_progress(&stored, &plan, &ownership, &vacant, &shadow, None).unwrap_err(),
        SnapshotTargetError::RelationIdentityMismatch {
            table: "target.items_shadow".to_owned(),
            expected: 16_384,
            actual: 0,
        }
    );
    assert_eq!(
        bind_progress(&stored, &plan, &ownership, &vacant, &vacant, None).unwrap_err(),
        SnapshotTargetError::IncompleteShadow("target.items_shadow".to_owned())
    );
    assert_eq!(
        bind_progress(&stored, &plan, &ownership, &RelationState::Unmanaged, &shadow, None)
            .unwrap_err(),
        SnapshotTargetError::ExistingUnmanagedTable("target.items".to_owned())
    );
    stored.state = SnapshotGroupStatus::Active;
    assert_eq!(
        bind_progress(&stored, &plan, &ownership, &vacant, &shadow, Some(16_384)).unwrap_err(),
        SnapshotTargetError::SnapshotGroupAlreadyActive(Uuid::from_u128(2))
    );
    stored.snapshot_progress_version = 0;
    assert_eq!(
        bind_progress(&stored, &plan, &ownership, &vacant, &shadow, Some(16_384)).unwrap_err(),
        SnapshotTargetError::UnsupportedSnapshotProgressVersion {
            group: Uuid::from_u128(2),
            version: 0,
        }
    );
}
