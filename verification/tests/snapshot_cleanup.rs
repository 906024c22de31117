use target_cloudberry::checkpoint::PipelineFence;
use target_cloudberry::ident::{PipelineId, Uuid};
use target_cloudberry::snapshot::SnapshotTargetError;
use target_cloudberry::snapshot::cleanup::{validate_cleanup_request, validate_group_fence, QuarantineGcPolicy, Retention, SnapshotGroupCleanupRequest};
use target_cloudberry::checkpoint::{CheckpointError, CheckpointKey, NodeCheckpoint};
use target_cloudberry::lsn::PgLsn;
use target_cloudberry::snapshot::activation::quarantine_name;
use target_cloudberry::snapshot::cleanup::{
    check_quarantine_name, check_registered_shadow, check_single_record, ensure_manifest_removed,
    judge_cleanup_group, judge_cleanup_shadow, judge_purge, judge_quarantine, plan_cleanup,
    plan_quarantine_gc, QuarantineGcBatch,
    quarantine_record_from_row, require_fencing_token, stale_cleanup, validate_quarantine_record,
    validate_relation_identity, FoundRelation, QuarantineRecord, QuarantineRow, ShadowRow,
    StaleGroupRow,
};
use target_cloudberry::snapshot::progress::CompletedSnapshotTableIdentity;
use target_cloudberry::snapshot::manifest::{SnapshotGroupStatus, StoredSnapshotGroup};
use target_cloudberry::snapshot::{
    ManagedTableRecord, ManagedTableState, RelationState, SnapshotActivationRequest,
    SnapshotActivationTable,
};
use target_cloudberry::source::QualifiedName;

fn fence(generation: u64, token: i64) -> PipelineFence {
    PipelineFence {
        pipeline_id: PipelineId::from_uuid(Uuid::from_u128(1)),
        topology_generation: generation,
        fencing_token: token,
    }
}

#[test]
fn quarantine_gc_is_disabled_by_default_and_rejects_unsafe_limits() {
    assert_eq!(
        QuarantineGcPolicy::default().retention_micros().unwrap(),
        None
    );
    assert!(matches!(
        QuarantineGcPolicy::enabled(Retention { nanoseconds: 0 }, 1),
        Err(SnapshotTargetError::InvalidQuarantineRetention)
    ));
    assert!(matches!(
        QuarantineGcPolicy::enabled(Retention::from_secs(1), 0),
        Err(SnapshotTargetError::InvalidQuarantineBatchSize)
    ));
    assert_eq!(
        QuarantineGcPolicy::enabled(Retention::from_secs(30), 25)
            .unwrap()
            .retention_micros()
            .unwrap(),
        Some(30_000_000)
    );
}

#[test]
fn cleanup_authority_must_dominate_the_exact_group_fence() {
    let valid = SnapshotGroupCleanupRequest {
        current_fence: fence(3, 9),
        group_fence: fence(2, 8),
        snapshot_group_id: Uuid::from_u128(2),
    };
    assert!(validate_cleanup_request(valid).is_ok());

    let stale_authority = SnapshotGroupCleanupRequest {
        current_fence: fence(2, 7),
        ..valid
    };
    assert!(matches!(
        validate_cleanup_request(stale_authority),
        Err(SnapshotTargetError::InvalidSnapshotCleanupFence)
    ));
}

#[test]
fn cleanup_group_fence_comparison_is_field_exact() {
    let request = SnapshotGroupCleanupRequest {
        current_fence: fence(3, 9),
        group_fence: fence(2, 8),
        snapshot_group_id: Uuid::from_u128(2),
    };
    assert!(validate_group_fence(&request.group_fence, request).is_ok());
    assert!(matches!(
        validate_group_fence(&fence(2, 7), request),
        Err(SnapshotTargetError::SnapshotGroupFenceMismatch { .. })
    ));
}

fn name(table: &str) -> QualifiedName {
    QualifiedName::new("target", table).unwrap()
}

fn table() -> SnapshotActivationTable {
    SnapshotActivationTable {
        target: name("items"),
        shadow: name("items_shadow"),
        source_relation_id: 42,
        table_generation: 7,
        schema_fingerprint: "sha256:new".to_owned(),
    }
}

fn shadow_record() -> ManagedTableRecord {
    ManagedTableRecord {
        pipeline_id: fence(2, 8).pipeline_id,
        snapshot_group_id: Some(Uuid::from_u128(2)),
        relation_oid: Some(16_384),
        source_relation_id: 42,
        table_generation: 7,
        schema_fingerprint: "sha256:new".to_owned(),
        state: ManagedTableState::Shadow,
        fencing_token: 8,
    }
}

fn request() -> SnapshotGroupCleanupRequest {
    SnapshotGroupCleanupRequest {
        current_fence: fence(3, 9),
        group_fence: fence(2, 8),
        snapshot_group_id: Uuid::from_u128(2),
    }
}

fn quarantined() -> ManagedTableRecord {
    ManagedTableRecord {
        state: ManagedTableState::Quarantined,
        fencing_token: 9,
        ..shadow_record()
    }
}

fn quarantine_row() -> QuarantineRow {
    let previous = shadow_record();
    QuarantineRow {
        snapshot_group_id: Uuid::from_u128(5),
        original_schema: "target".to_owned(),
        original_table: "items".to_owned(),
        quarantine_schema: "target".to_owned(),
        quarantine_table: quarantine_name(&name("items"), &previous).unwrap().name,
        quarantine_relation_oid: Some(16_384),
        pipeline_id: Uuid::from_u128(1),
        topology_generation: 2,
        source_relation_id: 42,
        previous_snapshot_group_id: Some(Uuid::from_u128(2)),
        table_generation: 7,
        schema_fingerprint: "sha256:new".to_owned(),
        previous_fencing_token: Some(8),
        fencing_token: 9,
    }
}

fn quarantine_record() -> QuarantineRecord {
    quarantine_record_from_row(quarantine_row()).unwrap()
}

fn stored_group() -> StoredSnapshotGroup {
    let owner = fence(2, 8);
    StoredSnapshotGroup {
        state: SnapshotGroupStatus::Loading,
        snapshot_progress_version: 1,
        request: SnapshotActivationRequest {
            fence: owner,
            snapshot_group_id: Uuid::from_u128(2),
            tables: vec![table()],
            initial_checkpoints: vec![NodeCheckpoint {
                key: CheckpointKey {
                    pipeline_id: owner.pipeline_id,
                    topology_generation: 2,
                    node_id: 1,
                },
                system_identifier: 99,
                timeline: 1,
                slot_name: "pg2cb_slot".to_owned(),
                applied_lsn: PgLsn::new(100),
            }],
        },
    }
}

fn found(state: RelationState, oid: Option<i64>) -> FoundRelation {
    FoundRelation { state, oid }
}

fn shadow_row(table: &str) -> ShadowRow {
    ShadowRow { target_schema: "target".to_owned(), target_table: table.to_owned() }
}

#[test]
fn stale_groups_are_cleaned_under_the_current_fence() {
    let row = StaleGroupRow {
        snapshot_group_id: Uuid::from_u128(2),
        topology_generation: 2,
        fencing_token: 8,
    };
    assert_eq!(stale_cleanup(fence(3, 9), row), Ok(request()));
    assert_eq!(
        stale_cleanup(fence(3, 9), StaleGroupRow { topology_generation: -2, ..row }),
        Err(SnapshotTargetError::CorruptSnapshotGroupManifest(Uuid::from_u128(2)))
    );
    assert_eq!(require_fencing_token(fence(3, 9)), Ok(()));
    assert_eq!(
        require_fencing_token(fence(3, 0)),
        Err(SnapshotTargetError::Checkpoint(CheckpointError::InvalidFencingToken))
    );
}

#[test]
fn only_a_loading_group_is_cleaned() {
    let mut stored = stored_group();
    assert_eq!(judge_cleanup_group(&stored, request()), Ok(()));
    stored.state = SnapshotGroupStatus::Active;
    assert_eq!(
        judge_cleanup_group(&stored, request()),
        Err(SnapshotTargetError::SnapshotGroupNotLoading(Uuid::from_u128(2)))
    );
    assert_eq!(ensure_manifest_removed(Uuid::from_u128(2), 3, 3), Ok(()));
    assert_eq!(
        ensure_manifest_removed(Uuid::from_u128(2), 2, 3),
        Err(SnapshotTargetError::CorruptSnapshotGroupManifest(Uuid::from_u128(2)))
    );
}

#[test]
fn only_the_groups_own_shadows_are_dropped() {
    let group = Uuid::from_u128(2);
    let owner = fence(2, 8);
    let judge = |state| judge_cleanup_shadow(state, group, &owner, &table());
    assert_eq!(judge(RelationState::Vacant), Ok(None));
    assert_eq!(
        judge(RelationState::Managed(shadow_record())),
        Ok(Some(shadow_record()))
    );
    assert_eq!(
        judge(RelationState::Unmanaged),
        Err(SnapshotTargetError::ExistingUnmanagedTable("target.items_shadow".to_owned()))
    );
    assert_eq!(
        judge(RelationState::ManagedObjectMissing(shadow_record())),
        Err(SnapshotTargetError::ManagedRelationMissing("target.items_shadow".to_owned()))
    );
    let foreign = ManagedTableRecord {
        pipeline_id: PipelineId::from_uuid(Uuid::from_u128(9)),
        ..shadow_record()
    };
    assert!(matches!(
        judge(RelationState::Managed(foreign)),
        Err(SnapshotTargetError::ManagedByOtherPipeline { .. })
    ));
    let older = ManagedTableRecord { fencing_token: 7, ..shadow_record() };
    assert_eq!(
        judge(RelationState::Managed(older)),
        Err(SnapshotTargetError::SnapshotTableManifestMismatch {
            group,
            table: "target.items_shadow".to_owned()
        })
    );
    let unknown = ManagedTableRecord { relation_oid: None, ..shadow_record() };
    assert_eq!(
        judge(RelationState::Managed(unknown)),
        Err(SnapshotTargetError::MissingRelationIdentity("target.items_shadow".to_owned()))
    );
    assert_eq!(
        validate_relation_identity(&name("items_shadow"), &shadow_record(), Some(16_384)),
        Ok(16_384)
    );
    assert_eq!(
        validate_relation_identity(&name("items_shadow"), &shadow_record(), Some(5)),
        Err(SnapshotTargetError::RelationIdentityMismatch {
            table: "target.items_shadow".to_owned(),
            expected: 16_384,
            actual: 5
        })
    );
    assert_eq!(check_registered_shadow(&[table()], "target", "items_shadow"), Ok(()));
    assert_eq!(
        check_registered_shadow(&[table()], "target", "items"),
        Err(SnapshotTargetError::UnexpectedSnapshotShadow("target.items".to_owned()))
    );
}

#[test]
fn a_quarantined_table_is_recognised_by_its_record() {
    let record = quarantine_record();
    assert_eq!(validate_quarantine_record(&record, fence(3, 9)), Ok(()));
    assert_eq!(
        validate_quarantine_record(&record, fence(3, 8)),
        Err(SnapshotTargetError::InvalidSnapshotCleanupFence)
    );
    assert_eq!(check_quarantine_name(&record), Ok(()));
    let text = record.quarantine.display();
    assert_eq!(
        judge_quarantine(&record, RelationState::Managed(quarantined())),
        Ok(quarantined())
    );
    assert_eq!(
        judge_quarantine(&record, RelationState::Vacant),
        Err(SnapshotTargetError::MissingQuarantineMetadata(text.clone()))
    );
    assert_eq!(
        judge_quarantine(&record, RelationState::Managed(shadow_record())),
        Err(SnapshotTargetError::QuarantineMetadataMismatch(text.clone()))
    );
    let later = ManagedTableRecord { fencing_token: 10, ..quarantined() };
    assert_eq!(
        judge_quarantine(&record, RelationState::Managed(later)),
        Err(SnapshotTargetError::QuarantineMetadataMismatch(text.clone()))
    );
    assert_eq!(check_single_record(&record, 1), Ok(()));
    assert_eq!(
        check_single_record(&record, 2),
        Err(SnapshotTargetError::QuarantineRecordMismatch(text))
    );
    let mut renamed = quarantine_row();
    renamed.quarantine_table.push('x');
    let renamed = quarantine_record_from_row(renamed).unwrap();
    assert_eq!(
        check_quarantine_name(&renamed),
        Err(SnapshotTargetError::QuarantineRecordMismatch(renamed.quarantine.display()))
    );
}

#[test]
fn incomplete_quarantine_records_are_refused() {
    let text = quarantine_record().quarantine.display();
    let mut row = quarantine_row();
    row.quarantine_relation_oid = Some(0);
    assert_eq!(
        quarantine_record_from_row(row),
        Err(SnapshotTargetError::MissingRelationIdentity(text.clone()))
    );
    let faults: [fn(&mut QuarantineRow); 6] = [
        |row| row.previous_fencing_token = None,
        |row| row.snapshot_group_id = Uuid::nil(),
        |row| row.schema_fingerprint.clear(),
        |row| row.fencing_token = 0,
        |row| row.topology_generation = -1,
        |row| row.source_relation_id = -1,
    ];
    for spoil in faults {
        let mut spoilt = quarantine_row();
        spoil(&mut spoilt);
        assert_eq!(
            quarantine_record_from_row(spoilt),
            Err(SnapshotTargetError::QuarantineRecordMismatch(text.clone()))
        );
    }
}

#[test]
fn a_cleanup_drops_all_of_its_shadows_or_nothing() {
    let mut stored = stored_group();
    stored.request.tables.push(SnapshotActivationTable {
        target: name("late"),
        shadow: name("late_shadow"),
        ..table()
    });
    let own = found(RelationState::Managed(shadow_record()), Some(16_384));
    let vacant = found(RelationState::Vacant, None);
    let rows = [shadow_row("items_shadow")];
    let dropped =
        CompletedSnapshotTableIdentity { table: table(), shadow_relation_oid: 16_384 };
    assert_eq!(
        plan_cleanup(&stored, request(), &[own.clone(), vacant.clone()], &rows),
        Ok(vec![dropped])
    );
    assert_eq!(
        plan_cleanup(&stored, request(), &[vacant.clone(), vacant.clone()], &[]),
        Ok(vec![])
    );
    let unmanaged = found(RelationState::Unmanaged, Some(9));
    assert_eq!(
        plan_cleanup(&stored, request(), &[own.clone(), unmanaged], &rows),
        Err(SnapshotTargetError::ExistingUnmanagedTable(name("late_shadow").display()))
    );
    let recreated = found(RelationState::Managed(shadow_record()), Some(16_385));
    assert_eq!(
        plan_cleanup(&stored, request(), &[recreated, vacant.clone()], &rows),
        Err(SnapshotTargetError::RelationIdentityMismatch {
            table: name("items_shadow").display(),
            expected: 16_384,
            actual: 16_385,
        })
    );
    assert_eq!(
        plan_cleanup(
            &stored,
            request(),
            &[own.clone(), vacant.clone()],
            &[shadow_row("items_shadow"), shadow_row("unlisted")]
        ),
        Err(SnapshotTargetError::UnexpectedSnapshotShadow(name("unlisted").display()))
    );
    stored.state = SnapshotGroupStatus::Active;
    assert_eq!(
        plan_cleanup(&stored, request(), &[own, vacant], &rows),
        Err(SnapshotTargetError::SnapshotGroupNotLoading(Uuid::from_u128(2)))
    );
}

#[test]
fn a_quarantine_is_purged_only_with_its_exact_identity() {
    let record = quarantine_record();
    let place = record.quarantine.display();
    let own = found(RelationState::Managed(quarantined()), Some(16_384));
    let judge = |fence, found: FoundRelation, count| judge_purge(&record, fence, found, count);
    assert_eq!(judge(fence(3, 9), own.clone(), 1), Ok(()));
    assert_eq!(
        judge(fence(3, 8), own.clone(), 1),
        Err(SnapshotTargetError::InvalidSnapshotCleanupFence)
    );
    assert_eq!(
        judge(fence(3, 9), found(RelationState::Vacant, None), 1),
        Err(SnapshotTargetError::MissingQuarantineMetadata(place.clone()))
    );
    assert_eq!(
        judge(fence(3, 9), found(RelationState::Managed(shadow_record()), Some(16_384)), 1),
        Err(SnapshotTargetError::QuarantineMetadataMismatch(place.clone()))
    );
    assert_eq!(
        judge(fence(3, 9), found(own.state.clone(), Some(7)), 1),
        Err(SnapshotTargetError::RelationIdentityMismatch {
            table: place.clone(),
            expected: 16_384,
            actual: 7,
        })
    );
    assert_eq!(
        judge(fence(3, 9), own, 2),
        Err(SnapshotTargetError::QuarantineRecordMismatch(place))
    );
}

#[test]
fn without_a_retention_nothing_is_collected() {
    let idle = QuarantineGcPolicy { retention: None, max_tables: 0 };
    assert_eq!(idle.validate(), Ok(()));
    assert_eq!(idle.retention_micros(), Ok(None));
    assert_eq!(plan_quarantine_gc(idle, fence(3, 0)), Ok(None));
    let empty = QuarantineGcPolicy { retention: Some(Retention::from_secs(1)), max_tables: 0 };
    assert_eq!(
        empty.retention_micros(),
        Err(SnapshotTargetError::InvalidQuarantineBatchSize)
    );
    assert_eq!(
        QuarantineGcPolicy::enabled(Retention { nanoseconds: 0 }, 0),
        Err(SnapshotTargetError::InvalidQuarantineBatchSize)
    );
    let policy = QuarantineGcPolicy::enabled(Retention { nanoseconds: 1 }, 7).unwrap();
    assert_eq!(
        plan_quarantine_gc(policy, fence(3, 9)),
        Ok(Some(QuarantineGcBatch { retention_micros: 1, limit: 7 }))
    );
    assert_eq!(
        plan_quarantine_gc(policy, fence(3, 0)),
        Err(SnapshotTargetError::Checkpoint(CheckpointError::InvalidFencingToken))
    );
    let endless = QuarantineGcPolicy {
        retention: Some(Retention { nanoseconds: u128::MAX }),
        max_tables: 1,
    };
    assert_eq!(
        plan_quarantine_gc(endless, fence(3, 9)),
        Err(SnapshotTargetError::InvalidQuarantineRetention)
    );
}
