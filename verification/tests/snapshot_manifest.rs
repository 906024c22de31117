use target_cloudberry::checkpoint::{CheckpointKey, NodeCheckpoint, PipelineFence};
use target_cloudberry::ident::{PipelineId, Uuid};
use target_cloudberry::lsn::PgLsn;
use target_cloudberry::snapshot::manifest::{canonical_request, first_request_difference, manifest_checksum, validate_apply_membership, SnapshotGroupStatus, StoredSnapshotGroup};
use target_cloudberry::snapshot::{plan_snapshot_target, SnapshotActivationRequest, SnapshotActivationTable, SnapshotOwnership, SnapshotTargetError};
use target_cloudberry::source::{ColumnSchema, GeneratedColumn, IdentityColumn, PgType, PgTypeKind, QualifiedName, ReplicaIdentity, TableKind, TableSchema};
use target_cloudberry::checkpoint::CheckpointError;
use target_cloudberry::snapshot::manifest::{
    adopt_snapshot_group_fence, check_group_id, ensure_rows_written, group_parameters,
    inspect_group, judge_registration, judge_shadow_load, require_group, stored_group_from_rows,
    validate_exact_request, FenceAdoption, GroupNodeRow, GroupRow, GroupTableRow,
    SnapshotGroupRegistrationDisposition,
};

fn random_id() -> Uuid {
    Uuid::from_u128(uuid::Uuid::now_v7().as_u128())
}

fn random_pipeline() -> PipelineId {
    PipelineId::from_uuid(random_id())
}

fn request() -> SnapshotActivationRequest {
    let fence = PipelineFence {
        pipeline_id: random_pipeline(),
        topology_generation: 3,
        fencing_token: 7,
    };
    SnapshotActivationRequest {
        fence,
        snapshot_group_id: random_id(),
        tables: vec![SnapshotActivationTable {
            target: QualifiedName::new("target", "items").unwrap(),
            shadow: QualifiedName::new("target", "items_shadow").unwrap(),
            source_relation_id: 42,
            table_generation: 5,
            schema_fingerprint: "sha256:items".to_owned(),
        }],
        initial_checkpoints: vec![NodeCheckpoint {
            key: CheckpointKey {
                pipeline_id: fence.pipeline_id,
                topology_generation: fence.topology_generation,
                node_id: 1,
            },
            system_identifier: 99,
            timeline: 1,
            slot_name: "pg2cb_slot".to_owned(),
            applied_lsn: PgLsn::new(100),
        }],
    }
}

#[test]
fn canonical_manifest_is_order_independent_but_field_exact() {
    let mut left = request();
    let mut second = left.tables[0].clone();
    second.target = QualifiedName::new("target", "another").unwrap();
    second.shadow = QualifiedName::new("target", "another_shadow").unwrap();
    second.source_relation_id = 43;
    left.tables.push(second);
    left.tables.reverse();
    let canonical = canonical_request(&left).unwrap();
    assert_eq!(canonical.tables[0].target.name, "another");

    let checksum = manifest_checksum(&canonical);
    let mut changed = canonical.clone();
    changed.initial_checkpoints[0].slot_name.push_str("_other");
    assert_ne!(checksum, manifest_checksum(&changed));
    assert_eq!(
        first_request_difference(&canonical, &changed).unwrap(),
        "initial_checkpoints[0].slot_name: stored=pg2cb_slot, caller=pg2cb_slot_other"
    );
}

#[test]
fn rejects_cross_schema_shadows_and_incomplete_boundaries() {
    let mut invalid = request();
    invalid.tables[0].shadow = QualifiedName::new("other", "items_shadow").unwrap();
    assert!(matches!(
        canonical_request(&invalid),
        Err(SnapshotTargetError::CrossSchemaShadowUnsupported { .. })
    ));

    let mut zero = request();
    zero.initial_checkpoints[0].applied_lsn = PgLsn::zero();
    assert!(matches!(
        canonical_request(&zero),
        Err(SnapshotTargetError::ZeroInitialCheckpoint(1))
    ));
}

#[test]
fn apply_membership_requires_every_table_field() {
    let request = canonical_request(&request()).unwrap();
    let stored = StoredSnapshotGroup {
        state: SnapshotGroupStatus::Loading,
        snapshot_progress_version: 1,
        request: request.clone(),
    };
    let ownership = SnapshotOwnership {
        fence: request.fence,
        snapshot_group_id: request.snapshot_group_id,
        schema_fingerprint: request.tables[0].schema_fingerprint.clone(),
    };
    let source = TableSchema {
        relation_id: request.tables[0].source_relation_id,
        generation: request.tables[0].table_generation,
        name: QualifiedName::new("source", "items").unwrap(),
        kind: TableKind::Ordinary,
        replica_identity: ReplicaIdentity::Default,
        columns: vec![ColumnSchema {
            attnum: 1,
            name: "id".to_owned(),
            data_type: PgType {
                oid: 20,
                name: QualifiedName::new("pg_catalog", "int8").unwrap(),
                kind: PgTypeKind::Int8,
            },
            nullable: false,
            primary_key_ordinal: Some(1),
            generated: GeneratedColumn::Never,
            identity: IdentityColumn::Never,
            collation: None,
        }],
        distribution_key: Vec::new(),
        partition_key: Vec::new(),
    };
    let plan = plan_snapshot_target(
        &source,
        request.tables[0].target.clone(),
        request.tables[0].shadow.clone(),
    )
    .unwrap();
    validate_apply_membership(&stored, &plan, &ownership).unwrap();

    let mut wrong = ownership;
    wrong.schema_fingerprint.push_str("-wrong");
    assert!(matches!(
        validate_apply_membership(&stored, &plan, &wrong),
        Err(SnapshotTargetError::SnapshotTableManifestMismatch { .. })
    ));
}

fn fixed_request() -> SnapshotActivationRequest {
    let mut fixed = request();
    fixed.snapshot_group_id = Uuid::from_u128(1);
    fixed.fence.pipeline_id = PipelineId::from_uuid(Uuid::from_u128(2));
    fixed.initial_checkpoints[0].key.pipeline_id = fixed.fence.pipeline_id;
    fixed
}

fn loading(request: SnapshotActivationRequest) -> StoredSnapshotGroup {
    StoredSnapshotGroup {
        state: SnapshotGroupStatus::Loading,
        snapshot_progress_version: 1,
        request,
    }
}

fn rows() -> (GroupRow, Vec<GroupTableRow>, Vec<GroupNodeRow>) {
    let group = GroupRow {
        pipeline_id: Uuid::from_u128(2),
        topology_generation: 3,
        fencing_token: 7,
        state: "loading".to_owned(),
        table_count: 1,
        node_count: 1,
        manifest_checksum: manifest_checksum(&fixed_request()),
        snapshot_progress_version: 1,
    };
    let table = GroupTableRow {
        target_schema: "target".to_owned(),
        target_table: "items".to_owned(),
        shadow_schema: "target".to_owned(),
        shadow_table: "items_shadow".to_owned(),
        source_relation_id: 42,
        table_generation: 5,
        schema_fingerprint: "sha256:items".to_owned(),
    };
    let node = GroupNodeRow {
        node_id: 1,
        system_identifier: "99".to_owned(),
        timeline: 1,
        slot_name: "pg2cb_slot".to_owned(),
        consistent_lsn: "0/64".to_owned(),
    };
    (group, vec![table], vec![node])
}

#[test]
fn the_checksum_of_a_manifest_is_fixed() {
    let hex: String = manifest_checksum(&fixed_request())
        .iter()
        .map(|byte| format!("{byte:02x}"))
        .collect();
    assert_eq!(hex, "829c58065cba552c4c9d20dc81f38b1156c851bbdb10eb473297a627a10dac40");
}

#[test]
fn requests_are_refused_for_every_fault() {
    let faults: [(fn(&mut SnapshotActivationRequest), SnapshotTargetError); 7] = [
        (
            |request| request.snapshot_group_id = Uuid::nil(),
            SnapshotTargetError::InvalidSnapshotGroupId,
        ),
        (|request| request.tables.clear(), SnapshotTargetError::EmptyActivationGroup),
        (
            |request| request.initial_checkpoints.clear(),
            SnapshotTargetError::EmptyActivationGroup,
        ),
        (
            |request| request.fence.fencing_token = 0,
            SnapshotTargetError::Checkpoint(CheckpointError::InvalidFencingToken),
        ),
        (
            |request| request.fence.topology_generation = u64::MAX,
            SnapshotTargetError::GenerationOutOfRange(u64::MAX),
        ),
        (
            |request| request.tables[0].schema_fingerprint.clear(),
            SnapshotTargetError::EmptyActivationFingerprint("target.items".to_owned()),
        ),
        (
            |request| request.tables[0].source_relation_id = 0,
            SnapshotTargetError::InvalidActivationSourceRelation,
        ),
    ];
    for (spoil, error) in faults {
        let mut spoilt = fixed_request();
        spoil(&mut spoilt);
        assert_eq!(canonical_request(&spoilt), Err(error));
    }
    let mut other = fixed_request();
    other.initial_checkpoints[0].key.topology_generation = 4;
    assert_eq!(
        canonical_request(&other),
        Err(SnapshotTargetError::Checkpoint(CheckpointError::FenceKeyMismatch))
    );
}

#[test]
fn a_group_is_registered_once_and_exactly() {
    let canonical = canonical_request(&fixed_request()).unwrap();
    assert_eq!(
        judge_registration(None, &canonical),
        Ok(SnapshotGroupRegistrationDisposition::Registered)
    );
    let mut stored = loading(canonical.clone());
    assert_eq!(
        judge_registration(Some(&stored), &canonical),
        Ok(SnapshotGroupRegistrationDisposition::AlreadyRegistered)
    );
    assert_eq!(validate_exact_request(&stored, &fixed_request()), Ok(canonical.clone()));
    stored.state = SnapshotGroupStatus::Active;
    assert_eq!(
        judge_registration(Some(&stored), &canonical),
        Ok(SnapshotGroupRegistrationDisposition::AlreadyActive)
    );
    let differences: [(fn(&mut SnapshotActivationRequest), &str); 4] = [
        (
            |request| request.fence.fencing_token = 8,
            "fence.fencing_token: stored=7, caller=8",
        ),
        (
            |request| request.tables[0].table_generation = 6,
            "tables[0].table_generation: stored=5, caller=6",
        ),
        (
            |request| request.tables[0].shadow.name = "other".to_owned(),
            "tables[0].shadow: stored=target.items_shadow, caller=target.other",
        ),
        (
            |request| request.initial_checkpoints[0].applied_lsn = PgLsn::new(0x65),
            "initial_checkpoints[0].applied_lsn: stored=0/64, caller=0/65",
        ),
    ];
    for (change, difference) in differences {
        let mut changed = fixed_request();
        change(&mut changed);
        let error = SnapshotTargetError::SnapshotGroupManifestMismatch {
            group: Uuid::from_u128(1),
            difference: difference.to_owned(),
        };
        assert_eq!(validate_exact_request(&stored, &changed), Err(error));
    }
    assert_eq!(check_group_id(Uuid::from_u128(1)), Ok(()));
    assert_eq!(check_group_id(Uuid::nil()), Err(SnapshotTargetError::InvalidSnapshotGroupId));
    assert_eq!(
        require_group(Uuid::from_u128(1), None),
        Err(SnapshotTargetError::SnapshotGroupNotRegistered(Uuid::from_u128(1)))
    );
}

#[test]
fn a_newer_fence_adopts_a_group_and_keeps_its_checksum() {
    let request = fixed_request();
    let checksum = manifest_checksum(&request);
    let newer = PipelineFence { fencing_token: 9, ..request.fence };
    let mut stored = loading(request.clone());
    assert_eq!(
        adopt_snapshot_group_fence(&mut stored, request.fence),
        Ok(FenceAdoption::Unchanged)
    );
    assert_eq!(
        adopt_snapshot_group_fence(&mut stored, newer),
        Ok(FenceAdoption::Rewrite { previous_token: 7, checksum })
    );
    assert_eq!(stored.request.fence, newer);
    let mismatch = SnapshotTargetError::SnapshotGroupFenceMismatch {
        group: Uuid::from_u128(1),
        expected_generation: 3,
        expected_token: 7,
        actual_generation: 3,
        actual_token: 9,
    };
    assert_eq!(inspect_group(stored, request.fence), Err(mismatch));
    let inspected = inspect_group(loading(request.clone()), newer).unwrap();
    assert_eq!(inspected.status, SnapshotGroupStatus::Loading);
    assert_eq!(inspected.request, request);
}

#[test]
fn a_registered_group_is_read_back_or_refused() {
    let group_id = Uuid::from_u128(1);
    let (group, tables, nodes) = rows();
    assert_eq!(
        stored_group_from_rows(group_id, &group, &tables, &nodes),
        Ok(loading(fixed_request()))
    );
    let corrupt = SnapshotTargetError::CorruptSnapshotGroupManifest(group_id);
    let faults: [fn(&mut GroupRow); 7] = [
        |group| group.topology_generation = -1,
        |group| group.fencing_token = 0,
        |group| group.state = "ready".to_owned(),
        |group| group.table_count = 2,
        |group| group.node_count = -1,
        |group| group.manifest_checksum[0] ^= 1,
        |group| group.snapshot_progress_version = 2,
    ];
    for spoil in faults {
        let (mut spoilt, tables, nodes) = rows();
        spoil(&mut spoilt);
        let read = stored_group_from_rows(group_id, &spoilt, &tables, &nodes);
        assert_eq!(read.as_ref(), Err(&corrupt), "{spoilt:?}");
    }
    let (group, mut tables, nodes) = rows();
    tables[0].schema_fingerprint.push('x');
    assert_eq!(stored_group_from_rows(group_id, &group, &tables, &nodes), Err(corrupt));
}

#[test]
fn a_group_is_stored_in_columns() {
    let request = fixed_request();
    let parameters = group_parameters(&request).unwrap();
    assert_eq!(parameters.pipeline_id, Uuid::from_u128(2));
    assert_eq!((parameters.table_count, parameters.node_count), (1, 1));
    assert_eq!(parameters.checksum, manifest_checksum(&request));
    assert_eq!(parameters.target_tables, ["items"]);
    assert_eq!(parameters.shadow_tables, ["items_shadow"]);
    assert_eq!(parameters.source_relation_ids, [42]);
    assert_eq!(parameters.node_ids, [1]);
    assert_eq!(parameters.system_identifiers, ["99"]);
    assert_eq!(parameters.consistent_lsns, ["0/64"]);
    assert_eq!(ensure_rows_written(1, 1), Ok(()));
    assert_eq!(
        ensure_rows_written(2, 1),
        Err(SnapshotTargetError::UnexpectedMetadataWriteCount(2))
    );
}

#[test]
fn only_a_loading_group_takes_a_shadow() {
    let request = fixed_request();
    let source = TableSchema {
        relation_id: 42,
        generation: 5,
        name: QualifiedName::new("source", "items").unwrap(),
        kind: TableKind::Ordinary,
        replica_identity: ReplicaIdentity::Default,
        columns: vec![ColumnSchema {
            attnum: 1,
            name: "id".to_owned(),
            data_type: PgType {
                oid: 20,
                name: QualifiedName::new("pg_catalog", "int8").unwrap(),
                kind: PgTypeKind::Int8,
            },
            nullable: false,
            primary_key_ordinal: Some(1),
            generated: GeneratedColumn::Never,
            identity: IdentityColumn::Never,
            collation: None,
        }],
        distribution_key: Vec::new(),
        partition_key: Vec::new(),
    };
    let table = &request.tables[0];
    let plan = plan_snapshot_target(&source, table.target.clone(), table.shadow.clone()).unwrap();
    assert_eq!(plan.activation_table("sha256:items"), *table);
    let ownership = SnapshotOwnership {
        fence: request.fence,
        snapshot_group_id: request.snapshot_group_id,
        schema_fingerprint: "sha256:items".to_owned(),
    };
    let mut stored = loading(request.clone());
    assert_eq!(judge_shadow_load(&stored, &plan, &ownership), Ok(()));
    stored.state = SnapshotGroupStatus::Active;
    assert_eq!(
        judge_shadow_load(&stored, &plan, &ownership),
        Err(SnapshotTargetError::SnapshotGroupAlreadyActive(request.snapshot_group_id))
    );
    stored.request.tables[0].target.name = "others".to_owned();
    assert_eq!(
        judge_shadow_load(&stored, &plan, &ownership),
        Err(SnapshotTargetError::SnapshotTableNotInManifest {
            group: request.snapshot_group_id,
            table: "target.items".to_owned()
        })
    );
}
