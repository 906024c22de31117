use target_cloudberry::checkpoint::{CheckpointKey, NodeCheckpoint, PipelineFence};
use target_cloudberry::ident::{PipelineId, Uuid};
use target_cloudberry::lsn::PgLsn;
use target_cloudberry::snapshot::activation::{activation_progress_identities, classify_table, group_is_active, quarantine_name, rename_table_sql, TableActivationState};
use target_cloudberry::snapshot::manifest::canonical_request;
use target_cloudberry::snapshot::{ManagedTableRecord, ManagedTableState, RelationState, SnapshotActivationRequest, SnapshotActivationTable, SnapshotTargetError};
use target_cloudberry::source::QualifiedName;
use target_cloudberry::checkpoint::{CheckpointError, StoredNodeCheckpoint};
use target_cloudberry::snapshot::activation::{
    activation_steps, choose_active_group, classify_tables, is_target_named, judge_activation,
    judge_boundaries, judge_resumed_tables, judge_stale_table, plan_activation, plan_replaced,
    plan_stale, plan_stale_quarantine, plan_stale_steps, quarantined_names, require_active,
    require_boundary_admitted, require_boundary_reached, require_vacant, reserve_quarantine,
    validate_active_manifest, ActivationEvidence, ActivationStep, QuarantinePlan,
    ReconciliationReason, ReservedNames, StaleActiveTable, TableRelations,
};
use target_cloudberry::snapshot::{SnapshotActivationDisposition, SnapshotActivationOutcome};
use target_cloudberry::snapshot::manifest::{SnapshotGroupStatus, StoredSnapshotGroup};

fn pipeline_id() -> PipelineId {
    PipelineId::from_uuid(Uuid::nil())
}

fn record(state: ManagedTableState, generation: u64, fingerprint: &str) -> ManagedTableRecord {
    ManagedTableRecord {
        pipeline_id: pipeline_id(),
        snapshot_group_id: Some(Uuid::from_u128(1)),
        relation_oid: None,
        source_relation_id: 42,
        table_generation: generation,
        schema_fingerprint: fingerprint.to_owned(),
        state,
        fencing_token: 11,
    }
}

fn table() -> SnapshotActivationTable {
    SnapshotActivationTable {
        target: QualifiedName::new("target", "items").unwrap(),
        shadow: QualifiedName::new("target", "items_shadow").unwrap(),
        source_relation_id: 42,
        table_generation: 7,
        schema_fingerprint: "sha256:new".to_owned(),
    }
}

fn request() -> SnapshotActivationRequest {
    let fence = PipelineFence {
        pipeline_id: pipeline_id(),
        topology_generation: 3,
        fencing_token: 12,
    };
    SnapshotActivationRequest {
        fence,
        snapshot_group_id: Uuid::from_u128(1),
        tables: vec![table()],
        initial_checkpoints: vec![NodeCheckpoint {
            key: CheckpointKey {
                pipeline_id: fence.pipeline_id,
                topology_generation: fence.topology_generation,
                node_id: 1,
            },
            system_identifier: 99,
            timeline: 1,
            slot_name: "pg2cb_slot".to_owned(),
            applied_lsn: PgLsn::new(100),
        }],
    }
}

#[test]
fn validates_complete_unique_group_and_orders_locks() {
    let mut valid = request();
    valid.tables.push(SnapshotActivationTable {
        target: QualifiedName::new("a", "second").unwrap(),
        shadow: QualifiedName::new("a", "second_shadow").unwrap(),
        source_relation_id: 43,
        table_generation: 7,
        schema_fingerprint: "sha256:second".to_owned(),
    });
    let canonical = canonical_request(&valid).unwrap();
    assert_eq!(canonical.tables[0].target.schema, "a");
    assert_eq!(canonical.initial_checkpoints[0].key.node_id, 1);

    valid.tables[1].target = valid.tables[0].target.clone();
    valid.tables[1].shadow = QualifiedName::new("target", "other_shadow").unwrap();
    assert!(matches!(
        canonical_request(&valid),
        Err(SnapshotTargetError::DuplicateActivationIdentity)
    ));

    let mut zero = request();
    zero.initial_checkpoints[0].applied_lsn = PgLsn::zero();
    assert!(matches!(
        canonical_request(&zero),
        Err(SnapshotTargetError::ZeroInitialCheckpoint(1))
    ));

    let mut cross_schema = request();
    cross_schema.tables[0].shadow.schema = "temporary".to_owned();
    assert!(matches!(
        canonical_request(&cross_schema),
        Err(SnapshotTargetError::CrossSchemaShadowUnsupported { .. })
    ));
}

#[test]
fn classifies_pending_and_idempotently_active_tables() {
    let request = request();
    let table = &request.tables[0];
    let pending = classify_table(
        &request,
        table,
        RelationState::Managed(record(ManagedTableState::Active, 6, "sha256:old")),
        RelationState::Managed(record(ManagedTableState::Shadow, 7, "sha256:new")),
    )
    .unwrap();
    assert!(matches!(
        pending,
        TableActivationState::Pending {
            previous_active: Some(_),
            ..
        }
    ));

    let active = classify_table(
        &request,
        table,
        RelationState::Managed(record(ManagedTableState::Active, 7, "sha256:new")),
        RelationState::Vacant,
    )
    .unwrap();
    assert!(matches!(active, TableActivationState::Active { .. }));
}

#[test]
fn rejects_stale_or_incomplete_activation() {
    let request = request();
    let table = &request.tables[0];
    assert!(matches!(
        classify_table(
            &request,
            table,
            RelationState::Managed(record(ManagedTableState::Active, 7, "sha256:other",)),
            RelationState::Managed(record(ManagedTableState::Shadow, 7, "sha256:new",)),
        ),
        Err(SnapshotTargetError::ActivationGenerationNotNewer { .. })
    ));
    assert!(matches!(
        classify_table(
            &request,
            table,
            RelationState::Vacant,
            RelationState::Vacant,
        ),
        Err(SnapshotTargetError::IncompleteShadow(_))
    ));

    let pending = TableActivationState::Pending {
        shadow: record(ManagedTableState::Shadow, 7, "sha256:new"),
        previous_active: None,
    };
    assert!(matches!(
        group_is_active(&[
            TableActivationState::Active {
                target: record(ManagedTableState::Active, 7, "sha256:new")
            },
            pending
        ]),
        Err(SnapshotTargetError::MixedActivationState)
    ));
}

#[test]
fn activation_progress_identity_uses_the_promoted_physical_relation() {
    let request = request();
    let table = request.tables[0].clone();
    let mut pending_shadow = record(ManagedTableState::Shadow, 7, "sha256:new");
    pending_shadow.relation_oid = Some(16_384);
    let pending = TableActivationState::Pending {
        shadow: pending_shadow,
        previous_active: None,
    };
    let identities = activation_progress_identities(&[table.clone()], &[pending]).unwrap();
    assert_eq!(identities[0].table, table);
    assert_eq!(identities[0].shadow_relation_oid, 16_384);

    let mut active_target = record(ManagedTableState::Active, 7, "sha256:new");
    active_target.relation_oid = Some(16_384);
    let active = TableActivationState::Active {
        target: active_target,
    };
    assert_eq!(
        activation_progress_identities(&[table], &[active]).unwrap()[0]
            .shadow_relation_oid,
        16_384
    );
}

#[test]
fn activation_rejects_progress_without_a_physical_relation_identity() {
    let request = request();
    let pending = TableActivationState::Pending {
        shadow: record(ManagedTableState::Shadow, 7, "sha256:new"),
        previous_active: None,
    };
    assert!(matches!(
        activation_progress_identities(&request.tables, &[pending]),
        Err(SnapshotTargetError::MissingRelationIdentity(_))
    ));
}

#[test]
fn rejects_table_metadata_from_a_newer_fence() {
    let request = request();
    let table = &request.tables[0];
    let mut shadow = record(ManagedTableState::Shadow, 7, "sha256:new");
    shadow.fencing_token = request.fence.fencing_token + 1;

    assert!(matches!(
        classify_table(
            &request,
            table,
            RelationState::Vacant,
            RelationState::Managed(shadow),
        ),
        Err(SnapshotTargetError::ManagedByNewerFence {
            current: 12,
            actual: 13,
            ..
        })
    ));
}

#[test]
fn quarantine_names_are_short_deterministic_and_owner_specific() {
    let target = QualifiedName::new("target", "items").unwrap();
    let first = record(ManagedTableState::Active, 6, "sha256:old");
    let name = quarantine_name(&target, &first).unwrap();
    assert_eq!(name.schema, "target");
    assert!(name.name.starts_with("pg2cb_q_"));
    assert_eq!(name.name.len(), 40);
    assert_eq!(name, quarantine_name(&target, &first).unwrap());

    let mut other = first;
    other.fencing_token += 1;
    assert_ne!(name, quarantine_name(&target, &other).unwrap());
}

#[test]
fn renders_quoted_rename_sql() {
    let source = QualifiedName::new("old schema", "select").unwrap();
    assert_eq!(
        rename_table_sql(&source, "new name").unwrap(),
        "ALTER TABLE \"old schema\".\"select\" RENAME TO \"new name\""
    );
}

fn name(table: &str) -> QualifiedName {
    QualifiedName::new("target", table).unwrap()
}

fn pending(previous_active: Option<ManagedTableRecord>) -> TableActivationState {
    TableActivationState::Pending {
        shadow: record(ManagedTableState::Shadow, 7, "sha256:new"),
        previous_active,
    }
}

fn active() -> TableActivationState {
    TableActivationState::Active {
        target: record(ManagedTableState::Active, 7, "sha256:new"),
    }
}

#[test]
fn the_quarantine_name_is_fixed() {
    let old = record(ManagedTableState::Active, 6, "sha256:old");
    assert_eq!(
        quarantine_name(&name("items"), &old).unwrap().name,
        "pg2cb_q_7290f75f4a902b925123b448ae704b6a"
    );
}

#[test]
fn a_group_is_activated_as_its_manifest_says() {
    let group = Uuid::from_u128(1);
    let corrupt = SnapshotTargetError::CorruptSnapshotGroupManifest(group);
    assert_eq!(judge_activation(group, SnapshotGroupStatus::Active, &[active()]), Ok(true));
    assert_eq!(
        judge_activation(group, SnapshotGroupStatus::Loading, &[pending(None)]),
        Ok(false)
    );
    assert_eq!(
        judge_activation(group, SnapshotGroupStatus::Loading, &[active()]).as_ref(),
        Err(&corrupt)
    );
    assert_eq!(
        judge_activation(group, SnapshotGroupStatus::Active, &[pending(None)]),
        Err(corrupt)
    );
    assert_eq!(
        judge_activation(group, SnapshotGroupStatus::Active, &[pending(None), active()]),
        Err(SnapshotTargetError::MixedActivationState)
    );
    assert_eq!(require_active(&active()), Ok(()));
    assert_eq!(
        require_active(&pending(None)),
        Err(SnapshotTargetError::MixedActivationState)
    );
}

#[test]
fn tables_are_moved_aside_before_their_shadows_take_the_name() {
    let old = record(ManagedTableState::Active, 6, "sha256:old");
    let quarantine = name("pg2cb_q_old");
    let stale = QuarantinePlan {
        original: name("gone"),
        quarantine: name("pg2cb_q_gone"),
        record: old.clone(),
        reason: ReconciliationReason::Stale,
    };
    let shadow = record(ManagedTableState::Shadow, 7, "sha256:new");
    let steps = activation_steps(
        &[table()],
        &[pending(Some(old.clone()))],
        &[Some(quarantine.clone())],
        &[stale.clone()],
    );
    let stale_steps = plan_stale_steps(&[stale.clone()]);
    assert_eq!(
        steps[..5],
        [
            ActivationStep::Rename { table: name("items"), new_name: "pg2cb_q_old".to_owned() },
            ActivationStep::Relocate {
                from: name("items"),
                to: quarantine.clone(),
                record: old.clone(),
                state: ManagedTableState::Quarantined,
            },
            ActivationStep::Log {
                original: name("items"),
                quarantine: quarantine.clone(),
                record: old.clone(),
                reason: ReconciliationReason::Replaced,
            },
            ActivationStep::Rename { table: name("items_shadow"), new_name: "items".to_owned() },
            ActivationStep::Relocate {
                from: name("items_shadow"),
                to: name("items"),
                record: shadow,
                state: ManagedTableState::Active,
            },
        ]
    );
    assert_eq!(steps[5..], stale_steps);
    assert_eq!(stale_steps.len(), 3);
    assert_eq!(
        quarantined_names(&[Some(quarantine.clone()), None], &[stale]),
        [quarantine, name("pg2cb_q_gone")]
    );
}

#[test]
fn quarantine_names_are_free_and_taken_once() {
    let old = record(ManagedTableState::Active, 6, "sha256:old");
    let stale = StaleActiveTable { target: name("gone"), record: old.clone() };
    let mut reserved = ReservedNames::new(&[table()], &[stale.clone()]);
    for taken in ["items", "items_shadow", "gone"] {
        assert!(!reserved.reserve(&name(taken)), "{taken}");
    }
    let quarantine = reserve_quarantine(&mut reserved, &name("items"), &old).unwrap();
    assert_eq!(quarantine, quarantine_name(&name("items"), &old).unwrap());
    assert_eq!(
        reserve_quarantine(&mut reserved, &name("items"), &old),
        Err(SnapshotTargetError::QuarantineNameConflict(quarantine.display()))
    );
    assert_eq!(require_vacant(&quarantine, &RelationState::Vacant), Ok(()));
    assert_eq!(
        require_vacant(&quarantine, &RelationState::Unmanaged),
        Err(SnapshotTargetError::QuarantineNameConflict(quarantine.display()))
    );
    let plan = plan_stale_quarantine(&mut reserved, stale.clone(), 12).unwrap();
    assert_eq!(plan.original, name("gone"));
    assert_eq!(plan.reason, ReconciliationReason::Stale);
    assert!(matches!(
        plan_stale_quarantine(&mut reserved, stale, 10),
        Err(SnapshotTargetError::ManagedByNewerFence { current: 10, actual: 11, .. })
    ));
}

#[test]
fn stale_tables_are_the_active_ones_that_are_not_named() {
    let old = record(ManagedTableState::Active, 6, "sha256:old");
    assert!(is_target_named(&[table()], &name("items")));
    assert!(!is_target_named(&[table()], &name("items_shadow")));
    assert_eq!(
        judge_stale_table(name("gone"), old.clone(), true, 11),
        Ok(StaleActiveTable { target: name("gone"), record: old.clone() })
    );
    assert_eq!(
        judge_stale_table(name("gone"), old, false, 11),
        Err(SnapshotTargetError::ManagedRelationMissing("target.gone".to_owned()))
    );
}

#[test]
fn node_boundaries_are_admitted_once_and_then_reached() {
    let boundary = request().initial_checkpoints[0].clone();
    let at = |lsn: u64| {
        let mut checkpoint = boundary.clone();
        checkpoint.applied_lsn = PgLsn::new(lsn);
        StoredNodeCheckpoint { checkpoint, fencing_token: 11 }
    };
    assert_eq!(require_boundary_admitted(None, &boundary), Ok(()));
    assert_eq!(
        require_boundary_admitted(Some(&at(101)), &boundary),
        Err(SnapshotTargetError::Checkpoint(CheckpointError::LsnRegression {
            current: PgLsn::new(101),
            proposed: PgLsn::new(100)
        }))
    );
    assert_eq!(require_boundary_reached(Some(&at(101)), &boundary), Ok(()));
    assert_eq!(
        require_boundary_reached(Some(&at(99)), &boundary),
        Err(SnapshotTargetError::ActiveCheckpointIncomplete(1))
    );
    assert_eq!(
        require_boundary_reached(None, &boundary),
        Err(SnapshotTargetError::ActiveCheckpointIncomplete(1))
    );
}

#[test]
fn one_active_group_is_resumed_exactly() {
    let request = canonical_request(&request()).unwrap();
    let fence = request.fence;
    let group = request.snapshot_group_id;
    assert_eq!(choose_active_group(fence, &[group]), Ok(group));
    assert_eq!(
        choose_active_group(fence, &[]),
        Err(SnapshotTargetError::MissingActiveSnapshotGroup {
            pipeline: fence.pipeline_id,
            generation: 3
        })
    );
    assert_eq!(
        choose_active_group(fence, &[group, Uuid::from_u128(2)]),
        Err(SnapshotTargetError::MultipleActiveSnapshotGroups {
            pipeline: fence.pipeline_id,
            generation: 3
        })
    );
    let mut stored = StoredSnapshotGroup {
        state: SnapshotGroupStatus::Active,
        snapshot_progress_version: 1,
        request: request.clone(),
    };
    let newer = PipelineFence { fencing_token: 13, ..fence };
    let resumed = validate_active_manifest(&stored, newer, &request.tables).unwrap();
    assert_eq!(resumed.fence, newer);
    assert_eq!(resumed.tables, request.tables);
    let mut changed = request.tables.clone();
    changed[0].table_generation += 1;
    assert!(matches!(
        validate_active_manifest(&stored, newer, &changed),
        Err(SnapshotTargetError::SnapshotGroupManifestMismatch { .. })
    ));
    stored.state = SnapshotGroupStatus::Loading;
    assert_eq!(
        validate_active_manifest(&stored, newer, &request.tables),
        Err(SnapshotTargetError::CorruptSnapshotGroupManifest(group))
    );
}

fn evidence(state: TableActivationState) -> ActivationEvidence {
    ActivationEvidence {
        states: vec![state],
        replaced_quarantines: vec![RelationState::Vacant],
        stale: vec![StaleActiveTable {
            target: name("gone"),
            record: record(ManagedTableState::Active, 3, "sha256:gone"),
        }],
        stale_quarantines: vec![RelationState::Vacant],
        checkpoints: vec![None],
    }
}

fn reached(lsn: u64) -> Vec<Option<StoredNodeCheckpoint>> {
    let mut checkpoint = request().initial_checkpoints[0].clone();
    checkpoint.applied_lsn = PgLsn::new(lsn);
    vec![Some(StoredNodeCheckpoint { checkpoint, fencing_token: 11 })]
}

#[test]
fn a_first_activation_replaces_and_retires_tables() {
    let old = record(ManagedTableState::Active, 6, "sha256:old");
    let gone = record(ManagedTableState::Active, 3, "sha256:gone");
    let plan = plan_activation(
        &request(),
        SnapshotGroupStatus::Loading,
        &evidence(pending(Some(old.clone()))),
    )
    .unwrap();
    let replaced = quarantine_name(&name("items"), &old).unwrap();
    let retired = quarantine_name(&name("gone"), &gone).unwrap();
    assert_eq!(plan.quarantines, [Some(replaced.clone())]);
    assert_eq!(plan.stale.len(), 1);
    assert_eq!(plan.stale[0].quarantine, retired);
    assert_eq!(plan.steps.len(), 8);
    assert_eq!(
        plan.steps[0],
        ActivationStep::Rename { table: name("items"), new_name: replaced.name.clone() }
    );
    assert_eq!(
        plan.steps[5],
        ActivationStep::Rename { table: name("gone"), new_name: retired.name.clone() }
    );
    assert_eq!(
        plan.outcome,
        SnapshotActivationOutcome {
            disposition: SnapshotActivationDisposition::Activated,
            quarantined: vec![replaced, retired],
        }
    );
}

#[test]
fn a_retried_activation_changes_nothing() {
    let mut found = evidence(active());
    found.checkpoints = reached(150);
    found.stale.clear();
    found.stale_quarantines.clear();
    let plan = plan_activation(&request(), SnapshotGroupStatus::Active, &found).unwrap();
    assert!(plan.steps.is_empty());
    assert_eq!(plan.quarantines, [None]);
    assert_eq!(
        plan.outcome,
        SnapshotActivationOutcome {
            disposition: SnapshotActivationDisposition::AlreadyActive,
            quarantined: vec![],
        }
    );
}

#[test]
fn an_activation_is_refused_before_its_first_change() {
    let old = record(ManagedTableState::Active, 6, "sha256:old");
    let loading = SnapshotGroupStatus::Loading;
    let refuse = |status, found: &ActivationEvidence| {
        plan_activation(&request(), status, found).unwrap_err()
    };
    assert_eq!(
        refuse(SnapshotGroupStatus::Active, &evidence(pending(None))),
        SnapshotTargetError::CorruptSnapshotGroupManifest(Uuid::from_u128(1))
    );
    assert_eq!(
        refuse(SnapshotGroupStatus::Active, &evidence(active())),
        SnapshotTargetError::ActiveCheckpointIncomplete(1)
    );
    let mut found = evidence(pending(Some(old.clone())));
    found.checkpoints = reached(150);
    assert_eq!(
        refuse(loading, &found),
        SnapshotTargetError::Checkpoint(CheckpointError::LsnRegression {
            current: PgLsn::new(150),
            proposed: PgLsn::new(100),
        })
    );
    let mut found = evidence(pending(Some(old.clone())));
    found.replaced_quarantines = vec![RelationState::Unmanaged];
    assert_eq!(
        refuse(loading, &found),
        SnapshotTargetError::QuarantineNameConflict(
            quarantine_name(&name("items"), &old).unwrap().display()
        )
    );
    let mut found = evidence(pending(None));
    found.stale_quarantines = vec![RelationState::Unmanaged];
    let retired = quarantine_name(&name("gone"), &found.stale[0].record).unwrap();
    assert_eq!(
        refuse(loading, &found),
        SnapshotTargetError::QuarantineNameConflict(retired.display())
    );
    let mut found = evidence(pending(None));
    found.stale[0].record.fencing_token = 13;
    assert!(matches!(
        refuse(loading, &found),
        SnapshotTargetError::ManagedByNewerFence { current: 12, actual: 13, .. }
    ));
}

#[test]
fn quarantines_never_collide() {
    let old = record(ManagedTableState::Active, 6, "sha256:old");
    let taken = quarantine_name(&name("items"), &old).unwrap();
    let other = SnapshotActivationTable {
        target: taken.clone(),
        shadow: name("other_shadow"),
        source_relation_id: 43,
        ..table()
    };
    let states = [pending(Some(old.clone())), pending(None)];
    let vacant = [RelationState::Vacant, RelationState::Vacant];
    let tables = [table(), other];
    let mut reserved = ReservedNames::new(&tables, &[]);
    assert_eq!(
        plan_replaced(&tables, &states, &vacant, &mut reserved),
        Err(SnapshotTargetError::QuarantineNameConflict(taken.display()))
    );
    let stale = [StaleActiveTable { target: name("items"), record: old }];
    let mut reserved = ReservedNames::new(&[table()], &[]);
    assert!(reserved.reserve(&taken));
    assert_eq!(
        plan_stale(&stale, &vacant[..1], 12, &mut reserved),
        Err(SnapshotTargetError::QuarantineNameConflict(taken.display()))
    );
}

#[test]
fn tables_are_classified_in_the_order_of_the_manifest() {
    let loaded = RelationState::Managed(record(ManagedTableState::Shadow, 7, "sha256:new"));
    let promoted = RelationState::Managed(record(ManagedTableState::Active, 7, "sha256:new"));
    let waiting = TableRelations { target: RelationState::Vacant, shadow: loaded };
    let done = TableRelations { target: promoted, shadow: RelationState::Vacant };
    let absent = TableRelations { target: RelationState::Vacant, shadow: RelationState::Vacant };
    assert_eq!(classify_tables(&request(), &[waiting.clone()]), Ok(vec![pending(None)]));
    assert_eq!(
        judge_resumed_tables(&request(), &[waiting]),
        Err(SnapshotTargetError::MixedActivationState)
    );
    assert_eq!(judge_resumed_tables(&request(), &[done]), Ok(vec![active()]));
    let incomplete = SnapshotTargetError::IncompleteShadow(name("items_shadow").display());
    assert_eq!(
        classify_tables(&request(), &[absent.clone()]).as_ref(),
        Err(&incomplete)
    );
    assert_eq!(judge_resumed_tables(&request(), &[absent]), Err(incomplete));
}

#[test]
fn every_node_boundary_is_checked() {
    let boundaries = request().initial_checkpoints;
    assert_eq!(judge_boundaries(true, &reached(100), &boundaries), Ok(()));
    assert_eq!(
        judge_boundaries(true, &reached(99), &boundaries),
        Err(SnapshotTargetError::ActiveCheckpointIncomplete(1))
    );
    assert_eq!(judge_boundaries(false, &reached(99), &boundaries), Ok(()));
    assert_eq!(judge_boundaries(false, &[None], &boundaries), Ok(()));
    assert!(judge_boundaries(false, &reached(101), &boundaries).is_err());
}
