use target_cloudberry::checkpoint::PipelineFence;
use target_cloudberry::ident::{PipelineId, Uuid};
use target_cloudberry::lsn::PgLsn;
use target_cloudberry::table_transition::{validate_failure_reason, validate_key, validate_record, TableTransitionAction, TableTransitionError, TableTransitionKey, TableTransitionRecord, TableTransitionState};
use target_cloudberry::table_transition::{
    check_advance_request, check_listed_fences, check_snapshot_request, ensure_one, judge_advance,
    judge_recording, judge_snapshot_start, record_key, transition_from_row, SnapshotStart,
    TableTransition, TableTransitionRecordOutcome, TransitionRow,
};

fn random_id() -> Uuid {
    Uuid::from_u128(uuid::Uuid::now_v7().as_u128())
}

fn random_pipeline() -> PipelineId {
    PipelineId::from_uuid(random_id())
}

#[test]
fn action_specific_state_machines_are_fail_closed() {

    assert!(TableTransitionAction::Noop.can_transition(TableTransitionState::Pending, TableTransitionState::Completed));
    assert!(!TableTransitionAction::Noop.can_transition(TableTransitionState::Pending, TableTransitionState::Applying));
    assert!(TableTransitionAction::Online.can_transition(TableTransitionState::Pending, TableTransitionState::Applying));
    assert!(TableTransitionAction::Online.can_transition(TableTransitionState::Applying, TableTransitionState::Completed));
    assert!(!TableTransitionAction::Online.can_transition(TableTransitionState::Pending, TableTransitionState::Completed));
    for action in [TableTransitionAction::Reload, TableTransitionAction::Add] {
        assert!(action.can_transition(TableTransitionState::Pending, TableTransitionState::Snapshotting));
        assert!(action.can_transition(TableTransitionState::Snapshotting, TableTransitionState::CatchingUp));
        assert!(action.can_transition(TableTransitionState::CatchingUp, TableTransitionState::CutoverPending));
        assert!(action.can_transition(TableTransitionState::CutoverPending, TableTransitionState::Completed));
        assert!(!action.can_transition(TableTransitionState::Snapshotting, TableTransitionState::Completed));
    }
    assert!(TableTransitionAction::Drop.can_transition(TableTransitionState::Pending, TableTransitionState::CutoverPending));
    assert!(TableTransitionAction::Drop.can_transition(TableTransitionState::CutoverPending, TableTransitionState::Completed));
    assert!(TableTransitionAction::Reload.can_transition(TableTransitionState::Snapshotting, TableTransitionState::Blocked));
    assert!(TableTransitionAction::Reload.can_transition(TableTransitionState::Blocked, TableTransitionState::Snapshotting));
    assert!(!TableTransitionAction::Reload.can_transition(TableTransitionState::Blocked, TableTransitionState::Blocked));
    assert!(!TableTransitionAction::Reload.can_transition(TableTransitionState::Completed, TableTransitionState::Blocked));
}

#[test]
fn failure_reason_matches_only_the_retry_state() {
    assert!(validate_failure_reason(TableTransitionState::Blocked, Some("retry")).is_ok());
    assert!(validate_failure_reason(TableTransitionState::Blocked, None).is_err());
    assert!(validate_failure_reason(TableTransitionState::Completed, Some("stale")).is_err());
    assert!(validate_failure_reason(TableTransitionState::Completed, None).is_ok());
}

#[test]
fn transition_keys_reject_zero_relations() {
    let key = TableTransitionKey {
        pipeline_id: random_pipeline(),
        source_lsn: PgLsn::new(1),
        source_xid: 1,
        source_relation_id: 0,
    };
    assert!(matches!(
        validate_key(key),
        Err(TableTransitionError::InvalidSourceRelationId)
    ));
}

#[test]
fn record_generations_match_action_lifecycle() {
    let fence = PipelineFence {
        pipeline_id: random_pipeline(),
        topology_generation: 3,
        fencing_token: 7,
    };
    let mut record = TableTransitionRecord {
        event_id: random_id(),
        fence,
        source_lsn: PgLsn::new(10),
        source_xid: 11,
        source_relation_id: 42,
        action: TableTransitionAction::Reload,
        plan: "{\"action\": \"reload\"}".to_owned(),
        barrier_lsn: PgLsn::new(10),
        active_table_generation: Some(4),
        pending_table_generation: Some(5),
        snapshot_group_id: None,
    };
    assert!(validate_record(&record).is_ok());
    record.pending_table_generation = Some(6);
    assert!(matches!(
        validate_record(&record),
        Err(TableTransitionError::ReplayMismatch("table_generations"))
    ));
    record.action = TableTransitionAction::Add;
    record.active_table_generation = None;
    record.pending_table_generation = Some(1);
    assert!(validate_record(&record).is_ok());
}

fn reload_record() -> TableTransitionRecord {
    TableTransitionRecord {
        event_id: Uuid::from_u128(1),
        fence: PipelineFence {
            pipeline_id: PipelineId::from_uuid(Uuid::from_u128(2)),
            topology_generation: 3,
            fencing_token: 7,
        },
        source_lsn: PgLsn::new(0x10),
        source_xid: 11,
        source_relation_id: 42,
        action: TableTransitionAction::Reload,
        plan: "{\"action\": \"reload\", \"steps\": [1, 2]}".to_owned(),
        barrier_lsn: PgLsn::new(0x20),
        active_table_generation: Some(4),
        pending_table_generation: Some(5),
        snapshot_group_id: None,
    }
}

fn transition_row() -> TransitionRow {
    TransitionRow {
        event_id: Uuid::from_u128(1),
        pipeline_id: Uuid::from_u128(2),
        topology_generation: 3,
        source_lsn: "0/10".to_owned(),
        source_xid: 11,
        source_relation_id: 42,
        action: "reload".to_owned(),
        plan: "{\"steps\":[1,2],\"action\":\"reload\"}".to_owned(),
        barrier_lsn: "0/20".to_owned(),
        active_table_generation: Some(4),
        pending_table_generation: Some(5),
        snapshot_group_id: None,
        state: "pending".to_owned(),
        failure_reason: None,
        fencing_token: 7,
    }
}

fn transition() -> TableTransition {
    transition_from_row(transition_row()).unwrap()
}

#[test]
fn plans_are_compared_as_json() {
    let record = reload_record();
    assert_eq!(
        judge_recording(None, &record),
        Ok(TableTransitionRecordOutcome::Inserted)
    );
    // The stored plan has another order of keys and no blanks.
    assert_eq!(
        judge_recording(Some(&transition()), &record),
        Ok(TableTransitionRecordOutcome::AlreadyRecorded)
    );
    let mut other = record.clone();
    other.plan = "{\"action\": \"reload\", \"steps\": [2, 1]}".to_owned();
    assert_eq!(
        judge_recording(Some(&transition()), &other),
        Err(TableTransitionError::ReplayMismatch("plan"))
    );
    for plan in ["null", " null "] {
        let mut empty = record.clone();
        empty.plan = plan.to_owned();
        assert_eq!(validate_record(&empty), Err(TableTransitionError::InvalidPlan));
    }
}

#[test]
fn recording_adopts_older_fences_only() {
    let record = reload_record();
    let mut older = transition();
    older.fencing_token = 6;
    assert_eq!(
        judge_recording(Some(&older), &record),
        Ok(TableTransitionRecordOutcome::Adopted)
    );
    older.state = TableTransitionState::Completed;
    assert_eq!(
        judge_recording(Some(&older), &record),
        Ok(TableTransitionRecordOutcome::AlreadyRecorded)
    );
    let mut newer = transition();
    newer.fencing_token = 8;
    assert_eq!(
        judge_recording(Some(&newer), &record),
        Err(TableTransitionError::NewerStoredFence { stored: 8, active: 7 })
    );
    assert_eq!(check_listed_fences(&[transition()], record.fence), Ok(()));
    assert_eq!(
        check_listed_fences(&[transition(), newer], record.fence),
        Err(TableTransitionError::NewerStoredFence { stored: 8, active: 7 })
    );
    assert_eq!(record_key(&record), transition().key);
    assert_eq!(ensure_one(2), Err(TableTransitionError::UnexpectedWriteCount(2)));
}

#[test]
fn records_are_validated_field_by_field() {
    let faults: [(fn(&mut TableTransitionRecord), TableTransitionError); 7] = [
        (|record| record.event_id = Uuid::nil(), TableTransitionError::InvalidEventId),
        (
            |record| record.source_relation_id = 0,
            TableTransitionError::InvalidSourceRelationId,
        ),
        (
            |record| record.snapshot_group_id = Some(Uuid::from_u128(9)),
            TableTransitionError::UnexpectedSnapshotGroupAssignment,
        ),
        (
            |record| record.pending_table_generation = None,
            TableTransitionError::ReplayMismatch("table_generations"),
        ),
        (
            |record| record.fence.topology_generation = u64::MAX,
            TableTransitionError::GenerationOutOfRange { field: "topology", value: u64::MAX },
        ),
        (
            |record| record.source_xid = u64::MAX,
            TableTransitionError::XidOutOfRange(u64::MAX),
        ),
        (
            |record| {
                record.active_table_generation = Some(u64::MAX - 1);
                record.pending_table_generation = Some(u64::MAX);
            },
            TableTransitionError::GenerationOutOfRange { field: "active", value: u64::MAX - 1 },
        ),
    ];
    for (spoil, error) in faults {
        let mut spoilt = reload_record();
        spoil(&mut spoilt);
        assert_eq!(validate_record(&spoilt), Err(error));
    }
}

#[test]
fn a_transition_advances_from_its_expected_state() {
    let fence = reload_record().fence;
    let key = transition().key;
    let (pending, snapshotting) =
        (TableTransitionState::Pending, TableTransitionState::Snapshotting);
    assert_eq!(check_advance_request(fence, key, snapshotting, None), Ok(()));
    assert_eq!(
        check_advance_request(fence, key, TableTransitionState::Blocked, None),
        Err(TableTransitionError::MissingFailureReason)
    );
    assert_eq!(
        check_advance_request(fence, key, snapshotting, Some("why")),
        Err(TableTransitionError::UnexpectedFailureReason)
    );
    let other = PipelineFence {
        pipeline_id: PipelineId::from_uuid(Uuid::from_u128(3)),
        ..fence
    };
    assert_eq!(
        check_advance_request(other, key, snapshotting, None),
        Err(TableTransitionError::PipelineMismatch {
            key: key.pipeline_id,
            fence: other.pipeline_id
        })
    );

    let current = transition();
    assert_eq!(judge_advance(Some(&current), fence, pending, snapshotting), Ok(()));
    assert_eq!(
        judge_advance(None, fence, pending, snapshotting),
        Err(TableTransitionError::NotFound)
    );
    assert_eq!(
        judge_advance(Some(&current), PipelineFence { fencing_token: 8, ..fence }, pending, snapshotting),
        Err(TableTransitionError::FenceMismatch { stored: 7, active: 8 })
    );
    assert_eq!(
        judge_advance(
            Some(&current),
            PipelineFence { topology_generation: 4, ..fence },
            pending,
            snapshotting
        ),
        Err(TableTransitionError::TopologyMismatch { stored: 3, active: 4 })
    );
    assert_eq!(
        judge_advance(Some(&current), fence, snapshotting, pending),
        Err(TableTransitionError::StateMismatch { expected: "snapshotting", actual: "pending" })
    );
    assert_eq!(
        judge_advance(Some(&current), fence, pending, TableTransitionState::Completed),
        Err(TableTransitionError::IllegalStateTransition {
            action: "reload",
            from: "pending",
            to: "completed"
        })
    );
}

#[test]
fn a_snapshot_is_assigned_once() {
    let fence = reload_record().fence;
    let group = Uuid::from_u128(77);
    let pending = TableTransitionState::Pending;
    assert_eq!(check_snapshot_request(fence, transition().key, group), Ok(()));
    assert_eq!(
        check_snapshot_request(fence, transition().key, Uuid::nil()),
        Err(TableTransitionError::InvalidSnapshotGroupId)
    );
    let Ok(SnapshotStart::Assign(started)) =
        judge_snapshot_start(Some(transition()), fence, pending, group)
    else {
        panic!("a pending reload starts");
    };
    assert_eq!(started.state, TableTransitionState::Snapshotting);
    assert_eq!(started.snapshot_group_id, Some(group));
    assert_eq!(
        judge_snapshot_start(Some(started.clone()), fence, pending, group),
        Ok(SnapshotStart::AlreadyStarted(started.clone()))
    );
    assert_eq!(
        judge_snapshot_start(Some(started), fence, pending, Uuid::from_u128(78)),
        Err(TableTransitionError::StateMismatch { expected: "pending", actual: "snapshotting" })
    );
    let mut assigned = transition();
    assigned.snapshot_group_id = Some(Uuid::from_u128(78));
    assert_eq!(
        judge_snapshot_start(Some(assigned), fence, pending, group),
        Err(TableTransitionError::ReplayMismatch("snapshot_group_id"))
    );
    let mut online = transition();
    online.action = TableTransitionAction::Online;
    assert_eq!(
        judge_snapshot_start(Some(online), fence, pending, group),
        Err(TableTransitionError::SnapshotUnsupportedAction("online"))
    );
    let mut ungenerated = transition();
    ungenerated.pending_table_generation = None;
    assert_eq!(
        judge_snapshot_start(Some(ungenerated), fence, pending, group),
        Err(TableTransitionError::MissingPendingGeneration)
    );
}

#[test]
fn stored_transitions_are_read_back_or_refused() {
    let stored = transition();
    assert_eq!(stored.key.source_lsn, PgLsn::new(0x10));
    assert_eq!(stored.action, TableTransitionAction::Reload);
    assert_eq!(stored.barrier_lsn, PgLsn::new(0x20));
    let nil = "00000000-0000-0000-0000-000000000000";
    let faults: [(fn(&mut TransitionRow), &str, &str); 10] = [
        (|row| row.source_lsn = "x".to_owned(), "source_lsn", "x"),
        (|row| row.source_xid = -1, "source_xid", "-1"),
        (|row| row.source_relation_id = -1, "source_relation_id", "-1"),
        (|row| row.source_relation_id = 1 << 32, "source_relation_id", "out of range"),
        (|row| row.snapshot_group_id = Some(Uuid::nil()), "snapshot_group_id", nil),
        (|row| row.topology_generation = -3, "topology_generation", "-3"),
        (|row| row.action = "copy".to_owned(), "action", "copy"),
        (|row| row.barrier_lsn = "1".to_owned(), "barrier_lsn", "1"),
        (|row| row.active_table_generation = Some(-4), "active_table_generation", "-4"),
        (|row| row.state = "stuck".to_owned(), "state", "stuck"),
    ];
    for (spoil, field, value) in faults {
        let mut spoilt = transition_row();
        spoil(&mut spoilt);
        assert_eq!(
            transition_from_row(spoilt),
            Err(TableTransitionError::InvalidPersistedValue {
                field,
                value: value.to_owned()
            })
        );
    }
}
