use target_cloudberry::schema_event::{database_generation, database_xid, SchemaEventError, SchemaEventState, ADVANCE_STATE_SQL, INSERT_SCHEMA_EVENT_SQL, LIST_UNFINISHED_SCHEMA_EVENTS_SQL};
use target_cloudberry::checkpoint::PipelineFence;
use target_cloudberry::ident::{PipelineId, Uuid};
use target_cloudberry::lsn::PgLsn;
use target_cloudberry::schema_event::{
    advance_parameters, ensure_event_advanced, record_outcome, record_parameters,
    schema_event_from_row, RecordOutcome, SchemaEvent, SchemaEventRecord, SchemaEventRow,
};

#[test]
fn state_string_round_trips() {
    for state in [
        SchemaEventState::Pending,
        SchemaEventState::InTransition,
        SchemaEventState::Completed,
        SchemaEventState::Failed,
    ] {
        assert_eq!(SchemaEventState::from_str(state.as_str()).unwrap(), state);
    }
    assert!(matches!(
        SchemaEventState::from_str("bogus"),
        Err(SchemaEventError::InvalidPersistedValue { field: "state", .. })
    ));
}

#[test]
fn only_forward_transitions_are_legal() {
    let (pending, in_transition, completed, failed) = (
        SchemaEventState::Pending,
        SchemaEventState::InTransition,
        SchemaEventState::Completed,
        SchemaEventState::Failed,
    );
    // Legal forward moves.
    assert!(pending.can_transition_to(in_transition));
    assert!(pending.can_transition_to(completed));
    assert!(pending.can_transition_to(failed));
    assert!(in_transition.can_transition_to(completed));
    assert!(in_transition.can_transition_to(failed));
    // Terminal states never move.
    assert!(!completed.can_transition_to(in_transition));
    assert!(!completed.can_transition_to(failed));
    assert!(!failed.can_transition_to(completed));
    // No backward move and no self-loop.
    assert!(!in_transition.can_transition_to(pending));
    assert!(!pending.can_transition_to(pending));
}

#[test]
fn out_of_range_generation_and_xid_are_rejected() {
    assert!(matches!(
        database_generation(u64::MAX),
        Err(SchemaEventError::GenerationOutOfRange(_))
    ));
    assert!(matches!(
        database_xid(u64::MAX),
        Err(SchemaEventError::XidOutOfRange(_))
    ));
    assert_eq!(database_generation(7).unwrap(), 7);
    assert_eq!(database_xid(42).unwrap(), 42);
}

#[test]
fn insert_sql_is_idempotent_on_source_identity() {
    assert!(INSERT_SCHEMA_EVENT_SQL
        .contains("ON CONFLICT (pipeline_id, source_lsn, source_xid) DO NOTHING"));
    // The list query must be ordered so restart replay is deterministic.
    assert!(LIST_UNFINISHED_SCHEMA_EVENTS_SQL.contains("ORDER BY source_lsn, source_xid"));
    assert!(LIST_UNFINISHED_SCHEMA_EVENTS_SQL.contains("state IN ('pending', 'in_transition')"));
    // The advance guard requires the expected prior state.
    assert!(ADVANCE_STATE_SQL.contains("AND state = $6"));
}

fn record() -> SchemaEventRecord {
    SchemaEventRecord {
        event_id: Uuid::from_u128(1),
        fence: PipelineFence {
            pipeline_id: PipelineId::from_uuid(Uuid::from_u128(2)),
            topology_generation: 3,
            fencing_token: 7,
        },
        source_lsn: PgLsn::new(0x10),
        source_xid: 11,
        command_tag: "ALTER TABLE".to_owned(),
        schema_fingerprint: "sha256:v2".to_owned(),
        transitions: "[]".to_owned(),
    }
}

fn event_row() -> SchemaEventRow {
    SchemaEventRow {
        event_id: Uuid::from_u128(1),
        pipeline_id: Uuid::from_u128(2),
        topology_generation: 3,
        source_lsn: "0/10".to_owned(),
        source_xid: 11,
        command_tag: "ALTER TABLE".to_owned(),
        schema_fingerprint: "sha256:v2".to_owned(),
        transitions: "[]".to_owned(),
        state: "pending".to_owned(),
        failure_reason: None,
        fencing_token: 7,
    }
}

#[test]
fn an_event_is_recorded_once() {
    let parameters = record_parameters(&record()).unwrap();
    assert_eq!(parameters.topology_generation, 3);
    assert_eq!(parameters.source_lsn, "0/10");
    assert_eq!(parameters.source_xid, 11);
    let mut unowned = record();
    unowned.fence.fencing_token = 0;
    assert_eq!(record_parameters(&unowned), Err(SchemaEventError::InvalidFencingToken));
    let mut untagged = record();
    untagged.command_tag.clear();
    assert_eq!(record_parameters(&untagged), Err(SchemaEventError::InvalidCommandTag));
    assert_eq!(record_outcome(1), RecordOutcome::Inserted);
    assert_eq!(record_outcome(0), RecordOutcome::AlreadyRecorded);
}

#[test]
fn a_failed_event_always_has_a_reason() {
    let failed = |reason| {
        advance_parameters(SchemaEventState::InTransition, SchemaEventState::Failed, reason, 11)
            .unwrap()
            .failure_reason
    };
    assert_eq!(failed(Some("broken")), Some("broken".to_owned()));
    assert_eq!(failed(None), Some("unspecified transition failure".to_owned()));
    assert_eq!(
        advance_parameters(
            SchemaEventState::Pending,
            SchemaEventState::Completed,
            Some("ignored"),
            11
        )
        .unwrap()
        .failure_reason,
        None
    );
    assert_eq!(
        advance_parameters(SchemaEventState::Completed, SchemaEventState::Pending, None, 11),
        Err(SchemaEventError::IllegalTransition { from: "completed", to: "pending" })
    );
    assert_eq!(ensure_event_advanced(1), Ok(()));
    assert_eq!(ensure_event_advanced(0), Err(SchemaEventError::UnexpectedWriteCount(0)));
}

#[test]
fn recorded_events_are_read_back_or_refused() {
    let expected = record();
    assert_eq!(
        schema_event_from_row(event_row()),
        Ok(SchemaEvent {
            event_id: expected.event_id,
            pipeline_id: expected.fence.pipeline_id,
            topology_generation: 3,
            source_lsn: expected.source_lsn,
            source_xid: 11,
            command_tag: expected.command_tag,
            schema_fingerprint: expected.schema_fingerprint,
            transitions: expected.transitions,
            state: SchemaEventState::Pending,
            failure_reason: None,
            fencing_token: 7,
        })
    );
    let faults: [(fn(&mut SchemaEventRow), &str, &str); 4] = [
        (|row| row.source_lsn = "10".to_owned(), "source_lsn", "10"),
        (|row| row.topology_generation = -3, "topology_generation", "-3"),
        (|row| row.source_xid = -1, "source_xid", "-1"),
        (|row| row.state = "done".to_owned(), "state", "done"),
    ];
    for (spoil, field, value) in faults {
        let mut spoilt = event_row();
        spoil(&mut spoilt);
        assert_eq!(
            schema_event_from_row(spoilt),
            Err(SchemaEventError::InvalidPersistedValue {
                field,
                value: value.to_owned()
            })
        );
    }
}
