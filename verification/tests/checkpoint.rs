use target_cloudberry::checkpoint::{check_advance, AdvanceOutcome, CheckpointError, CheckpointKey, NodeCheckpoint, StoredNodeCheckpoint, INSERT_NODE_CHECKPOINT_SQL, LOCK_PIPELINE_FENCE_SQL};
use target_cloudberry::ident::{PipelineId, Uuid};
use target_cloudberry::lsn::PgLsn;
use target_cloudberry::checkpoint::{
    check_proposal, checkpoint_from_row, checkpoint_reached, database_generation, ensure_one_row,
    plan_advance, refused_fence, validate_checkpoint, validate_fence, verify_locked_fence,
    CheckpointRow, CheckpointWrite, FenceRow, PipelineFence,
};

fn checkpoint(lsn: u64) -> NodeCheckpoint {
    NodeCheckpoint {
        key: CheckpointKey {
            pipeline_id: PipelineId::from_uuid(Uuid::nil()),
            topology_generation: 7,
            node_id: 2,
        },
        system_identifier: u64::MAX,
        timeline: 3,
        slot_name: "pg2cb_worker_2".into(),
        applied_lsn: PgLsn::new(lsn),
    }
}

fn stored(lsn: u64) -> StoredNodeCheckpoint {
    StoredNodeCheckpoint {
        checkpoint: checkpoint(lsn),
        fencing_token: 11,
    }
}

#[test]
fn checkpoint_is_monotonic_per_node_and_generation() {
    assert_eq!(
        check_advance(None, &checkpoint(10)).unwrap(),
        AdvanceOutcome::Inserted
    );
    assert_eq!(
        check_advance(Some(&stored(10)), &checkpoint(10)).unwrap(),
        AdvanceOutcome::Unchanged
    );
    assert_eq!(
        check_advance(Some(&stored(10)), &checkpoint(12)).unwrap(),
        AdvanceOutcome::Advanced {
            previous_lsn: PgLsn::new(10)
        }
    );
    assert!(matches!(
        check_advance(Some(&stored(10)), &checkpoint(9)),
        Err(CheckpointError::LsnRegression { .. })
    ));
}

#[test]
fn identity_change_requires_a_new_topology_generation() {
    let current = stored(10);
    let mut proposed = checkpoint(11);
    proposed.timeline += 1;
    assert!(matches!(
        check_advance(Some(&current), &proposed),
        Err(CheckpointError::SourceIdentityChanged)
    ));
}

#[test]
fn validates_values_before_database_io() {
    let mut invalid = checkpoint(1);
    invalid.timeline = 0;
    assert!(matches!(
        check_advance(None, &invalid),
        Err(CheckpointError::InvalidTimeline)
    ));
    invalid.timeline = 1;
    invalid.slot_name = "bad\0slot".into();
    assert!(matches!(
        check_advance(None, &invalid),
        Err(CheckpointError::InvalidSlotName)
    ));
}

#[test]
fn sql_uses_native_lsn_and_lossless_system_identifier_types() {
    assert!(INSERT_NODE_CHECKPOINT_SQL.contains("$4::numeric"));
    assert!(INSERT_NODE_CHECKPOINT_SQL.contains("$7::pg_lsn"));
    assert!(LOCK_PIPELINE_FENCE_SQL.ends_with("FOR UPDATE"));
}

fn fence(generation: u64, token: i64) -> PipelineFence {
    PipelineFence {
        pipeline_id: PipelineId::from_uuid(Uuid::nil()),
        topology_generation: generation,
        fencing_token: token,
    }
}

fn fence_row(generation: i64, token: i64) -> FenceRow {
    FenceRow {
        topology_generation: generation,
        fencing_token: token,
    }
}

fn row() -> CheckpointRow {
    CheckpointRow {
        pipeline_id: Uuid::nil(),
        topology_generation: 7,
        node_id: 2,
        system_identifier: u64::MAX.to_string(),
        timeline: 3,
        slot_name: "pg2cb_worker_2".to_owned(),
        applied_lsn: "0/A".to_owned(),
        fencing_token: 11,
    }
}

#[test]
fn fences_fit_the_database_and_hold_alone() {
    assert_eq!(validate_fence(fence(7, 1)), Ok(7));
    assert_eq!(validate_fence(fence(7, 0)), Err(CheckpointError::InvalidFencingToken));
    assert_eq!(
        validate_fence(fence(1 << 63, 0)),
        Err(CheckpointError::GenerationOutOfRange(1 << 63))
    );
    assert_eq!(database_generation(i64::MAX as u64), Ok(i64::MAX));

    assert_eq!(verify_locked_fence(fence(7, 11), Some(fence_row(7, 11))), Ok(()));
    assert_eq!(verify_locked_fence(fence(7, 11), None), Err(CheckpointError::MissingFence));
    for (generation, token) in [(8, 11), (7, 12), (7, 10)] {
        let stale = CheckpointError::StaleFence {
            expected_generation: 7,
            expected_token: 11,
            actual_generation: generation as u64,
            actual_token: token,
        };
        let stored = fence_row(generation, token);
        assert_eq!(refused_fence(fence(7, 11), stored), stale);
        assert_eq!(verify_locked_fence(fence(7, 11), Some(stored)), Err(stale));
    }
    assert_eq!(
        verify_locked_fence(fence(7, 11), Some(fence_row(-1, 11))),
        Err(CheckpointError::InvalidPersistedValue {
            field: "topology_generation",
            value: "-1".to_owned()
        })
    );
}

#[test]
fn a_proposal_belongs_to_its_fence() {
    assert_eq!(check_proposal(fence(7, 11), &checkpoint(10)), Ok(()));
    assert_eq!(
        check_proposal(fence(8, 11), &checkpoint(10)),
        Err(CheckpointError::FenceKeyMismatch)
    );
    let mut unnamed = checkpoint(10);
    unnamed.slot_name.clear();
    assert_eq!(validate_checkpoint(&unnamed), Err(CheckpointError::InvalidSlotName));
    assert_eq!(
        check_proposal(fence(8, 11), &unnamed),
        Err(CheckpointError::InvalidSlotName)
    );
}

#[test]
fn advances_are_written_whole() {
    let (outcome, write) = plan_advance(fence(7, 12), None, &checkpoint(10)).unwrap();
    assert_eq!(outcome, AdvanceOutcome::Inserted);
    assert_eq!(
        write,
        CheckpointWrite::Insert {
            generation: 7,
            node_id: 2,
            system_identifier: "18446744073709551615".to_owned(),
            timeline: 3,
            slot_name: "pg2cb_worker_2".to_owned(),
            applied_lsn: "0/A".to_owned(),
            fencing_token: 12,
        }
    );
    let (outcome, write) = plan_advance(fence(7, 12), Some(&stored(10)), &checkpoint(0x1F)).unwrap();
    assert_eq!(outcome, AdvanceOutcome::Advanced { previous_lsn: PgLsn::new(10) });
    assert_eq!(
        write,
        CheckpointWrite::Update {
            generation: 7,
            node_id: 2,
            applied_lsn: "0/1F".to_owned(),
            fencing_token: 12,
        }
    );
    assert_eq!(
        plan_advance(fence(7, 12), Some(&stored(10)), &checkpoint(9)),
        Err(CheckpointError::LsnRegression {
            current: PgLsn::new(10),
            proposed: PgLsn::new(9)
        })
    );
}

#[test]
fn a_boundary_is_reached_by_its_own_source_alone() {
    assert_eq!(checkpoint_reached(None, &checkpoint(10)), Ok(false));
    assert_eq!(checkpoint_reached(Some(&stored(9)), &checkpoint(10)), Ok(false));
    assert_eq!(checkpoint_reached(Some(&stored(10)), &checkpoint(10)), Ok(true));
    assert_eq!(checkpoint_reached(Some(&stored(11)), &checkpoint(10)), Ok(true));
    let mut other = checkpoint(10);
    other.system_identifier = 1;
    assert_eq!(
        checkpoint_reached(Some(&stored(11)), &other),
        Err(CheckpointError::SourceIdentityChanged)
    );
}

#[test]
fn stored_checkpoints_are_read_back_or_refused() {
    assert_eq!(checkpoint_from_row(row()), Ok(stored(10)));
    let faults: [(fn(&mut CheckpointRow), &str, &str); 4] = [
        (|row| row.topology_generation = -7, "topology_generation", "-7"),
        (|row| row.system_identifier = "12a".to_owned(), "system_identifier", "12a"),
        (|row| row.timeline = 1 << 32, "timeline", "4294967296"),
        (|row| row.applied_lsn = "10".to_owned(), "applied_lsn", "10"),
    ];
    for (spoil, field, value) in faults {
        let mut spoilt = row();
        spoil(&mut spoilt);
        assert_eq!(
            checkpoint_from_row(spoilt),
            Err(CheckpointError::InvalidPersistedValue {
                field,
                value: value.to_owned()
            })
        );
    }
    assert_eq!(ensure_one_row(1), Ok(()));
    assert_eq!(ensure_one_row(2), Err(CheckpointError::UnexpectedWriteCount(2)));
}
