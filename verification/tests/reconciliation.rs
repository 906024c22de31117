use target_cloudberry::checkpoint::{CheckpointKey, NodeCheckpoint, PipelineFence};
use target_cloudberry::ident::{PipelineId, Uuid};
use target_cloudberry::lsn::PgLsn;
use target_cloudberry::reconciliation::{require_transition, startup_recovery_from_stored, validate_checkpoint_alignment, validate_reason, validate_reload_request, validate_run, PreparedScanCompletion, ReconciliationRunIdentity, ReconciliationScanCompletion, ReconciliationStartupRecovery, ReconciliationState, ReconciliationStateError, ReconciliationStats, StoredReconciliationState, Timestamp, COMPLETE_MATCHED_SQL, COMPLETE_RELOADED_SQL, COMPLETE_RELOAD_PENDING_SQL, FAIL_RECONCILIATION_SQL, INSERT_RECONCILIATION_SQL, MARK_SCANNING_SQL, RECONCILIATION_DIGEST_BYTES, RECONCILIATION_REASON_MAX_BYTES, SUPERSEDE_RECONCILIATION_SQL};
use target_cloudberry::snapshot::{SnapshotActivationRequest, SnapshotActivationTable};
use target_cloudberry::source::{QualifiedName, POSTGRES_IDENTIFIER_MAX_BYTES};
use target_cloudberry::checkpoint::CheckpointError;
use target_cloudberry::reconciliation::{
    database_statistic, ensure_not_newer_fence, ensure_one_row, is_generated_slot_name,
    judge_begin, judge_completion, judge_failure, judge_reload, judge_reload_relation,
    judge_reload_state, judge_reload_target, judge_scanning, judge_supersede,
    reconciliation_from_row, validate_reload_target, BeginReconciliationOutcome, BeginStep, FailureStep, ReconciliationRow,
    ReconciliationTransitionOutcome, ReloadTargetState, StatsRow,
};
use target_cloudberry::snapshot::{
    ManagedTableRecord, ManagedTableState, RelationState, SnapshotActivationDisposition,
    SnapshotTargetError,
};

fn random_id() -> Uuid {
    Uuid::from_u128(uuid::Uuid::now_v7().as_u128())
}

fn random_pipeline() -> PipelineId {
    PipelineId::from_uuid(random_id())
}

fn run() -> ReconciliationRunIdentity {
    ReconciliationRunIdentity {
        fence: PipelineFence {
            pipeline_id: PipelineId::from_uuid(Uuid::from_u128(1)),
            topology_generation: 3,
            fencing_token: 7,
        },
        source_relation_id: 42,
        target: QualifiedName::new("analytics", "orders").unwrap(),
        target_relation_oid: 17_001,
        table_generation: 9,
        schema_fingerprint: "sha256:orders-v9".to_owned(),
        run_id: Uuid::from_u128(2),
        source_node_id: 0,
        temporary_slot_name: "pg2cb_reconcile_orders_2".to_owned(),
        source_system_identifier: 7_123_456_789,
        source_timeline: 1,
        source_snapshot_lsn: PgLsn::new(0x100),
    }
}

fn stats(byte: u8) -> ReconciliationStats {
    ReconciliationStats {
        rows: 12,
        bytes: 240,
        digest: [byte; RECONCILIATION_DIGEST_BYTES],
    }
}

fn stored(state: ReconciliationState) -> StoredReconciliationState {
    StoredReconciliationState {
        run: run(),
        state,
        target_checkpoint_lsn: None,
        source: None,
        target: None,
        started_at: Timestamp { micros: 0 },
        completed_at: None,
        last_consistent_at: None,
        last_mismatch_at: None,
        next_due_at: None,
        failure_reason: None,
        consecutive_failures: 0,
    }
}

fn reload_request() -> SnapshotActivationRequest {
    let run = run();
    SnapshotActivationRequest {
        fence: run.fence,
        snapshot_group_id: Uuid::from_u128(3),
        tables: vec![SnapshotActivationTable {
            target: run.target.clone(),
            shadow: QualifiedName::new("analytics", "orders_reload").unwrap(),
            source_relation_id: run.source_relation_id,
            table_generation: run.table_generation + 1,
            schema_fingerprint: run.schema_fingerprint.clone(),
        }],
        initial_checkpoints: vec![NodeCheckpoint {
            key: CheckpointKey {
                pipeline_id: run.fence.pipeline_id,
                topology_generation: run.fence.topology_generation,
                node_id: run.source_node_id,
            },
            system_identifier: run.source_system_identifier,
            timeline: run.source_timeline,
            slot_name: run.temporary_slot_name.clone(),
            applied_lsn: run.source_snapshot_lsn,
        }],
    }
}

fn reload_mismatch_field(request: &SnapshotActivationRequest) -> &'static str {
    match validate_reload_request(&run(), request) {
        Err(ReconciliationStateError::ReloadRequestMismatch { field }) => field,
        result => panic!("expected reload request mismatch, got {result:?}"),
    }
}

#[test]
fn restart_only_interrupts_source_session_states() {
    assert!(ReconciliationState::Aligning.is_interrupted());
    assert!(ReconciliationState::Scanning.is_interrupted());
    for state in [
        ReconciliationState::Matched,
        ReconciliationState::ReloadPending,
        ReconciliationState::Reloaded,
        ReconciliationState::Failed,
        ReconciliationState::Superseded,
    ] {
        assert!(!state.is_interrupted(), "{}", state.as_str());
    }
}

#[test]
fn startup_recovery_distinguishes_interrupted_scans_from_pending_reload() {
    for state in [ReconciliationState::Aligning, ReconciliationState::Scanning] {
        let recovery = startup_recovery_from_stored(stored(state)).unwrap();
        assert!(matches!(
            recovery,
            ReconciliationStartupRecovery::RestartInterruptedScan(ref value)
                if value.state == state
        ));
    }
    let recovery =
        startup_recovery_from_stored(stored(ReconciliationState::ReloadPending)).unwrap();
    assert!(matches!(
        recovery,
        ReconciliationStartupRecovery::RestartPendingReload(ref value)
            if value.state == ReconciliationState::ReloadPending
    ));
    assert!(matches!(
        startup_recovery_from_stored(stored(ReconciliationState::Matched)),
        Err(ReconciliationStateError::InvalidPersistedValue {
            field: "startup_recovery_state",
            ..
        })
    ));
}

#[test]
fn state_machine_rejects_skipping_alignment_or_reload() {
    assert!(
        require_transition(ReconciliationState::Aligning, ReconciliationState::Scanning)
            .is_ok()
    );
    assert!(
        require_transition(ReconciliationState::Scanning, ReconciliationState::Matched).is_ok()
    );
    assert!(
        require_transition(
            ReconciliationState::Scanning,
            ReconciliationState::ReloadPending
        )
        .is_ok()
    );
    assert!(
        require_transition(
            ReconciliationState::ReloadPending,
            ReconciliationState::Reloaded
        )
        .is_ok()
    );
    assert!(matches!(
        require_transition(ReconciliationState::Aligning, ReconciliationState::Matched),
        Err(ReconciliationStateError::IllegalTransition { .. })
    ));
    assert!(matches!(
        require_transition(ReconciliationState::Scanning, ReconciliationState::Reloaded),
        Err(ReconciliationStateError::IllegalTransition { .. })
    ));
}

#[test]
fn validates_run_identity_before_database_io() {
    let mut invalid = run();
    invalid.run_id = Uuid::nil();
    assert!(matches!(
        validate_run(&invalid),
        Err(ReconciliationStateError::InvalidRunId)
    ));

    invalid = run();
    invalid.source_snapshot_lsn = PgLsn::zero();
    assert!(matches!(
        validate_run(&invalid),
        Err(ReconciliationStateError::InvalidSourceSnapshotLsn)
    ));

    invalid = run();
    invalid.temporary_slot_name = "x".repeat(POSTGRES_IDENTIFIER_MAX_BYTES + 1);
    assert!(matches!(
        validate_run(&invalid),
        Err(ReconciliationStateError::InvalidTemporarySlotName)
    ));

    invalid = run();
    invalid.table_generation = 0;
    assert!(matches!(
        validate_run(&invalid),
        Err(ReconciliationStateError::InvalidTableGeneration)
    ));

    for invalid_slot in ["_slot", "1slot", "Upper", "has-dash", "with.dot"] {
        invalid = run();
        invalid.temporary_slot_name = invalid_slot.to_owned();
        assert!(matches!(
            validate_run(&invalid),
            Err(ReconciliationStateError::InvalidTemporarySlotName)
        ));
    }
    invalid = run();
    invalid.temporary_slot_name = format!(
        "slot{}",
        char::from_u32(0x754c).expect("valid Unicode scalar")
    );
    assert!(matches!(
        validate_run(&invalid),
        Err(ReconciliationStateError::InvalidTemporarySlotName)
    ));
}

#[test]
fn completion_prepares_fixed_width_aggregate_digests() {
    let completion = ReconciliationScanCompletion::Matched {
        source: stats(1),
        target: stats(2),
        next_due_at: Timestamp { micros: 100_000_000 },
    };
    let prepared = PreparedScanCompletion::new(&completion).unwrap();
    assert_eq!(prepared.final_state(), ReconciliationState::Matched);

    let oversized = ReconciliationScanCompletion::ReloadPending {
        source: ReconciliationStats {
            rows: u64::MAX,
            bytes: 0,
            digest: [0; RECONCILIATION_DIGEST_BYTES],
        },
        target: stats(2),
    };
    assert!(matches!(
        PreparedScanCompletion::new(&oversized),
        Err(ReconciliationStateError::StatisticOutOfRange {
            field: "source_rows",
            ..
        })
    ));
}

#[test]
fn reload_request_is_bound_to_the_exact_run_and_snapshot_provenance() {
    assert!(validate_reload_request(&run(), &reload_request()).is_ok());

    let mut request = reload_request();
    request.fence.pipeline_id = random_pipeline();
    assert_eq!(reload_mismatch_field(&request), "fence.pipeline_id");
    request = reload_request();
    request.fence.topology_generation += 1;
    assert_eq!(reload_mismatch_field(&request), "fence.topology_generation");
    request = reload_request();
    request.fence.fencing_token += 1;
    assert_eq!(reload_mismatch_field(&request), "fence.fencing_token");

    request = reload_request();
    request.tables.clear();
    assert_eq!(reload_mismatch_field(&request), "tables.len");
    request = reload_request();
    request.tables.push(request.tables[0].clone());
    assert_eq!(reload_mismatch_field(&request), "tables.len");
    request = reload_request();
    request.tables[0].target = QualifiedName::new("analytics", "other").unwrap();
    assert_eq!(reload_mismatch_field(&request), "tables[0].target");
    request = reload_request();
    request.tables[0].source_relation_id += 1;
    assert_eq!(
        reload_mismatch_field(&request),
        "tables[0].source_relation_id"
    );
    request = reload_request();
    request.tables[0].table_generation += 1;
    assert_eq!(
        reload_mismatch_field(&request),
        "tables[0].table_generation"
    );
    request = reload_request();
    request.tables[0].schema_fingerprint.push_str("-drift");
    assert_eq!(
        reload_mismatch_field(&request),
        "tables[0].schema_fingerprint"
    );

    request = reload_request();
    request.initial_checkpoints.clear();
    assert_eq!(reload_mismatch_field(&request), "initial_checkpoints.len");
    request = reload_request();
    request
        .initial_checkpoints
        .push(request.initial_checkpoints[0].clone());
    assert_eq!(reload_mismatch_field(&request), "initial_checkpoints.len");
    request = reload_request();
    request.initial_checkpoints[0].key.pipeline_id = random_pipeline();
    assert_eq!(
        reload_mismatch_field(&request),
        "initial_checkpoints[0].key.pipeline_id"
    );
    request = reload_request();
    request.initial_checkpoints[0].key.topology_generation += 1;
    assert_eq!(
        reload_mismatch_field(&request),
        "initial_checkpoints[0].key.topology_generation"
    );
    request = reload_request();
    request.initial_checkpoints[0].key.node_id += 1;
    assert_eq!(
        reload_mismatch_field(&request),
        "initial_checkpoints[0].key.node_id"
    );
    request = reload_request();
    request.initial_checkpoints[0].system_identifier += 1;
    assert_eq!(
        reload_mismatch_field(&request),
        "initial_checkpoints[0].system_identifier"
    );
    request = reload_request();
    request.initial_checkpoints[0].timeline += 1;
    assert_eq!(
        reload_mismatch_field(&request),
        "initial_checkpoints[0].timeline"
    );
    request = reload_request();
    request.initial_checkpoints[0].slot_name.push_str("_other");
    assert_eq!(
        reload_mismatch_field(&request),
        "initial_checkpoints[0].slot_name"
    );
    request = reload_request();
    request.initial_checkpoints[0].applied_lsn = PgLsn::new(0x101);
    assert_eq!(
        reload_mismatch_field(&request),
        "initial_checkpoints[0].applied_lsn"
    );

    let mut overflow = run();
    overflow.table_generation = u64::MAX;
    assert!(matches!(
        validate_reload_request(&overflow, &reload_request()),
        Err(ReconciliationStateError::ReloadGenerationOverflow(u64::MAX))
    ));
}

#[test]
fn target_checkpoint_must_not_pass_the_exported_snapshot_boundary() {
    let boundary = PgLsn::new(0x100);
    assert!(validate_checkpoint_alignment(boundary, PgLsn::new(0xff)).is_ok());
    assert!(validate_checkpoint_alignment(boundary, boundary).is_ok());
    assert!(matches!(
        validate_checkpoint_alignment(boundary, PgLsn::new(0x101)),
        Err(
            ReconciliationStateError::TargetCheckpointPastSnapshotBoundary {
                checkpoint,
                snapshot
            }
        ) if checkpoint == PgLsn::new(0x101) && snapshot == boundary
    ));
}

#[test]
fn failure_reason_has_a_fixed_utf8_byte_budget() {
    assert!(validate_reason(&"x".repeat(RECONCILIATION_REASON_MAX_BYTES)).is_ok());
    assert!(matches!(
        validate_reason(&"x".repeat(RECONCILIATION_REASON_MAX_BYTES + 1)),
        Err(ReconciliationStateError::ReasonTooLong {
            actual_bytes: 4097,
            max_bytes: 4096
        })
    ));
    let multibyte = char::from_u32(0x754c)
        .expect("valid Unicode scalar")
        .to_string()
        .repeat(1366);
    assert_eq!(multibyte.len(), 4098);
    assert!(matches!(
        validate_reason(&multibyte),
        Err(ReconciliationStateError::ReasonTooLong {
            actual_bytes: 4098,
            max_bytes: 4096
        })
    ));
}

#[test]
fn sql_writes_are_run_and_fence_guarded() {
    for sql in [
        MARK_SCANNING_SQL,
        COMPLETE_MATCHED_SQL,
        COMPLETE_RELOAD_PENDING_SQL,
        COMPLETE_RELOADED_SQL,
        FAIL_RECONCILIATION_SQL,
    ] {
        assert!(sql.contains("run_id = $4"));
        assert!(sql.contains("fencing_token = $5"));
    }
    assert!(SUPERSEDE_RECONCILIATION_SQL.contains("run_id = $4"));
    assert!(!INSERT_RECONCILIATION_SQL.contains("source_rows"));
    assert!(!MARK_SCANNING_SQL.contains("source_rows"));
}

fn with_token(mut state: StoredReconciliationState, token: i64) -> StoredReconciliationState {
    state.run.fence.fencing_token = token;
    state
}

fn active_target() -> ManagedTableRecord {
    let run = run();
    ManagedTableRecord {
        pipeline_id: run.fence.pipeline_id,
        snapshot_group_id: Some(Uuid::from_u128(8)),
        relation_oid: Some(17_001),
        source_relation_id: 42,
        table_generation: 9,
        schema_fingerprint: "sha256:orders-v9".to_owned(),
        state: ManagedTableState::Active,
        fencing_token: 7,
    }
}

fn reconciliation_row() -> ReconciliationRow {
    let empty = || StatsRow { rows: None, bytes: None, digest: None };
    ReconciliationRow {
        pipeline_id: Uuid::from_u128(1),
        topology_generation: 3,
        source_relation_id: 42,
        target_schema: "analytics".to_owned(),
        target_table: "orders".to_owned(),
        target_relation_oid: 17_001,
        table_generation: 9,
        schema_fingerprint: "sha256:orders-v9".to_owned(),
        run_id: Uuid::from_u128(2),
        state: "aligning".to_owned(),
        source_node_id: 0,
        temporary_slot_name: "pg2cb_reconcile_orders_2".to_owned(),
        source_system_identifier: "7123456789".to_owned(),
        source_timeline: 1,
        source_snapshot_lsn: "0/100".to_owned(),
        target_checkpoint_lsn: None,
        source: empty(),
        target: empty(),
        started_at: Timestamp { micros: 0 },
        completed_at: None,
        last_consistent_at: None,
        last_mismatch_at: None,
        next_due_at: None,
        failure_reason: None,
        consecutive_failures: 0,
        fencing_token: 7,
    }
}

#[test]
fn runs_are_validated_field_by_field() {
    let faults: [(fn(&mut ReconciliationRunIdentity), ReconciliationStateError); 9] = [
        (
            |run| run.fence.topology_generation = u64::MAX,
            ReconciliationStateError::GenerationOutOfRange(u64::MAX),
        ),
        (
            |run| run.fence.fencing_token = 0,
            ReconciliationStateError::Fence(CheckpointError::InvalidFencingToken),
        ),
        (
            |run| run.target_relation_oid = 0,
            ReconciliationStateError::InvalidRelationIdentity,
        ),
        (
            |run| run.table_generation = u64::MAX,
            ReconciliationStateError::TableGenerationOutOfRange(u64::MAX),
        ),
        (|run| run.table_generation = 0, ReconciliationStateError::InvalidTableGeneration),
        (
            |run| run.schema_fingerprint.clear(),
            ReconciliationStateError::InvalidSchemaFingerprint,
        ),
        (|run| run.run_id = Uuid::nil(), ReconciliationStateError::InvalidRunId),
        (|run| run.source_timeline = 0, ReconciliationStateError::InvalidSourceIdentity),
        (
            |run| run.source_snapshot_lsn = PgLsn::zero(),
            ReconciliationStateError::InvalidSourceSnapshotLsn,
        ),
    ];
    for (spoil, error) in faults {
        let mut spoilt = run();
        spoil(&mut spoilt);
        assert_eq!(validate_run(&spoilt), Err(error));
    }
    let mut unnamed = run();
    unnamed.target.name.clear();
    assert!(matches!(
        validate_run(&unnamed),
        Err(ReconciliationStateError::InvalidTargetIdentity(_))
    ));
    let parameters = validate_run(&run()).unwrap();
    assert_eq!(parameters.source_system_identifier, "7123456789");
    assert_eq!(parameters.source_snapshot_lsn, "0/100");
    for (slot, valid) in [("a", true), ("a_9", true), ("9a", false), ("_a", false), ("aB", false), ("", false)] {
        assert_eq!(is_generated_slot_name(slot), valid, "{slot}");
    }
    assert_eq!(validate_reason(""), Err(ReconciliationStateError::InvalidReason));
    assert_eq!(database_statistic("source_rows", 5), Ok(5));
}

#[test]
fn a_run_begins_behind_a_finished_one() {
    assert_eq!(judge_begin(None, &run()), Ok(BeginStep::Insert));
    assert_eq!(BeginStep::Insert.outcome(), BeginReconciliationOutcome::Started);
    let scanning = stored(ReconciliationState::Scanning);
    let observed = judge_begin(Some(&scanning), &run()).unwrap();
    assert_eq!(
        observed.outcome(),
        BeginReconciliationOutcome::AlreadyExists(ReconciliationState::Scanning)
    );
    let mut next = run();
    next.run_id = Uuid::from_u128(9);
    assert_eq!(
        judge_begin(Some(&scanning), &next),
        Err(ReconciliationStateError::ActiveRunConflict {
            run_id: Uuid::from_u128(2),
            state: "scanning"
        })
    );
    let matched = stored(ReconciliationState::Matched);
    assert_eq!(judge_begin(Some(&matched), &next), Ok(BeginStep::Replace));
    next.table_generation = 10;
    assert_eq!(
        judge_begin(Some(&matched), &next),
        Err(ReconciliationStateError::RunIdentityMismatch { field: "table_generation" })
    );
    let superseded = stored(ReconciliationState::Superseded);
    assert_eq!(judge_begin(Some(&superseded), &next), Ok(BeginStep::Replace));
    assert_eq!(
        judge_begin(Some(&with_token(superseded, 8)), &next),
        Err(ReconciliationStateError::NewerStoredFence { stored: 8, active: 7 })
    );
    assert_eq!(ensure_not_newer_fence(&matched, run().fence), Ok(()));
    assert!(scanning.was_interrupted());
    assert!(matched.state.is_terminal());
}

#[test]
fn a_scan_starts_once_at_one_checkpoint() {
    let aligning = stored(ReconciliationState::Aligning);
    let at = PgLsn::new(0x90);
    assert_eq!(
        judge_scanning(Some(&aligning), &run(), at),
        Ok(ReconciliationTransitionOutcome::Transitioned)
    );
    let mut scanning = stored(ReconciliationState::Scanning);
    scanning.target_checkpoint_lsn = Some(at);
    assert_eq!(
        judge_scanning(Some(&scanning), &run(), at),
        Ok(ReconciliationTransitionOutcome::AlreadyComplete)
    );
    assert_eq!(
        judge_scanning(Some(&scanning), &run(), PgLsn::new(0x91)),
        Err(ReconciliationStateError::CompletionMismatch { field: "target_checkpoint_lsn" })
    );
    assert_eq!(
        judge_scanning(None, &run(), at),
        Err(ReconciliationStateError::NotFound)
    );
    assert_eq!(
        judge_scanning(Some(&with_token(aligning.clone(), 6)), &run(), at),
        Err(ReconciliationStateError::FenceMismatch { stored: 6, active: 7 })
    );
    let mut other = run();
    other.run_id = Uuid::from_u128(9);
    assert_eq!(
        judge_scanning(Some(&aligning), &other, at),
        Err(ReconciliationStateError::RunMismatch {
            stored: Uuid::from_u128(2),
            requested: Uuid::from_u128(9)
        })
    );
}

#[test]
fn a_completed_scan_is_replayed_exactly() {
    let completion = ReconciliationScanCompletion::Matched {
        source: stats(1),
        target: stats(1),
        next_due_at: Timestamp { micros: 5 },
    };
    let prepared = PreparedScanCompletion::new(&completion).unwrap();
    let scanning = stored(ReconciliationState::Scanning);
    assert_eq!(
        judge_completion(Some(&scanning), &run(), &prepared),
        Ok(ReconciliationTransitionOutcome::Transitioned)
    );
    let mut matched = stored(ReconciliationState::Matched);
    matched.source = Some(stats(1));
    matched.target = Some(stats(1));
    matched.next_due_at = Some(Timestamp { micros: 5 });
    assert_eq!(
        judge_completion(Some(&matched), &run(), &prepared),
        Ok(ReconciliationTransitionOutcome::AlreadyComplete)
    );
    matched.source = Some(stats(2));
    assert!(matches!(
        judge_completion(Some(&matched), &run(), &prepared),
        Err(ReconciliationStateError::CompletionMismatch { .. })
    ));
    assert_eq!(
        judge_completion(Some(&stored(ReconciliationState::Aligning)), &run(), &prepared),
        Err(ReconciliationStateError::IllegalTransition { from: "aligning", to: "matched" })
    );
}

#[test]
fn failures_are_counted_and_told_once() {
    let mut scanning = stored(ReconciliationState::Scanning);
    scanning.consecutive_failures = 4;
    assert_eq!(judge_failure(Some(&scanning), &run(), "lost"), Ok(FailureStep::Write(5)));
    scanning.consecutive_failures = i64::MAX as u64;
    assert_eq!(
        judge_failure(Some(&scanning), &run(), "lost"),
        Err(ReconciliationStateError::StatisticOutOfRange {
            field: "consecutive_failures",
            value: 1 << 63
        })
    );
    let mut failed = stored(ReconciliationState::Failed);
    failed.failure_reason = Some("lost".to_owned());
    assert_eq!(judge_failure(Some(&failed), &run(), "lost"), Ok(FailureStep::Observe));
    assert_eq!(
        judge_failure(Some(&failed), &run(), "other"),
        Err(ReconciliationStateError::CompletionMismatch { field: "failure_reason" })
    );
    assert_eq!(ensure_one_row(0), Err(ReconciliationStateError::UnexpectedWriteCount(0)));
}

#[test]
fn any_run_of_an_older_lease_is_superseded() {
    for state in [ReconciliationState::Scanning, ReconciliationState::Matched] {
        assert_eq!(
            judge_supersede(Some(&with_token(stored(state), 6)), &run(), "restart"),
            Ok(ReconciliationTransitionOutcome::Transitioned)
        );
    }
    assert_eq!(
        judge_supersede(
            Some(&with_token(stored(ReconciliationState::Scanning), 8)),
            &run(),
            "restart"
        ),
        Err(ReconciliationStateError::NewerStoredFence { stored: 8, active: 7 })
    );
    let mut superseded = stored(ReconciliationState::Superseded);
    superseded.failure_reason = Some("restart".to_owned());
    assert_eq!(
        judge_supersede(Some(&superseded), &run(), "restart"),
        Ok(ReconciliationTransitionOutcome::AlreadyComplete)
    );
}

#[test]
fn a_reload_replaces_the_exact_target() {
    let run = run();
    let request = reload_request();
    let judge = |record: &ManagedTableRecord, physical| {
        judge_reload_target(record, physical, &run, &request.tables[0], request.snapshot_group_id)
    };
    assert_eq!(
        judge_reload_relation(&RelationState::Managed(active_target()), &run),
        Ok(17_001)
    );
    assert_eq!(
        judge_reload_relation(&RelationState::Vacant, &run),
        Err(ReconciliationStateError::ReloadTargetMismatch { field: "managed_state" })
    );
    let mut foreign = active_target();
    foreign.source_relation_id = 43;
    assert_eq!(
        judge_reload_relation(&RelationState::Managed(foreign), &run),
        Err(ReconciliationStateError::Snapshot(SnapshotTargetError::ManagedByOtherSource {
            table: "analytics.orders".to_owned(),
            expected: 42,
            actual: 43
        }))
    );
    assert_eq!(judge(&active_target(), Some(17_001)), Ok(ReloadTargetState::Original));
    assert_eq!(
        judge(&active_target(), Some(17_002)),
        Err(ReconciliationStateError::ReloadTargetMismatch {
            field: "physical_target_relation_oid"
        })
    );
    let mut reloaded = active_target();
    reloaded.table_generation = 10;
    reloaded.relation_oid = Some(18_000);
    assert_eq!(
        judge(&reloaded, Some(18_000)),
        Err(ReconciliationStateError::ReloadTargetMismatch { field: "snapshot_group_id" })
    );
    reloaded.snapshot_group_id = Some(request.snapshot_group_id);
    assert_eq!(
        judge(&reloaded, Some(18_000)),
        Ok(ReloadTargetState::RequestedSnapshotActive)
    );
    let validate = |relation: &RelationState, physical| {
        validate_reload_target(relation, physical, &run, &request)
    };
    assert_eq!(
        validate(&RelationState::Managed(active_target()), Some(17_001)),
        Ok(ReloadTargetState::Original)
    );
    assert_eq!(
        validate(&RelationState::Managed(active_target()), None),
        Err(ReconciliationStateError::ReloadTargetMismatch {
            field: "physical_target_relation_oid"
        })
    );
    assert_eq!(
        validate(&RelationState::Unmanaged, Some(17_001)),
        Err(ReconciliationStateError::ReloadTargetMismatch { field: "managed_state" })
    );
}

#[test]
fn a_reload_completes_once() {
    let pending = stored(ReconciliationState::ReloadPending);
    let run = run();
    assert_eq!(
        judge_reload_state(Some(&pending), &run),
        Ok(ReconciliationState::ReloadPending)
    );
    assert_eq!(
        judge_reload_state(Some(&stored(ReconciliationState::Scanning)), &run),
        Err(ReconciliationStateError::IllegalTransition { from: "scanning", to: "reloaded" })
    );
    let (original, requested) =
        (ReloadTargetState::Original, ReloadTargetState::RequestedSnapshotActive);
    let (activated, already) = (
        SnapshotActivationDisposition::Activated,
        SnapshotActivationDisposition::AlreadyActive,
    );
    let (state, done) = (ReconciliationState::ReloadPending, ReconciliationState::Reloaded);
    for (target, disposition) in [(original, activated), (requested, already)] {
        assert_eq!(
            judge_reload(state, target, disposition),
            Ok(ReconciliationTransitionOutcome::Transitioned)
        );
    }
    assert_eq!(
        judge_reload(done, requested, already),
        Ok(ReconciliationTransitionOutcome::AlreadyComplete)
    );
    assert_eq!(
        judge_reload(done, original, activated),
        Err(ReconciliationStateError::ReloadActivationStateMismatch {
            state: "reloaded",
            activation: activated
        })
    );
}

#[test]
fn stored_runs_are_read_back_or_refused() {
    assert_eq!(
        reconciliation_from_row(reconciliation_row()),
        Ok(stored(ReconciliationState::Aligning))
    );
    let nil = "00000000-0000-0000-0000-000000000000";
    let faults: [(fn(&mut ReconciliationRow), &str, &str); 11] = [
        (|row| row.topology_generation = -3, "topology_generation", "-3"),
        (|row| row.source_relation_id = 0, "source_relation_id", "0"),
        (|row| row.target_relation_oid = -1, "target_relation_oid", "-1"),
        (|row| row.run_id = Uuid::nil(), "run_id", nil),
        (|row| row.source_system_identifier = "x".to_owned(), "source_system_identifier", "x"),
        (|row| row.source_timeline = 0, "source_timeline", "0"),
        (|row| row.source_snapshot_lsn = "1".to_owned(), "source_snapshot_lsn", "1"),
        (|row| row.fencing_token = 0, "fencing_token", "0"),
        (|row| row.state = "odd".to_owned(), "state", "odd"),
        (|row| row.consecutive_failures = -1, "consecutive_failures", "-1"),
        (
            |row| row.source.rows = Some(1),
            "source_rows",
            "partially populated statistics",
        ),
    ];
    for (spoil, field, value) in faults {
        let mut spoilt = reconciliation_row();
        spoil(&mut spoilt);
        assert_eq!(
            reconciliation_from_row(spoilt),
            Err(ReconciliationStateError::InvalidPersistedValue {
                field,
                value: value.to_owned()
            })
        );
    }
    let full = |length: usize| StatsRow {
        rows: Some(12),
        bytes: Some(240),
        digest: Some(vec![1; length]),
    };
    let mut one_side = reconciliation_row();
    one_side.source = full(64);
    assert!(matches!(
        reconciliation_from_row(one_side),
        Err(ReconciliationStateError::InvalidPersistedValue {
            field: "source_target_statistics",
            ..
        })
    ));
    let mut both = reconciliation_row();
    both.source = full(64);
    both.target = full(64);
    assert_eq!(reconciliation_from_row(both).unwrap().source, Some(stats(1)));
    let mut short = reconciliation_row();
    short.source = full(63);
    assert_eq!(
        reconciliation_from_row(short),
        Err(ReconciliationStateError::InvalidPersistedValue {
            field: "source_digest",
            value: "63 bytes".to_owned()
        })
    );
}
