use target_cloudberry::checkpoint::PipelineFence;
use target_cloudberry::chunk::{classify_chunk, ensure_checkpoint_matches, ensure_complete, ensure_retirement_counts, ensure_same_manifest, validate_chunk, validate_manifest, ChunkClassification, ChunkLedgerError, DataChunkIdentity, StoredCommittedChunk, StoredProgress, TransactionChunkKey, TransactionChunkManifest, DELETE_TRANSACTION_COMMITTED_CHUNKS_SQL, DELETE_TRANSACTION_PROGRESS_SQL};
use target_cloudberry::ident::{PipelineId, Uuid};
use target_cloudberry::lsn::PgLsn;
use target_cloudberry::checkpoint::{CheckpointError, StoredNodeCheckpoint};
use target_cloudberry::chunk::{
    chunk_parameters, committed_chunk_from_row, decide_chunk, ensure_advanced, ensure_one_row,
    judge_progress, judge_publication, manifest_checkpoint_reached, manifest_parameters,
    progress_from_row, prove_completion, PrepareDataChunkOutcome, ProgressRow, ProgressStep,
};

fn random_id() -> Uuid {
    Uuid::from_u128(uuid::Uuid::now_v7().as_u128())
}

fn random_pipeline() -> PipelineId {
    PipelineId::from_uuid(random_id())
}

fn fence() -> PipelineFence {
    PipelineFence {
        pipeline_id: random_pipeline(),
        topology_generation: 7,
        fencing_token: 11,
    }
}

fn manifest(fence: PipelineFence) -> TransactionChunkManifest {
    TransactionChunkManifest {
        key: TransactionChunkKey {
            pipeline_id: fence.pipeline_id,
            topology_generation: fence.topology_generation,
            node_id: 2,
            end_lsn: PgLsn::new(0x1234),
        },
        system_identifier: u64::MAX,
        timeline: 3,
        slot_name: "pg2cb_slot_2".to_owned(),
        xid: u32::MAX,
        manifest_version: 1,
        record_count: 30,
        manifest_digest: [0xA5; 32],
    }
}

fn chunk(start_seq: u64, end_seq: u64, byte: u8) -> DataChunkIdentity {
    DataChunkIdentity {
        start_seq,
        end_seq,
        digest: [byte; 32],
    }
}

#[test]
fn validates_manifest_identity_and_target_ranges() {
    let fence = fence();
    let mut value = manifest(fence);
    assert!(validate_manifest(fence, &value).is_ok());

    value.key.pipeline_id = random_pipeline();
    assert!(matches!(
        validate_manifest(fence, &value),
        Err(ChunkLedgerError::FenceKeyMismatch)
    ));
    value = manifest(fence);
    value.manifest_version = 0;
    assert!(matches!(
        validate_manifest(fence, &value),
        Err(ChunkLedgerError::InvalidManifestVersion)
    ));
    value = manifest(fence);
    value.record_count = u64::MAX;
    assert!(matches!(
        validate_manifest(fence, &value),
        Err(ChunkLedgerError::SequenceOutOfRange {
            field: "record_count",
            ..
        })
    ));
}

#[test]
fn validates_non_empty_bounded_chunk_ranges() {
    assert!(validate_chunk(20, chunk(0, 20, 1)).is_ok());
    assert!(matches!(
        validate_chunk(20, chunk(5, 5, 1)),
        Err(ChunkLedgerError::EmptyChunk)
    ));
    assert!(matches!(
        validate_chunk(20, chunk(10, 21, 1)),
        Err(ChunkLedgerError::ChunkPastManifest {
            end_seq: 21,
            record_count: 20
        })
    ));
}

#[test]
fn exact_next_chunk_applies_and_gaps_fail_closed() {
    assert_eq!(
        classify_chunk(10, None, chunk(10, 20, 2)).unwrap(),
        ChunkClassification::Apply
    );
    assert!(matches!(
        classify_chunk(10, None, chunk(11, 20, 2)),
        Err(ChunkLedgerError::SequenceGap {
            next_seq: 10,
            start_seq: 11
        })
    ));
}

#[test]
fn historical_digest_distinguishes_replay_corruption_from_repartition() {
    let committed = StoredCommittedChunk {
        end_seq: 10,
        digest: [3; 32],
    };
    assert_eq!(
        classify_chunk(20, Some(&committed), chunk(0, 10, 3)).unwrap(),
        ChunkClassification::AlreadyCommitted
    );
    assert!(matches!(
        classify_chunk(20, Some(&committed), chunk(0, 10, 4)),
        Err(ChunkLedgerError::ChunkIdentityMismatch { start_seq: 0 })
    ));
    assert_eq!(
        classify_chunk(20, Some(&committed), chunk(0, 15, 4)).unwrap(),
        ChunkClassification::ResumeAt
    );
    assert_eq!(
        classify_chunk(20, None, chunk(5, 15, 9)).unwrap(),
        ChunkClassification::ResumeAt
    );
}

#[test]
fn manifest_replay_requires_every_immutable_field() {
    let fence = fence();
    let current = manifest(fence);
    assert!(ensure_same_manifest(&current, &current).is_ok());

    let mut changed = current.clone();
    changed.manifest_digest[0] ^= 0xFF;
    assert!(matches!(
        ensure_same_manifest(&current, &changed),
        Err(ChunkLedgerError::ManifestMismatch {
            field: "manifest_digest"
        })
    ));
    changed = current.clone();
    changed.system_identifier -= 1;
    assert!(matches!(
        ensure_same_manifest(&current, &changed),
        Err(ChunkLedgerError::ManifestMismatch {
            field: "system_identifier"
        })
    ));
}

#[test]
fn completion_requires_full_prefix_and_exact_checkpoint_identity() {
    let fence = fence();
    let manifest = manifest(fence);
    let mut progress = StoredProgress {
        manifest: manifest.clone(),
        next_seq: 29,
        fencing_token: fence.fencing_token,
    };
    assert!(matches!(
        ensure_complete(&progress),
        Err(ChunkLedgerError::IncompleteTransaction {
            next_seq: 29,
            record_count: 30
        })
    ));
    progress.next_seq = 30;
    assert!(ensure_complete(&progress).is_ok());

    let mut checkpoint = manifest.node_checkpoint();
    assert_eq!(checkpoint.key.pipeline_id, fence.pipeline_id);
    assert_eq!(checkpoint.key.node_id, manifest.key.node_id);
    assert_eq!(checkpoint.system_identifier, manifest.system_identifier);
    assert_eq!(checkpoint.timeline, manifest.timeline);
    assert_eq!(checkpoint.slot_name, manifest.slot_name);
    assert!(ensure_checkpoint_matches(&manifest, &checkpoint).is_ok());
    checkpoint.applied_lsn = PgLsn::new(manifest.key.end_lsn.as_u64() + 1);
    assert!(matches!(
        ensure_checkpoint_matches(&manifest, &checkpoint),
        Err(ChunkLedgerError::CheckpointLsnMismatch { .. })
    ));
}

#[test]
fn retirement_sql_filters_the_complete_transaction_identity() {
    for sql in [
        DELETE_TRANSACTION_COMMITTED_CHUNKS_SQL,
        DELETE_TRANSACTION_PROGRESS_SQL,
    ] {
        assert!(sql.contains("pipeline_id = $1"));
        assert!(sql.contains("topology_generation = $2"));
        assert!(sql.contains("node_id = $3"));
        assert!(sql.contains("end_lsn = $4::text::pg_lsn"));
    }
    assert!(DELETE_TRANSACTION_PROGRESS_SQL.contains("system_identifier = $5::text::numeric"));
    assert!(DELETE_TRANSACTION_PROGRESS_SQL.contains("manifest_digest = $11"));
    assert!(DELETE_TRANSACTION_PROGRESS_SQL.contains("next_seq = $10"));
    assert!(DELETE_TRANSACTION_PROGRESS_SQL.contains("fencing_token = $12"));
}

#[test]
fn retirement_allows_empty_or_non_empty_receipts_but_requires_one_progress_row() {
    assert!(ensure_retirement_counts(0, 0, 1).is_ok());
    assert!(ensure_retirement_counts(30, 1, 1).is_ok());
    assert!(ensure_retirement_counts(30, 7, 1).is_ok());
    assert!(matches!(
        ensure_retirement_counts(0, 1, 1),
        Err(ChunkLedgerError::UnexpectedCommittedChunkRetirementCount {
            record_count: 0,
            deleted_chunks: 1
        })
    ));
    assert!(matches!(
        ensure_retirement_counts(30, 0, 1),
        Err(ChunkLedgerError::UnexpectedCommittedChunkRetirementCount {
            record_count: 30,
            deleted_chunks: 0
        })
    ));
    assert!(matches!(
        ensure_retirement_counts(0, 0, 0),
        Err(ChunkLedgerError::UnexpectedProgressRetirementCount(0))
    ));
    assert!(matches!(
        ensure_retirement_counts(30, 7, 2),
        Err(ChunkLedgerError::UnexpectedProgressRetirementCount(2))
    ));
}

fn progress(fence: PipelineFence, next_seq: u64, token: i64) -> StoredProgress {
    StoredProgress {
        manifest: manifest(fence),
        next_seq,
        fencing_token: token,
    }
}

fn progress_row(fence: PipelineFence) -> ProgressRow {
    ProgressRow {
        pipeline_id: fence.pipeline_id.as_uuid(),
        topology_generation: 7,
        node_id: 2,
        end_lsn: "0/1234".to_owned(),
        system_identifier: "18446744073709551615".to_owned(),
        timeline: 3,
        slot_name: "pg2cb_slot_2".to_owned(),
        xid: 4_294_967_295,
        manifest_version: 1,
        record_count: 30,
        manifest_digest: vec![0xA5; 32],
        next_seq: 10,
        fencing_token: 11,
    }
}

#[test]
fn every_field_of_a_manifest_is_validated() {
    let fence = fence();
    let faults: [(fn(&mut TransactionChunkManifest), ChunkLedgerError); 6] = [
        (
            |value| value.key.topology_generation = u64::MAX,
            ChunkLedgerError::GenerationOutOfRange(u64::MAX),
        ),
        (|value| value.key.end_lsn = PgLsn::zero(), ChunkLedgerError::InvalidEndLsn),
        (|value| value.timeline = 0, ChunkLedgerError::InvalidTimeline),
        (|value| value.slot_name.clear(), ChunkLedgerError::InvalidSlotName),
        (|value| value.slot_name.push('\0'), ChunkLedgerError::InvalidSlotName),
        (|value| value.xid = 0, ChunkLedgerError::InvalidXid),
    ];
    for (spoil, error) in faults {
        let mut spoilt = manifest(fence);
        spoil(&mut spoilt);
        assert_eq!(validate_manifest(fence, &spoilt), Err(error));
    }
}

#[test]
fn registered_progress_is_resumed_and_adopted() {
    let fence = fence();
    let value = manifest(fence);
    assert_eq!(judge_progress(fence, &value, None), Ok(ProgressStep::ConsultCheckpoint));
    assert_eq!(
        judge_progress(fence, &value, Some(&progress(fence, 10, 11))),
        Ok(ProgressStep::Resume { next_seq: 10, adopt_fence: false })
    );
    assert_eq!(
        judge_progress(fence, &value, Some(&progress(fence, 10, 9))),
        Ok(ProgressStep::Resume { next_seq: 10, adopt_fence: true })
    );
    let mut other = progress(fence, 10, 11);
    other.manifest.xid = 1;
    assert_eq!(
        judge_progress(fence, &value, Some(&other)),
        Err(ChunkLedgerError::ManifestMismatch { field: "xid" })
    );
}

#[test]
fn a_retired_transaction_is_found_in_the_checkpoint() {
    let fence = fence();
    let value = manifest(fence);
    assert_eq!(manifest_checkpoint_reached(&value, None), Ok(None));
    let mut stored = StoredNodeCheckpoint {
        checkpoint: value.node_checkpoint(),
        fencing_token: 11,
    };
    stored.checkpoint.applied_lsn = PgLsn::new(0x1235);
    assert_eq!(
        manifest_checkpoint_reached(&value, Some(&stored)),
        Ok(Some(PgLsn::new(0x1235)))
    );
    stored.checkpoint.applied_lsn = PgLsn::new(0x1233);
    assert_eq!(manifest_checkpoint_reached(&value, Some(&stored)), Ok(None));
    stored.checkpoint.timeline = 4;
    assert_eq!(
        manifest_checkpoint_reached(&value, Some(&stored)),
        Err(ChunkLedgerError::Checkpoint(CheckpointError::SourceIdentityChanged))
    );
}

#[test]
fn a_decided_chunk_carries_what_is_recorded() {
    let fence = fence();
    let value = manifest(fence);
    let PrepareDataChunkOutcome::Apply(prepared) =
        decide_chunk(fence, &value, 10, None, chunk(10, 20, 5)).unwrap()
    else {
        panic!("the next chunk is applied");
    };
    assert_eq!(prepared.fence(), fence);
    assert_eq!(prepared.identity(), chunk(10, 20, 5));
    assert_eq!(prepared.next_seq(), 20);
    let parameters = chunk_parameters(&prepared).unwrap();
    assert_eq!(parameters.key.end_lsn, "0/1234");
    assert_eq!(parameters.key.generation, 7);
    assert_eq!((parameters.start_seq, parameters.end_seq), (10, 20));
    assert_eq!(parameters.chunk_digest, [5; 32]);
    assert_eq!(parameters.manifest_digest, [0xA5; 32]);
    assert_eq!(parameters.fencing_token, 11);

    let committed = StoredCommittedChunk { end_seq: 10, digest: [5; 32] };
    assert!(matches!(
        decide_chunk(fence, &value, 20, Some(&committed), chunk(0, 10, 5)),
        Ok(PrepareDataChunkOutcome::AlreadyCommitted { next_seq: 20 })
    ));
    assert!(matches!(
        decide_chunk(fence, &value, 20, None, chunk(5, 25, 5)),
        Ok(PrepareDataChunkOutcome::ResumeAt { next_seq: 20 })
    ));
    assert_eq!(ensure_advanced(1), Ok(()));
    assert_eq!(ensure_advanced(0), Err(ChunkLedgerError::ProgressChanged));
    assert_eq!(ensure_one_row(3), Err(ChunkLedgerError::UnexpectedWriteCount(3)));
}

#[test]
fn a_checkpoint_is_published_behind_complete_progress() {
    let fence = fence();
    let value = manifest(fence);
    assert_eq!(
        prove_completion(fence, &value, None).unwrap_err(),
        ChunkLedgerError::MissingProgress
    );
    assert_eq!(
        prove_completion(fence, &value, Some(&progress(fence, 29, 11))).unwrap_err(),
        ChunkLedgerError::IncompleteTransaction { next_seq: 29, record_count: 30 }
    );
    let complete = progress(fence, 30, 11);
    let completion = prove_completion(fence, &value, Some(&complete)).unwrap();
    assert_eq!(completion.end_lsn(), PgLsn::new(0x1234));
    assert_eq!(completion.fence(), fence);
    assert_eq!(*completion.manifest(), value);
    let checkpoint = value.node_checkpoint();
    assert_eq!(judge_publication(&completion, &checkpoint, Some(&complete)), Ok(()));
    assert_eq!(
        judge_publication(&completion, &checkpoint, None),
        Err(ChunkLedgerError::MissingProgress)
    );
    let mut other = value.node_checkpoint();
    other.slot_name.push('x');
    assert_eq!(
        judge_publication(&completion, &other, Some(&complete)),
        Err(ChunkLedgerError::CheckpointIdentityMismatch)
    );
}

#[test]
fn stored_chunk_progress_is_read_back_or_refused() {
    let fence = fence();
    assert_eq!(progress_from_row(progress_row(fence)), Ok(progress(fence, 10, 11)));
    let faults: [(fn(&mut ProgressRow), &str, &str); 8] = [
        (|row| row.topology_generation = -1, "topology_generation", "-1"),
        (|row| row.end_lsn = "x".to_owned(), "end_lsn", "x"),
        (|row| row.system_identifier = "-1".to_owned(), "system_identifier", "-1"),
        (|row| row.timeline = -3, "timeline", "-3"),
        (|row| row.xid = 1 << 32, "xid", "4294967296"),
        (|row| row.manifest_version = 65_536, "manifest_version", "65536"),
        (|row| row.record_count = -2, "record_count", "-2"),
        (|row| row.next_seq = 31, "next_seq", "31"),
    ];
    for (spoil, field, value) in faults {
        let mut spoilt = progress_row(fence);
        spoil(&mut spoilt);
        assert_eq!(
            progress_from_row(spoilt),
            Err(ChunkLedgerError::InvalidPersistedValue {
                field,
                value: value.to_owned()
            })
        );
    }
    assert_eq!(
        committed_chunk_from_row(20, &vec![9; 32]),
        Ok(StoredCommittedChunk { end_seq: 20, digest: [9; 32] })
    );
    assert!(matches!(
        committed_chunk_from_row(20, &vec![9; 31]),
        Err(ChunkLedgerError::InvalidPersistedValue { field: "chunk_digest", .. })
    ));
    assert!(matches!(
        committed_chunk_from_row(-1, &vec![9; 32]),
        Err(ChunkLedgerError::InvalidPersistedValue { field: "end_seq", .. })
    ));
}

#[test]
fn a_manifest_is_stored_field_by_field() {
    let fence = fence();
    let parameters = manifest_parameters(fence, &manifest(fence)).unwrap();
    assert_eq!(parameters.key.pipeline_id, fence.pipeline_id.as_uuid());
    assert_eq!(parameters.key.node_id, 2);
    assert_eq!(parameters.system_identifier, "18446744073709551615");
    assert_eq!(parameters.xid, 4_294_967_295);
    assert_eq!(parameters.manifest_version, 1);
    assert_eq!(parameters.record_count, 30);
    assert_eq!(parameters.fencing_token, 11);
}
