use target_cloudberry::checkpoint::PipelineFence;
use target_cloudberry::ident::{PipelineId, Uuid};
use target_cloudberry::snapshot::SnapshotTargetError;
use target_cloudberry::snapshot::progress::{advance_progress, cursor_digest, validate_progress_contract, SnapshotTableProgress, SNAPSHOT_CURSOR_FORMAT_VERSION};
use target_cloudberry::source::QualifiedName;
use target_cloudberry::snapshot::progress::{
    advance_parameters, check_group_progress_count, check_page_cursors, check_physical_arity,
    complete_full_copy, confirm_progress, ensure_all_completed, ensure_group_progress_removed,
    ensure_progress_advanced, ensure_progress_removed, group_progress_from_row, initial_progress,
    judge_page,
    physical_primary_key_arity, progress_from_row, progress_registration, progress_removal,
    validate_group_progress, CompletedSnapshotTableIdentity, PageStep, ProgressRow,
    SnapshotProgressIdentity,
};
use target_cloudberry::snapshot::SnapshotActivationTable;

fn random_id() -> Uuid {
    Uuid::from_u128(uuid::Uuid::now_v7().as_u128())
}

fn random_pipeline() -> PipelineId {
    PipelineId::from_uuid(random_id())
}

fn progress() -> SnapshotTableProgress {
    let cursor = vec!["tenant-a".to_owned(), "10".to_owned()];
    SnapshotTableProgress {
        fence: PipelineFence {
            pipeline_id: random_pipeline(),
            topology_generation: 3,
            fencing_token: 7,
        },
        snapshot_group_id: Uuid::from_u128(1),
        target: QualifiedName::new("target", "items").unwrap(),
        shadow: QualifiedName::new("target", "items_shadow").unwrap(),
        shadow_relation_oid: 16_384,
        source_relation_id: 42,
        table_generation: 9,
        schema_fingerprint: "sha256:items-v9".to_owned(),
        cursor_format_version: SNAPSHOT_CURSOR_FORMAT_VERSION,
        primary_key_arity: 2,
        cursor_digest: cursor_digest(2, "sha256:items-v9", &cursor).unwrap(),
        cursor,
        completed: false,
        pages_copied: 1,
        rows_copied: 100,
    }
}

#[test]
fn cursor_digest_binds_format_arity_schema_and_each_value() {
    let original = cursor_digest(2, "sha256:v1", &["a".into(), "10".into()]).unwrap();
    assert_ne!(
        original,
        cursor_digest(2, "sha256:v2", &["a".into(), "10".into()]).unwrap()
    );
    assert_ne!(
        original,
        cursor_digest(2, "sha256:v1", &["a".into(), "11".into()]).unwrap()
    );
    assert!(matches!(
        cursor_digest(2, "sha256:v1", &["a".into()]),
        Err(SnapshotTargetError::SnapshotCursorArityMismatch {
            expected: 2,
            actual: 1
        })
    ));
}

#[test]
fn bounded_pages_require_progress_and_real_rows() {
    let current = progress();
    assert!(matches!(
        advance_progress(&current, current.cursor.clone(), 10, false),
        Err(SnapshotTargetError::SnapshotCursorDidNotAdvance(_))
    ));
    assert!(matches!(
        advance_progress(&current, vec!["tenant-a".into(), "20".into()], 0, false,),
        Err(SnapshotTargetError::EmptyIncompleteSnapshotPage(_))
    ));
    assert!(matches!(
        advance_progress(&current, vec!["tenant-a".into(), "20".into()], 0, true,),
        Err(SnapshotTargetError::SnapshotCursorAdvancedWithoutRows(_))
    ));
}

#[test]
fn final_page_advances_exact_counters_and_marks_completion() {
    let current = progress();
    let advanced =
        advance_progress(&current, vec!["tenant-b".into(), "4".into()], 25, true).unwrap();
    assert!(advanced.completed);
    assert_eq!(advanced.pages_copied, 2);
    assert_eq!(advanced.rows_copied, 125);
    assert!(validate_progress_contract(&advanced).is_ok());
}

#[test]
fn empty_tail_can_complete_without_inventing_a_cursor() {
    let current = progress();
    let cursor = current.cursor.clone();
    let advanced = advance_progress(&current, cursor, 0, true).unwrap();
    assert!(advanced.completed);
    assert_eq!(advanced.pages_copied, 2);
    assert_eq!(advanced.rows_copied, 100);
}

#[test]
fn completion_contract_rejects_zero_page_and_changed_digest() {
    let mut value = progress();
    value.completed = true;
    value.pages_copied = 0;
    assert!(matches!(
        validate_progress_contract(&value),
        Err(SnapshotTargetError::InvalidSnapshotProgressValue {
            field: "completed_pages_copied",
            ..
        })
    ));
    value.pages_copied = 1;
    value.cursor_digest[0] ^= 0xff;
    assert!(matches!(
        validate_progress_contract(&value),
        Err(SnapshotTargetError::SnapshotCursorDigestMismatch(_))
    ));
}

fn identity_of(progress: &SnapshotTableProgress) -> SnapshotProgressIdentity {
    SnapshotProgressIdentity {
        fence: progress.fence,
        snapshot_group_id: progress.snapshot_group_id,
        target: progress.target.clone(),
        shadow: progress.shadow.clone(),
        shadow_relation_oid: progress.shadow_relation_oid,
        source_relation_id: progress.source_relation_id,
        table_generation: progress.table_generation,
        schema_fingerprint: progress.schema_fingerprint.clone(),
        primary_key_arity: progress.primary_key_arity,
    }
}

fn row_of(progress: &SnapshotTableProgress) -> ProgressRow {
    ProgressRow {
        snapshot_group_id: progress.snapshot_group_id,
        target_schema: "target".to_owned(),
        target_table: "items".to_owned(),
        shadow_schema: "target".to_owned(),
        shadow_table: "items_shadow".to_owned(),
        pipeline_id: progress.fence.pipeline_id.as_uuid(),
        topology_generation: 3,
        shadow_relation_oid: 16_384,
        source_relation_id: 42,
        table_generation: 9,
        schema_fingerprint: "sha256:items-v9".to_owned(),
        cursor_format_version: 1,
        primary_key_arity: 2,
        cursor_values: progress.cursor.clone(),
        cursor_digest: progress.cursor_digest.to_vec(),
        completed: false,
        pages_copied: 1,
        rows_copied: 100,
        fencing_token: 7,
    }
}

fn cursor(values: &[&str]) -> Vec<String> {
    values.iter().map(|value| (*value).to_owned()).collect()
}

fn hex(octets: &[u8]) -> String {
    octets.iter().map(|byte| format!("{byte:02x}")).collect()
}

#[test]
fn the_digest_of_a_cursor_is_fixed() {
    assert_eq!(
        hex(&cursor_digest(2, "sha256:v1", &cursor(&["a", "10"])).unwrap()),
        "a17475df66086fff2c7f3842f823dfae687c1c6da64f3075c69bf92521855ac3"
    );
    assert_eq!(
        hex(&cursor_digest(2, "sha256:v1", &[]).unwrap()),
        "956603cd1a1aed3a26cac7a497f28577949d9aff2671de3079cee78270138ec4"
    );
}

#[test]
fn progress_starts_at_the_head_of_the_table() {
    let identity = identity_of(&progress());
    let fresh = initial_progress(identity.clone());
    assert!(fresh.cursor.is_empty());
    assert!(!fresh.completed);
    assert_eq!((fresh.pages_copied, fresh.rows_copied), (0, 0));
    assert_eq!(confirm_progress(&fresh, &identity), Ok(()));
    let registration = progress_registration(&fresh).unwrap();
    assert_eq!(registration.topology_generation, 3);
    assert_eq!(registration.cursor_format_version, 1);
    assert_eq!(registration.primary_key_arity, 2);

    let completed = complete_full_copy(&fresh, 500).unwrap();
    assert!(completed.completed);
    assert_eq!((completed.pages_copied, completed.rows_copied), (1, 500));
    assert_eq!(
        complete_full_copy(&progress(), 500),
        Err(SnapshotTargetError::SnapshotProgressNotFresh("target.items".to_owned()))
    );
    let mut other = identity;
    other.shadow_relation_oid += 1;
    assert_eq!(
        confirm_progress(&fresh, &other),
        Err(SnapshotTargetError::SnapshotProgressIdentityMismatch {
            table: "target.items".to_owned(),
            field: "shadow_relation_oid"
        })
    );
}

#[test]
fn a_page_is_copied_from_the_durable_cursor_alone() {
    let current = progress();
    let next = cursor(&["tenant-b", "1"]);
    assert_eq!(check_page_cursors(&current.cursor, &next), Ok(()));
    assert_eq!(
        check_page_cursors(&current.cursor, &cursor(&["a\0", "1"])),
        Err(SnapshotTargetError::InvalidSnapshotCursorValue)
    );
    assert_eq!(judge_page(&current, &current.cursor, &next, false), Ok(PageStep::Copy));
    assert_eq!(
        judge_page(&current, &cursor(&["tenant-a", "9"]), &next, false),
        Ok(PageStep::ResumeAt)
    );
    let advanced = advance_progress(&current, next.clone(), 5, true).unwrap();
    assert_eq!(
        judge_page(&advanced, &current.cursor, &next, false),
        Ok(PageStep::AlreadyCompleted)
    );
    let parameters = advance_parameters(&current, &advanced).unwrap();
    assert_eq!((parameters.previous_pages, parameters.previous_rows), (1, 100));
    assert_eq!((parameters.pages_copied, parameters.rows_copied), (2, 105));
    assert_eq!(
        ensure_progress_advanced(&current.target, 0),
        Err(SnapshotTargetError::SnapshotProgressChanged("target.items".to_owned()))
    );
    assert_eq!(
        advance_progress(&current, next, u64::MAX, false),
        Err(SnapshotTargetError::SnapshotProgressCounterOverflow("target.items".to_owned()))
    );
}

#[test]
fn tables_without_a_key_have_no_pages() {
    let mut identity = identity_of(&progress());
    identity.primary_key_arity = 0;
    let fresh = initial_progress(identity);
    assert_eq!(
        judge_page(&fresh, &[], &[], false),
        Err(SnapshotTargetError::SnapshotPaginationRequiresPrimaryKey(
            "target.items".to_owned()
        ))
    );
}

#[test]
fn stored_progress_is_read_back_or_refused() {
    let stored = progress();
    assert_eq!(progress_from_row(row_of(&stored)), Ok(stored));
    let faults: [(fn(&mut ProgressRow), &str, &str); 5] = [
        (|row| row.topology_generation = -3, "topology_generation", "-3"),
        (|row| row.source_relation_id = 1 << 32, "source_relation_id", "4294967296"),
        (|row| row.table_generation = -9, "table_generation", "-9"),
        (|row| row.primary_key_arity = -2, "primary_key_arity", "-2"),
        (|row| row.rows_copied = -1, "rows_copied", "-1"),
    ];
    for (spoil, field, value) in faults {
        let mut spoilt = row_of(&progress());
        spoil(&mut spoilt);
        assert_eq!(
            progress_from_row(spoilt),
            Err(SnapshotTargetError::InvalidSnapshotProgressValue {
                table: "target.items".to_owned(),
                field,
                value: value.to_owned()
            })
        );
    }
}

#[test]
fn the_progress_of_a_group_is_complete_and_exact() {
    let group = Uuid::from_u128(1);
    assert_eq!(check_group_progress_count(group, 2, 1, 1), Ok(()));
    for (tables, expected, rows) in [(1, 2, 2), (2, 2, 1)] {
        assert_eq!(
            check_group_progress_count(group, tables, expected, rows),
            Err(SnapshotTargetError::IncompleteSnapshotProgress(group))
        );
    }
    let current = progress();
    let expected = CompletedSnapshotTableIdentity {
        table: SnapshotActivationTable {
            target: current.target.clone(),
            shadow: current.shadow.clone(),
            source_relation_id: 42,
            table_generation: 9,
            schema_fingerprint: "sha256:items-v9".to_owned(),
        },
        shadow_relation_oid: 16_384,
    };
    assert_eq!(validate_group_progress(current.fence, group, &expected, &current), Ok(()));
    assert_eq!(
        validate_group_progress(current.fence, Uuid::from_u128(2), &expected, &current),
        Err(SnapshotTargetError::SnapshotProgressIdentityMismatch {
            table: "target.items".to_owned(),
            field: "snapshot_group_id"
        })
    );
    assert_eq!(physical_primary_key_arity(16_384, None), Ok(0));
    assert_eq!(physical_primary_key_arity(16_384, Some(2)), Ok(2));
    assert_eq!(
        physical_primary_key_arity(16_384, Some(-1)),
        Err(SnapshotTargetError::InvalidSnapshotProgressValue {
            table: "16384".to_owned(),
            field: "physical_primary_key_arity",
            value: "-1".to_owned()
        })
    );
    assert_eq!(check_physical_arity(&current, 2), Ok(()));
    assert_eq!(
        check_physical_arity(&current, 3),
        Err(SnapshotTargetError::SnapshotProgressIdentityMismatch {
            table: "target.items".to_owned(),
            field: "physical_primary_key_arity"
        })
    );
    assert_eq!(
        group_progress_from_row(current.fence, group, &expected, row_of(&current), Some(2)),
        Ok(current.clone())
    );
    assert!(matches!(
        group_progress_from_row(current.fence, group, &expected, row_of(&current), None),
        Err(SnapshotTargetError::SnapshotProgressIdentityMismatch {
            field: "physical_primary_key_arity",
            ..
        })
    ));
    let mut row = row_of(&current);
    row.rows_copied = -1;
    assert!(matches!(
        group_progress_from_row(current.fence, group, &expected, row, Some(2)),
        Err(SnapshotTargetError::InvalidSnapshotProgressValue { field: "rows_copied", .. })
    ));
    assert_eq!(
        ensure_all_completed(&vec![current]),
        Err(SnapshotTargetError::SnapshotProgressIncomplete("target.items".to_owned()))
    );
    assert_eq!(ensure_group_progress_removed(2, 2), Ok(()));
    assert_eq!(
        ensure_group_progress_removed(1, 2),
        Err(SnapshotTargetError::UnexpectedMetadataWriteCount(1))
    );
}

#[test]
fn progress_goes_with_its_shadow() {
    let group = Uuid::from_u128(1);
    assert_eq!(progress_removal(Some(group), Some(5)), Ok(Some((group, 5))));
    assert_eq!(progress_removal(None, Some(5)), Ok(None));
    assert_eq!(progress_removal(Some(group), None), Ok(None));
    assert_eq!(
        progress_removal(Some(group), Some(-5)),
        Err(SnapshotTargetError::MissingRelationIdentity("-5".to_owned()))
    );
    assert_eq!(ensure_progress_removed(1), Ok(()));
    assert_eq!(
        ensure_progress_removed(2),
        Err(SnapshotTargetError::UnexpectedMetadataWriteCount(2))
    );
}
