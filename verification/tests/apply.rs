use bytes::Bytes;
use std::sync::Arc;
use target_cloudberry::apply::plan::plan_apply;
use target_cloudberry::apply::row::{encode_staging_row, StageOperation, StagingRow};
use target_cloudberry::apply::{validate_tables, ApplyError, TableApplyBatch};
use target_cloudberry::change::Cell;
use target_cloudberry::managed::TableApplyIdentity;
use target_cloudberry::source::{ColumnSchema, GeneratedColumn, IdentityColumn, PgType, PgTypeKind, QualifiedName, ReplicaIdentity, TableKind, TableSchema};
use target_cloudberry::apply::plan::{unused_control_prefix, ApplyPlan, ApplyPlanError};
use target_cloudberry::apply::{
    apply_statements, check_empty, check_validation, chunk_action, empty_action, finish_action,
    table_identities, ApplyOutcome, ApplyStatement, ApplyStats, ChunkAction, DataChunkDisposition,
    EmptyAction, FinishAction,
};
use target_cloudberry::checkpoint::{AdvanceOutcome, PipelineFence};
use target_cloudberry::chunk::{
    decide_chunk, ChunkLedgerError, DataChunkIdentity, PrepareDataChunkOutcome,
    ProgressRegistration, TransactionChunkKey, TransactionChunkManifest,
};
use target_cloudberry::copy::CopyEncodeError;
use target_cloudberry::ident::{PipelineId, Uuid};
use target_cloudberry::lsn::PgLsn;
use target_cloudberry::schema::SchemaError;
use target_cloudberry::sql::SqlRenderError;

fn column(attnum: i16, name: &str, primary_key_ordinal: Option<u16>) -> ColumnSchema {
    ColumnSchema {
        attnum,
        name: name.to_owned(),
        data_type: PgType {
            oid: 23,
            name: QualifiedName::new("pg_catalog", "int4").unwrap(),
            kind: PgTypeKind::Int4,
        },
        nullable: primary_key_ordinal.is_none(),
        primary_key_ordinal,
        generated: GeneratedColumn::Never,
        identity: IdentityColumn::Never,
        collation: None,
    }
}

fn table(columns: Vec<ColumnSchema>) -> TableSchema {
    TableSchema {
        relation_id: 1,
        generation: 1,
        name: QualifiedName::new("public", "orders").unwrap(),
        kind: TableKind::Ordinary,
        replica_identity: ReplicaIdentity::Default,
        columns,
        distribution_key: Vec::new(),
        partition_key: Vec::new(),
    }
}

#[test]
fn plans_typed_colocated_apply_with_presence_masks() {
    let source = table(vec![
        column(1, "tenant", Some(2)),
        column(2, "id", Some(1)),
        column(3, "payload", None),
    ]);
    let plan = plan_apply(
        &source,
        QualifiedName::new("target", "orders").unwrap(),
        "stage_orders",
    )
    .unwrap();

    assert!(plan.create_staging_sql.contains("USING heap"));
    assert!(
        plan.create_staging_sql
            .ends_with("DISTRIBUTED BY (\"id\", \"tenant\")")
    );
    assert!(plan.copy_sql.starts_with("COPY \"stage_orders\""));
    assert_eq!(plan.copy_layout.presence_columns.len(), 1);
    assert_eq!(
        plan.copy_layout
            .old_key_columns
            .iter()
            .map(|column| column.source_column_name.as_str())
            .collect::<Vec<_>>(),
        ["id", "tenant"]
    );
    assert!(plan.create_staging_sql.contains("IN (E'U', E'D', E'M')"));
    assert!(plan.validation_sql.contains("HAVING count(*) > 1"));
    assert!(
        plan.delete_sql
            .contains("DELETE FROM \"target\".\"orders\"")
    );
    assert!(plan.update_sql.as_ref().unwrap().contains("CASE WHEN"));
    let materialize_moves = plan.materialize_moves_sql.as_ref().unwrap();
    assert!(materialize_moves.contains("UPDATE \"stage_orders\" AS s"));
    assert!(materialize_moves.contains("FROM \"target\".\"orders\" AS t"));
    assert!(materialize_moves.contains("ELSE t.\"payload\" END"));
    assert!(plan.delete_moved_sql.contains("s.\"__pg2cb_op\" = E'M'"));
    assert!(
        plan.move_sql
            .contains("SELECT s.\"tenant\", s.\"id\", s.\"payload\"")
    );
    assert!(!plan.move_sql.contains("JOIN \"target\".\"orders\""));
    assert!(plan.insert_sql.contains("NOT EXISTS"));
    assert!(plan.validation_sql.contains("UNION ALL"));
    assert!(
        plan.validation_sql
            .contains("s.\"__pg2cb_op\" IN (E'U', E'M')")
    );
    assert!(
        plan.validation_sql
            .contains("r.\"__pg2cb_old_2\" = s.\"id\"")
    );
}

#[test]
fn apply_batch_identity_must_name_the_planned_target() {
    let source = table(vec![column(1, "id", Some(1))]);
    let plan = Arc::new(
        plan_apply(
            &source,
            QualifiedName::new("target", "orders").unwrap(),
            "stage_orders",
        )
        .unwrap(),
    );
    let identity = Arc::new(TableApplyIdentity {
        target: QualifiedName::new("target", "other").unwrap(),
        source_relation_id: source.relation_id,
        table_generation: 1,
        schema_fingerprint: "sha256:test".to_owned(),
    });
    assert!(matches!(
        validate_tables(&[TableApplyBatch {
            identity,
            plan,
            rows: Vec::new(),
        }]),
        Err(ApplyError::IdentityTargetMismatch { .. })
    ));
}

#[test]
fn dynamically_avoids_source_column_control_name_collisions() {
    let source = table(vec![
        column(1, "id", Some(1)),
        column(2, "__pg2cb_op", None),
    ]);
    let plan = plan_apply(
        &source,
        QualifiedName::new("target", "orders").unwrap(),
        "stage\"; DROP TABLE x; --",
    )
    .unwrap();
    assert_eq!(plan.copy_layout.operation_column, "__pg2cb1_op");
    assert!(
        plan.create_staging_sql
            .starts_with("CREATE TEMPORARY TABLE \"stage\"\"; DROP TABLE x; --\"")
    );
}

#[test]
fn omits_update_for_a_key_only_table() {
    let source = table(vec![column(1, "id", Some(1))]);
    let plan = plan_apply(
        &source,
        QualifiedName::new("target", "keys").unwrap(),
        "stage_keys",
    )
    .unwrap();
    assert!(plan.update_sql.is_none());
    assert!(plan.materialize_moves_sql.is_none());
    assert!(plan.validation_sql.contains("NOT (TRUE)"));
}

#[test]
fn staging_encoding_materializes_presence_without_losing_null() {
    let source = table(vec![column(1, "id", Some(1)), column(2, "payload", None)]);
    let plan = plan_apply(
        &source,
        QualifiedName::new("target", "orders").unwrap(),
        "stage_orders",
    )
    .unwrap();
    let unchanged = encode_staging_row(
        &plan,
        &StagingRow {
            operation: StageOperation::Upsert,
            cells: vec![Cell::Text(Bytes::from_static(b"1")), Cell::UnchangedToast],
            old_key: None,
        },
    )
    .unwrap();
    let explicit_null = encode_staging_row(
        &plan,
        &StagingRow {
            operation: StageOperation::Upsert,
            cells: vec![Cell::Text(Bytes::from_static(b"1")), Cell::Null],
            old_key: None,
        },
    )
    .unwrap();
    assert_eq!(unchanged, b"U\t1\t\\N\tf\tf\t\\N\n");
    assert_eq!(explicit_null, b"U\t1\t\\N\tt\tf\t\\N\n");
}

#[test]
fn staging_encoding_rejects_missing_key_and_wrong_arity() {
    let source = table(vec![column(1, "id", Some(1)), column(2, "payload", None)]);
    let plan = plan_apply(
        &source,
        QualifiedName::new("target", "orders").unwrap(),
        "stage_orders",
    )
    .unwrap();
    assert!(matches!(
        encode_staging_row(
            &plan,
            &StagingRow {
                operation: StageOperation::Delete,
                cells: vec![Cell::Null, Cell::Null],
                old_key: None,
            }
        ),
        Err(ApplyError::MissingPrimaryKey(_))
    ));
    assert!(matches!(
        encode_staging_row(
            &plan,
            &StagingRow {
                operation: StageOperation::Delete,
                cells: vec![Cell::Text(Bytes::from_static(b"1"))],
                old_key: None,
            }
        ),
        Err(ApplyError::InvalidRowArity { .. })
    ));
}

#[test]
fn staging_encoding_carries_a_typed_old_key_for_moves() {
    let source = table(vec![
        column(1, "tenant", Some(2)),
        column(2, "id", Some(1)),
        column(3, "payload", None),
    ]);
    let plan = plan_apply(
        &source,
        QualifiedName::new("target", "orders").unwrap(),
        "stage_orders",
    )
    .unwrap();
    let encoded = encode_staging_row(
        &plan,
        &StagingRow {
            operation: StageOperation::Move,
            cells: vec![
                Cell::Text(Bytes::from_static(b"20")),
                Cell::Text(Bytes::from_static(b"2")),
                Cell::UnchangedToast,
            ],
            old_key: Some(vec![
                Cell::Text(Bytes::from_static(b"1")),
                Cell::Text(Bytes::from_static(b"10")),
            ]),
        },
    )
    .unwrap();
    assert_eq!(encoded, b"M\t20\t2\t\\N\tf\tt\t1\t10\n");
}

#[test]
fn staging_encoding_enforces_move_old_key_ownership_and_arity() {
    let source = table(vec![column(1, "id", Some(1)), column(2, "payload", None)]);
    let plan = plan_apply(
        &source,
        QualifiedName::new("target", "orders").unwrap(),
        "stage_orders",
    )
    .unwrap();
    let cells = vec![Cell::Text(Bytes::from_static(b"2")), Cell::UnchangedToast];

    assert!(matches!(
        encode_staging_row(
            &plan,
            &StagingRow {
                operation: StageOperation::Move,
                cells: cells.clone(),
                old_key: None,
            }
        ),
        Err(ApplyError::MissingOldPrimaryKey)
    ));
    assert!(matches!(
        encode_staging_row(
            &plan,
            &StagingRow {
                operation: StageOperation::Upsert,
                cells: cells.clone(),
                old_key: Some(vec![Cell::Text(Bytes::from_static(b"1"))]),
            }
        ),
        Err(ApplyError::UnexpectedOldPrimaryKey)
    ));
    assert!(matches!(
        encode_staging_row(
            &plan,
            &StagingRow {
                operation: StageOperation::Move,
                cells,
                old_key: Some(Vec::new()),
            }
        ),
        Err(ApplyError::InvalidOldKeyArity { .. })
    ));
}

fn orders_plan() -> ApplyPlan {
    let source = table(vec![column(1, "id", Some(1)), column(2, "payload", None)]);
    let target = QualifiedName::new("target", "orders").unwrap();
    plan_apply(&source, target, "stage").unwrap()
}

fn orders_batch(staging_name: &str) -> TableApplyBatch {
    let source = table(vec![column(1, "id", Some(1)), column(2, "payload", None)]);
    let target = QualifiedName::new("target", "orders").unwrap();
    TableApplyBatch {
        identity: Arc::new(TableApplyIdentity {
            target: target.clone(),
            source_relation_id: 1,
            table_generation: 1,
            schema_fingerprint: "sha256:test".to_owned(),
        }),
        plan: Arc::new(plan_apply(&source, target, staging_name).unwrap()),
        rows: Vec::new(),
    }
}

fn chunk_manifest(record_count: u64) -> TransactionChunkManifest {
    TransactionChunkManifest {
        key: TransactionChunkKey {
            pipeline_id: PipelineId::from_uuid(Uuid::from_u128(1)),
            topology_generation: 7,
            node_id: 2,
            end_lsn: PgLsn::new(0x1234),
        },
        system_identifier: 5,
        timeline: 3,
        slot_name: "pg2cb_slot_2".to_owned(),
        xid: 9,
        manifest_version: 1,
        record_count,
        manifest_digest: [1; 32],
    }
}

#[test]
fn every_statement_of_a_plan_is_rendered_in_full() {
    let plan = orders_plan();
    assert_eq!(
        plan.create_staging_sql,
        r#"CREATE TEMPORARY TABLE "stage" (
    "__pg2cb_op" character(1) NOT NULL CHECK ("__pg2cb_op" IN (E'U', E'D', E'M')),
    "id" integer,
    "payload" integer,
    "__pg2cb_present_2" boolean NOT NULL,
    "__pg2cb_old_key_present" boolean NOT NULL,
    "__pg2cb_old_1" integer
)
USING heap
ON COMMIT DROP
DISTRIBUTED BY ("id")"#
    );
    assert_eq!(
        plan.copy_sql,
        "COPY \"stage\" (\"__pg2cb_op\", \"id\", \"payload\", \"__pg2cb_present_2\", \"__pg2cb_old_key_present\", \"__pg2cb_old_1\") FROM STDIN WITH (FORMAT text, DELIMITER E'\\t', NULL E'\\\\N')"
    );
    assert_eq!(
        plan.validation_sql,
        r#"SELECT (
    EXISTS (
        SELECT 1
        FROM "stage" AS s
        LEFT JOIN "target"."orders" AS t ON t."id" = s."id"
        LEFT JOIN "target"."orders" AS old_t ON old_t."id" = s."__pg2cb_old_1"
        WHERE s."__pg2cb_op" NOT IN (E'U', E'D', E'M')
           OR s."id" IS NULL
           OR (s."__pg2cb_op" IN (E'U', E'D') AND (s."__pg2cb_old_key_present" OR (s."__pg2cb_old_1" IS NOT NULL)))
           OR (s."__pg2cb_op" = E'M' AND (NOT s."__pg2cb_old_key_present" OR (s."__pg2cb_old_1" IS NULL) OR (s."id" = s."__pg2cb_old_1")))
           OR (s."__pg2cb_op" = E'M' AND (old_t."id" IS NULL))
           OR (s."__pg2cb_op" = E'M' AND NOT (t."id" IS NULL) AND NOT (EXISTS (
                SELECT 1
                FROM "stage" AS r
                WHERE (r."__pg2cb_op" = E'D' AND (r."id" = s."id"))
                   OR (r."__pg2cb_op" = E'M' AND (r."__pg2cb_old_1" = s."id"))
            )))
           OR (s."__pg2cb_op" = E'U' AND ((t."id" IS NULL) OR (EXISTS (
                SELECT 1
                FROM "stage" AS r
                WHERE (r."__pg2cb_op" = E'D' AND (r."id" = s."id"))
                   OR (r."__pg2cb_op" = E'M' AND (r."__pg2cb_old_1" = s."id"))
            ))) AND NOT (s."__pg2cb_present_2"))
    )
    OR EXISTS (
        SELECT 1 FROM "stage" AS s
        WHERE s."__pg2cb_op" IN (E'U', E'M')
        GROUP BY s."id"
        HAVING count(*) > 1
    )
    OR EXISTS (
        SELECT 1
        FROM (
            SELECT r."id"
            FROM "stage" AS r
            WHERE r."__pg2cb_op" = E'D'
            UNION ALL
            SELECT r."__pg2cb_old_1" AS "id"
            FROM "stage" AS r
            WHERE r."__pg2cb_op" = E'M'
        ) AS released
        GROUP BY released."id"
        HAVING count(*) > 1
    )
) AS invalid_batch"#
    );
    assert_eq!(
        plan.delete_sql,
        r#"DELETE FROM "target"."orders" AS t
USING "stage" AS s
WHERE s."__pg2cb_op" = E'D' AND t."id" = s."id""#
    );
    assert_eq!(
        plan.delete_moved_sql,
        r#"DELETE FROM "target"."orders" AS t
USING "stage" AS s
WHERE s."__pg2cb_op" = E'M' AND t."id" = s."__pg2cb_old_1""#
    );
    assert_eq!(
        plan.move_sql,
        r#"INSERT INTO "target"."orders" ("id", "payload")
SELECT s."id", s."payload"
FROM "stage" AS s
WHERE s."__pg2cb_op" = E'M'"#
    );
    assert_eq!(
        plan.insert_sql,
        r#"INSERT INTO "target"."orders" ("id", "payload")
SELECT s."id", s."payload"
FROM "stage" AS s
WHERE s."__pg2cb_op" = E'U'
  AND NOT EXISTS (SELECT 1 FROM "target"."orders" AS t WHERE t."id" = s."id")"#
    );
    assert_eq!(
        plan.materialize_moves_sql.as_deref(),
        Some(
            r#"UPDATE "stage" AS s
SET
    "payload" = CASE WHEN s."__pg2cb_present_2" THEN s."payload" ELSE t."payload" END
FROM "target"."orders" AS t
WHERE s."__pg2cb_op" = E'M' AND t."id" = s."__pg2cb_old_1""#
        )
    );
    assert_eq!(
        plan.update_sql.as_deref(),
        Some(
            r#"UPDATE "target"."orders" AS t
SET
    "payload" = CASE WHEN s."__pg2cb_present_2" THEN s."payload" ELSE t."payload" END
FROM "stage" AS s
WHERE s."__pg2cb_op" = E'U' AND t."id" = s."id""#
        )
    );
}

#[test]
fn statements_release_keys_before_they_are_taken() {
    let plan = orders_plan();
    let kinds: Vec<ApplyStatement> = apply_statements(&plan)
        .iter()
        .map(|(statement, _)| *statement)
        .collect();
    assert_eq!(
        kinds,
        [
            ApplyStatement::MaterializeMoves,
            ApplyStatement::Delete,
            ApplyStatement::DeleteMoved,
            ApplyStatement::Move,
            ApplyStatement::Update,
            ApplyStatement::Insert,
        ]
    );
    let mut stats = ApplyStats::default().count_staged(6);
    for (rows, (statement, _)) in apply_statements(&plan).iter().enumerate() {
        stats = stats.count(*statement, rows as u64);
    }
    assert_eq!(
        stats,
        ApplyStats {
            staged_rows: 6,
            deleted_rows: 3,
            moved_rows: 3,
            updated_rows: 4,
            inserted_rows: 5,
        }
    );
    assert_eq!(stats.count(ApplyStatement::Insert, u64::MAX).inserted_rows, u64::MAX);
    let outcome = ApplyOutcome::new(stats, AdvanceOutcome::Unchanged);
    assert_eq!(outcome.deleted_rows, 3);
    assert_eq!(outcome.checkpoint, AdvanceOutcome::Unchanged);

    let keys_only = table(vec![column(1, "id", Some(1))]);
    let plan = plan_apply(&keys_only, QualifiedName::new("target", "orders").unwrap(), "stage");
    assert_eq!(apply_statements(&plan.unwrap()).len(), 4);
}

#[test]
fn plans_refuse_what_cannot_be_named() {
    let target = QualifiedName::new("target", "orders").unwrap();
    let source = table(vec![column(1, "id", Some(1))]);
    assert_eq!(
        plan_apply(&source, target.clone(), ""),
        Err(ApplyPlanError::Sql(SqlRenderError::EmptyIdentifier))
    );
    let twice = table(vec![column(1, "id", Some(1)), column(2, "id", None)]);
    assert_eq!(
        plan_apply(&twice, target, "stage"),
        Err(ApplyPlanError::Schema(SchemaError::DuplicateColumn("id".to_owned())))
    );
    assert_eq!(unused_control_prefix(&orders_plan().table), "__pg2cb_");
}

#[test]
fn batches_of_one_transaction_have_their_own_staging_tables() {
    let mut batches = [orders_batch("stage_a"), orders_batch("stage_b")];
    assert_eq!(validate_tables(&batches), Ok(()));
    assert!(table_identities(&batches).is_empty());
    batches[1].rows.push(StagingRow {
        operation: StageOperation::Delete,
        cells: Vec::new(),
        old_key: None,
    });
    let identities = table_identities(&batches);
    assert_eq!(identities.len(), 1);
    assert_eq!(*identities[0], *batches[1].identity);
    assert_eq!(
        validate_tables(&[orders_batch("stage_a"), orders_batch("stage_a")]),
        Err(ApplyError::DuplicateStagingName("stage_a".to_owned()))
    );
    let plan = orders_plan();
    assert_eq!(check_validation(&plan, false), Ok(()));
    assert_eq!(
        check_validation(&plan, true),
        Err(ApplyError::InvalidBatch("target.orders".to_owned()))
    );
}

#[test]
fn staged_rows_fill_every_copy_column() {
    let plan = orders_plan();
    let text = |value: &'static str| Cell::Text(Bytes::from_static(value.as_bytes()));
    let upsert = StagingRow {
        operation: StageOperation::Upsert,
        cells: vec![text("1"), Cell::UnchangedToast],
        old_key: None,
    };
    assert_eq!(
        encode_staging_row(&plan, &upsert).unwrap(),
        b"U\t1\t\\N\tf\tf\t\\N\n"
    );
    let moved = StagingRow {
        operation: StageOperation::Move,
        cells: vec![text("2"), Cell::Null],
        old_key: Some(vec![text("1")]),
    };
    assert_eq!(
        encode_staging_row(&plan, &moved).unwrap(),
        b"M\t2\t\\N\tt\tt\t1\n"
    );
    let unnamed = StagingRow {
        old_key: Some(vec![Cell::Null]),
        ..moved.clone()
    };
    assert_eq!(
        encode_staging_row(&plan, &unnamed),
        Err(ApplyError::MissingOldPrimaryKeyColumn("id".to_owned()))
    );
    let binary = StagingRow {
        cells: vec![text("2"), Cell::Binary(Bytes::from_static(b"x"))],
        ..upsert
    };
    assert_eq!(
        encode_staging_row(&plan, &binary),
        Err(ApplyError::Copy(CopyEncodeError::BinaryValue))
    );
}

#[test]
fn a_prepared_chunk_is_applied_finished_or_retired() {
    let manifest = chunk_manifest(20);
    let fence = PipelineFence {
        pipeline_id: manifest.key.pipeline_id,
        topology_generation: 7,
        fencing_token: 11,
    };
    let chunk = DataChunkIdentity { start_seq: 0, end_seq: 10, digest: [2; 32] };
    let prepared = decide_chunk(fence, &manifest, 0, None, chunk).unwrap();
    assert_eq!(chunk_action(&prepared), ChunkAction::Apply { next_seq: 10 });
    assert_eq!(
        chunk_action(&PrepareDataChunkOutcome::AlreadyCommitted { next_seq: 20 }),
        ChunkAction::Finish { next_seq: 20, disposition: DataChunkDisposition::AlreadyCommitted }
    );
    assert_eq!(
        chunk_action(&PrepareDataChunkOutcome::ResumeAt { next_seq: 15 }),
        ChunkAction::Finish { next_seq: 15, disposition: DataChunkDisposition::ResumeAt }
    );
    let applied_lsn = PgLsn::new(5);
    assert_eq!(
        chunk_action(&PrepareDataChunkOutcome::AlreadyCheckpointed { applied_lsn }),
        ChunkAction::Retired { applied_lsn }
    );

    let applied = DataChunkDisposition::Applied { stats: ApplyStats::default() };
    assert_eq!(finish_action(20, 20, applied), Ok(FinishAction::Complete));
    assert_eq!(finish_action(10, 20, applied), Ok(FinishAction::Commit));
    assert_eq!(
        finish_action(10, 20, DataChunkDisposition::ResumeAt),
        Ok(FinishAction::Rollback)
    );
    assert_eq!(
        finish_action(21, 20, applied),
        Err(ApplyError::ChunkLedger(ChunkLedgerError::InvalidPersistedValue {
            field: "next_seq",
            value: "21".to_owned()
        }))
    );
}

#[test]
fn an_empty_transaction_completes_at_its_start() {
    assert_eq!(check_empty(&chunk_manifest(0)), Ok(()));
    assert_eq!(
        check_empty(&chunk_manifest(3)),
        Err(ApplyError::NonEmptyManifest { record_count: 3 })
    );
    assert_eq!(empty_action(ProgressRegistration::Registered), Ok(EmptyAction::Complete));
    assert_eq!(
        empty_action(ProgressRegistration::Existing { next_seq: 0 }),
        Ok(EmptyAction::Complete)
    );
    let applied_lsn = PgLsn::new(5);
    assert_eq!(
        empty_action(ProgressRegistration::AlreadyCheckpointed { applied_lsn }),
        Ok(EmptyAction::Retired { applied_lsn })
    );
    assert!(matches!(
        empty_action(ProgressRegistration::Existing { next_seq: 1 }),
        Err(ApplyError::ChunkLedger(ChunkLedgerError::InvalidPersistedValue {
            field: "next_seq",
            ..
        }))
    ));
}
