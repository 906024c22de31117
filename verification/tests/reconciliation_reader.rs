use sha2::{Digest, Sha256};
use target_cloudberry::checkpoint::{CheckpointKey, NodeCheckpoint, PipelineFence, StoredNodeCheckpoint};
use target_cloudberry::ident::{PipelineId, Uuid};
use target_cloudberry::lsn::PgLsn;
use target_cloudberry::reconciliation::{ReconciliationRunIdentity, ReconciliationState, StoredReconciliationState, Timestamp};
use target_cloudberry::reconciliation_reader::{canonical_settings_sql, domain_base_requires_normalization, reconciliation_copy_sql, validate_alignment_catalog, validate_distribution, validate_domain_shape, validate_enum_catalog, validate_managed_type, validate_primary_key, validate_relation, validate_request, DistributionCatalog, DomainCatalog, ManagedTypeCatalog, PrimaryKeyCatalog, ReconciliationReaderError, ReconciliationReaderTimeouts, RelationCatalog, Timeout, LOAD_COLUMNS_SQL, LOAD_DISTRIBUTION_SQL, LOAD_DOMAIN_SQL, LOAD_ENUM_LABELS_SQL, LOAD_PRIMARY_KEY_SQL, LOAD_RELATION_SQL, LOCK_MANAGED_TYPE_SQL, MAX_TIMEOUT_NANOSECONDS};
use target_cloudberry::schema::{plan_create_table_with_storage, plan_type, CreateTablePlan, UserTypeDefinition, UserTypePlan};
use target_cloudberry::source::{ColumnSchema, GeneratedColumn, IdentityColumn, PgType, PgTypeKind, QualifiedName, ReplicaIdentity, TableKind, TableSchema};
use target_cloudberry::storage::TargetStorage;
use target_cloudberry::managed::TableApplyIdentity;
use target_cloudberry::reconciliation_reader::{
    check_relation_count, check_type_count, collation_from_row, column_lookup, prerequisite_order,
    reader_checkpoint_key, reader_identity, timeout_millis, validate_column, validate_column_count,
    validate_domain_base, ColumnCatalog, NormalizedType, ReconciliationReader,
};

fn random_id() -> Uuid {
    Uuid::from_u128(uuid::Uuid::now_v7().as_u128())
}

fn random_pipeline() -> PipelineId {
    PipelineId::from_uuid(random_id())
}

fn column(
    attnum: i16,
    name: &str,
    oid: u32,
    catalog_name: &str,
    kind: PgTypeKind,
    key: Option<u16>,
) -> ColumnSchema {
    ColumnSchema {
        attnum,
        name: name.to_owned(),
        data_type: PgType {
            oid,
            name: QualifiedName::new("pg_catalog", catalog_name).unwrap(),
            kind,
        },
        nullable: key.is_none(),
        primary_key_ordinal: key,
        generated: GeneratedColumn::Never,
        identity: IdentityColumn::Never,
        collation: None,
    }
}

fn source_schema() -> TableSchema {
    TableSchema {
        relation_id: 42,
        generation: 3,
        name: QualifiedName::new("source", "orders").unwrap(),
        kind: TableKind::Ordinary,
        replica_identity: ReplicaIdentity::Default,
        columns: vec![
            column(1, "payload", 25, "text", PgTypeKind::Text, None),
            column(2, "sequence", 20, "int8", PgTypeKind::Int8, Some(2)),
            column(3, "tenant", 23, "int4", PgTypeKind::Int4, Some(1)),
            column(4, "note", 25, "text", PgTypeKind::Text, None),
        ],
        distribution_key: Vec::new(),
        partition_key: Vec::new(),
    }
}

fn run(target: QualifiedName, oid: u32) -> ReconciliationRunIdentity {
    ReconciliationRunIdentity {
        fence: PipelineFence {
            pipeline_id: PipelineId::from_uuid(Uuid::from_u128(1)),
            topology_generation: 3,
            fencing_token: 7,
        },
        source_relation_id: 42,
        target,
        target_relation_oid: oid,
        table_generation: 3,
        schema_fingerprint: "sha256:orders-v3".to_owned(),
        run_id: Uuid::from_u128(2),
        source_node_id: 0,
        temporary_slot_name: "pg2cb_reconcile_orders_2".to_owned(),
        source_system_identifier: 123,
        source_timeline: 1,
        source_snapshot_lsn: PgLsn::new(0x100),
    }
}

fn plan() -> CreateTablePlan {
    plan_create_table_with_storage(
        &source_schema(),
        QualifiedName::new("analytics", "orders").unwrap(),
        TargetStorage::AoColumn,
    )
    .unwrap()
}

fn scanning_state(
    run: ReconciliationRunIdentity,
    checkpoint_lsn: PgLsn,
) -> StoredReconciliationState {
    StoredReconciliationState {
        run,
        state: ReconciliationState::Scanning,
        target_checkpoint_lsn: Some(checkpoint_lsn),
        source: None,
        target: None,
        started_at: Timestamp { micros: 0 },
        completed_at: None,
        last_consistent_at: None,
        last_mismatch_at: None,
        next_due_at: None,
        failure_reason: None,
        consecutive_failures: 0,
    }
}

fn checkpoint(run: &ReconciliationRunIdentity, applied_lsn: PgLsn) -> StoredNodeCheckpoint {
    StoredNodeCheckpoint {
        checkpoint: NodeCheckpoint {
            key: CheckpointKey {
                pipeline_id: run.fence.pipeline_id,
                topology_generation: run.fence.topology_generation,
                node_id: run.source_node_id,
            },
            system_identifier: run.source_system_identifier,
            timeline: run.source_timeline,
            slot_name: "pg2cb_main".to_owned(),
            applied_lsn,
        },
        fencing_token: run.fence.fencing_token,
    }
}

fn enum_prerequisite() -> UserTypePlan {
    plan_type(
        &PgType {
            oid: 90_001,
            name: QualifiedName::new("source", "order_status").unwrap(),
            kind: PgTypeKind::Enum {
                labels: vec!["new".to_owned(), "done".to_owned()],
            },
        },
        "analytics",
    )
    .unwrap()
    .prerequisites
    .into_iter()
    .next()
    .unwrap()
}

#[test]
fn copy_projection_matches_source_key_first_contract_without_sorting() {
    let schema = source_schema();
    let target = QualifiedName::new("Analytics", "Order\"Rows").unwrap();
    let sql = reconciliation_copy_sql(&schema, &target).unwrap();
    assert_eq!(
        sql,
        "COPY (SELECT \"tenant\", \"sequence\", \"payload\", \"note\" FROM \"Analytics\".\"Order\"\"Rows\") TO STDOUT WITH (FORMAT text, HEADER false, DELIMITER E'\\t', NULL E'\\\\N')"
    );
    assert!(!sql.contains("ORDER BY"));
}

#[test]
fn canonical_session_is_repeatable_and_every_timeout_is_bounded() {
    let sql = canonical_settings_sql(ReconciliationReaderTimeouts::default()).unwrap();
    for required in [
        "client_encoding = 'UTF8'",
        "DateStyle = 'ISO, YMD'",
        "IntervalStyle = 'postgres'",
        "TimeZone = 'UTC'",
        "extra_float_digits = 3",
        "bytea_output = 'hex'",
        "search_path = pg_catalog",
        "lock_timeout = '5000ms'",
        "statement_timeout = '21600000ms'",
        "idle_in_transaction_session_timeout = '300000ms'",
    ] {
        assert!(sql.contains(required), "missing {required}");
    }
    let invalid = ReconciliationReaderTimeouts {
        lock_timeout: Timeout { nanoseconds: 0 },
        ..ReconciliationReaderTimeouts::default()
    };
    assert!(canonical_settings_sql(invalid).is_err());
    let invalid = ReconciliationReaderTimeouts {
        statement_timeout: Timeout {
            nanoseconds: MAX_TIMEOUT_NANOSECONDS + 1_000_000,
        },
        ..ReconciliationReaderTimeouts::default()
    };
    assert!(canonical_settings_sql(invalid).is_err());
}

#[test]
fn request_accepts_independent_generations_and_rejects_invalid_identity_or_plan() {
    let schema = source_schema();
    let mut table = plan();
    let mut run = run(table.target.clone(), 1234);
    validate_request(&run, &schema, &table).unwrap();

    run.table_generation += 1;
    validate_request(&run, &schema, &table)
        .expect("managed table and source catalog generations are independent");

    run.table_generation = 0;
    assert!(matches!(
        validate_request(&run, &schema, &table),
        Err(ReconciliationReaderError::InvalidIdentity(_))
    ));
    run.table_generation = 4;
    let mut invalid_schema = source_schema();
    invalid_schema.generation = 0;
    assert!(matches!(
        validate_request(&run, &invalid_schema, &table),
        Err(ReconciliationReaderError::InvalidIdentity(_))
    ));

    table.columns[0].nullable = false;
    assert!(matches!(
        validate_request(&run, &schema, &table),
        Err(ReconciliationReaderError::NonCanonicalPlan(_))
    ));
}

#[test]
fn relation_primary_key_and_distribution_fail_closed() {
    let table = plan();
    let run = run(table.target.clone(), 1234);
    let relation = RelationCatalog {
        oid: 1234,
        kind: "r".to_owned(),
        persistence: "p".to_owned(),
        is_partition: false,
        row_security: false,
        force_row_security: false,
        access_method: Some("ao_column".to_owned()),
    };
    validate_relation(&run, &table, &relation).unwrap();
    let mut wrong_relation = relation.clone();
    wrong_relation.access_method = Some("heap".to_owned());
    assert!(validate_relation(&run, &table, &wrong_relation).is_err());

    let primary = PrimaryKeyCatalog {
        index_oid: 8,
        unique: true,
        valid: true,
        ready: true,
        immediate: true,
        key_attribute_count: 2,
        total_attribute_count: 2,
        has_no_predicate: true,
        has_no_expressions: true,
        key_attnums: vec![3, 2],
        key_names: vec![Some("tenant".to_owned()), Some("sequence".to_owned())],
    };
    validate_primary_key(&table, std::slice::from_ref(&primary)).unwrap();
    let mut covering = primary;
    covering.total_attribute_count = 3;
    assert!(validate_primary_key(&table, &[covering]).is_err());

    let distribution = DistributionCatalog {
        policy_type: "p".to_owned(),
        num_segments: 4,
        key_attnums: vec![3, 2],
        key_names: vec![Some("tenant".to_owned()), Some("sequence".to_owned())],
    };
    validate_distribution(&table, std::slice::from_ref(&distribution)).unwrap();
    let mut random = distribution;
    random.key_attnums.clear();
    random.key_names.clear();
    assert!(validate_distribution(&table, &[random]).is_err());
}

#[test]
fn alignment_requires_the_exact_scanning_run_and_checkpoint_snapshot() {
    let run = run(QualifiedName::new("analytics", "orders").unwrap(), 1234);
    let lsn = PgLsn::new(0xff);
    let state = scanning_state(run.clone(), lsn);
    let stored_checkpoint = checkpoint(&run, lsn);
    validate_alignment_catalog(&run, Some(&state), Some(&stored_checkpoint)).unwrap();

    assert!(matches!(
        validate_alignment_catalog(&run, None, Some(&stored_checkpoint)),
        Err(ReconciliationReaderError::Alignment(_))
    ));
    let mut aligning = state.clone();
    aligning.state = ReconciliationState::Aligning;
    assert!(
        validate_alignment_catalog(&run, Some(&aligning), Some(&stored_checkpoint)).is_err()
    );

    let advanced = checkpoint(&run, PgLsn::new(0x100));
    assert!(validate_alignment_catalog(&run, Some(&state), Some(&advanced)).is_err());
    let mut wrong_source = stored_checkpoint;
    wrong_source.checkpoint.timeline += 1;
    assert!(validate_alignment_catalog(&run, Some(&state), Some(&wrong_source)).is_err());
}

#[test]
fn managed_type_enum_and_domain_contracts_fail_closed() {
    let run = run(QualifiedName::new("analytics", "orders").unwrap(), 1234);
    let prerequisite = enum_prerequisite();
    let checksum = Sha256::digest(prerequisite.create_sql.as_bytes()).to_vec();
    let managed = ManagedTypeCatalog {
        pipeline_id: run.fence.pipeline_id,
        definition_checksum: checksum,
        fencing_token: run.fence.fencing_token,
    };
    validate_managed_type(&run, &prerequisite, Some(&managed)).unwrap();
    validate_enum_catalog(
        &run,
        &prerequisite,
        "e",
        &["new".to_owned(), "done".to_owned()],
        &["new".to_owned(), "done".to_owned()],
    )
    .unwrap();

    let mut wrong_checksum = managed.clone();
    wrong_checksum.definition_checksum[0] ^= 1;
    assert!(validate_managed_type(&run, &prerequisite, Some(&wrong_checksum)).is_err());
    let mut other_pipeline = managed.clone();
    other_pipeline.pipeline_id = random_pipeline();
    assert!(validate_managed_type(&run, &prerequisite, Some(&other_pipeline)).is_err());
    let mut newer = managed;
    newer.fencing_token += 1;
    assert!(validate_managed_type(&run, &prerequisite, Some(&newer)).is_err());
    assert!(
        validate_enum_catalog(
            &run,
            &prerequisite,
            "e",
            &["done".to_owned(), "new".to_owned()],
            &["new".to_owned(), "done".to_owned()],
        )
        .is_err()
    );

    let domain = UserTypePlan {
        name: QualifiedName::new("analytics", "order_code").unwrap(),
        create_sql: "CREATE DOMAIN \"analytics\".\"order_code\" AS character varying(16)"
            .to_owned(),
        definition: UserTypeDefinition::Domain {
            base_sql: "character varying(16)".to_owned(),
        },
    };
    let physical = DomainCatalog {
        kind: "d".to_owned(),
        base_type_oid: 1043,
        base_type_modifier: 20,
        formatted_base_type: "character varying(16)".to_owned(),
        not_null: false,
        default: None,
        constraint_count: 0,
    };
    validate_domain_shape(&run, &domain, &physical).unwrap();
    assert!(
        !domain_base_requires_normalization(&run, &domain, &physical, "character varying(16)")
            .unwrap()
    );
    assert!(
        domain_base_requires_normalization(&run, &domain, &physical, "character varying(32)")
            .is_err()
    );
    let mut constrained = physical;
    constrained.constraint_count = 1;
    assert!(validate_domain_shape(&run, &domain, &constrained).is_err());
}

#[test]
fn catalog_sql_uses_oid_scoped_structured_catalogs() {
    assert!(LOAD_RELATION_SQL.contains("c.oid::bigint"));
    assert!(LOAD_COLUMNS_SQL.contains("format_type(a.atttypid, a.atttypmod)"));
    assert!(LOAD_COLUMNS_SQL.contains("a.attisdropped"));
    assert!(LOAD_PRIMARY_KEY_SQL.contains("ordinal <= i.indnkeyatts"));
    assert!(LOAD_PRIMARY_KEY_SQL.contains("i.indnatts"));
    assert!(LOAD_DISTRIBUTION_SQL.contains("p.distkey::smallint[]"));
    assert!(LOAD_DISTRIBUTION_SQL.contains("p.policytype"));
    assert!(LOCK_MANAGED_TYPE_SQL.trim_end().ends_with("FOR UPDATE"));
    assert!(LOAD_ENUM_LABELS_SQL.contains("ORDER BY e.enumsortorder"));
    assert!(LOAD_DOMAIN_SQL.contains("format_type(t.typbasetype, t.typtypmod)"));
    assert!(LOAD_DOMAIN_SQL.contains("c.contypid = t.oid"));
}

fn orders_run() -> ReconciliationRunIdentity {
    run(QualifiedName::new("analytics", "orders").unwrap(), 17_001)
}

fn catalog_column(attnum: i32, name: &str, formatted_type: &str, not_null: bool) -> ColumnCatalog {
    let text = formatted_type == "text";
    ColumnCatalog {
        attnum,
        name: name.to_owned(),
        formatted_type: formatted_type.to_owned(),
        type_oid: 25,
        type_modifier: -1,
        not_null,
        dropped: false,
        has_default: false,
        generated: String::new(),
        identity: String::new(),
        type_is_collatable: text,
        collation: if text {
            collation_from_row(Some("pg_catalog".to_owned()), Some("default".to_owned()))
        } else {
            None
        },
    }
}

fn detail(result: Result<(), ReconciliationReaderError>) -> String {
    match result {
        Err(ReconciliationReaderError::CatalogMismatch { table, detail }) => {
            assert_eq!(table, "analytics.orders");
            detail
        }
        other => panic!("expected a catalog mismatch, got {other:?}"),
    }
}

#[test]
fn every_wait_has_a_bound() {
    let millis = |nanoseconds| timeout_millis("lock_timeout", Timeout { nanoseconds });
    let refused = Err(ReconciliationReaderError::InvalidTimeout { name: "lock_timeout" });
    assert_eq!(millis(1_000_000), Ok(1));
    assert_eq!(millis(1_999_999), Ok(1));
    assert_eq!(millis(MAX_TIMEOUT_NANOSECONDS), Ok(86_400_000));
    for nanoseconds in [0, 999_999, MAX_TIMEOUT_NANOSECONDS + 1] {
        assert_eq!(millis(nanoseconds), refused);
    }
}

#[test]
fn the_reader_is_bound_to_its_run() {
    let run = orders_run();
    assert_eq!(
        reader_identity(&run),
        TableApplyIdentity {
            target: run.target.clone(),
            source_relation_id: 42,
            table_generation: 3,
            schema_fingerprint: "sha256:orders-v3".to_owned(),
        }
    );
    assert_eq!(
        reader_checkpoint_key(&run),
        CheckpointKey {
            pipeline_id: run.fence.pipeline_id,
            topology_generation: 3,
            node_id: 0,
        }
    );
    let reader = ReconciliationReader::new(&run, 17_001, "COPY".to_owned());
    assert_eq!(reader.relation_oid(), 17_001);
    assert_eq!(*reader.target(), run.target);
    assert_eq!(reader.copy_sql(), "COPY");
    assert_eq!(check_relation_count(&run.target, 1), Ok(()));
    assert_eq!(
        detail(check_relation_count(&run.target, 2)),
        "expected one physical relation, found 2"
    );
}

#[test]
fn columns_match_the_plan_in_every_respect() {
    let schema = source_schema();
    let plan = plan();
    let expected = || catalog_column(2, "sequence", "bigint", true);
    assert_eq!(validate_column_count(&schema, &plan, 4), Ok(()));
    assert_eq!(
        detail(validate_column_count(&schema, &plan, 5)),
        "visible/dropped pg_attribute row count is 5, expected 4"
    );
    assert_eq!(column_lookup(&schema, &plan, 1, &expected()), Ok(None));
    assert_eq!(validate_column(&schema, &plan, 1, &expected(), None), Ok(()));
    let payload = catalog_column(1, "payload", "text", false);
    assert_eq!(validate_column(&schema, &plan, 0, &payload, None), Ok(()));

    let faults: [(fn(&mut ColumnCatalog), &str); 5] = [
        (
            |column| column.attnum = 3,
            "column 2: attribute number/dropped state is 3/false, expected 2/false",
        ),
        (
            |column| column.name = "other".to_owned(),
            "column 2: name is `other`, expected `sequence`",
        ),
        (
            |column| column.formatted_type = "integer".to_owned(),
            "column 2: format_type is `integer`, expected `bigint`",
        ),
        (
            |column| column.not_null = false,
            "column 2: nullability is nullable=true, expected false",
        ),
        (
            |column| column.has_default = true,
            "column 2: default, generated, or identity metadata was added externally",
        ),
    ];
    for (spoil, text) in faults {
        let mut spoilt = expected();
        spoil(&mut spoilt);
        assert_eq!(detail(validate_column(&schema, &plan, 1, &spoilt, None)), text);
    }
    let mut collated = catalog_column(1, "payload", "text", false);
    collated.collation = collation_from_row(Some("pg_catalog".to_owned()), Some("C".to_owned()));
    assert_eq!(
        detail(validate_column(&schema, &plan, 0, &collated, None)),
        format!(
            "column 1: collation is {:?}, expected {:?}",
            collated.collation,
            Some(QualifiedName::new("pg_catalog", "default").unwrap())
        )
    );
    assert_eq!(collation_from_row(Some("pg_catalog".to_owned()), None), None);
}

#[test]
fn user_types_are_compared_as_the_server_names_them() {
    let mut schema = source_schema();
    schema.columns[0].data_type = PgType {
        oid: 90_001,
        name: QualifiedName::new("source", "order_status").unwrap(),
        kind: PgTypeKind::Enum { labels: vec!["new".to_owned()] },
    };
    let target = QualifiedName::new("analytics", "orders").unwrap();
    let plan = plan_create_table_with_storage(&schema, target, TargetStorage::AoColumn).unwrap();
    let mut actual = catalog_column(1, "payload", "analytics.order_status", false);
    actual.type_oid = 70_001;
    let asked = column_lookup(&schema, &plan, 0, &actual).unwrap();
    assert_eq!(asked.as_deref(), Some("\"analytics\".\"order_status\""));
    let mut known = NormalizedType {
        oid: Some(70_001),
        formatted: Some("analytics.order_status".to_owned()),
    };
    assert_eq!(validate_column(&schema, &plan, 0, &actual, Some(&known)), Ok(()));
    known.oid = None;
    assert_eq!(
        detail(validate_column(&schema, &plan, 0, &actual, Some(&known))),
        "column 1: user type is OID 70001/-1, format `analytics.order_status`; expected OID None, typmod -1, format Some(\"analytics.order_status\")"
    );
    assert!(detail(validate_column(&schema, &plan, 0, &actual, None))
        .ends_with("expected OID None, typmod -1, format None"));
    assert_eq!(prerequisite_order(&plan), [0]);
    let prerequisite = &plan.prerequisites[0];
    assert_eq!(check_type_count(&orders_run(), prerequisite, "physical type", 1), Ok(()));
    assert!(detail(check_type_count(&orders_run(), prerequisite, "physical type", 0))
        .ends_with("expected one physical type, found 0"));
}

#[test]
fn domain_bases_are_compared_as_the_server_names_them() {
    let prerequisite = enum_prerequisite();
    let actual = DomainCatalog {
        kind: "d".to_owned(),
        base_type_oid: 70_001,
        base_type_modifier: -1,
        formatted_base_type: "analytics.order_status".to_owned(),
        not_null: false,
        default: None,
        constraint_count: 0,
    };
    let known = NormalizedType {
        oid: Some(70_001),
        formatted: Some("analytics.order_status".to_owned()),
    };
    assert_eq!(validate_domain_base(&orders_run(), &prerequisite, &actual, &known), Ok(()));
    let unknown = NormalizedType { oid: None, formatted: None };
    assert!(detail(validate_domain_base(&orders_run(), &prerequisite, &actual, &unknown)).ends_with(
        "domain base is OID 70001 format `analytics.order_status`, expected OID None format None"
    ));
}
