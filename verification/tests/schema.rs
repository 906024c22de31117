use target_cloudberry::schema::{plan_create_table, plan_create_table_with_storage, plan_type, SchemaError, UserTypeDefinition};
use target_cloudberry::source::{ColumnSchema, GeneratedColumn, IdentityColumn, PgType, PgTypeKind, QualifiedName, ReplicaIdentity, TableKind, TableSchema};
use target_cloudberry::storage::TargetStorage;
use target_cloudberry::source::CoreError;
use target_cloudberry::sql::SqlRenderError;

fn pg_type(oid: u32, name: &str, kind: PgTypeKind) -> PgType {
    PgType {
        oid,
        name: QualifiedName::new("pg_catalog", name).unwrap(),
        kind,
    }
}

fn column(attnum: i16, name: &str, kind: PgTypeKind, pk: Option<u16>) -> ColumnSchema {
    ColumnSchema {
        attnum,
        name: name.to_owned(),
        data_type: pg_type(attnum as u32, name, kind),
        nullable: pk.is_none(),
        primary_key_ordinal: pk,
        generated: GeneratedColumn::Never,
        identity: IdentityColumn::Never,
        collation: None,
    }
}

fn table(columns: Vec<ColumnSchema>) -> TableSchema {
    TableSchema {
        relation_id: 42,
        generation: 1,
        name: QualifiedName::new("public", "source_orders").unwrap(),
        kind: TableKind::Ordinary,
        replica_identity: ReplicaIdentity::Default,
        columns,
        distribution_key: Vec::new(),
        partition_key: Vec::new(),
    }
}

#[test]
fn maps_cloudberry_21_builtin_types_without_text_fallback() {
    let cases = [
        (PgTypeKind::Bool, "boolean"),
        (PgTypeKind::Int4, "integer"),
        (
            PgTypeKind::Numeric {
                precision: Some(20),
                scale: Some(4),
            },
            "numeric(20,4)",
        ),
        (
            PgTypeKind::Timestamp {
                precision: Some(3),
                with_time_zone: true,
            },
            "timestamp(3) with time zone",
        ),
        (
            PgTypeKind::Bit {
                length: Some(8),
                varying: true,
            },
            "bit varying(8)",
        ),
    ];

    for (kind, expected) in cases {
        let mapped = plan_type(&pg_type(1, "test", kind), "target").unwrap();
        assert_eq!(mapped.sql, expected);
        assert!(mapped.prerequisites.is_empty());
    }
}

#[test]
fn rejects_pg18_typmods_missing_from_the_pg14_based_target() {
    let result = plan_type(
        &pg_type(
            1,
            "numeric",
            PgTypeKind::Numeric {
                precision: Some(10),
                scale: Some(-2),
            },
        ),
        "target",
    );
    assert!(matches!(result, Err(SchemaError::InvalidTypmod { .. })));
}

#[test]
fn enum_stays_a_typed_enum_and_quotes_labels() {
    let data_type = PgType {
        oid: 9_001,
        name: QualifiedName::new("source", "order_status").unwrap(),
        kind: PgTypeKind::Enum {
            labels: vec!["new".into(), "customer's".into()],
        },
    };
    let plan = plan_type(&data_type, "tenant").unwrap();
    assert_eq!(plan.sql, r#""tenant"."order_status""#);
    assert_eq!(
        plan.prerequisites[0].create_sql,
        r#"CREATE TYPE "tenant"."order_status" AS ENUM (E'new', E'customer''s')"#
    );
    assert_eq!(
        plan.prerequisites[0].definition,
        UserTypeDefinition::Enum {
            labels: vec!["new".into(), "customer's".into()]
        }
    );
}

#[test]
fn builds_aoco_table_distributed_by_the_complete_pk() {
    let source = table(vec![
        column(1, "tenant_id", PgTypeKind::Int4, Some(2)),
        column(2, "payload", PgTypeKind::VarChar { length: Some(64) }, None),
        column(3, "id", PgTypeKind::Int8, Some(1)),
    ]);
    let plan = plan_create_table(
        &source,
        QualifiedName::new("tenant\"one", "select").unwrap(),
    )
    .unwrap();

    assert_eq!(plan.storage, TargetStorage::AoColumn);
    assert_eq!(plan.primary_key, ["id", "tenant_id"]);
    assert_eq!(plan.distribution_key, plan.primary_key);
    assert!(
        plan.create_sql
            .starts_with("CREATE TABLE \"tenant\"\"one\".\"select\"")
    );
    assert!(
        plan.create_sql
            .contains("PRIMARY KEY (\"id\", \"tenant_id\")")
    );
    assert!(
        plan.create_sql
            .contains("\nUSING ao_column WITH (compresstype='zstd', compresslevel=1)\n")
    );
    assert!(
        plan.create_sql
            .ends_with("DISTRIBUTED BY (\"id\", \"tenant_id\")")
    );
}

#[test]
fn explicit_storage_profiles_render_only_the_supported_access_methods() {
    let source = table(vec![column(1, "id", PgTypeKind::Int8, Some(1))]);
    for (storage, clause) in [
        (
            TargetStorage::AoColumn,
            "USING ao_column WITH (compresstype='zstd', compresslevel=1)",
        ),
        (
            TargetStorage::PaxExperimental,
            "USING pax WITH (storage_format='porc', compresstype='zstd', compresslevel=1)",
        ),
    ] {
        let plan = plan_create_table_with_storage(
            &source,
            QualifiedName::new("target", &format!("items_{storage:?}")).unwrap(),
            storage,
        )
        .unwrap();
        assert_eq!(plan.storage, storage);
        assert!(plan.create_sql.contains(clause));
    }
}

#[test]
fn rejects_validation_gated_table_kinds() {
    let mut source = table(vec![column(1, "id", PgTypeKind::Int8, Some(1))]);
    source.kind = TableKind::CitusReference;
    assert_eq!(
        plan_create_table(&source, QualifiedName::new("target", "orders").unwrap()),
        Err(SchemaError::UnsupportedTableKind(TableKind::CitusReference))
    );
}

#[test]
fn rejects_raw_domain_constraints_instead_of_replaying_sql() {
    let domain = PgType {
        oid: 9_002,
        name: QualifiedName::new("source", "positive_int").unwrap(),
        kind: PgTypeKind::Domain {
            base: Box::new(pg_type(23, "int4", PgTypeKind::Int4)),
            constraints: vec!["CHECK (VALUE > 0); DROP TABLE x".into()],
        },
    };
    assert!(matches!(
        plan_type(&domain, "target"),
        Err(SchemaError::UnsupportedType { .. })
    ));
}

#[test]
fn every_fault_of_a_table_is_named() {
    let target = || QualifiedName::new("target", "orders").unwrap();
    let id = || column(1, "id", PgTypeKind::Int8, Some(1));
    assert_eq!(
        plan_create_table(&table(vec![column(1, "id", PgTypeKind::Int8, None)]), target()),
        Err(SchemaError::Core(CoreError::MissingPrimaryKey))
    );
    assert_eq!(
        plan_create_table(&table(vec![id(), column(2, "id", PgTypeKind::Int8, None)]), target()),
        Err(SchemaError::DuplicateColumn("id".to_owned()))
    );
    assert_eq!(
        plan_create_table(&table(vec![id(), column(2, "b", PgTypeKind::Int8, Some(1))]), target()),
        Err(SchemaError::InvalidPrimaryKeyOrdinal(1))
    );
    assert_eq!(
        plan_create_table(&table(vec![column(1, "id", PgTypeKind::Int8, Some(0))]), target()),
        Err(SchemaError::InvalidPrimaryKeyOrdinal(0))
    );
    let labels = |values: &[&str]| PgTypeKind::Enum {
        labels: values.iter().map(|value| (*value).to_owned()).collect(),
    };
    let mut left = column(2, "left", labels(&["a"]), None);
    let mut right = column(3, "right", labels(&["b"]), None);
    left.data_type.name = QualifiedName::new("one", "status").unwrap();
    right.data_type.name = QualifiedName::new("two", "status").unwrap();
    assert_eq!(
        plan_create_table(&table(vec![id(), left, right]), target()),
        Err(SchemaError::ConflictingUserType("target.status".to_owned()))
    );
    let mut spoilt = column(2, "label", labels(&["a\0"]), None);
    spoilt.data_type.name = QualifiedName::new("one", "status").unwrap();
    assert!(matches!(
        plan_create_table(&table(vec![id(), spoilt]), target()),
        Err(SchemaError::Sql(SqlRenderError::NulByte { .. }))
    ));
}
