use target_cloudberry::source::{
    clone_texts, ColumnSchema, CoreError, GeneratedColumn, IdentityColumn, PgType, PgTypeKind,
    QualifiedName, ReplicaIdentity, TableKind, TableSchema,
};

fn column(name: &str, key: Option<u16>) -> ColumnSchema {
    ColumnSchema {
        attnum: 1,
        name: name.to_owned(),
        data_type: PgType {
            oid: 20,
            name: QualifiedName::new("pg_catalog", "int8").unwrap(),
            kind: PgTypeKind::Int8,
        },
        nullable: key.is_none(),
        primary_key_ordinal: key,
        generated: GeneratedColumn::Never,
        identity: IdentityColumn::Never,
        collation: None,
    }
}

fn table(columns: Vec<ColumnSchema>) -> TableSchema {
    TableSchema {
        relation_id: 1,
        generation: 1,
        name: QualifiedName::new("public", "items").unwrap(),
        kind: TableKind::Ordinary,
        replica_identity: ReplicaIdentity::Default,
        columns,
        distribution_key: Vec::new(),
        partition_key: Vec::new(),
    }
}

#[test]
fn names_hold_two_identifiers() {
    let name = QualifiedName::new("public", "items").unwrap();
    assert_eq!(name.display(), "public.items");
    assert!(name.same(&name.clone()));
    assert!(!name.same(&QualifiedName::new("public", "item").unwrap()));
    assert_eq!(QualifiedName::new("", "a"), Err(CoreError::EmptyIdentifier));
    assert_eq!(QualifiedName::new("a", ""), Err(CoreError::EmptyIdentifier));
    assert_eq!(QualifiedName::new("a\0", "b"), Err(CoreError::NulIdentifier));
    let longest = "x".repeat(63);
    assert!(QualifiedName::new(&longest, &longest).is_ok());
    let error = QualifiedName::new("a", &"é".repeat(32)).unwrap_err();
    assert_eq!(error, CoreError::IdentifierTooLong);
    assert!(error.message().contains("63 bytes"));
}

#[test]
fn the_key_follows_its_ordinals() {
    let source = table(vec![column("b", Some(2)), column("x", None), column("a", Some(1))]);
    assert_eq!(source.key_positions(), [2, 0]);
    let names: Vec<&str> = source.primary_key().iter().map(|key| key.name.as_str()).collect();
    assert_eq!(names, ["a", "b"]);
    assert!(source.validate_supported().is_ok());
    assert_eq!(
        table(vec![column("x", None)]).validate_supported(),
        Err(CoreError::MissingPrimaryKey)
    );
}

#[test]
fn lists_of_texts_are_copied() {
    let list = vec!["a".to_owned(), String::new()];
    assert_eq!(clone_texts(&list), list);
}
