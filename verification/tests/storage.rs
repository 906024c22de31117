use target_cloudberry::storage::TargetStorage;
use target_cloudberry::storage::{require_access_method, StorageCapabilityError};

#[test]
fn profile_json_and_ddl_are_stable_and_bounded() {
    assert_eq!(
        serde_json::Value::from(TargetStorage::AoColumn.as_str()),
        serde_json::Value::from("ao_column")
    );
    assert_eq!(
        TargetStorage::parse("pax_experimental").unwrap(),
        TargetStorage::PaxExperimental
    );
    assert!(TargetStorage::AoColumn.create_clause().contains("zstd"));
    assert!(
        TargetStorage::PaxExperimental
            .create_clause()
            .contains("storage_format='porc'")
    );
    assert!(TargetStorage::parse("heap").is_none());
    assert!(TargetStorage::parse("pax").is_none());
}

#[test]
fn profiles_are_stored_told_apart_and_required() {
    assert_eq!(TargetStorage::default(), TargetStorage::AoColumn);
    for storage in [TargetStorage::AoColumn, TargetStorage::PaxExperimental] {
        assert_eq!(TargetStorage::parse(storage.as_str()), Some(storage));
        assert_eq!(require_access_method(storage, true), Ok(()));
    }
    assert_eq!(TargetStorage::AoColumn.fingerprint_tag(), "ao-column-zstd-1-v1");
    assert_eq!(
        TargetStorage::PaxExperimental.fingerprint_tag(),
        "pax-experimental-porc-zstd-1-v1"
    );
    assert_eq!(
        require_access_method(TargetStorage::PaxExperimental, false),
        Err(StorageCapabilityError::MissingAccessMethod("pax"))
    );
}
