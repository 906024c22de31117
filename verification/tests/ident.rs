use target_cloudberry::ident::{PipelineId, Uuid};

#[test]
fn identifiers_are_shown_and_stored_as_uuids() {
    for value in [0, 1, 0x1234_5678_9abc_def0_0fed_cba9_8765_4321, u128::MAX] {
        let expected = uuid::Uuid::from_u128(value);
        let actual = Uuid::from_u128(value);
        assert_eq!(actual.display(), expected.to_string());
        assert_eq!(actual.as_bytes(), *expected.as_bytes());
        assert_eq!(actual.is_nil(), expected.is_nil());
        assert_eq!(PipelineId::from_uuid(actual).as_uuid(), actual);
    }
    assert_eq!(
        Uuid::from_u128(0x1234_5678_9abc_def0_0fed_cba9_8765_4321).display(),
        "12345678-9abc-def0-0fed-cba987654321"
    );
    assert!(Uuid::nil().is_nil());
}
