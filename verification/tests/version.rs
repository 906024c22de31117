use target_cloudberry::version::verify_cloudberry_21_version;

#[test]
fn version_check_logic() {
    // Valid versions
    assert!("Apache Cloudberry 2.1.0".contains("Apache Cloudberry 2.1"));
    assert!("Apache Cloudberry 2.1.5-incubating".contains("Apache Cloudberry 2.1"));

    // Invalid versions
    assert!(!"Apache Cloudberry 2.0.0".contains("Apache Cloudberry 2.1"));
    assert!(!"Apache Cloudberry 2.2.0".contains("Apache Cloudberry 2.1"));
    assert!(!"PostgreSQL 14.0".contains("Apache Cloudberry 2.1"));
}

#[test]
fn only_the_supported_release_is_accepted() {
    for version in [
        "Apache Cloudberry 2.1.0",
        "Apache Cloudberry 2.1.5-incubating",
        "Apache Cloudberry 2.1",
        "PostgreSQL 14.4 (Apache Cloudberry 2.1.5-incubating build 1)",
    ] {
        assert_eq!(verify_cloudberry_21_version(version), Ok(()));
    }
    for version in [
        "Apache Cloudberry 2.0.0",
        "Apache Cloudberry 2.2.0",
        "Apache Cloudberry 2.10.0",
        "Apache Cloudberry 2.11",
        "PostgreSQL 14.0",
        "",
    ] {
        assert_eq!(
            verify_cloudberry_21_version(version),
            Err(format!(
                "This service only supports Apache Cloudberry 2.1.x target. Found: {version}"
            ))
        );
    }
}
