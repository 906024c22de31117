use target_cloudberry::sql::{quote_identifier, quote_literal, SqlRenderError};
use target_cloudberry::source::QualifiedName;
use target_cloudberry::sql::{quote_identifier_list, quote_qualified_name};

#[test]
fn quotes_identifiers_including_reserved_words_and_quotes() {
    assert_eq!(quote_identifier("select").unwrap(), r#""select""#);
    assert_eq!(
        quote_identifier("a\"; DROP TABLE x; --").unwrap(),
        r#""a""; DROP TABLE x; --""#
    );
    assert_eq!(quote_identifier("订单").unwrap(), r#""订单""#);
}

#[test]
fn quotes_literals_independently_of_string_settings() {
    assert_eq!(quote_literal("O'Reilly").unwrap(), "E'O''Reilly'");
    assert_eq!(quote_literal("a\\b\nc\t").unwrap(), "E'a\\\\b\\nc\\t'");
    assert_eq!(
        quote_literal("'; DROP TABLE x; --").unwrap(),
        "E'''; DROP TABLE x; --'"
    );
}

#[test]
fn rejects_values_postgres_cannot_represent() {
    assert_eq!(quote_identifier(""), Err(SqlRenderError::EmptyIdentifier));
    assert!(matches!(
        quote_identifier("bad\0name"),
        Err(SqlRenderError::NulByte { kind: "identifier" })
    ));
    assert!(matches!(
        quote_literal("bad\0value"),
        Err(SqlRenderError::NulByte { kind: "literal" })
    ));
}

#[test]
fn names_and_lists_are_quoted_in_whole() {
    let name = QualifiedName::new("we\"ird", "items").unwrap();
    assert_eq!(quote_qualified_name(&name).unwrap(), "\"we\"\"ird\".\"items\"");
    let list = vec!["a".to_owned(), "b\"c".to_owned()];
    assert_eq!(quote_identifier_list(&list).unwrap(), "\"a\", \"b\"\"c\"");
    assert_eq!(
        quote_identifier_list(&vec!["a".to_owned(), String::new()]),
        Err(SqlRenderError::EmptyIdentifier)
    );
    assert_eq!(quote_identifier_list(&Vec::new()).unwrap(), "");
}
