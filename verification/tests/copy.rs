use bytes::Bytes;
use target_cloudberry::change::Cell;
use target_cloudberry::copy::{encode_field, encode_row, CopyEncodeError};

#[test]
fn distinguishes_null_from_the_text_null_marker() {
    assert_eq!(encode_field(&Cell::Null).unwrap(), br"\N");
    assert_eq!(
        encode_field(&Cell::Text(Bytes::from_static(br"\N"))).unwrap(),
        br"\\N"
    );
}

#[test]
fn escapes_all_copy_text_control_bytes() {
    let value = Cell::Text(Bytes::from_static(b"a\\b\tc\nd\re\x08f\x0cg\x0bh\0i"));
    assert_eq!(
        encode_field(&value).unwrap(),
        br"a\\b\tc\nd\re\bf\fg\vh\000i"
    );
}

#[test]
fn encodes_rows_with_delimiters_and_record_terminator() {
    let row = [
        Cell::Text(Bytes::from_static(b"1")),
        Cell::Null,
        Cell::Text(Bytes::new()),
    ];
    assert_eq!(encode_row(&row).unwrap(), b"1\t\\N\t\n");
}

#[test]
fn refuses_values_without_a_text_copy_representation() {
    assert_eq!(
        encode_field(&Cell::UnchangedToast),
        Err(CopyEncodeError::UnchangedToast)
    );
    assert_eq!(
        encode_field(&Cell::Binary(Bytes::from_static(b"binary"))),
        Err(CopyEncodeError::BinaryValue)
    );
    assert_eq!(encode_row(&[]), Err(CopyEncodeError::EmptyRow));
}

#[test]
fn every_escape_of_the_text_format_is_written() {
    let cell = Cell::Text(Bytes::from_static(b"\\\x08\x0c\n\r\t\x0bplain\x00\xff"));
    assert_eq!(
        encode_field(&cell).unwrap(),
        b"\\\\\\b\\f\\n\\r\\t\\vplain\\000\xff"
    );
    assert_eq!(encode_field(&Cell::Null).unwrap(), b"\\N");
    assert_eq!(
        encode_field(&Cell::Text(Bytes::from_static(b"\\N"))).unwrap(),
        b"\\\\N"
    );
    assert_eq!(encode_field(&Cell::Text(Bytes::new())).unwrap(), b"");
}

#[test]
fn cells_are_cloned_with_their_octets() {
    let cell = Cell::Text(Bytes::from_static(b"value"));
    assert_eq!(cell.clone(), cell);
    assert_eq!(Cell::UnchangedToast.clone(), Cell::UnchangedToast);
    assert_eq!(
        encode_row(&[cell.clone(), cell]).unwrap(),
        b"value\tvalue\n"
    );
}
