use target_cloudberry::lsn::PgLsn;

#[test]
fn positions_are_shown_in_two_halves_and_read_back() {
    for (value, text) in [
        (0, "0/0"),
        (0x100, "0/100"),
        (0x16_B374_D848, "16/B374D848"),
        (u64::MAX, "FFFFFFFF/FFFFFFFF"),
    ] {
        assert_eq!(PgLsn::new(value).display(), text);
        assert_eq!(PgLsn::parse(text), Some(PgLsn::new(value)));
        assert_eq!(PgLsn::new(value).as_u64(), value);
    }
    assert_eq!(PgLsn::parse("16/b374d848"), Some(PgLsn::new(0x16_B374_D848)));
    assert_eq!(PgLsn::zero(), PgLsn::new(0));
}

#[test]
fn malformed_positions_are_refused() {
    for text in ["", "/", "1", "1/", "/1", "1/2/3", "G/1", "1/100000000", "100000000/1", "1/ 2"] {
        assert_eq!(PgLsn::parse(text), None, "{text}");
    }
}
