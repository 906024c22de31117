use target_cloudberry::digest::{be_bytes, digest_from, render_hex, same_digest};

#[test]
fn numbers_are_framed_in_network_order() {
    assert_eq!(be_bytes(0x0102_0304_0506_0708, 8), 0x0102_0304_0506_0708_u64.to_be_bytes());
    assert_eq!(be_bytes(0x0506_0708, 4), 0x0506_0708_u32.to_be_bytes());
    assert_eq!(be_bytes(1, 2), [0, 1]);
    assert!(be_bytes(0, 0).is_empty());
}

#[test]
fn digests_have_one_length() {
    assert_eq!(digest_from(&vec![7; 32]), Some([7; 32]));
    assert_eq!(digest_from(&vec![7; 31]), None);
    assert_eq!(digest_from(&vec![7; 33]), None);
    let mut other = [7; 32];
    assert!(same_digest(&other, &[7; 32]));
    other[31] = 8;
    assert!(!same_digest(&other, &[7; 32]));
}

#[test]
fn octets_are_shown_in_lower_case() {
    assert_eq!(render_hex(&[0, 9, 10, 0xab, 0xff]), "00090aabff");
    assert_eq!(render_hex(&[]), "");
}
