use tbs_template::hexenc::hex_upper;

#[test]
fn hex_upper_known_value() {
    assert_eq!(hex_upper(&[0xBEu8, 0xEF]), b"BEEF".to_vec());
}

#[test]
fn hex_upper_empty() {
    assert_eq!(hex_upper(&[]), Vec::<u8>::new());
}

#[test]
fn hex_upper_all_nibbles() {
    let bytes = vec![0x01u8, 0x23, 0x45, 0x67, 0x89, 0xAB, 0xCD, 0xEF];
    assert_eq!(hex_upper(&bytes), b"0123456789ABCDEF".to_vec());
}

#[test]
fn hex_upper_leading_zero() {
    assert_eq!(hex_upper(&[0x05u8, 0x00]), b"0500".to_vec());
}
