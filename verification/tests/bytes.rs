use vllm_coldstart_probe::bytes::{read_le, write_le};

#[test]
fn integers_are_read_least_significant_byte_first() {
    let bytes = [9, 0x78, 0x56, 0x34, 0x12, 9];
    assert_eq!(read_le(&bytes, 1, 4), 0x12345678);
    assert_eq!(read_le(&bytes, 1, 1), 0x78);
    assert_eq!(read_le(&bytes, 6, 0), 0);
    assert_eq!(read_le(&[0xff; 8], 0, 8), u64::MAX);
}

#[test]
fn integers_are_stored_in_their_field_only() {
    let mut out = [7u8; 8];
    write_le(&mut out, 2, 4, 0x12345678);
    assert_eq!(out, [7, 7, 0x78, 0x56, 0x34, 0x12, 7, 7]);
}
