use mib_rs::mib::resolver::semantics::hex_decode;

#[test]
fn hex_decode_accepts_mixed_case_and_separators() {
    assert_eq!(hex_decode("'aF 0c'H"), vec![0xAF, 0x0C]);
}

#[test]
fn hex_decode_pads_odd_digit_count() {
    assert_eq!(hex_decode("'ABC'H"), vec![0x0A, 0xBC]);
}
