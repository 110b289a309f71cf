use ec_data::storage::report_blocks::{decode_hex, decode_hex_nibble, encode_hex};

#[test]
fn encode_hex_writes_two_upper_case_digits_per_byte() {
    assert_eq!(encode_hex(&[0x00, 0xAB, 0x7F, 0x10]), "00AB7F10");
    assert_eq!(encode_hex(&[]), "");
}

#[test]
fn decode_hex_accepts_either_case() {
    assert_eq!(decode_hex("00ab").unwrap(), vec![0u8, 171]);
    assert_eq!(decode_hex("00AB").unwrap(), vec![0u8, 171]);
    assert_eq!(decode_hex("").unwrap(), Vec::<u8>::new());
}

#[test]
fn decode_hex_refuses_odd_length() {
    assert_eq!(
        decode_hex("ABC").unwrap_err(),
        "hex text length must be even"
    );
}

#[test]
fn decode_hex_names_the_first_bad_offset() {
    assert_eq!(
        decode_hex("0G").unwrap_err(),
        "invalid hex character at offset 1"
    );
    assert_eq!(
        decode_hex("00zz").unwrap_err(),
        "invalid hex character at offset 2"
    );
}

#[test]
fn hex_round_trip_gives_back_the_bytes() {
    let bytes: Vec<u8> = (0u8..=255).collect();
    let text = encode_hex(&bytes);
    assert_eq!(text.len(), 512);
    assert_eq!(decode_hex(&text).unwrap(), bytes);
}

#[test]
fn decode_hex_nibble_reads_each_digit() {
    assert_eq!(decode_hex_nibble(b'0'), Some(0));
    assert_eq!(decode_hex_nibble(b'9'), Some(9));
    assert_eq!(decode_hex_nibble(b'a'), Some(10));
    assert_eq!(decode_hex_nibble(b'F'), Some(15));
    assert_eq!(decode_hex_nibble(b'g'), None);
}
