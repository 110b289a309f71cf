use ec_data::support::trim_field_text;
use ec_data::trim_ascii_field;

#[test]
fn field_text_loses_padding_and_surrounding_space() {
    assert_eq!(trim_field_text("\0\0 Terra \0"), "Terra");
    assert_eq!(trim_field_text("  Zoë\u{3000}"), "Zoë");
    assert_eq!(trim_field_text("\0\0"), "");
    assert_eq!(trim_field_text("a\0b"), "a\0b");
}

#[test]
fn byte_fields_decode_then_trim() {
    assert_eq!(trim_ascii_field(b"Alpha\0\0\0"), "Alpha");
    assert_eq!(trim_ascii_field(b"  \0"), "");
    assert_eq!(trim_ascii_field(&[0xFF, b'x']), "\u{FFFD}x");
}
