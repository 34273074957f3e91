use daly_bms::event::{data_view_hex, event_value, value_hex};
use daly_bms::hex::{bytes_to_hex, hex_to_bytes};

#[test]
fn hex_of_no_bytes_is_empty() {
    assert_eq!(bytes_to_hex(&[]), "");
}

#[test]
fn hex_of_one_byte_has_no_separator() {
    assert_eq!(bytes_to_hex(&[0xd2]), "d2");
    assert_eq!(bytes_to_hex(&[0x05]), "05");
}

#[test]
fn hex_is_lower_case_and_space_separated() {
    assert_eq!(bytes_to_hex(&[0xD2, 0x03, 0x00, 0xFF, 0x0A, 0xBC]), "d2 03 00 ff 0a bc");
}

#[test]
fn hex_length_is_three_per_byte_minus_one() {
    let bytes: Vec<u8> = (0..=255u8).collect();
    assert_eq!(bytes_to_hex(&bytes).len(), 3 * 256 - 1);
}

#[test]
fn different_bytes_render_differently() {
    assert_ne!(bytes_to_hex(&[0x01, 0x23]), bytes_to_hex(&[0x12, 0x03]));
    assert_ne!(bytes_to_hex(&[0x00]), bytes_to_hex(&[0x00, 0x00]));
}

#[test]
fn data_view_window_inside_buffer() {
    assert_eq!(data_view_hex(&[1, 2, 3, 4, 5], 1, 3), "02 03 04");
}

#[test]
fn data_view_window_clamped_to_buffer() {
    assert_eq!(data_view_hex(&[1, 2, 3, 4, 5], 4, 10), "05");
    assert_eq!(data_view_hex(&[1, 2, 3, 4, 5], 9, 2), "");
    assert_eq!(data_view_hex(&[1, 2, 3], 0, 0), "");
}

#[test]
fn event_value_prefers_target_then_own_then_detail() {
    assert_eq!(event_value(Some(1), Some(2), Some(3)), Some(1));
    assert_eq!(event_value(None, Some(2), Some(3)), Some(2));
    assert_eq!(event_value(None, None, Some(3)), Some(3));
    assert_eq!(event_value::<u8>(None, None, None), None);
}

#[test]
fn hex_parses_back_to_the_bytes() {
    let bytes: Vec<u8> = vec![0x00, 0x7f, 0x80, 0xd2, 0x3e, 0xff];
    let hex = bytes_to_hex(&bytes);
    let parsed: Vec<u8> = hex.split(' ').map(|p| u8::from_str_radix(p, 16).unwrap()).collect();
    assert_eq!(parsed, bytes);
}

#[test]
fn value_hex_of_a_view_renders_its_window() {
    let buffer = [9u8, 0xd2, 0x03, 0x3e, 7];
    assert_eq!(value_hex(Some(&buffer), 1, 3, &[]), "d2 03 3e");
    assert_eq!(value_hex(Some(&buffer), 3, 9, &[1, 2]), "3e 07");
}

#[test]
fn value_hex_of_a_plain_value_renders_it_whole() {
    assert_eq!(value_hex(None, 1, 1, &[0xd2, 0x03, 0x00]), "d2 03 00");
    assert_eq!(value_hex(None, 0, 0, &[]), "");
}

#[test]
fn hex_to_bytes_reads_back_rendered_bytes() {
    let bytes: Vec<u8> = vec![0x00, 0x7f, 0x80, 0xd2, 0x3e, 0xff];
    assert_eq!(hex_to_bytes(&bytes_to_hex(&bytes)), Some(bytes));
    assert_eq!(hex_to_bytes(""), Some(vec![]));
    assert_eq!(hex_to_bytes("D2 3e"), Some(vec![0xd2, 0x3e]));
}

#[test]
fn hex_to_bytes_rejects_malformed_text() {
    assert_eq!(hex_to_bytes("d"), None);
    assert_eq!(hex_to_bytes("d2 3"), None);
    assert_eq!(hex_to_bytes("d2  3e"), None);
    assert_eq!(hex_to_bytes("d2-3e"), None);
    assert_eq!(hex_to_bytes("g2"), None);
    assert_eq!(hex_to_bytes("d2 3e "), None);
}
