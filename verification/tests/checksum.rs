use daly_bms::command::build_daly_read_command;
use daly_bms::crc::crc16_ibm_with_init;

#[test]
fn crc_of_empty_data_is_initial_register() {
    assert_eq!(crc16_ibm_with_init(&[], 0xFFFF), 0xFFFF);
    assert_eq!(crc16_ibm_with_init(&[], 0x1234), 0x1234);
}

#[test]
fn crc_matches_modbus_check_value() {
    assert_eq!(crc16_ibm_with_init(b"123456789", 0xFFFF), 0x4B37);
}

#[test]
fn crc_of_read_command_body() {
    assert_eq!(crc16_ibm_with_init(&[0xD2, 0x03, 0x00, 0x00, 0x00, 0x3E], 0xFFFF), 0xB9D7);
}

#[test]
fn crc_can_be_fed_in_pieces() {
    let whole = crc16_ibm_with_init(&[0xD2, 0x03, 0x00, 0x00, 0x00, 0x3E], 0xFFFF);
    let first = crc16_ibm_with_init(&[0xD2, 0x03], 0xFFFF);
    assert_eq!(crc16_ibm_with_init(&[0x00, 0x00, 0x00, 0x3E], first), whole);
}

#[test]
fn message_with_its_checksum_has_zero_checksum() {
    let data = b"battery";
    let c = crc16_ibm_with_init(data, 0x0000);
    let mut framed = data.to_vec();
    framed.push((c & 0xFF) as u8);
    framed.push((c >> 8) as u8);
    assert_eq!(crc16_ibm_with_init(&framed, 0x0000), 0);
}

#[test]
fn read_command_frame() {
    let frame = build_daly_read_command();
    assert_eq!(frame, vec![0xD2, 0x03, 0x00, 0x00, 0x00, 0x3E, 0xD7, 0xB9]);
    assert_eq!(crc16_ibm_with_init(&frame, 0xFFFF), 0);
}

#[test]
fn crc_is_linear_in_data_and_initial_register() {
    let a = [0xD2u8, 0x03, 0x00, 0x00, 0x00, 0x3E];
    let b = [0x12u8, 0x34, 0x56, 0x78, 0x9A, 0xBC];
    let x: Vec<u8> = a.iter().zip(b.iter()).map(|(p, q)| p ^ q).collect();
    let (i, j) = (0xFFFFu16, 0x1D0Fu16);
    assert_eq!(
        crc16_ibm_with_init(&x, i ^ j),
        crc16_ibm_with_init(&a, i) ^ crc16_ibm_with_init(&b, j)
    );
}
