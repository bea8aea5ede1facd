use soul_listener::bluetooth::hci::{HciCommand, HciError, HciEvent, HciEventCode, HciPacket, HciRawCommand};

#[test]
fn test_hci_command_packet_opcode() {
    // Reset is OGF=0x03, OCF=0x003 → opcode = (OGF << 10) | OCF = 0x0C03
    assert_eq!(HciCommand::Reset.opcode(), 0x0C03_u16);
}

#[test]
fn test_hci_command_packet_serialise_reset() {
    let pkt = HciPacket::from_command(HciCommand::Reset);
    // H4 format: [packet_type=0x01, opcode_lo, opcode_hi, param_len, ...params]
    assert_eq!(&pkt[..], &[0x01_u8, 0x03, 0x0C, 0x00]);
}

#[test]
fn test_hci_event_code_command_complete() {
    assert_eq!(HciEventCode::CommandComplete.as_u8(), 0x0E);
}

#[test]
fn test_hci_event_parse_command_complete() {
    let raw = [0x04_u8, 0x0E, 0x04, 0x01, 0x03, 0x0C, 0x00];
    let event = HciPacket::parse(&raw).expect("should parse successfully");
    assert_eq!(event, HciEvent::CommandComplete { status: 0x00 });
}

#[test]
fn test_hci_packet_too_short_returns_err() {
    let raw = [0x04_u8];
    let result = HciPacket::parse(&raw);
    assert_eq!(result, Err(HciError::PacketTooShort));
}

#[test]
fn test_hci_invalid_type_returns_err() {
    let raw = [0xFF_u8, 0x00];
    let result = HciPacket::parse(&raw);
    assert_eq!(result, Err(HciError::UnknownPacketType(0xFF)));
}

#[test]
fn hci_from_command_returns_err_on_overflow() {
    // 61 params + 4 header bytes = 65 bytes, overflows the 64-byte Vec
    let oversized_params = [0u8; 61];
    let result = HciPacket::from_raw_command(HciRawCommand { opcode: 0x2037, params: &oversized_params });
    assert!(result.is_err(), "serialization must return Err on buffer overflow");
    assert_eq!(result.unwrap_err(), HciError::CommandTooLong, "Overflow must produce HciError::CommandTooLong");
}

#[test]
fn hci_from_command_standard_advertising_succeeds() {
    let params = [0u8; 31];
    let result = HciPacket::from_raw_command(HciRawCommand { opcode: 0x2008, params: &params });
    assert!(result.is_ok(), "31-byte params must fit. Got: {:?}", result.err());
}

#[test]
fn hci_from_command_max_params_succeeds() {
    let max_params = [0u8; 60];
    let result = HciPacket::from_raw_command(HciRawCommand { opcode: 0x2037, params: &max_params });
    assert!(result.is_ok(), "60-byte params must succeed. Got: {:?}", result.err());
}

#[test]
fn hci_error_command_too_long_variant_exists() {
    let err = HciError::CommandTooLong;
    let debug_str = format!("{:?}", err);
    assert!(debug_str.contains("CommandTooLong"), "HciError::CommandTooLong must implement Debug");
}

#[test]
fn raw_command_frame_layout() {
    let params = [0xAA_u8, 0xBB, 0xCC];
    let frame = HciPacket::from_raw_command(HciRawCommand { opcode: 0x2037, params: &params }).unwrap();
    assert_eq!(&frame[..], &[0x01_u8, 0x37, 0x20, 0x03, 0xAA, 0xBB, 0xCC]);
}

#[test]
fn raw_command_of_reset_equals_from_command() {
    let raw = HciPacket::from_raw_command(HciRawCommand { opcode: 0x0C03, params: &[] }).unwrap();
    let cmd = HciPacket::from_command(HciCommand::Reset);
    assert_eq!(&raw[..], &cmd[..]);
}

#[test]
fn parse_event_errors() {
    // Event code other than CommandComplete.
    assert_eq!(HciPacket::parse(&[0x04, 0x05, 0x00]), Err(HciError::PacketTooShort));
    // CommandComplete with too few bytes.
    assert_eq!(HciPacket::parse(&[0x04, 0x0E, 0x04, 0x01, 0x03]), Err(HciError::PacketTooShort));
    // Empty input.
    assert_eq!(HciPacket::parse(&[]), Err(HciError::PacketTooShort));
    // Status read from the sixth byte after the type.
    assert_eq!(HciPacket::parse(&[0x04, 0x0E, 0x04, 0x01, 0x03, 0x0C, 0x12, 0x99]), Ok(HciEvent::CommandComplete { status: 0x12 }));
}

#[test]
fn reset_has_no_params() {
    assert_eq!(HciCommand::Reset.params().len(), 0);
}
