use firmata::board::{Board, Firmware, Pin, Protocol};
use firmata::protocol::FirmataMsg;

#[test]
fn records_analog_values() {
    let mut board = Board::default();
    board.update(FirmataMsg::AnalogRead { pin: 3, value: 700 });
    board.update(FirmataMsg::AnalogRead { pin: 5, value: 1 });
    board.update(FirmataMsg::AnalogRead { pin: 3, value: 701 });
    assert_eq!(board.pins.len(), 2);
    assert_eq!(board.pins.get(&3), Some(&Pin { value: 701 }));
    assert_eq!(board.pins.get(&5), Some(&Pin { value: 1 }));
    assert!(board.firmware.is_none());
    assert!(board.protocol.is_none());
}

#[test]
fn records_firmware() {
    let mut board = Board::default();
    board.update(FirmataMsg::QueryFirmware {
        major: 2,
        minor: 4,
        firmware_name: b"StandardFirmata.ino".to_vec(),
    });
    assert_eq!(
        board.firmware,
        Some(Firmware { major: 2, minor: 4, name: String::from("StandardFirmata.ino") })
    );
}

#[test]
fn firmware_name_replaces_invalid_bytes() {
    let mut board = Board::default();
    board.update(FirmataMsg::QueryFirmware { major: 1, minor: 0, firmware_name: vec![b'a', 0xFF] });
    assert_eq!(board.firmware.unwrap().name, "a\u{FFFD}");
}

#[test]
fn protocol_version_resets_board() {
    let mut board = Board::default();
    board.update(FirmataMsg::AnalogRead { pin: 3, value: 700 });
    board.update(FirmataMsg::QueryFirmware { major: 2, minor: 4, firmware_name: b"x".to_vec() });
    board.update(FirmataMsg::ProtocolVersion { major: 2, minor: 6 });
    assert!(board.firmware.is_none());
    assert!(board.pins.is_empty());
    assert_eq!(board.protocol, Some(Protocol(2, 6)));
}

#[test]
fn other_messages_change_nothing() {
    let mut board = Board::default();
    board.update(FirmataMsg::AnalogRead { pin: 0, value: 9 });
    board.update(FirmataMsg::CapabilityQuery);
    board.update(FirmataMsg::CapabilityResponse(vec![vec![]]));
    assert_eq!(board.pins.len(), 1);
    assert!(board.firmware.is_none());
    assert!(board.protocol.is_none());
}

#[test]
fn reset_empties_board() {
    let mut board = Board::default();
    board.update(FirmataMsg::ProtocolVersion { major: 2, minor: 6 });
    board.update(FirmataMsg::AnalogRead { pin: 0, value: 9 });
    board.reset();
    assert!(board.protocol.is_none());
    assert!(board.pins.is_empty());
}
