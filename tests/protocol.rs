use firmata::protocol::PinMode;

#[test]
fn pin_mode_codes_round_trip() {
    for b in 0..=255u8 {
        let mode = PinMode::from(b);
        assert_eq!(u8::from(mode), b);
    }
    assert_eq!(PinMode::from(0x03), PinMode::PWM);
    assert_eq!(PinMode::from(0x06), PinMode::I2C);
    assert_eq!(PinMode::from(0x07), PinMode::Other(0x07));
    assert_eq!(u8::from(PinMode::Servo), 0x04);
}

#[test]
fn error_descriptions() {
    assert_eq!(
        firmata::errors::Error::ResyncFailed.description(),
        "Could not resynchronize Firmata connection"
    );
}
