//! Firmata protocol definitions.
use vstd::prelude::*;

verus! {

/// Firmata analog pin value reporting
pub const ANALOG_REPORT: u8 = 0xC0;
/// The nybble representing an analog write or read report
pub const ANALOG_MESSAGE: u8 = 0xE;
/// The nybble of an analog read report
pub const ANALOG_READ: u8 = 0xE;
/// The nybble representing a digital write or read report
pub const DIGITAL_MESSAGE: u8 = 0x9;
/// Firmata pin mode request
pub const SET_PIN_MODE: u8 = 0xF4;
/// Firmata single digital pin write
pub const DIGITAL_WRITE: u8 = 0xF5;
/// Firmata/MIDI sysex message begin
pub const START_SYSEX: u8 = 0xF0;
/// Firmata/MIDI sysex message end
pub const END_SYSEX: u8 = 0xF7;
/// Firmata sysex firmware query.
pub const QUERY_FIRMWARE: u8 = 0x79;
/// Firmata sysex pin capability query
pub const CAPABILITY_QUERY: u8 = 0x6B;
/// Firmata sysex pin capability response
pub const CAPABILITY_RESPONSE: u8 = 0x6C;
/// Firmata capability response record separator
pub const CAPABILITY_RESPONSE_SEP: u8 = 0x7F;
/// The Firmata protocol version
pub const PROTOCOL_VERSION: u8 = 0xF9;
/// Firmata device reset request
pub const RESET: u8 = 0xFF;

#[derive(Debug, Clone, Copy, PartialEq, Eq, Structural)]
pub enum PinMode {
    DigitalInput,
    DigitalOutput,
    AnalogInput,
    PWM,
    Servo,
    Shift,
    I2C,
    Other(u8),
}

/// The pin mode that a raw mode byte stands for.
pub open spec fn mode_of_byte(b: u8) -> PinMode {
    if b == 0x00 {
        PinMode::DigitalInput
    } else if b == 0x01 {
        PinMode::DigitalOutput
    } else if b == 0x02 {
        PinMode::AnalogInput
    } else if b == 0x03 {
        PinMode::PWM
    } else if b == 0x04 {
        PinMode::Servo
    } else if b == 0x05 {
        PinMode::Shift
    } else if b == 0x06 {
        PinMode::I2C
    } else {
        PinMode::Other(b)
    }
}

/// The raw byte that a pin mode is sent as.
pub open spec fn byte_of_mode(m: PinMode) -> u8 {
    match m {
        PinMode::DigitalInput => 0x00,
        PinMode::DigitalOutput => 0x01,
        PinMode::AnalogInput => 0x02,
        PinMode::PWM => 0x03,
        PinMode::Servo => 0x04,
        PinMode::Shift => 0x05,
        PinMode::I2C => 0x06,
        PinMode::Other(n) => n,
    }
}

/// A mode in its one canonical form: `Other` only carries codes that no
/// named mode has.
pub open spec fn canonical_mode(m: PinMode) -> bool {
    m matches PinMode::Other(n) ==> n > 0x06
}

impl From<u8> for PinMode {
    fn from(item: u8) -> (r: PinMode)
        ensures
            r == mode_of_byte(item),
    {
        match item {
            0x00 => PinMode::DigitalInput,
            0x01 => PinMode::DigitalOutput,
            0x02 => PinMode::AnalogInput,
            0x03 => PinMode::PWM,
            0x04 => PinMode::Servo,
            0x05 => PinMode::Shift,
            0x06 => PinMode::I2C,
            n => PinMode::Other(n),
        }
    }
}

impl vstd::std_specs::convert::FromSpecImpl<u8> for PinMode {
    open spec fn obeys_from_spec() -> bool {
        true
    }

    open spec fn from_spec(v: u8) -> PinMode {
        mode_of_byte(v)
    }
}

impl From<PinMode> for u8 {
    fn from(item: PinMode) -> (r: u8)
        ensures
            r == byte_of_mode(item),
    {
        match item {
            PinMode::DigitalInput => 0x00,
            PinMode::DigitalOutput => 0x01,
            PinMode::AnalogInput => 0x02,
            PinMode::PWM => 0x03,
            PinMode::Servo => 0x04,
            PinMode::Shift => 0x05,
            PinMode::I2C => 0x06,
            PinMode::Other(n) => n,
        }
    }
}

impl vstd::std_specs::convert::FromSpecImpl<PinMode> for u8 {
    open spec fn obeys_from_spec() -> bool {
        true
    }

    open spec fn from_spec(v: PinMode) -> u8 {
        byte_of_mode(v)
    }
}

/// Every raw mode byte survives the trip through `PinMode` unchanged.
pub proof fn lemma_mode_byte_round_trip(b: u8)
    ensures
        byte_of_mode(mode_of_byte(b)) == b,
        canonical_mode(mode_of_byte(b)),
{
}

/// Every canonical mode survives the trip through its byte unchanged.
pub proof fn lemma_mode_round_trip(m: PinMode)
    requires
        canonical_mode(m),
    ensures
        mode_of_byte(byte_of_mode(m)) == m,
{
}

/// One capability of a pin: a mode it supports, at a resolution.
#[derive(Debug, Clone, Copy, PartialEq, Eq, Structural)]
pub struct PinCapability {
    pub mode: PinMode,
    pub res: u8,
}

/// A decoded Firmata message.
#[derive(Debug, Clone, PartialEq)]
pub enum FirmataMsg {
    QueryFirmware { major: u8, minor: u8, firmware_name: Vec<u8> },
    CapabilityQuery,
    CapabilityResponse(Vec<Vec<PinCapability>>),
    AnalogRead { pin: u8, value: u16 },
    ProtocolVersion { major: u8, minor: u8 },
}

/// The mathematical value of a `FirmataMsg`.
pub enum Message {
    QueryFirmware { major: u8, minor: u8, firmware_name: Seq<u8> },
    CapabilityQuery,
    CapabilityResponse(Seq<Seq<PinCapability>>),
    AnalogRead { pin: u8, value: u16 },
    ProtocolVersion { major: u8, minor: u8 },
}

/// The capability lists of a response, one sequence per pin.
pub open spec fn pins_view(pins: Seq<Vec<PinCapability>>) -> Seq<Seq<PinCapability>> {
    pins.map_values(|l: Vec<PinCapability>| l@)
}

impl View for FirmataMsg {
    type V = Message;

    open spec fn view(&self) -> Message {
        match self {
            FirmataMsg::QueryFirmware { major, minor, firmware_name } => Message::QueryFirmware {
                major: *major,
                minor: *minor,
                firmware_name: firmware_name@,
            },
            FirmataMsg::CapabilityQuery => Message::CapabilityQuery,
            FirmataMsg::CapabilityResponse(pins) => Message::CapabilityResponse(pins_view(pins@)),
            FirmataMsg::AnalogRead { pin, value } => Message::AnalogRead { pin: *pin, value: *value },
            FirmataMsg::ProtocolVersion { major, minor } => Message::ProtocolVersion {
                major: *major,
                minor: *minor,
            },
        }
    }
}

} // verus!
