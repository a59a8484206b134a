//! The host's snapshot of what the device has reported.
use vstd::prelude::*;
use std::collections::HashMap;
use crate::protocol::{FirmataMsg, Message};

verus! {

broadcast use vstd::std_specs::hash::group_hash_axioms;

/// The last value reported for an analog pin.
#[derive(Debug, Default, Clone, Copy, PartialEq, Eq, Structural)]
pub struct Pin {
    pub value: u16,
}

/// The firmware that the device reported.
#[derive(Debug, Default, Clone, PartialEq, Eq)]
pub struct Firmware {
    pub major: u8,
    pub minor: u8,
    pub name: String,
}

/// The protocol version that the device reported: major, minor.
#[derive(Debug, Default, Clone, Copy, PartialEq, Eq, Structural)]
pub struct Protocol(pub u8, pub u8);

/// Observed device state: firmware, protocol version, and the analog pins
/// that have reported a value.
#[derive(Debug)]
pub struct Board {
    pub firmware: Option<Firmware>,
    pub protocol: Option<Protocol>,
    pub pins: HashMap<u8, Pin>,
}

/// The mathematical value of a `Board`; the firmware is major, minor and
/// name.
pub struct BoardState {
    pub firmware: Option<(u8, u8, Seq<char>)>,
    pub protocol: Option<Protocol>,
    pub pins: Map<u8, Pin>,
}

impl View for Board {
    type V = BoardState;

    open spec fn view(&self) -> BoardState {
        BoardState {
            firmware: match self.firmware {
                Some(f) => Some((f.major, f.minor, f.name@)),
                None => None,
            },
            protocol: self.protocol,
            pins: self.pins@,
        }
    }
}

/// The text that `String::from_utf8_lossy` makes of a byte sequence.
pub uninterp spec fn utf8_lossy(bytes: Seq<u8>) -> Seq<char>;

/// Relies on `String::from_utf8_lossy`: its result depends on the bytes
/// alone.
#[verifier::external_body]
fn text_of(bytes: &[u8]) -> (r: String)
    ensures
        r@ == utf8_lossy(bytes@),
{
    String::from_utf8_lossy(bytes).into_owned()
}

/// The board that nothing has been reported to.
pub open spec fn empty_board() -> BoardState {
    BoardState { firmware: None, protocol: None, pins: Map::empty() }
}

/// The board after a message: an analog read records the pin's value, a
/// firmware report records the firmware, a protocol version report empties
/// the board and records the version; other messages change nothing.
pub open spec fn apply(b: BoardState, m: Message) -> BoardState {
    match m {
        Message::AnalogRead { pin, value } => BoardState {
            pins: b.pins.insert(pin, Pin { value }),
            ..b
        },
        Message::QueryFirmware { major, minor, firmware_name } => BoardState {
            firmware: Some((major, minor, utf8_lossy(firmware_name))),
            ..b
        },
        Message::ProtocolVersion { major, minor } => BoardState {
            protocol: Some(Protocol(major, minor)),
            ..empty_board()
        },
        _ => b,
    }
}

impl Default for Board {
    fn default() -> (r: Board)
        ensures
            r@ == empty_board(),
    {
        Board { firmware: None, protocol: None, pins: HashMap::new() }
    }
}

impl Board {
    /// Forgets everything reported.
    pub fn reset(&mut self)
        ensures
            final(self)@ == empty_board(),
    {
        *self = Board::default();
    }

    /// Folds a message into the board.
    pub fn update(&mut self, msg: FirmataMsg)
        ensures
            final(self)@ == apply(old(self)@, msg@),
    {
        match msg {
            FirmataMsg::AnalogRead { pin, value } => {
                self.pins.insert(pin, Pin { value });
            },
            FirmataMsg::QueryFirmware { major, minor, firmware_name } => {
                let name = text_of(firmware_name.as_slice());
                self.firmware = Some(Firmware { major, minor, name });
            },
            FirmataMsg::ProtocolVersion { major, minor } => {
                // The device sends its protocol version when it comes
                // online, so the report marks a restart.
                self.reset();
                self.protocol = Some(Protocol(major, minor));
            },
            _ => {},
        }
    }
}

/// A protocol version report leaves only that version on the board,
/// whatever the board held before.
pub proof fn lemma_protocol_version_resets(b: BoardState, major: u8, minor: u8)
    ensures
        apply(b, Message::ProtocolVersion { major, minor }) == (BoardState {
            firmware: None,
            protocol: Some(Protocol(major, minor)),
            pins: Map::empty(),
        }),
{
}

} // verus!
