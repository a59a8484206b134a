//! Decoding of Firmata byte streams.
//!
//! Each decoder looks at a buffer that may end in the middle of a message.
//! It either yields a message and the number of bytes it took, reports that
//! the buffer is a proper prefix of something it would accept, or reports
//! that no extension of the buffer can be accepted.
use vstd::prelude::*;
use crate::protocol::{
    byte_of_mode, canonical_mode, lemma_mode_round_trip, mode_of_byte, pins_view, FirmataMsg,
    Message, PinCapability, PinMode, ANALOG_READ, CAPABILITY_QUERY, CAPABILITY_RESPONSE,
    CAPABILITY_RESPONSE_SEP, END_SYSEX, PROTOCOL_VERSION, QUERY_FIRMWARE, START_SYSEX,
};

verus! {

/// The outcome of decoding at a position: a value and the position just
/// after it, a buffer that ends too early, or bytes that no grammar accepts.
pub enum Scan<T> {
    Done(T, nat),
    Incomplete,
    Malformed,
}

/// The result of an executable decoder: a value and the number of bytes it
/// took from the start of the input, `Incomplete` or `Malformed`.
#[derive(Debug, Clone, PartialEq)]
pub enum Decoded<T> {
    Done(T, usize),
    Incomplete,
    Malformed,
}

impl<T: View> View for Decoded<T> {
    type V = Scan<T::V>;

    open spec fn view(&self) -> Scan<T::V> {
        match self {
            Decoded::Done(v, n) => Scan::Done(v@, *n as nat),
            Decoded::Incomplete => Scan::Incomplete,
            Decoded::Malformed => Scan::Malformed,
        }
    }
}

impl View for PinCapability {
    type V = PinCapability;

    open spec fn view(&self) -> PinCapability {
        *self
    }
}

/// The capability that a mode byte and a resolution byte describe.
pub open spec fn capability_of(mode: u8, res: u8) -> PinCapability {
    PinCapability { mode: mode_of_byte(mode), res }
}

/// One capability entry at `pos`: a mode byte and a resolution byte.
pub open spec fn scan_entry(buf: Seq<u8>, pos: nat) -> Scan<PinCapability> {
    if pos + 2 > buf.len() {
        Scan::Incomplete
    } else {
        Scan::Done(capability_of(buf[pos as int], buf[pos as int + 1]), pos + 2)
    }
}

/// The capability list of one pin at `pos`: entries up to and including the
/// separator byte.
pub open spec fn scan_list(buf: Seq<u8>, pos: nat) -> Scan<Seq<PinCapability>>
    decreases buf.len() - pos,
{
    if pos >= buf.len() {
        Scan::Incomplete
    } else if buf[pos as int] == CAPABILITY_RESPONSE_SEP {
        Scan::Done(seq![], pos + 1)
    } else if pos + 2 > buf.len() {
        Scan::Incomplete
    } else {
        match scan_list(buf, pos + 2) {
            Scan::Done(rest, end) => Scan::Done(
                seq![capability_of(buf[pos as int], buf[pos as int + 1])] + rest,
                end,
            ),
            Scan::Incomplete => Scan::Incomplete,
            Scan::Malformed => Scan::Malformed,
        }
    }
}

/// A capability list that is accepted ends after the position it starts at.
pub proof fn lemma_scan_list_advances(buf: Seq<u8>, pos: nat)
    ensures
        scan_list(buf, pos) matches Scan::Done(_, end) ==> pos < end <= buf.len(),
    decreases buf.len() - pos,
{
    if pos < buf.len() && buf[pos as int] != CAPABILITY_RESPONSE_SEP && pos + 2 <= buf.len() {
        lemma_scan_list_advances(buf, pos + 2);
    }
}

/// The capability lists of all pins at `pos`, up to the end-of-sysex byte,
/// which is looked at but not taken.
pub open spec fn scan_pins(buf: Seq<u8>, pos: nat) -> Scan<Seq<Seq<PinCapability>>>
    decreases buf.len() - pos,
{
    if pos >= buf.len() {
        Scan::Incomplete
    } else if buf[pos as int] == END_SYSEX {
        Scan::Done(seq![], pos)
    } else {
        match scan_list(buf, pos) {
            Scan::Done(list, next) => {
                proof {
                    lemma_scan_list_advances(buf, pos);
                }
                match scan_pins(buf, next) {
                    Scan::Done(lists, end) => Scan::Done(seq![list] + lists, end),
                    Scan::Incomplete => Scan::Incomplete,
                    Scan::Malformed => Scan::Malformed,
                }
            },
            Scan::Incomplete => Scan::Incomplete,
            Scan::Malformed => Scan::Malformed,
        }
    }
}

/// The position where the run of ASCII bytes that starts at `pos` stops:
/// the first byte at or after `pos` that is not ASCII, or the end.
pub open spec fn ascii_run_end(buf: Seq<u8>, pos: nat) -> nat
    decreases buf.len() - pos,
{
    if pos < buf.len() && buf[pos as int] < 0x80 {
        ascii_run_end(buf, pos + 1)
    } else {
        pos
    }
}

/// The body of a sysex message at `pos`, chosen by its first byte; the
/// end-of-sysex byte that closes it is not taken.
pub open spec fn scan_body(buf: Seq<u8>, pos: nat) -> Scan<Message> {
    if pos >= buf.len() {
        Scan::Incomplete
    } else if buf[pos as int] == QUERY_FIRMWARE {
        if pos + 3 > buf.len() {
            Scan::Incomplete
        } else {
            let end = ascii_run_end(buf, pos + 3);
            if end >= buf.len() {
                Scan::Incomplete
            } else {
                Scan::Done(
                    Message::QueryFirmware {
                        major: buf[pos as int + 1],
                        minor: buf[pos as int + 2],
                        firmware_name: buf.subrange(pos as int + 3, end as int),
                    },
                    end,
                )
            }
        }
    } else if buf[pos as int] == CAPABILITY_QUERY {
        Scan::Done(Message::CapabilityQuery, pos + 1)
    } else if buf[pos as int] == CAPABILITY_RESPONSE {
        match scan_pins(buf, pos + 1) {
            Scan::Done(pins, end) => Scan::Done(Message::CapabilityResponse(pins), end),
            Scan::Incomplete => Scan::Incomplete,
            Scan::Malformed => Scan::Malformed,
        }
    } else {
        Scan::Malformed
    }
}

/// A sysex message at the start of `buf`: the start byte, a body and the
/// end byte.
pub open spec fn scan_sysex(buf: Seq<u8>) -> Scan<Message> {
    if buf.len() == 0 {
        Scan::Incomplete
    } else if buf[0] != START_SYSEX {
        Scan::Malformed
    } else {
        match scan_body(buf, 1) {
            Scan::Done(msg, end) => if end >= buf.len() {
                Scan::Incomplete
            } else if buf[end as int] == END_SYSEX {
                Scan::Done(msg, end + 1)
            } else {
                Scan::Malformed
            },
            Scan::Incomplete => Scan::Incomplete,
            Scan::Malformed => Scan::Malformed,
        }
    }
}

/// The value that an analog report carries in its two 7-bit data bytes.
pub open spec fn analog_value(lsb: u8, msb: u8) -> u16 {
    ((msb as u16) << 7u16) | (lsb as u16)
}

/// The message at the start of `buf`: a sysex message, an analog read
/// report or a protocol version report.
pub open spec fn decode(buf: Seq<u8>) -> Scan<Message> {
    if buf.len() == 0 {
        Scan::Incomplete
    } else if buf[0] == START_SYSEX {
        scan_sysex(buf)
    } else if buf[0] >> 4u8 == ANALOG_READ {
        if buf.len() < 3 {
            Scan::Incomplete
        } else {
            Scan::Done(
                Message::AnalogRead { pin: buf[0] & 0x0Fu8, value: analog_value(buf[1], buf[2]) },
                3,
            )
        }
    } else if buf[0] == PROTOCOL_VERSION {
        if buf.len() < 3 {
            Scan::Incomplete
        } else {
            Scan::Done(Message::ProtocolVersion { major: buf[1], minor: buf[2] }, 3)
        }
    } else {
        Scan::Malformed
    }
}

/// `front` put before whatever a scan of a sequence produced.
spec fn prepend<T>(front: Seq<T>, s: Scan<Seq<T>>) -> Scan<Seq<T>> {
    match s {
        Scan::Done(rest, end) => Scan::Done(front + rest, end),
        Scan::Incomplete => Scan::Incomplete,
        Scan::Malformed => Scan::Malformed,
    }
}

proof fn lemma_prepend_push<T>(front: Seq<T>, x: T, s: Scan<Seq<T>>)
    ensures
        prepend(front, prepend(seq![x], s)) == prepend(front.push(x), s),
{
    if let Scan::Done(rest, end) = s {
        assert(front + (seq![x] + rest) =~= front.push(x) + rest);
    }
}

proof fn lemma_prepend_empty<T>(s: Scan<Seq<T>>)
    ensures
        prepend(seq![], s) == s,
{
    if let Scan::Done(rest, end) = s {
        assert(seq![] + rest =~= rest);
    }
}

/// Decodes one capability entry: a mode byte and a resolution byte.
pub fn capability_response_entry(input: &[u8]) -> (r: Decoded<PinCapability>)
    ensures
        r@ == scan_entry(input@, 0),
{
    if input.len() < 2 {
        Decoded::Incomplete
    } else {
        Decoded::Done(PinCapability { mode: PinMode::from(input[0]), res: input[1] }, 2)
    }
}

/// Decodes the capability list of one pin, separator included.
pub fn capability_response_list(input: &[u8]) -> (r: Decoded<Vec<PinCapability>>)
    ensures
        r@ == scan_list(input@, 0),
{
    list_at(input, 0)
}

fn list_at(buf: &[u8], pos: usize) -> (r: Decoded<Vec<PinCapability>>)
    requires
        pos <= buf.len(),
    ensures
        r@ == scan_list(buf@, pos as nat),
{
    let mut caps: Vec<PinCapability> = Vec::new();
    let mut i: usize = pos;
    proof {
        assert(caps@ =~= seq![]);
        lemma_prepend_empty(scan_list(buf@, pos as nat));
    }
    loop
        invariant
            pos <= i <= buf.len(),
            scan_list(buf@, pos as nat) == prepend(caps@, scan_list(buf@, i as nat)),
        decreases buf.len() - i,
    {
        if i >= buf.len() {
            return Decoded::Incomplete;
        }
        if buf[i] == CAPABILITY_RESPONSE_SEP {
            proof {
                assert(caps@ + seq![] =~= caps@);
            }
            return Decoded::Done(caps, i + 1);
        }
        if buf.len() - i < 2 {
            return Decoded::Incomplete;
        }
        let cap = PinCapability { mode: PinMode::from(buf[i]), res: buf[i + 1] };
        proof {
            lemma_prepend_push(caps@, cap, scan_list(buf@, (i + 2) as nat));
        }
        caps.push(cap);
        i = i + 2;
    }
}

/// A scan of capability lists, each list seen as a sequence.
spec fn pins_scan_view(s: Scan<Seq<Vec<PinCapability>>>) -> Scan<Seq<Seq<PinCapability>>> {
    match s {
        Scan::Done(pins, end) => Scan::Done(pins_view(pins), end),
        Scan::Incomplete => Scan::Incomplete,
        Scan::Malformed => Scan::Malformed,
    }
}

fn pins_at(buf: &[u8], pos: usize) -> (r: Decoded<Vec<Vec<PinCapability>>>)
    requires
        pos <= buf.len(),
    ensures
        pins_scan_view(r@) == scan_pins(buf@, pos as nat),
{
    let mut lists: Vec<Vec<PinCapability>> = Vec::new();
    let mut i: usize = pos;
    proof {
        assert(pins_view(lists@) =~= seq![]);
        lemma_prepend_empty(scan_pins(buf@, pos as nat));
    }
    loop
        invariant
            pos <= i <= buf.len(),
            scan_pins(buf@, pos as nat) == prepend(pins_view(lists@), scan_pins(buf@, i as nat)),
        decreases buf.len() - i,
    {
        if i >= buf.len() {
            return Decoded::Incomplete;
        }
        if buf[i] == END_SYSEX {
            proof {
                assert(pins_view(lists@) + seq![] =~= pins_view(lists@));
            }
            return Decoded::Done(lists, i);
        }
        match list_at(buf, i) {
            Decoded::Done(list, next) => {
                proof {
                    lemma_scan_list_advances(buf@, i as nat);
                    lemma_prepend_push(pins_view(lists@), list@, scan_pins(buf@, next as nat));
                }
                let ghost before = pins_view(lists@);
                lists.push(list);
                proof {
                    assert(pins_view(lists@) =~= before.push(list@));
                }
                i = next;
            },
            Decoded::Incomplete => {
                return Decoded::Incomplete;
            },
            Decoded::Malformed => {
                return Decoded::Malformed;
            },
        }
    }
}

fn query_firmware_at(buf: &[u8], pos: usize) -> (r: Decoded<FirmataMsg>)
    requires
        pos < buf.len(),
        buf@[pos as int] == QUERY_FIRMWARE,
    ensures
        r@ == scan_body(buf@, pos as nat),
{
    if buf.len() - pos < 3 {
        return Decoded::Incomplete;
    }
    let major = buf[pos + 1];
    let minor = buf[pos + 2];
    let start = pos + 3;
    let mut name: Vec<u8> = Vec::new();
    let mut j: usize = start;
    while j < buf.len() && buf[j] < 0x80
        invariant
            start <= j <= buf.len(),
            ascii_run_end(buf@, start as nat) == ascii_run_end(buf@, j as nat),
            name@ == buf@.subrange(start as int, j as int),
        decreases buf.len() - j,
    {
        name.push(buf[j]);
        j = j + 1;
        proof {
            assert(name@ =~= buf@.subrange(start as int, j as int));
        }
    }
    if j >= buf.len() {
        Decoded::Incomplete
    } else {
        Decoded::Done(FirmataMsg::QueryFirmware { major, minor, firmware_name: name }, j)
    }
}

fn body_at(buf: &[u8], pos: usize) -> (r: Decoded<FirmataMsg>)
    requires
        pos <= buf.len(),
    ensures
        r@ == scan_body(buf@, pos as nat),
{
    if pos >= buf.len() {
        Decoded::Incomplete
    } else if buf[pos] == QUERY_FIRMWARE {
        query_firmware_at(buf, pos)
    } else if buf[pos] == CAPABILITY_QUERY {
        Decoded::Done(FirmataMsg::CapabilityQuery, pos + 1)
    } else if buf[pos] == CAPABILITY_RESPONSE {
        match pins_at(buf, pos + 1) {
            Decoded::Done(pins, end) => Decoded::Done(FirmataMsg::CapabilityResponse(pins), end),
            Decoded::Incomplete => Decoded::Incomplete,
            Decoded::Malformed => Decoded::Malformed,
        }
    } else {
        Decoded::Malformed
    }
}

/// Decodes a sysex message at the start of `input`.
pub fn sysex(input: &[u8]) -> (r: Decoded<FirmataMsg>)
    ensures
        r@ == scan_sysex(input@),
{
    if input.len() == 0 {
        return Decoded::Incomplete;
    }
    if input[0] != START_SYSEX {
        return Decoded::Malformed;
    }
    match body_at(input, 1) {
        Decoded::Done(msg, end) => if end >= input.len() {
            Decoded::Incomplete
        } else if input[end] == END_SYSEX {
            Decoded::Done(msg, end + 1)
        } else {
            Decoded::Malformed
        },
        Decoded::Incomplete => Decoded::Incomplete,
        Decoded::Malformed => Decoded::Malformed,
    }
}

/// Decodes the message at the start of `input`.
///
/// `Done` carries the message and the number of bytes it took; `Incomplete`
/// says that more bytes may complete a message; `Malformed` says that no
/// extension of `input` can.
pub fn parse(input: &[u8]) -> (r: Decoded<FirmataMsg>)
    ensures
        r@ == decode(input@),
{
    if input.len() == 0 {
        return Decoded::Incomplete;
    }
    let first = input[0];
    if first == START_SYSEX {
        sysex(input)
    } else if first >> 4u8 == ANALOG_READ {
        if input.len() < 3 {
            Decoded::Incomplete
        } else {
            let value: u16 = ((input[2] as u16) << 7u16) | (input[1] as u16);
            Decoded::Done(FirmataMsg::AnalogRead { pin: first & 0x0Fu8, value }, 3)
        }
    } else if first == PROTOCOL_VERSION {
        if input.len() < 3 {
            Decoded::Incomplete
        } else {
            Decoded::Done(FirmataMsg::ProtocolVersion { major: input[1], minor: input[2] }, 3)
        }
    } else {
        Decoded::Malformed
    }
}

/// The bytes of a pin's capability entries: mode byte, then resolution.
pub open spec fn entries_bytes(caps: Seq<PinCapability>) -> Seq<u8>
    decreases caps.len(),
{
    if caps.len() == 0 {
        seq![]
    } else {
        seq![byte_of_mode(caps[0].mode), caps[0].res] + entries_bytes(caps.drop_first())
    }
}

/// The bytes of all pins' capability lists, each closed by the separator.
pub open spec fn pins_bytes(pins: Seq<Seq<PinCapability>>) -> Seq<u8>
    decreases pins.len(),
{
    if pins.len() == 0 {
        seq![]
    } else {
        entries_bytes(pins[0]) + seq![CAPABILITY_RESPONSE_SEP] + pins_bytes(pins.drop_first())
    }
}

/// The bytes that stand for a message on the wire.
pub open spec fn frame(m: Message) -> Seq<u8> {
    match m {
        Message::QueryFirmware { major, minor, firmware_name } => seq![
            START_SYSEX,
            QUERY_FIRMWARE,
            major,
            minor,
        ] + firmware_name + seq![END_SYSEX],
        Message::CapabilityQuery => seq![START_SYSEX, CAPABILITY_QUERY, END_SYSEX],
        Message::CapabilityResponse(pins) => seq![START_SYSEX, CAPABILITY_RESPONSE] + pins_bytes(
            pins,
        ) + seq![END_SYSEX],
        Message::AnalogRead { pin, value } => seq![
            (ANALOG_READ << 4u8) | pin,
            (value & 0x7Fu16) as u8,
            (value >> 7u16) as u8,
        ],
        Message::ProtocolVersion { major, minor } => seq![PROTOCOL_VERSION, major, minor],
    }
}

/// A capability list that its bytes stand for without ambiguity: no mode
/// byte is the separator, none is outside its canonical form, and the
/// list does not open with the end-of-sysex byte.
pub open spec fn encodable_list(caps: Seq<PinCapability>) -> bool {
    &&& forall|j: int|
        0 <= j < caps.len() ==> byte_of_mode(#[trigger] caps[j].mode) != CAPABILITY_RESPONSE_SEP
            && canonical_mode(caps[j].mode)
    &&& caps.len() > 0 ==> byte_of_mode(caps[0].mode) != END_SYSEX
}

/// A message that its frame stands for without ambiguity: names are ASCII,
/// analog pins and values fit their fields, capability lists are
/// encodable.
pub open spec fn encodable(m: Message) -> bool {
    match m {
        Message::QueryFirmware { firmware_name, .. } => forall|i: int|
            0 <= i < firmware_name.len() ==> #[trigger] firmware_name[i] < 0x80,
        Message::CapabilityResponse(pins) => forall|i: int|
            0 <= i < pins.len() ==> encodable_list(#[trigger] pins[i]),
        Message::AnalogRead { pin, value } => pin < 16 && value < 0x4000,
        _ => true,
    }
}

/// The ASCII run that starts at `pos` stops at the first non-ASCII byte.
proof fn lemma_ascii_run_end(buf: Seq<u8>, pos: nat, end: nat)
    requires
        pos <= end <= buf.len(),
        forall|k: int| pos <= k < end ==> buf[k] < 0x80,
        end == buf.len() || buf[end as int] >= 0x80,
    ensures
        ascii_run_end(buf, pos) == end,
    decreases end - pos,
{
    if pos < end {
        lemma_ascii_run_end(buf, pos + 1, end);
    }
}

/// The bytes of a capability list and its separator decode as that list.
proof fn lemma_list_round_trip(pre: Seq<u8>, caps: Seq<PinCapability>, post: Seq<u8>)
    requires
        forall|j: int|
            0 <= j < caps.len() ==> byte_of_mode(#[trigger] caps[j].mode)
                != CAPABILITY_RESPONSE_SEP && canonical_mode(caps[j].mode),
    ensures
        scan_list(pre + entries_bytes(caps) + seq![CAPABILITY_RESPONSE_SEP] + post, pre.len())
            == Scan::Done(caps, pre.len() + entries_bytes(caps).len() + 1),
    decreases caps.len(),
{
    let buf = pre + entries_bytes(caps) + seq![CAPABILITY_RESPONSE_SEP] + post;
    if caps.len() == 0 {
        assert(buf[pre.len() as int] == CAPABILITY_RESPONSE_SEP);
        assert(caps =~= seq![]);
    } else {
        let c = caps[0];
        let tail = caps.drop_first();
        let pre2 = pre + seq![byte_of_mode(c.mode), c.res];
        assert(buf =~= pre2 + entries_bytes(tail) + seq![CAPABILITY_RESPONSE_SEP] + post);
        assert(buf[pre.len() as int] == byte_of_mode(c.mode));
        assert(buf[pre.len() as int + 1] == c.res);
        assert forall|j: int| 0 <= j < tail.len() implies byte_of_mode(#[trigger] tail[j].mode)
            != CAPABILITY_RESPONSE_SEP && canonical_mode(tail[j].mode) by {
            assert(tail[j] == caps[j + 1]);
        }
        lemma_list_round_trip(pre2, tail, post);
        assert(canonical_mode(caps[0].mode));
        lemma_mode_round_trip(c.mode);
        assert(capability_of(byte_of_mode(c.mode), c.res) == c);
        assert(seq![c] + tail =~= caps);
    }
}

/// The bytes of all capability lists, followed by the end-of-sysex byte,
/// decode as those lists.
proof fn lemma_pins_round_trip(pre: Seq<u8>, pins: Seq<Seq<PinCapability>>, post: Seq<u8>)
    requires
        forall|i: int| 0 <= i < pins.len() ==> encodable_list(#[trigger] pins[i]),
    ensures
        scan_pins(pre + pins_bytes(pins) + seq![END_SYSEX] + post, pre.len()) == Scan::Done(
            pins,
            pre.len() + pins_bytes(pins).len(),
        ),
    decreases pins.len(),
{
    let buf = pre + pins_bytes(pins) + seq![END_SYSEX] + post;
    if pins.len() == 0 {
        assert(buf[pre.len() as int] == END_SYSEX);
        assert(pins =~= seq![]);
    } else {
        let l = pins[0];
        let tail = pins.drop_first();
        assert(encodable_list(pins[0]));
        let rest = pins_bytes(tail) + seq![END_SYSEX] + post;
        assert(buf =~= pre + entries_bytes(l) + seq![CAPABILITY_RESPONSE_SEP] + rest);
        lemma_list_round_trip(pre, l, rest);
        let pre2 = pre + entries_bytes(l) + seq![CAPABILITY_RESPONSE_SEP];
        assert(buf =~= pre2 + pins_bytes(tail) + seq![END_SYSEX] + post);
        assert forall|i: int| 0 <= i < tail.len() implies encodable_list(#[trigger] tail[i]) by {
            assert(tail[i] == pins[i + 1]);
        }
        lemma_pins_round_trip(pre2, tail, post);
        if l.len() > 0 {
            assert(buf[pre.len() as int] == byte_of_mode(l[0].mode));
        } else {
            assert(buf[pre.len() as int] == CAPABILITY_RESPONSE_SEP);
        }
        assert(seq![l] + tail =~= pins);
    }
}

/// Decoding the frame of an encodable message, whatever bytes follow it,
/// yields that message and takes exactly the frame.
pub proof fn lemma_round_trip(m: Message, rest: Seq<u8>)
    requires
        encodable(m),
    ensures
        decode(frame(m) + rest) == Scan::Done(m, frame(m).len()),
{
    let buf = frame(m) + rest;
    match m {
        Message::QueryFirmware { major, minor, firmware_name } => {
            let end: int = 4 + firmware_name.len() as int;
            assert(buf[end] == END_SYSEX);
            assert forall|k: int| 4 <= k < end implies buf[k] < 0x80 by {
                assert(buf[k] == firmware_name[k - 4]);
            }
            lemma_ascii_run_end(buf, 4, end as nat);
            assert(buf.subrange(4, end) =~= firmware_name);
        },
        Message::CapabilityQuery => {},
        Message::CapabilityResponse(pins) => {
            let pre = seq![START_SYSEX, CAPABILITY_RESPONSE];
            assert(buf =~= pre + pins_bytes(pins) + seq![END_SYSEX] + rest);
            lemma_pins_round_trip(pre, pins, rest);
        },
        Message::AnalogRead { pin, value } => {
            let b0 = (ANALOG_READ << 4u8) | pin;
            let lsb = (value & 0x7Fu16) as u8;
            let msb = (value >> 7u16) as u8;
            assert(buf[0] == b0 && buf[1] == lsb && buf[2] == msb);
            assert(b0 >> 4u8 == ANALOG_READ && b0 & 0x0Fu8 == pin && b0 != START_SYSEX) by (bit_vector)
                requires
                    pin < 16,
                    b0 == (ANALOG_READ << 4u8) | pin,
                    ANALOG_READ == 0xE,
                    START_SYSEX == 0xF0,
            ;
            assert(((msb as u16) << 7u16) | (lsb as u16) == value) by (bit_vector)
                requires
                    value < 0x4000,
                    lsb == (value & 0x7Fu16) as u8,
                    msb == (value >> 7u16) as u8,
            ;
            assert(analog_value(lsb, msb) == value);
        },
        Message::ProtocolVersion { .. } => {
            assert(buf[0] == PROTOCOL_VERSION);
            assert(PROTOCOL_VERSION >> 4u8 != ANALOG_READ) by (bit_vector)
                requires
                    PROTOCOL_VERSION == 0xF9,
                    ANALOG_READ == 0xE,
            ;
        },
    }
}

/// A capability list cut short decodes as `Incomplete`.
proof fn lemma_list_prefix(pre: Seq<u8>, caps: Seq<PinCapability>, k: nat)
    requires
        k <= entries_bytes(caps).len(),
        forall|j: int|
            0 <= j < caps.len() ==> byte_of_mode(#[trigger] caps[j].mode)
                != CAPABILITY_RESPONSE_SEP,
    ensures
        scan_list(pre + entries_bytes(caps).take(k as int), pre.len()) == Scan::<
            Seq<PinCapability>,
        >::Incomplete,
    decreases caps.len(),
{
    let bytes = entries_bytes(caps);
    let buf = pre + bytes.take(k as int);
    if caps.len() > 0 && k > 0 {
        let c = caps[0];
        let tail = caps.drop_first();
        assert(buf[pre.len() as int] == byte_of_mode(c.mode));
        if k >= 2 {
            let pre2 = pre + seq![byte_of_mode(c.mode), c.res];
            assert(buf =~= pre2 + entries_bytes(tail).take(k - 2));
            assert forall|j: int| 0 <= j < tail.len() implies byte_of_mode(#[trigger] tail[j].mode)
                != CAPABILITY_RESPONSE_SEP by {
                assert(tail[j] == caps[j + 1]);
            }
            lemma_list_prefix(pre2, tail, (k - 2) as nat);
        }
    }
}

/// Capability lists cut short before the end-of-sysex byte decode as
/// `Incomplete`.
proof fn lemma_pins_prefix(pre: Seq<u8>, pins: Seq<Seq<PinCapability>>, k: nat)
    requires
        k <= pins_bytes(pins).len(),
        forall|i: int| 0 <= i < pins.len() ==> encodable_list(#[trigger] pins[i]),
    ensures
        scan_pins(pre + pins_bytes(pins).take(k as int), pre.len()) == Scan::<
            Seq<Seq<PinCapability>>,
        >::Incomplete,
    decreases pins.len(),
{
    let buf = pre + pins_bytes(pins).take(k as int);
    if pins.len() > 0 && k > 0 {
        let l = pins[0];
        let tail = pins.drop_first();
        assert(encodable_list(pins[0]));
        let n = entries_bytes(l).len() + 1;
        if l.len() > 0 {
            assert(buf[pre.len() as int] == byte_of_mode(l[0].mode));
        } else {
            assert(buf[pre.len() as int] == CAPABILITY_RESPONSE_SEP);
        }
        if k < n {
            if k <= entries_bytes(l).len() {
                assert(buf =~= pre + entries_bytes(l).take(k as int));
                lemma_list_prefix(pre, l, k);
            } else {
                assert(buf =~= pre + entries_bytes(l));
                assert(entries_bytes(l).take(entries_bytes(l).len() as int) =~= entries_bytes(l));
                lemma_list_prefix(pre, l, entries_bytes(l).len());
            }
        } else {
            let post = pins_bytes(tail).take(k - n);
            assert(buf =~= pre + entries_bytes(l) + seq![CAPABILITY_RESPONSE_SEP] + post);
            lemma_list_round_trip(pre, l, post);
            let pre2 = pre + entries_bytes(l) + seq![CAPABILITY_RESPONSE_SEP];
            assert(buf =~= pre2 + pins_bytes(tail).take(k - n));
            assert forall|i: int| 0 <= i < tail.len() implies encodable_list(#[trigger] tail[i]) by {
                assert(tail[i] == pins[i + 1]);
            }
            lemma_pins_prefix(pre2, tail, (k - n) as nat);
        }
    }
}

/// Every proper, non-empty prefix of the frame of an encodable message
/// decodes as `Incomplete`; for a firmware report or a capability response
/// these are the prefixes that stop before the closing end-of-sysex byte.
pub proof fn lemma_prefix_incomplete(m: Message, n: nat)
    requires
        encodable(m),
        0 < n < frame(m).len(),
    ensures
        decode(frame(m).take(n as int)) == Scan::<Message>::Incomplete,
{
    let buf = frame(m).take(n as int);
    match m {
        Message::QueryFirmware { major, minor, firmware_name } => {
            assert(buf[0] == START_SYSEX);
            if n > 1 {
                assert(buf[1] == QUERY_FIRMWARE);
            }
            if n >= 4 {
                assert forall|k: int| 4 <= k < n implies buf[k] < 0x80 by {
                    assert(buf[k] == firmware_name[k - 4]);
                }
                lemma_ascii_run_end(buf, 4, n);
            }
        },
        Message::CapabilityResponse(pins) => {
            assert(buf[0] == START_SYSEX);
            if n > 1 {
                assert(buf[1] == CAPABILITY_RESPONSE);
                let pre = seq![START_SYSEX, CAPABILITY_RESPONSE];
                assert(buf =~= pre + pins_bytes(pins).take(n - 2));
                lemma_pins_prefix(pre, pins, (n - 2) as nat);
            }
        },
        Message::CapabilityQuery => {
            assert(buf[0] == START_SYSEX);
            if n > 1 {
                assert(buf[1] == CAPABILITY_QUERY);
            }
        },
        Message::AnalogRead { pin, .. } => {
            let b0 = (ANALOG_READ << 4u8) | pin;
            assert(buf[0] == b0);
            assert(b0 >> 4u8 == ANALOG_READ && b0 != START_SYSEX) by (bit_vector)
                requires
                    pin < 16,
                    b0 == (ANALOG_READ << 4u8) | pin,
                    ANALOG_READ == 0xE,
                    START_SYSEX == 0xF0,
            ;
        },
        Message::ProtocolVersion { .. } => {
            assert(buf[0] == PROTOCOL_VERSION);
            assert(PROTOCOL_VERSION >> 4u8 != ANALOG_READ) by (bit_vector)
                requires
                    PROTOCOL_VERSION == 0xF9,
                    ANALOG_READ == 0xE,
            ;
        },
    }
}

} // verus!
