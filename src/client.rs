//! Firmata API client.
//!
//! The client runs on the controlling host and treats the microcontroller
//! as a server. Commands are encoded into the bytes to write; reading a
//! message and resynchronising a connection are state machines that are
//! told what each transport operation produced.
use vstd::prelude::*;
use crate::errors::Error;
use crate::parser::{decode, frame, lemma_round_trip, parse, Decoded, Scan};
use crate::protocol::{
    byte_of_mode, FirmataMsg, Message, PinMode, ANALOG_REPORT, CAPABILITY_QUERY,
    DIGITAL_MESSAGE, END_SYSEX, QUERY_FIRMWARE, RESET, SET_PIN_MODE, START_SYSEX,
};

verus! {

/// The device reset request.
pub fn reset() -> (r: Vec<u8>)
    ensures
        r@ == seq![RESET],
{
    vec![RESET]
}

/// The firmware name and version query.
pub fn query_firmware() -> (r: Vec<u8>)
    ensures
        r@ == seq![START_SYSEX, QUERY_FIRMWARE, END_SYSEX],
{
    vec![START_SYSEX, QUERY_FIRMWARE, END_SYSEX]
}

/// The pin capability query.
pub fn capabilities() -> (r: Vec<u8>)
    ensures
        r@ == seq![START_SYSEX, CAPABILITY_QUERY, END_SYSEX],
{
    vec![START_SYSEX, CAPABILITY_QUERY, END_SYSEX]
}

/// The capability query that `capabilities` sends decodes as a capability
/// query, and takes all three bytes.
pub proof fn lemma_capabilities_round_trip()
    ensures
        decode(seq![START_SYSEX, CAPABILITY_QUERY, END_SYSEX]) == Scan::Done(
            Message::CapabilityQuery,
            3,
        ),
{
    lemma_round_trip(Message::CapabilityQuery, seq![]);
    assert(frame(Message::CapabilityQuery) + seq![] =~= seq![
        START_SYSEX,
        CAPABILITY_QUERY,
        END_SYSEX,
    ]);
}

/// Sets the mode of a pin.
pub fn set_pin_mode(pin: u8, mode: PinMode) -> (r: Vec<u8>)
    ensures
        r@ == seq![START_SYSEX, SET_PIN_MODE, pin, byte_of_mode(mode), END_SYSEX],
{
    vec![START_SYSEX, SET_PIN_MODE, pin, mode.into(), END_SYSEX]
}

/// Turns the value reports of an analog pin on or off.
pub fn analog_report(pin: u8, state: bool) -> (r: Result<Vec<u8>, Error>)
    ensures
        pin >= 16 ==> r == Err::<Vec<u8>, Error>(Error::InvalidArgument),
        pin < 16 ==> (r matches Ok(bytes) && bytes@ == seq![
            ANALOG_REPORT | pin,
            if state { 1u8 } else { 0u8 },
        ]),
{
    if pin >= 16 {
        Err(Error::InvalidArgument)
    } else {
        let mode: u8 = if state { 1 } else { 0 };
        Ok(vec![ANALOG_REPORT | pin, mode])
    }
}

/// The bytes that write `value` to the port register `port`: the
/// command with the port, then the value split into 7-bit groups.
pub open spec fn port_write_bytes(port: u8, value: u8) -> Seq<u8> {
    seq![(DIGITAL_MESSAGE << 4u8) | port, value & 0x7Fu8, (value & !0x7Fu8) >> 7u8]
}

/// Writes a value to a port register of the Firmata board.
pub fn digital_port_write(port: u8, value: u8) -> (r: Result<Vec<u8>, Error>)
    ensures
        port >= 16 ==> r == Err::<Vec<u8>, Error>(Error::InvalidArgument),
        port < 16 ==> (r matches Ok(bytes) && bytes@ == port_write_bytes(port, value)),
{
    if port >= 16 {
        Err(Error::InvalidArgument)
    } else {
        let lsb: u8 = value & 0x7F;
        let msb: u8 = (value & !0x7F) >> 7;
        Ok(vec![DIGITAL_MESSAGE << 4 | port, lsb, msb])
    }
}

/// Sets one digital pin, as a write of its port with only that pin's bit.
pub fn digital_write(pin: u8, state: bool) -> (r: Result<Vec<u8>, Error>)
    ensures
        pin >= 128 ==> r == Err::<Vec<u8>, Error>(Error::InvalidArgument),
        pin < 128 ==> (r matches Ok(bytes) && bytes@ == port_write_bytes(
            pin / 8,
            (if state { 1u8 } else { 0u8 }) << (pin % 8),
        )),
{
    if pin >= 128 {
        Err(Error::InvalidArgument)
    } else {
        let port: u8 = pin / 8;
        let offset: u8 = pin % 8;
        let bit: u8 = if state { 1 } else { 0 };
        digital_port_write(port, bit << offset)
    }
}

/// The number of timeouts that `read` tolerates.
pub const READ_RETRIES: usize = 3;

/// What one read of a single byte from the transport produced.
#[derive(Debug, Clone, Copy, PartialEq, Eq, Structural)]
pub enum ReadEvent {
    /// A byte arrived.
    Byte(u8),
    /// The transport timed out without data.
    TimedOut,
    /// The transport failed in another way.
    Failed,
}

/// What a read calls for after an event.
#[derive(Debug, Clone, PartialEq)]
pub enum ReadStep {
    /// Read another byte.
    Pending,
    /// A message is complete.
    Done(FirmataMsg),
    /// The read failed.
    Fail(Error),
}

/// A read of one message in progress: the bytes received so far, and the
/// timeouts met so far against the number tolerated.
#[derive(Debug, Clone)]
pub struct Reader {
    pub buffer: Vec<u8>,
    pub retries: usize,
    pub max_retries: usize,
}

impl Reader {
    /// A read that has received nothing and tolerates `max_retries`
    /// timeouts.
    pub fn new(max_retries: usize) -> (r: Reader)
        ensures
            r.buffer@ == Seq::<u8>::empty(),
            r.retries == 0,
            r.max_retries == max_retries,
    {
        Reader { buffer: Vec::new(), retries: 0, max_retries }
    }

    /// Takes the outcome of one byte read from the transport.
    ///
    /// A byte is appended to the buffer, which is then decoded from its
    /// start: a message ends the read, a prefix of one asks for another
    /// byte, anything else fails as unreadable. A timeout asks for another
    /// byte until the retries are spent, then fails. Any other transport
    /// failure ends the read at once.
    pub fn step(&mut self, event: ReadEvent) -> (r: ReadStep)
        ensures
            final(self).max_retries == old(self).max_retries,
            match event {
                ReadEvent::Byte(b) => {
                    &&& final(self).buffer@ == old(self).buffer@.push(b)
                    &&& final(self).retries == old(self).retries
                    &&& match decode(old(self).buffer@.push(b)) {
                        Scan::Done(m, _) => r matches ReadStep::Done(msg) && msg@ == m,
                        Scan::Incomplete => r == ReadStep::Pending,
                        Scan::Malformed => r == ReadStep::Fail(Error::UnreadableMessage),
                    }
                },
                ReadEvent::TimedOut => {
                    &&& final(self).buffer@ == old(self).buffer@
                    &&& if old(self).retries < old(self).max_retries {
                        r == ReadStep::Pending && final(self).retries == old(self).retries + 1
                    } else {
                        r == ReadStep::Fail(Error::ReadTimeout) && final(self).retries
                            == old(self).retries
                    }
                },
                ReadEvent::Failed => {
                    &&& r == ReadStep::Fail(Error::Transport)
                    &&& final(self).buffer@ == old(self).buffer@
                    &&& final(self).retries == old(self).retries
                },
            },
    {
        match event {
            ReadEvent::Byte(b) => {
                self.buffer.push(b);
                match parse(self.buffer.as_slice()) {
                    Decoded::Done(msg, _) => ReadStep::Done(msg),
                    Decoded::Incomplete => ReadStep::Pending,
                    Decoded::Malformed => ReadStep::Fail(Error::UnreadableMessage),
                }
            },
            ReadEvent::TimedOut => {
                if self.retries < self.max_retries {
                    self.retries = self.retries + 1;
                    ReadStep::Pending
                } else {
                    ReadStep::Fail(Error::ReadTimeout)
                }
            },
            ReadEvent::Failed => ReadStep::Fail(Error::Transport),
        }
    }
}

/// Begins the read of one message, tolerating `max_retries` timeouts.
pub fn read_rt(max_retries: usize) -> (r: Reader)
    ensures
        r.buffer@ == Seq::<u8>::empty(),
        r.retries == 0,
        r.max_retries == max_retries,
{
    Reader::new(max_retries)
}

/// Begins the read of one message with the default timeout budget.
pub fn read() -> (r: Reader)
    ensures
        r.buffer@ == Seq::<u8>::empty(),
        r.retries == 0,
        r.max_retries == READ_RETRIES,
{
    read_rt(READ_RETRIES)
}

/// The number of times resynchronisation sends the firmware query.
pub const RESYNC_ATTEMPTS: u8 = 5;
/// The number of reads after each firmware query.
pub const RESYNC_READS: u8 = 30;

/// Resynchronisation of a connection whose state is unknown: a reset, then
/// up to `RESYNC_ATTEMPTS` firmware queries, each followed by up to
/// `RESYNC_READS` reads, until a read yields a protocol version or a
/// firmware report.
#[derive(Debug, Clone, Copy, PartialEq, Eq, Structural)]
pub enum Resync {
    /// The reset request is to be sent.
    Reset,
    /// The firmware query of an attempt is to be sent.
    Query { attempt: u8 },
    /// Reads of an attempt are under way; `reads` of them are done.
    Reading { attempt: u8, reads: u8 },
    /// The device answered.
    Synced,
    /// Resynchronisation failed.
    Failed(Error),
}

/// What resynchronisation calls for next.
#[derive(Debug, PartialEq)]
pub enum ResyncAction {
    /// Write these bytes to the transport.
    Write(Vec<u8>),
    /// Read one message from the transport.
    Read,
    /// Resynchronisation is over, with this outcome.
    Finish(Result<(), Error>),
}

/// Counters within their budgets.
pub open spec fn resync_wf(s: Resync) -> bool {
    match s {
        Resync::Query { attempt } => attempt < RESYNC_ATTEMPTS,
        Resync::Reading { attempt, reads } => attempt < RESYNC_ATTEMPTS && reads < RESYNC_READS,
        _ => true,
    }
}

/// The state after a write, which succeeded when `ok` holds.
pub open spec fn after_write(s: Resync, ok: bool) -> Resync {
    match s {
        Resync::Reset => if ok {
            Resync::Query { attempt: 0 }
        } else {
            Resync::Failed(Error::Transport)
        },
        Resync::Query { attempt } => if ok {
            Resync::Reading { attempt, reads: 0 }
        } else {
            Resync::Failed(Error::Transport)
        },
        _ => s,
    }
}

/// A read result that shows the device in a known state.
pub open spec fn recognized(r: Result<FirmataMsg, Error>) -> bool {
    r matches Ok(m) && (m is ProtocolVersion || m is QueryFirmware)
}

/// The state after a read, whose result was recognised when `hit` holds.
pub open spec fn after_read(s: Resync, hit: bool) -> Resync {
    match s {
        Resync::Reading { attempt, reads } => if hit {
            Resync::Synced
        } else if reads + 1 < RESYNC_READS {
            Resync::Reading { attempt, reads: (reads + 1) as u8 }
        } else if attempt + 1 < RESYNC_ATTEMPTS {
            Resync::Query { attempt: (attempt + 1) as u8 }
        } else {
            Resync::Failed(Error::ResyncFailed)
        },
        _ => s,
    }
}

/// Begins resynchronisation.
pub fn resync() -> (r: Resync)
    ensures
        r == Resync::Reset,
{
    Resync::Reset
}

impl Resync {
    /// What to do in this state.
    pub fn action(&self) -> (r: ResyncAction)
        ensures
            match *self {
                Resync::Reset => r matches ResyncAction::Write(bytes) && bytes@ == seq![RESET],
                Resync::Query { .. } => r matches ResyncAction::Write(bytes) && bytes@ == seq![
                    START_SYSEX,
                    QUERY_FIRMWARE,
                    END_SYSEX,
                ],
                Resync::Reading { .. } => r == ResyncAction::Read,
                Resync::Synced => r == ResyncAction::Finish(Ok(())),
                Resync::Failed(e) => r == ResyncAction::Finish(Err(e)),
            },
    {
        match *self {
            Resync::Reset => ResyncAction::Write(reset()),
            Resync::Query { .. } => ResyncAction::Write(query_firmware()),
            Resync::Reading { .. } => ResyncAction::Read,
            Resync::Synced => ResyncAction::Finish(Ok(())),
            Resync::Failed(e) => ResyncAction::Finish(Err(e)),
        }
    }

    /// Takes the outcome of the write that `action` asked for.
    pub fn on_write(&mut self, ok: bool)
        ensures
            *final(self) == after_write(*old(self), ok),
            resync_wf(*old(self)) ==> resync_wf(*final(self)),
    {
        match *self {
            Resync::Reset => {
                *self = if ok {
                    Resync::Query { attempt: 0 }
                } else {
                    Resync::Failed(Error::Transport)
                };
            },
            Resync::Query { attempt } => {
                *self = if ok {
                    Resync::Reading { attempt, reads: 0 }
                } else {
                    Resync::Failed(Error::Transport)
                };
            },
            _ => {},
        }
    }

    /// Takes the result of the read that `action` asked for. A failed read
    /// counts as a read that was not recognised.
    pub fn on_read(&mut self, result: &Result<FirmataMsg, Error>)
        ensures
            *final(self) == after_read(*old(self), recognized(*result)),
            resync_wf(*old(self)) ==> resync_wf(*final(self)),
    {
        let hit = match result {
            Ok(FirmataMsg::ProtocolVersion { .. }) => true,
            Ok(FirmataMsg::QueryFirmware { .. }) => true,
            _ => false,
        };
        match *self {
            Resync::Reading { attempt, reads } => {
                *self = if hit {
                    Resync::Synced
                } else if reads < RESYNC_READS - 1 {
                    Resync::Reading { attempt, reads: reads + 1 }
                } else if attempt < RESYNC_ATTEMPTS - 1 {
                    Resync::Query { attempt: attempt + 1 }
                } else {
                    Resync::Failed(Error::ResyncFailed)
                };
            },
            _ => {},
        }
    }
}

/// The reads done so far in a resynchronisation that is under way.
pub open spec fn reads_done(s: Resync) -> int {
    match s {
        Resync::Query { attempt } => RESYNC_READS * attempt,
        Resync::Reading { attempt, reads } => RESYNC_READS * attempt + reads,
        _ => 0,
    }
}

/// The state once every write that is asked for has succeeded.
pub open spec fn settle(s: Resync) -> Resync {
    after_write(after_write(s, true), true)
}

/// The state after a run in which every write succeeds and the reads are
/// recognised or not as `hits` says, in order.
pub open spec fn run(s: Resync, hits: Seq<bool>) -> Resync
    decreases hits.len(),
{
    if hits.len() == 0 {
        settle(s)
    } else {
        run(after_read(settle(s), hits[0]), hits.drop_first())
    }
}

/// The budget of reads over all attempts.
pub open spec fn resync_budget() -> int {
    RESYNC_ATTEMPTS * RESYNC_READS
}

proof fn lemma_run_finished(s: Resync, hits: Seq<bool>)
    requires
        s is Synced || s is Failed,
    ensures
        run(s, hits) == s,
    decreases hits.len(),
{
    if hits.len() > 0 {
        lemma_run_finished(s, hits.drop_first());
    }
}

proof fn lemma_run_misses(s: Resync, hits: Seq<bool>)
    requires
        resync_wf(s),
        s is Reset || s is Query || s is Reading,
        forall|j: int| 0 <= j < hits.len() ==> !hits[j],
    ensures
        reads_done(s) + hits.len() < resync_budget() ==> run(s, hits) is Reading && reads_done(
            run(s, hits),
        ) == reads_done(s) + hits.len(),
        reads_done(s) + hits.len() >= resync_budget() ==> run(s, hits) == Resync::Failed(
            Error::ResyncFailed,
        ),
    decreases hits.len(),
{
    if hits.len() > 0 {
        let t = after_read(settle(s), false);
        assert(!hits[0]);
        if reads_done(s) + 1 < resync_budget() {
            assert(forall|j: int| 0 <= j < hits.drop_first().len() ==> hits.drop_first()[j] == hits[j + 1]);
            lemma_run_misses(t, hits.drop_first());
        } else {
            lemma_run_finished(t, hits.drop_first());
        }
    }
}

proof fn lemma_run_hit(s: Resync, hits: Seq<bool>, i: int)
    requires
        resync_wf(s),
        s is Reset || s is Query || s is Reading,
        0 <= i < hits.len(),
        reads_done(s) + i < resync_budget(),
        hits[i],
        forall|j: int| 0 <= j < i ==> !hits[j],
    ensures
        run(s, hits) == Resync::Synced,
    decreases i,
{
    let t = after_read(settle(s), hits[0]);
    if i == 0 {
        lemma_run_finished(t, hits.drop_first());
    } else {
        assert(!hits[0]);
        assert(forall|j: int| 0 <= j < hits.drop_first().len() ==> hits.drop_first()[j] == hits[j + 1]);
        lemma_run_hit(t, hits.drop_first(), i - 1);
    }
}

/// With every write succeeding, resynchronisation from its start succeeds
/// when a read within the budget is recognised, whatever unrecognised
/// messages or failed reads went before it.
pub proof fn lemma_resync_succeeds(hits: Seq<bool>, i: int)
    requires
        0 <= i < hits.len(),
        i < resync_budget(),
        hits[i],
        forall|j: int| 0 <= j < i ==> !hits[j],
    ensures
        run(Resync::Reset, hits) == Resync::Synced,
{
    lemma_run_hit(Resync::Reset, hits, i);
}

/// With every write succeeding and no read recognised, resynchronisation
/// from its start fails with `ResyncFailed` exactly when the whole budget
/// of reads is spent, and is still reading before that.
pub proof fn lemma_resync_fails(hits: Seq<bool>)
    requires
        forall|j: int| 0 <= j < hits.len() ==> !hits[j],
    ensures
        hits.len() >= resync_budget() <==> run(Resync::Reset, hits) == Resync::Failed(
            Error::ResyncFailed,
        ),
        hits.len() < resync_budget() ==> run(Resync::Reset, hits) is Reading,
{
    lemma_run_misses(Resync::Reset, hits);
}

} // verus!
