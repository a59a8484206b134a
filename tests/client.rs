use firmata::client::{
    analog_report, capabilities, digital_port_write, digital_write, query_firmware, read,
    read_rt, reset, resync, set_pin_mode, ReadEvent, ReadStep, Resync, ResyncAction,
    READ_RETRIES, RESYNC_ATTEMPTS, RESYNC_READS,
};
use firmata::errors::Error;
use firmata::parser::{parse, Decoded};
use firmata::protocol::{FirmataMsg, PinMode};

#[test]
fn encodes_fixed_commands() {
    assert_eq!(reset(), vec![0xFF]);
    assert_eq!(query_firmware(), vec![0xF0, 0x79, 0xF7]);
    assert_eq!(capabilities(), vec![0xF0, 0x6B, 0xF7]);
}

#[test]
fn encodes_set_pin_mode() {
    assert_eq!(set_pin_mode(13, PinMode::DigitalOutput), vec![0xF0, 0xF4, 13, 0x01, 0xF7]);
    assert_eq!(set_pin_mode(2, PinMode::Other(0x0B)), vec![0xF0, 0xF4, 2, 0x0B, 0xF7]);
}

#[test]
fn encodes_analog_report() {
    assert_eq!(analog_report(3, true), Ok(vec![0xC3, 1]));
    assert_eq!(analog_report(15, false), Ok(vec![0xCF, 0]));
}

#[test]
fn encodes_digital_port_write() {
    assert_eq!(digital_port_write(2, 0xFF), Ok(vec![0x92, 0x7F, 0x01]));
    assert_eq!(digital_port_write(0, 0x05), Ok(vec![0x90, 0x05, 0x00]));
}

#[test]
fn encodes_digital_write() {
    assert_eq!(digital_write(10, true), Ok(vec![0x91, 0x04, 0x00]));
    assert_eq!(digital_write(15, true), Ok(vec![0x91, 0x00, 0x01]));
    assert_eq!(digital_write(127, true), Ok(vec![0x9F, 0x00, 0x01]));
    assert_eq!(digital_write(10, false), Ok(vec![0x91, 0x00, 0x00]));
}

#[test]
fn out_of_range_indices_are_rejected() {
    assert_eq!(analog_report(16, true), Err(Error::InvalidArgument));
    assert_eq!(digital_port_write(16, 0), Err(Error::InvalidArgument));
    assert_eq!(digital_port_write(16, 0xFF), Err(Error::InvalidArgument));
    assert_eq!(digital_write(128, true), Err(Error::InvalidArgument));
    assert_eq!(digital_write(255, false), Err(Error::InvalidArgument));
}

#[test]
fn capability_query_round_trip() {
    let bytes = capabilities();
    assert_eq!(parse(&bytes[..]), Decoded::Done(FirmataMsg::CapabilityQuery, bytes.len()));
}

#[test]
fn firmware_query_is_not_a_firmware_report() {
    let bytes = query_firmware();
    assert_eq!(parse(&bytes[..]), Decoded::Incomplete);
}

fn feed(reader: &mut firmata::client::Reader, bytes: &[u8]) -> Vec<ReadStep> {
    bytes.iter().map(|b| reader.step(ReadEvent::Byte(*b))).collect()
}

#[test]
fn reads_a_message_byte_by_byte() {
    let mut reader = read();
    assert_eq!(reader.max_retries, READ_RETRIES);
    let steps = feed(&mut reader, b"\xF0\x79\x02\x04Std\xF7");
    for step in &steps[..steps.len() - 1] {
        assert_eq!(*step, ReadStep::Pending);
    }
    assert_eq!(
        steps[steps.len() - 1],
        ReadStep::Done(FirmataMsg::QueryFirmware {
            major: 2,
            minor: 4,
            firmware_name: b"Std".to_vec()
        })
    );
}

#[test]
fn read_retries_timeouts() {
    let mut reader = read_rt(2);
    assert_eq!(reader.step(ReadEvent::TimedOut), ReadStep::Pending);
    assert_eq!(reader.step(ReadEvent::Byte(0xF9)), ReadStep::Pending);
    assert_eq!(reader.step(ReadEvent::TimedOut), ReadStep::Pending);
    assert_eq!(reader.step(ReadEvent::Byte(2)), ReadStep::Pending);
    assert_eq!(reader.step(ReadEvent::TimedOut), ReadStep::Fail(Error::ReadTimeout));
}

#[test]
fn read_completes_after_timeouts() {
    let mut reader = read_rt(1);
    assert_eq!(reader.step(ReadEvent::Byte(0xF9)), ReadStep::Pending);
    assert_eq!(reader.step(ReadEvent::TimedOut), ReadStep::Pending);
    assert_eq!(reader.step(ReadEvent::Byte(2)), ReadStep::Pending);
    assert_eq!(
        reader.step(ReadEvent::Byte(6)),
        ReadStep::Done(FirmataMsg::ProtocolVersion { major: 2, minor: 6 })
    );
}

#[test]
fn read_rejects_unreadable_bytes() {
    let mut reader = read();
    assert_eq!(reader.step(ReadEvent::Byte(0x00)), ReadStep::Fail(Error::UnreadableMessage));
}

#[test]
fn read_stops_on_transport_failure() {
    let mut reader = read();
    assert_eq!(reader.step(ReadEvent::Byte(0xF0)), ReadStep::Pending);
    assert_eq!(reader.step(ReadEvent::Failed), ReadStep::Fail(Error::Transport));
}

/// Runs resynchronisation against a device whose reads give `replies` in
/// turn, and then only failures; returns the outcome, the bytes written and
/// the number of reads made.
fn drive(replies: Vec<Result<FirmataMsg, Error>>, write_ok: bool) -> (Result<(), Error>, Vec<u8>, usize) {
    let mut state = resync();
    let mut written = Vec::new();
    let mut reads = 0;
    loop {
        match state.action() {
            ResyncAction::Write(bytes) => {
                written.extend_from_slice(&bytes);
                state.on_write(write_ok);
            }
            ResyncAction::Read => {
                let reply = if reads < replies.len() {
                    replies[reads].clone()
                } else {
                    Err(Error::ReadTimeout)
                };
                reads += 1;
                state.on_read(&reply);
            }
            ResyncAction::Finish(outcome) => return (outcome, written, reads),
        }
    }
}

#[test]
fn resync_succeeds_on_protocol_version() {
    let replies = vec![Ok(FirmataMsg::ProtocolVersion { major: 2, minor: 6 })];
    let (outcome, written, reads) = drive(replies, true);
    assert_eq!(outcome, Ok(()));
    assert_eq!(written, vec![0xFF, 0xF0, 0x79, 0xF7]);
    assert_eq!(reads, 1);
}

#[test]
fn resync_skips_noise_before_firmware_report() {
    let mut replies = Vec::new();
    for _ in 0..40 {
        replies.push(Ok(FirmataMsg::AnalogRead { pin: 1, value: 5 }));
        replies.push(Err(Error::UnreadableMessage));
    }
    replies.push(Ok(FirmataMsg::QueryFirmware { major: 2, minor: 5, firmware_name: vec![] }));
    let (outcome, written, reads) = drive(replies, true);
    assert_eq!(outcome, Ok(()));
    assert_eq!(reads, 81);
    // The reset, then one firmware query per started attempt.
    assert_eq!(written.len(), 1 + 3 * 3);
}

#[test]
fn resync_succeeds_on_last_read_of_budget() {
    let budget = RESYNC_ATTEMPTS as usize * RESYNC_READS as usize;
    let mut replies: Vec<Result<FirmataMsg, Error>> = vec![Ok(FirmataMsg::CapabilityQuery); budget - 1];
    replies.push(Ok(FirmataMsg::ProtocolVersion { major: 2, minor: 6 }));
    let (outcome, _, reads) = drive(replies, true);
    assert_eq!(outcome, Ok(()));
    assert_eq!(reads, budget);
}

#[test]
fn resync_fails_after_budget() {
    let (outcome, written, reads) = drive(Vec::new(), true);
    assert_eq!(outcome, Err(Error::ResyncFailed));
    assert_eq!(reads, 150);
    assert_eq!(written.len(), 1 + 5 * 3);
}

#[test]
fn resync_stops_on_write_failure() {
    let (outcome, written, reads) = drive(Vec::new(), false);
    assert_eq!(outcome, Err(Error::Transport));
    assert_eq!(written, vec![0xFF]);
    assert_eq!(reads, 0);
}

#[test]
fn resync_state_counts_reads() {
    let mut state = Resync::Reading { attempt: 0, reads: 29 };
    state.on_read(&Err(Error::ReadTimeout));
    assert_eq!(state, Resync::Query { attempt: 1 });
    let mut last = Resync::Reading { attempt: 4, reads: 29 };
    last.on_read(&Ok(FirmataMsg::CapabilityQuery));
    assert_eq!(last, Resync::Failed(Error::ResyncFailed));
}
