//! A connection to a Firmata device: the transport it holds and the board
//! state it has observed, or nothing once it is closed.
//!
//! Each operation is guarded: on a closed connection it fails with
//! `ConnectionClosed`; on an open one it yields the bytes to write to the
//! held transport, or the state machine that drives the transport.
use vstd::prelude::*;
use crate::board::{apply, empty_board, Board};
use crate::client::{self, port_write_bytes, Reader, Resync, READ_RETRIES};
use crate::errors::Error;
use crate::protocol::{
    byte_of_mode, FirmataMsg, PinMode, ANALOG_REPORT, CAPABILITY_QUERY, END_SYSEX,
    QUERY_FIRMWARE, SET_PIN_MODE, START_SYSEX,
};

verus! {

pub enum Connection<T> {
    Open { inner: T, board: Board },
    Closed,
}

impl<T> Connection<T> {
    /// An open connection over `inner`, with an empty board.
    pub fn new(inner: T) -> (r: Result<Self, Error>)
        ensures
            r matches Ok(Connection::Open { inner: i, board }) && i == inner && board@
                == empty_board(),
    {
        Ok(Connection::Open { inner, board: Board::default() })
    }

    /// The board of an open connection.
    pub fn board(&self) -> (r: Option<&Board>)
        ensures
            match self {
                Connection::Open { board, .. } => r == Some(board),
                Connection::Closed => r is None,
            },
    {
        match self {
            Connection::Open { board, .. } => Some(board),
            Connection::Closed => None,
        }
    }

    /// The transport of an open connection.
    pub fn conn(&self) -> (r: Option<&T>)
        ensures
            match self {
                Connection::Open { inner, .. } => r == Some(inner),
                Connection::Closed => r is None,
            },
    {
        match self {
            Connection::Open { inner, .. } => Some(inner),
            Connection::Closed => None,
        }
    }

    /// The transport of an open connection, for writing and reading; the
    /// board is left as it is.
    pub fn conn_mut(&mut self) -> (r: Option<&mut T>)
        ensures
            *old(self) is Closed ==> r is None && *final(self) is Closed,
            *old(self) is Open ==> (r matches Some(t) && *t == old(self)->inner && *final(self)
                == Connection::Open { inner: *final(t), board: old(self)->board }),
    {
        match self {
            Connection::Open { inner, .. } => Some(inner),
            Connection::Closed => None,
        }
    }

    /// Closes the connection, dropping its transport. A closed connection
    /// stays closed.
    pub fn close(&mut self)
        ensures
            *final(self) is Closed,
    {
        *self = Connection::Closed;
    }

    /// The steps that resynchronise the connection.
    pub fn resync(&self) -> (r: Result<Resync, Error>)
        ensures
            self is Closed ==> r == Err::<Resync, Error>(Error::ConnectionClosed),
            self is Open ==> r == Ok::<Resync, Error>(Resync::Reset),
    {
        match self {
            Connection::Open { .. } => Ok(client::resync()),
            Connection::Closed => Err(Error::ConnectionClosed),
        }
    }

    /// The bytes that set the mode of a pin.
    pub fn set_pin_mode(&self, pin: u8, mode: PinMode) -> (r: Result<Vec<u8>, Error>)
        ensures
            self is Closed ==> r == Err::<Vec<u8>, Error>(Error::ConnectionClosed),
            self is Open ==> (r matches Ok(bytes) && bytes@ == seq![
                START_SYSEX,
                SET_PIN_MODE,
                pin,
                byte_of_mode(mode),
                END_SYSEX,
            ]),
    {
        match self {
            Connection::Open { .. } => Ok(client::set_pin_mode(pin, mode)),
            Connection::Closed => Err(Error::ConnectionClosed),
        }
    }

    /// The bytes that write a value to a port register.
    pub fn digital_port_write(&self, port: u8, value: u8) -> (r: Result<Vec<u8>, Error>)
        ensures
            self is Closed ==> r == Err::<Vec<u8>, Error>(Error::ConnectionClosed),
            self is Open && port >= 16 ==> r == Err::<Vec<u8>, Error>(Error::InvalidArgument),
            self is Open && port < 16 ==> (r matches Ok(bytes) && bytes@ == port_write_bytes(
                port,
                value,
            )),
    {
        match self {
            Connection::Open { .. } => client::digital_port_write(port, value),
            Connection::Closed => Err(Error::ConnectionClosed),
        }
    }

    /// The bytes that turn the value reports of an analog pin on or off.
    pub fn analog_report(&self, pin: u8, state: bool) -> (r: Result<Vec<u8>, Error>)
        ensures
            self is Closed ==> r == Err::<Vec<u8>, Error>(Error::ConnectionClosed),
            self is Open && pin >= 16 ==> r == Err::<Vec<u8>, Error>(Error::InvalidArgument),
            self is Open && pin < 16 ==> (r matches Ok(bytes) && bytes@ == seq![
                ANALOG_REPORT | pin,
                if state { 1u8 } else { 0u8 },
            ]),
    {
        match self {
            Connection::Open { .. } => client::analog_report(pin, state),
            Connection::Closed => Err(Error::ConnectionClosed),
        }
    }

    /// The bytes of the firmware query.
    pub fn query_firmware(&self) -> (r: Result<Vec<u8>, Error>)
        ensures
            self is Closed ==> r == Err::<Vec<u8>, Error>(Error::ConnectionClosed),
            self is Open ==> (r matches Ok(bytes) && bytes@ == seq![
                START_SYSEX,
                QUERY_FIRMWARE,
                END_SYSEX,
            ]),
    {
        match self {
            Connection::Open { .. } => Ok(client::query_firmware()),
            Connection::Closed => Err(Error::ConnectionClosed),
        }
    }

    /// The bytes of the pin capability query.
    pub fn capabilities(&self) -> (r: Result<Vec<u8>, Error>)
        ensures
            self is Closed ==> r == Err::<Vec<u8>, Error>(Error::ConnectionClosed),
            self is Open ==> (r matches Ok(bytes) && bytes@ == seq![
                START_SYSEX,
                CAPABILITY_QUERY,
                END_SYSEX,
            ]),
    {
        match self {
            Connection::Open { .. } => Ok(client::capabilities()),
            Connection::Closed => Err(Error::ConnectionClosed),
        }
    }

    /// The read of one message, with the default timeout budget.
    pub fn read(&self) -> (r: Result<Reader, Error>)
        ensures
            self is Closed ==> r matches Err(Error::ConnectionClosed),
            self is Open ==> (r matches Ok(reader) && reader.buffer@ == Seq::<u8>::empty()
                && reader.retries == 0 && reader.max_retries == READ_RETRIES),
    {
        match self {
            Connection::Open { .. } => Ok(client::read()),
            Connection::Closed => Err(Error::ConnectionClosed),
        }
    }

    /// Folds a message that was read into the board of an open connection.
    pub fn update(&mut self, msg: FirmataMsg) -> (r: Result<(), Error>)
        ensures
            *old(self) is Closed ==> r == Err::<(), Error>(Error::ConnectionClosed),
            *old(self) is Closed ==> *final(self) is Closed,
            *old(self) is Open ==> r is Ok,
            *old(self) is Open ==> (*final(self) matches Connection::Open { inner, board }
                && inner == old(self)->inner && board@ == apply(old(self)->board@, msg@)),
    {
        match self {
            Connection::Open { board, .. } => {
                board.update(msg);
                Ok(())
            },
            Connection::Closed => Err(Error::ConnectionClosed),
        }
    }
}

} // verus!
