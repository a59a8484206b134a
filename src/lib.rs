//! Host-side client for the Firmata protocol.
//!
//! The library is free of I/O: it decodes bytes into messages, encodes
//! commands into bytes, folds messages into a board snapshot, and drives
//! reads and resynchronisation as state machines that are told what the
//! transport did.
pub mod board;
pub mod client;
pub mod connection;
pub mod errors;
pub mod parser;
pub mod protocol;
