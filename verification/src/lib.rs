//! Packet framing for a serial link that carries print output, error output
//! and kernel log text over one byte stream.
//!
//! [`protocol`] holds the frame codec and the stream framer, [`stream`] the
//! scan that cuts a byte stream into frames at its zero bytes, and [`cobs`]
//! the boundary to the byte-stuffing codec that keeps zero bytes out of a
//! frame.
//!
//! The library touches no transport. A caller that owns one reads from it
//! when [`protocol::CEROSSerial::read_data`] asks for bytes, and writes to it
//! what [`protocol::CEROSSerial::create_serial_packet`] returns.

pub mod cobs;
pub mod protocol;
pub mod stream;
