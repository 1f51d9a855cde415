//! The frame codec and the stream framer.
//!
//! A frame is a header followed by a payload, byte-stuffed so that it holds no
//! zero byte, and closed by one zero byte, the delimiter. The header names
//! the category of the payload in one of two conventions: native (a magic
//! number and a category code) or compat (a four-letter tag).

use crate::cobs::{
    cobs_decoded, cobs_encoded, decode, encodable, encode, is_delimited, max_encoded_size,
};
use crate::stream::{
    after_head, find_zero, head_frame, lemma_delimited_head, lemma_read_run, read_run, take_frame,
};
use vstd::prelude::*;

verus! {

/// How many bytes one read from the transport asks for at most.
pub const READ_CHUNK: usize = 0xff;

/// Represents the type of data being sent
#[derive(Debug, Copy, Clone, PartialEq, Eq, Structural)]
pub enum DataType {
    Print,
    Error,
    KernelLog,
}

impl DataType {
    /// The code of the category in a native header.
    pub open spec fn code(self) -> u8 {
        match self {
            DataType::Print => 0x00,
            DataType::Error => 0x01,
            DataType::KernelLog => 0x02,
        }
    }

    /// The category that a code of a native header stands for, if any.
    pub open spec fn of_code(code: u8) -> Option<DataType> {
        if code == 0x00 {
            Some(DataType::Print)
        } else if code == 0x01 {
            Some(DataType::Error)
        } else if code == 0x02 {
            Some(DataType::KernelLog)
        } else {
            None
        }
    }

    /// The tag of the category in a compat header: the ASCII letters `sout`,
    /// `serr` or `kdbg`.
    pub open spec fn tag(self) -> Seq<u8> {
        match self {
            DataType::Print => seq![0x73u8, 0x6fu8, 0x75u8, 0x74u8],
            DataType::Error => seq![0x73u8, 0x65u8, 0x72u8, 0x72u8],
            DataType::KernelLog => seq![0x6bu8, 0x64u8, 0x62u8, 0x67u8],
        }
    }
}

/// The magic number that opens a native header.
pub open spec fn magic() -> Seq<u8> {
    seq![0x37u8, 0x31u8, 0x32u8, 0x32u8]
}

/// The header of a frame: the compat tag alone, or the magic number and the
/// category code.
pub open spec fn header(pros_compat: bool, data_type: DataType) -> Seq<u8> {
    if pros_compat {
        data_type.tag()
    } else {
        magic().push(data_type.code())
    }
}

/// A frame before encoding: header, then payload.
pub open spec fn frame_content(pros_compat: bool, data_type: DataType, data: Seq<u8>) -> Seq<u8> {
    header(pros_compat, data_type) + data
}

/// The category and payload that a decoded frame carries. The compat tags are
/// tried first, then the native header; a frame with neither, or with a
/// native header whose code is missing or unknown, counts as an empty print.
pub open spec fn sniffed(frame: Seq<u8>) -> (DataType, Seq<u8>) {
    if DataType::Print.tag().is_prefix_of(frame) {
        (DataType::Print, frame.skip(4))
    } else if DataType::Error.tag().is_prefix_of(frame) {
        (DataType::Error, frame.skip(4))
    } else if DataType::KernelLog.tag().is_prefix_of(frame) {
        (DataType::KernelLog, frame.skip(4))
    } else if magic().is_prefix_of(frame) && frame.len() >= 5 {
        match DataType::of_code(frame[4]) {
            Some(data_type) => (data_type, frame.skip(5)),
            None => (DataType::Print, Seq::empty()),
        }
    } else {
        (DataType::Print, Seq::empty())
    }
}

/// Whether a decoded frame opens with a header that [`sniffed`] accepts.
pub open spec fn is_recognized(frame: Seq<u8>) -> bool {
    ||| DataType::Print.tag().is_prefix_of(frame)
    ||| DataType::Error.tag().is_prefix_of(frame)
    ||| DataType::KernelLog.tag().is_prefix_of(frame)
    ||| (magic().is_prefix_of(frame) && frame.len() >= 5 && DataType::of_code(frame[4]) is Some)
}

/// The code of `data_type` in a native header.
pub fn category_code(data_type: DataType) -> (code: u8)
    ensures
        code == data_type.code(),
        DataType::of_code(code) == Some(data_type),
{
    match data_type {
        DataType::Print => 0x00,
        DataType::Error => 0x01,
        DataType::KernelLog => 0x02,
    }
}

/// The header that a framer of the given variant puts before a payload of
/// the given category.
pub fn header_bytes(pros_compat: bool, data_type: DataType) -> (bytes: Vec<u8>)
    ensures
        bytes@ == header(pros_compat, data_type),
{
    if pros_compat {
        match data_type {
            // sout
            DataType::Print => vec![0x73u8, 0x6f, 0x75, 0x74],
            // serr
            DataType::Error => vec![0x73u8, 0x65, 0x72, 0x72],
            // kdbg
            DataType::KernelLog => vec![0x6bu8, 0x64, 0x62, 0x67],
        }
    } else {
        // Magic number with data type
        vec![0x37u8, 0x31, 0x32, 0x32, category_code(data_type)]
    }
}

/// Puts the header of the given variant and category before `data`.
pub fn prepend_header(pros_compat: bool, data_type: DataType, data: Vec<u8>) -> (packet: Vec<u8>)
    ensures
        packet@ == frame_content(pros_compat, data_type, data@),
{
    // Prepend the header to the data
    let mut packet = header_bytes(pros_compat, data_type);
    let mut data = data;
    packet.append(&mut data);
    packet
}

/// Whether `bytes` opens with the four bytes `a`, `b`, `c`, `d`.
fn starts_with(bytes: &Vec<u8>, a: u8, b: u8, c: u8, d: u8) -> (found: bool)
    ensures
        found == seq![a, b, c, d].is_prefix_of(bytes@),
{
    bytes.len() >= 4 && bytes[0] == a && bytes[1] == b && bytes[2] == c && bytes[3] == d
}

/// Reads the header of a decoded frame and returns its category and payload,
/// as [`sniffed`] defines them.
pub fn sniff_header(frame: Vec<u8>) -> (parsed: (DataType, Vec<u8>))
    ensures
        parsed.0 == sniffed(frame@).0,
        parsed.1@ == sniffed(frame@).1,
        !is_recognized(frame@) ==> parsed.0 == DataType::Print && parsed.1@.len() == 0,
{
    let mut frame = frame;
    // If it starts with sout, serr, or kdbg it is a PROS packet
    if starts_with(&frame, 0x73, 0x6f, 0x75, 0x74) {
        (DataType::Print, frame.split_off(4))
    } else if starts_with(&frame, 0x73, 0x65, 0x72, 0x72) {
        (DataType::Error, frame.split_off(4))
    } else if starts_with(&frame, 0x6b, 0x64, 0x62, 0x67) {
        (DataType::KernelLog, frame.split_off(4))
    } else if starts_with(&frame, 0x37, 0x31, 0x32, 0x32) && frame.len() >= 5 {
        // If it starts with the CEROS magic number, parse it as such
        // Find the data type
        let data_type = match frame[4] {
            0x00 => DataType::Print,
            0x01 => DataType::Error,
            0x02 => DataType::KernelLog,
            _ => {
                // If it is unrecognized, ignore
                return (DataType::Print, Vec::new());
            },
        };
        // Get the rest of the bytes
        (data_type, frame.split_off(5))
    } else {
        // Otherwise return no data
        (DataType::Print, Vec::new())
    }
}

/// Header sniffing undoes header selection, in both conventions: from a
/// header of either variant followed by a payload it recovers the category
/// and the payload.
pub proof fn lemma_sniff_frame_content(pros_compat: bool, data_type: DataType, data: Seq<u8>)
    ensures
        sniffed(frame_content(pros_compat, data_type, data)) == (data_type, data),
        is_recognized(frame_content(pros_compat, data_type, data)),
{
    let frame = frame_content(pros_compat, data_type, data);
    // No tag opens a frame but the one that was put there
    assert forall|other: DataType| other.tag().is_prefix_of(frame) implies pros_compat && other
        == data_type by {}
}

/// A raw frame as the codec wants it: with its delimiter, which the
/// delimiter scan has taken from a frame that came off the stream.
pub open spec fn terminated(frame: Seq<u8>) -> Seq<u8> {
    if frame.contains(0u8) {
        frame
    } else {
        frame.push(0u8)
    }
}

/// What a raw frame decodes to. A frame that the codec rejects decodes to
/// nothing.
pub open spec fn decoded(frame: Seq<u8>) -> Seq<u8> {
    match cobs_decoded(terminated(frame)) {
        Some(message) => message,
        None => Seq::empty(),
    }
}

/// The category and payload of a raw frame: it is decoded, then its header is
/// read.
pub open spec fn parsed(frame: Seq<u8>) -> (DataType, Seq<u8>) {
    sniffed(decoded(frame))
}

/// What the framer asks of its caller after a call of
/// [`CEROSSerial::read_data`].
#[derive(Debug, PartialEq, Eq)]
pub enum ReadStep {
    /// One frame has left the buffer: its category and payload.
    Frame(DataType, Vec<u8>),
    /// No delimiter is buffered. Make one blocking read of at most this many
    /// bytes from the transport, hand what came to
    /// [`CEROSSerial::receive`], and call `read_data` again.
    Read(usize),
}

/// Implements the CEROS serial protocol: the wire-format variant, fixed when
/// the framer is made, and the bytes that have arrived and await the rest of
/// their frame. The framer owns no transport; its caller reads and writes.
pub struct CEROSSerial {
    buffer: Vec<u8>,
    pros_compat: bool,
}

impl CEROSSerial {
    /// The bytes that have arrived and belong to no frame that was handed
    /// out.
    pub closed spec fn buffered(&self) -> Seq<u8> {
        self.buffer@
    }

    /// Whether the framer writes compat headers.
    pub closed spec fn is_pros_compat(&self) -> bool {
        self.pros_compat
    }

    /// What this framer makes of a raw frame. The variant plays no part in
    /// it.
    pub open spec fn parse_result(&self, frame: Seq<u8>) -> (DataType, Seq<u8>) {
        parsed(frame)
    }

    /// Creates a new instance of CEROSSerial
    pub fn new() -> (framer: CEROSSerial)
        ensures
            framer.buffered() == Seq::<u8>::empty(),
            !framer.is_pros_compat(),
    {
        CEROSSerial { buffer: Vec::new(), pros_compat: false }
    }

    /// Creates a new instance of CEROSSerial with PROS
    /// compatibility enabled
    pub fn new_pros() -> (framer: CEROSSerial)
        ensures
            framer.buffered() == Seq::<u8>::empty(),
            framer.is_pros_compat(),
    {
        CEROSSerial { buffer: Vec::new(), pros_compat: true }
    }

    /// The bytes that wait in the buffer for their frame to be complete.
    pub fn pending(&self) -> (bytes: &[u8])
        ensures
            bytes@ == self.buffered(),
    {
        self.buffer.as_slice()
    }

    /// Whether the framer writes compat headers.
    pub fn pros_compat(&self) -> (flag: bool)
        ensures
            flag == self.is_pros_compat(),
    {
        self.pros_compat
    }

    /// Whether [`CEROSSerial::create_serial_packet`] can frame a payload of
    /// `data_len` bytes on this machine.
    pub fn can_frame(&self, data_type: DataType, data_len: usize) -> (fits: bool)
        ensures
            fits == (max_encoded_size(
                (header(self.is_pros_compat(), data_type).len() + data_len) as nat,
            ) <= usize::MAX),
    {
        let head: usize = if self.pros_compat {
            4
        } else {
            5
        };
        if data_len > usize::MAX - head {
            false
        } else {
            encodable(head + data_len)
        }
    }

    /// Creates a new serial packet: the header of this framer's variant and
    /// `data`, encoded, with the delimiter as its last byte and no zero byte
    /// before it. Every framer, native or compat, parses the packet back to
    /// `data_type` and `data`, be it whole or, as the delimiter scan hands it
    /// out, without its last byte.
    pub fn create_serial_packet(&self, data_type: DataType, data: Vec<u8>) -> (packet: Vec<u8>)
        requires
            max_encoded_size(frame_content(self.is_pros_compat(), data_type, data@).len())
                <= usize::MAX,
        ensures
            packet@ == cobs_encoded(frame_content(self.is_pros_compat(), data_type, data@)),
            packet@.len() <= max_encoded_size(
                frame_content(self.is_pros_compat(), data_type, data@).len(),
            ),
            is_delimited(packet@),
            forall|receiver: CEROSSerial| #[trigger]
                receiver.parse_result(packet@) == (data_type, data@),
            forall|receiver: CEROSSerial| #[trigger]
                receiver.parse_result(packet@.drop_last()) == (data_type, data@),
    {
        // Find the data to prepend to the vector based on
        // the packet type and PROS support, and prepend it
        let content = prepend_header(self.pros_compat, data_type, data);
        // COBS encode the data
        let packet = encode(content.as_slice());
        proof {
            lemma_sniff_frame_content(self.pros_compat, data_type, data@);
            lemma_parse_without_delimiter(packet@);
        }
        packet
    }

    /// Parses a serial packet from an input vector. The packet may come with
    /// its delimiter or without. A packet that does not decode, or that opens
    /// with no known header, gives an empty print.
    pub fn parse_serial_packet(&self, data: Vec<u8>) -> (result: (DataType, Vec<u8>))
        ensures
            result.0 == self.parse_result(data@).0,
            result.1@ == self.parse_result(data@).1,
            cobs_decoded(terminated(data@)) is None || !is_recognized(decoded(data@)) ==> result.0
                == DataType::Print && result.1@.len() == 0,
    {
        let mut data = data;
        if find_zero(&data).is_none() {
            data.push(0x00);
        }
        // COBS decode the data
        let message = match decode(data.as_slice()) {
            Some(message) => message,
            None => Vec::new(),
        };
        sniff_header(message)
    }

    /// Takes in bytes that a read from the transport returned.
    pub fn receive(&mut self, data: &[u8])
        ensures
            final(self).buffered() == old(self).buffered() + data@,
            final(self).is_pros_compat() == old(self).is_pros_compat(),
    {
        self.buffer.extend_from_slice(data);
    }

    /// Reads in serial data: takes the frame at the head of the buffer and
    /// parses it, or, so long as there are no 0x00 bytes in the buffer, asks
    /// for one more read and leaves the buffer as it is. Of the buffer only
    /// the frame and its delimiter go; what follows them stays for the next
    /// call.
    pub fn read_data(&mut self) -> (step: ReadStep)
        ensures
            final(self).is_pros_compat() == old(self).is_pros_compat(),
            old(self).buffered().contains(0u8) ==> {
                &&& step matches ReadStep::Frame(data_type, data)
                &&& (data_type, data@) == old(self).parse_result(head_frame(old(self).buffered()))
                &&& final(self).buffered() == after_head(old(self).buffered())
                &&& old(self).buffered() == head_frame(old(self).buffered()).push(0u8)
                    + final(self).buffered()
            },
            !old(self).buffered().contains(0u8) ==> {
                &&& step == ReadStep::Read(READ_CHUNK)
                &&& final(self).buffered() == old(self).buffered()
            },
    {
        match take_frame(&mut self.buffer) {
            None => ReadStep::Read(READ_CHUNK),
            Some(frame) => {
                // Parse and return the packet
                let (data_type, data) = self.parse_serial_packet(frame);
                ReadStep::Frame(data_type, data)
            },
        }
    }
}

impl Default for CEROSSerial {
    /// A native framer with an empty buffer, as [`CEROSSerial::new`] makes
    /// it.
    fn default() -> (framer: CEROSSerial)
        ensures
            framer.buffered() == Seq::<u8>::empty(),
            !framer.is_pros_compat(),
    {
        CEROSSerial::new()
    }
}

/// What a framer makes of a frame does not depend on its own variant: a
/// native framer and a compat framer parse every frame alike, whichever of
/// them built it.
pub proof fn lemma_parse_ignores_variant(native: CEROSSerial, compat: CEROSSerial, frame: Seq<u8>)
    requires
        !native.is_pros_compat(),
        compat.is_pros_compat(),
    ensures
        native.parse_result(frame) == compat.parse_result(frame),
{
}

/// A frame that the codec rejects, or that decodes to bytes with no known
/// header, parses to an empty print.
pub proof fn lemma_unrecognized_is_empty_print(frame: Seq<u8>)
    requires
        cobs_decoded(terminated(frame)) is None || !is_recognized(decoded(frame)),
    ensures
        parsed(frame) == (DataType::Print, Seq::<u8>::empty()),
{
}

/// A delimited frame parses alike with its delimiter, as it was built, and
/// without, as the delimiter scan hands it out.
pub proof fn lemma_parse_without_delimiter(frame: Seq<u8>)
    requires
        is_delimited(frame),
    ensures
        parsed(frame.drop_last()) == parsed(frame),
{
    // The frame holds a zero byte and is taken as it is; its body holds none
    // and gets the delimiter back
    assert(frame.contains(0u8));
    assert(frame.drop_last().push(0u8) =~= frame);
}

/// Two delimited frames that arrive back to back, cut into reads of any
/// number and sizes, come out of two runs of the read loop as the first
/// frame and then the second, each parsed as it would be whole; after that
/// nothing is left, in the buffer or unread.
pub proof fn lemma_two_frames_any_reads(first: Seq<u8>, second: Seq<u8>, reads: Seq<Seq<u8>>)
    requires
        is_delimited(first),
        is_delimited(second),
        reads.flatten() == first + second,
    ensures
        ({
            let one = read_run(Seq::empty(), reads);
            let two = read_run(one.buffer, one.unread);
            &&& one.frame == first.drop_last()
            &&& two.frame == second.drop_last()
            &&& parsed(one.frame) == parsed(first)
            &&& parsed(two.frame) == parsed(second)
            &&& two.buffer + two.unread.flatten() == Seq::<u8>::empty()
        }),
{
    let start = Seq::<u8>::empty();
    lemma_delimited_head(first, second);
    lemma_read_run(start, reads);
    let one = read_run(start, reads);
    lemma_delimited_head(second, Seq::<u8>::empty());
    lemma_read_run(one.buffer, one.unread);
    lemma_parse_without_delimiter(first);
    lemma_parse_without_delimiter(second);
}

/// Two delimited frames that arrive back to back in three reads of any sizes
/// come out of two runs of the read loop as the first frame and then the
/// second, each parsed as it would be whole, with no byte lost and none read
/// twice.
pub proof fn lemma_buffer_continuity(
    first: Seq<u8>,
    second: Seq<u8>,
    a: Seq<u8>,
    b: Seq<u8>,
    c: Seq<u8>,
)
    requires
        is_delimited(first),
        is_delimited(second),
        a + b + c == first + second,
    ensures
        ({
            let one = read_run(Seq::empty(), seq![a, b, c]);
            let two = read_run(one.buffer, one.unread);
            &&& one.frame == first.drop_last()
            &&& two.frame == second.drop_last()
            &&& parsed(one.frame) == parsed(first)
            &&& parsed(two.frame) == parsed(second)
            &&& two.buffer + two.unread.flatten() == Seq::<u8>::empty()
        }),
{
    let reads = seq![a, b, c];
    assert(reads.flatten() =~= a + b + c) by {
        reveal_with_fuel(Seq::flatten, 4);
    }
    lemma_two_frames_any_reads(first, second, reads);
}

} // verus!
