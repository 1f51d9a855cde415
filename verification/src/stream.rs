//! The delimiter scan: cutting a byte stream into raw frames.
//!
//! Bytes arrive in chunks of any size and are kept in one buffer. A raw frame
//! is what stands before the first zero byte of the buffer; taking it removes
//! the frame and that one zero byte and leaves the rest for the next frame.

use crate::cobs::is_delimited;
use vstd::prelude::*;

verus! {

/// The raw frame at the head of `buffer`: the bytes before its first zero
/// byte. Meant for a buffer that holds a zero byte.
pub open spec fn head_frame(buffer: Seq<u8>) -> Seq<u8> {
    buffer.take(buffer.index_of_first(0u8).unwrap())
}

/// What is left of `buffer` when its head frame and the delimiter behind it
/// are taken away. Meant for a buffer that holds a zero byte.
pub open spec fn after_head(buffer: Seq<u8>) -> Seq<u8> {
    buffer.skip(buffer.index_of_first(0u8).unwrap() + 1)
}

/// The first zero byte of `bytes` stands at `at`.
pub open spec fn is_first_zero(bytes: Seq<u8>, at: int) -> bool {
    &&& 0 <= at < bytes.len()
    &&& bytes[at] == 0
    &&& forall|j: int| 0 <= j < at ==> bytes[j] != 0
}

/// A position that is known to hold the first zero byte is the one that the
/// scan finds.
pub proof fn lemma_first_zero(bytes: Seq<u8>, at: int)
    requires
        is_first_zero(bytes, at),
    ensures
        bytes.contains(0u8),
        bytes.index_of_first(0u8) == Some(at),
        head_frame(bytes) == bytes.take(at),
        after_head(bytes) == bytes.skip(at + 1),
{
    bytes.index_of_first_ensures(0u8);
}

/// Where the scan finds a zero byte, it is the first one.
pub proof fn lemma_scan_finds_first(bytes: Seq<u8>)
    requires
        bytes.contains(0u8),
    ensures
        bytes.index_of_first(0u8) is Some,
        is_first_zero(bytes, bytes.index_of_first(0u8).unwrap()),
{
    bytes.index_of_first_ensures(0u8);
}

/// The position of the first zero byte of `bytes`, if there is one.
pub fn find_zero(bytes: &Vec<u8>) -> (found: Option<usize>)
    ensures
        found is Some <==> bytes@.contains(0u8),
        match found {
            Some(at) => bytes@.index_of_first(0u8) == Some(at as int),
            None => bytes@.index_of_first(0u8) is None,
        },
{
    let mut at: usize = 0;
    while at < bytes.len()
        invariant
            at <= bytes.len(),
            forall|j: int| 0 <= j < at ==> bytes@[j] != 0,
        decreases bytes.len() - at,
    {
        if bytes[at] == 0x00 {
            proof {
                lemma_first_zero(bytes@, at as int);
            }
            return Some(at);
        }
        at += 1;
    }
    proof {
        bytes@.index_of_first_ensures(0u8);
    }
    None
}

/// Takes the raw frame at the head of `buffer`, if its delimiter has arrived:
/// the frame is returned without the delimiter, and frame and delimiter leave
/// the buffer. No other byte is dropped, and none stays that was handed out.
/// A buffer without a zero byte is left as it is.
pub fn take_frame(buffer: &mut Vec<u8>) -> (frame: Option<Vec<u8>>)
    ensures
        frame is Some <==> old(buffer)@.contains(0u8),
        match frame {
            Some(raw) => {
                &&& raw@ == head_frame(old(buffer)@)
                &&& final(buffer)@ == after_head(old(buffer)@)
                &&& !raw@.contains(0u8)
                &&& old(buffer)@ == raw@.push(0u8) + final(buffer)@
            },
            None => final(buffer)@ == old(buffer)@,
        },
{
    match find_zero(buffer) {
        None => None,
        Some(pos) => {
            proof {
                lemma_scan_finds_first(buffer@);
            }
            // Cut the buffer before the zero, then behind it
            let mut from_zero = buffer.split_off(pos);
            let mut frame = from_zero.split_off(1);
            // The buffer holds the frame now, and `frame` what follows the
            // zero: swap them
            core::mem::swap(buffer, &mut frame);
            Some(frame)
        },
    }
}

/// Bytes that arrive behind a delimiter change neither the frame before it
/// nor what was already behind it.
pub proof fn lemma_later_bytes_keep_head(buffer: Seq<u8>, later: Seq<u8>)
    requires
        buffer.contains(0u8),
    ensures
        (buffer + later).contains(0u8),
        head_frame(buffer + later) == head_frame(buffer),
        after_head(buffer + later) == after_head(buffer) + later,
{
    lemma_scan_finds_first(buffer);
    let at = buffer.index_of_first(0u8).unwrap();
    // The first zero byte of the longer buffer stands where it stood
    assert(is_first_zero(buffer + later, at));
    lemma_first_zero(buffer + later, at);
}

/// At the head of a stream stands a delimited frame: the scan hands out the
/// frame without its delimiter and leaves exactly what follows the frame.
pub proof fn lemma_delimited_head(frame: Seq<u8>, later: Seq<u8>)
    requires
        is_delimited(frame),
    ensures
        (frame + later).contains(0u8),
        head_frame(frame + later) == frame.drop_last(),
        after_head(frame + later) == later,
{
    // The delimiter of the frame is the first zero byte of the stream
    assert(is_first_zero(frame + later, frame.len() - 1));
    lemma_first_zero(frame + later, frame.len() - 1);
}

/// How one run of the read loop ends.
pub struct ReadRun {
    /// The raw frame that the run hands out.
    pub frame: Seq<u8>,
    /// The buffer that the run leaves.
    pub buffer: Seq<u8>,
    /// What the reads that the run did not need will return.
    pub unread: Seq<Seq<u8>>,
}

/// One run of the read loop over a transport whose reads return `reads`, in
/// that order: so long as the buffer holds no zero byte, one more read is
/// made and what it returned is appended; then the head frame is taken.
/// Meant for a stream that holds a zero byte: on one that ends without, the
/// loop would wait.
pub open spec fn read_run(buffer: Seq<u8>, reads: Seq<Seq<u8>>) -> ReadRun
    decreases reads.len(),
{
    if buffer.contains(0u8) || reads.len() == 0 {
        ReadRun { frame: head_frame(buffer), buffer: after_head(buffer), unread: reads }
    } else {
        read_run(buffer + reads.first(), reads.drop_first())
    }
}

/// A run of the read loop does not depend on how the stream is cut into
/// reads: it hands out the head frame of the whole stream, and the bytes
/// behind that frame's delimiter are all still there, in the buffer or yet to
/// be read, each once and in order.
pub proof fn lemma_read_run(buffer: Seq<u8>, reads: Seq<Seq<u8>>)
    requires
        (buffer + reads.flatten()).contains(0u8),
    ensures
        read_run(buffer, reads).frame == head_frame(buffer + reads.flatten()),
        read_run(buffer, reads).buffer + read_run(buffer, reads).unread.flatten() == after_head(
            buffer + reads.flatten(),
        ),
    decreases reads.len(),
{
    if buffer.contains(0u8) {
        lemma_later_bytes_keep_head(buffer, reads.flatten());
    } else if reads.len() > 0 {
        // One read is made; the stream as a whole stays what it was
        assert((buffer + reads.first()) + reads.drop_first().flatten() =~= buffer
            + reads.flatten());
        lemma_read_run(buffer + reads.first(), reads.drop_first());
    }
}

} // verus!
