//! Consistent Overhead Byte Stuffing, as the `corncobs` crate implements it.
//!
//! The codec itself is not verified here. Its results are given names,
//! [`cobs_encoded`] and [`cobs_decoded`], and the contracts of this module say
//! of them only what the crate documents: the size bound, that an encoded
//! message holds no zero byte before its terminator, and that decoding an
//! encoded message gives the message back.

use vstd::prelude::*;

verus! {

/// The bytes that `corncobs::encode_buf` produces for `bytes`, terminator
/// included.
pub uninterp spec fn cobs_encoded(bytes: Seq<u8>) -> Seq<u8>;

/// What `corncobs::decode_buf` makes of `bytes`: the decoded message, or
/// `None` where it reports an error.
pub uninterp spec fn cobs_decoded(bytes: Seq<u8>) -> Option<Seq<u8>>;

/// The largest size that the encoded form of a message of `raw_len` bytes can
/// have: the message, one byte of overhead for every 254 bytes of it (one for
/// an empty message), and the terminator.
pub open spec fn max_encoded_size(raw_len: nat) -> nat {
    let overhead = if raw_len == 0 {
        1
    } else {
        (raw_len + 253) / 254
    };
    raw_len + overhead + 1
}

/// A frame as it travels: no zero byte but the last one.
pub open spec fn is_delimited(frame: Seq<u8>) -> bool {
    &&& frame.len() >= 1
    &&& frame[frame.len() - 1] == 0
    &&& forall|i: int| 0 <= i < frame.len() - 1 ==> frame[i] != 0
}

/// `corncobs::max_encoded_len` computes [`max_encoded_size`] in `usize`
/// arithmetic; the sum must fit.
pub assume_specification[ corncobs::max_encoded_len ](raw_len: usize) -> (n: usize)
    requires
        max_encoded_size(raw_len as nat) <= usize::MAX,
    ensures
        n == max_encoded_size(raw_len as nat),
;

/// Calls `corncobs::encode_buf`, which writes the encoded form of `bytes` to
/// the front of `output` and returns how many bytes it used, terminator
/// included. The buffer must hold the worst case. Claimed of the outside
/// function: the bytes it wrote are [`cobs_encoded`] of the input and no more
/// than the worst case, the rest of the buffer is untouched, the encoded form
/// is zero-free up to its terminator, and `decode_buf` turns it back into
/// `bytes`.
#[verifier::external_body]
fn encode_buf(bytes: &[u8], output: &mut Vec<u8>) -> (n: usize)
    requires
        max_encoded_size(bytes@.len()) <= usize::MAX,
        old(output)@.len() >= max_encoded_size(bytes@.len()),
    ensures
        n <= max_encoded_size(bytes@.len()),
        final(output)@.len() == old(output)@.len(),
        final(output)@.subrange(0, n as int) == cobs_encoded(bytes@),
        final(output)@.subrange(n as int, final(output)@.len() as int) == old(output)@.subrange(
            n as int,
            old(output)@.len() as int,
        ),
        is_delimited(final(output)@.subrange(0, n as int)),
        cobs_decoded(final(output)@.subrange(0, n as int)) == Some(bytes@),
{
    corncobs::encode_buf(bytes, output.as_mut_slice())
}

/// The error type of `corncobs::decode_buf`.
#[verifier::external_type_specification]
#[verifier::external_body]
pub struct ExCobsError(corncobs::CobsError);

/// Calls `corncobs::decode_buf`, which decodes `bytes` into the front of
/// `output` and returns how many bytes it wrote, or an error where the input
/// ends before a terminator. It writes fewer bytes than it has read, so a
/// buffer as long as the input is enough; the crate's own `decode` sizes its
/// buffer so. Claimed of the outside function: success and the decoded bytes
/// are [`cobs_decoded`] of the input.
#[verifier::external_body]
fn decode_buf(bytes: &[u8], output: &mut Vec<u8>) -> (r: Result<usize, corncobs::CobsError>)
    requires
        old(output)@.len() >= bytes@.len(),
    ensures
        final(output)@.len() == old(output)@.len(),
        match r {
            Ok(n) => n <= final(output)@.len() && cobs_decoded(bytes@) == Some(
                final(output)@.subrange(0, n as int),
            ),
            Err(_) => cobs_decoded(bytes@) is None,
        },
{
    corncobs::decode_buf(bytes, output.as_mut_slice())
}

/// Whether a message of `raw_len` bytes can be encoded on this machine:
/// whether its largest encoded size fits in `usize`.
pub fn encodable(raw_len: usize) -> (fits: bool)
    ensures
        fits == (max_encoded_size(raw_len as nat) <= usize::MAX),
{
    let overhead: usize = if raw_len == 0 {
        1
    } else {
        (raw_len - 1) / 254 + 1
    };
    overhead < usize::MAX - raw_len
}

/// Encodes `bytes`: the result holds no zero byte but its last, and decodes to
/// `bytes` again.
pub fn encode(bytes: &[u8]) -> (out: Vec<u8>)
    requires
        max_encoded_size(bytes@.len()) <= usize::MAX,
    ensures
        out@ == cobs_encoded(bytes@),
        out@.len() <= max_encoded_size(bytes@.len()),
        is_delimited(out@),
        cobs_decoded(out@) == Some(bytes@),
{
    let mut out = vec![0u8; corncobs::max_encoded_len(bytes.len())];
    let n = encode_buf(bytes, &mut out);
    out.truncate(n);
    out
}

/// Decodes `bytes`, which must run up to a terminator; `None` where the codec
/// reports an error.
pub fn decode(bytes: &[u8]) -> (out: Option<Vec<u8>>)
    ensures
        match out {
            Some(message) => cobs_decoded(bytes@) == Some(message@),
            None => cobs_decoded(bytes@) is None,
        },
{
    let mut out = vec![0u8; bytes.len()];
    match decode_buf(bytes, &mut out) {
        Ok(n) => {
            out.truncate(n);
            Some(out)
        },
        Err(_) => None,
    }
}

} // verus!
