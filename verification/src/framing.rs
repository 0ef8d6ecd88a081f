//! Frames: seven decimal digits that give the length of the payload, then the payload,
//! which is UTF-8 text.

use vstd::prelude::*;
use vstd::slice::{slice_subrange, slice_to_vec};

use vstd::arithmetic::div_mod::lemma_div_denominator;
use vstd::utf8::{
    decode_utf8, encode_utf8, encode_utf8_decode_utf8, encode_utf8_valid_utf8, valid_utf8,
};

use crate::error::FramingError;

verus! {

/// The number of bytes of the length prefix.
pub const PREFIX_LEN: usize = 7;

/// The largest number of bytes of a frame, prefix included.
pub const MAX_FRAME_LEN: usize = 9_999_999;

/// The ASCII digit for `d`.
pub open spec fn digit(d: int) -> u8 {
    (48 + d) as u8
}

/// Whether the byte is an ASCII digit.
pub open spec fn is_digit(byte: u8) -> bool {
    48 <= byte <= 57
}

/// The length prefix of a payload of `len` bytes: seven decimal digits, zeros on the left.
pub open spec fn prefix(len: int) -> Seq<u8> {
    seq![
        digit(len / 1_000_000 % 10),
        digit(len / 100_000 % 10),
        digit(len / 10_000 % 10),
        digit(len / 1_000 % 10),
        digit(len / 100 % 10),
        digit(len / 10 % 10),
        digit(len % 10),
    ]
}

/// Whether the first seven bytes are decimal digits.
pub open spec fn has_prefix(bytes: Seq<u8>) -> bool {
    &&& bytes.len() >= 7
    &&& forall|i: int| 0 <= i < 7 ==> is_digit(#[trigger] bytes[i])
}

/// The number that the first seven bytes spell.
pub open spec fn prefix_value(bytes: Seq<u8>) -> int {
    (bytes[0] - 48) * 1_000_000 + (bytes[1] - 48) * 100_000 + (bytes[2] - 48) * 10_000 + (bytes[3]
        - 48) * 1_000 + (bytes[4] - 48) * 100 + (bytes[5] - 48) * 10 + (bytes[6] - 48)
}

/// Whether a payload is small enough to be framed: its UTF-8 bytes and the prefix together
/// are no more than the largest frame.
pub open spec fn fits(payload: Seq<char>) -> bool {
    encode_utf8(payload).len() + PREFIX_LEN <= MAX_FRAME_LEN
}

/// The frame of a payload: the length of its UTF-8 bytes as prefix, then these bytes.
pub open spec fn frame(payload: Seq<char>) -> Seq<u8> {
    prefix(encode_utf8(payload).len() as int) + encode_utf8(payload)
}

/// The bytes of the payload that the prefix announces.
pub open spec fn payload_bytes(bytes: Seq<u8>) -> Seq<u8> {
    bytes.subrange(7, 7 + prefix_value(bytes))
}

/// What a buffer decodes to: nothing yet while it holds at most the prefix or less than
/// the prefix announces; else the payload and the number of bytes that the frame took.
/// A prefix that is not seven digits is an error, and so is a payload that is not UTF-8.
pub open spec fn deframed(bytes: Seq<u8>) -> Result<Option<(Seq<char>, int)>, FramingError> {
    if bytes.len() <= 7 {
        Ok(None)
    } else if !has_prefix(bytes) {
        Err(FramingError::ParseIntError)
    } else if bytes.len() < prefix_value(bytes) + 7 {
        Ok(None)
    } else if !valid_utf8(payload_bytes(bytes)) {
        Err(FramingError::FromUtf8Error)
    } else {
        Ok(Some((decode_utf8(payload_bytes(bytes)), prefix_value(bytes) + 7)))
    }
}

/// Whether the result of decoding agrees with what the buffer decodes to.
pub open spec fn agrees(
    res: Result<Option<(String, usize)>, FramingError>,
    expected: Result<Option<(Seq<char>, int)>, FramingError>,
) -> bool {
    match (res, expected) {
        (Ok(None), Ok(None)) => true,
        (Ok(Some(got)), Ok(Some(want))) => got.0@ == want.0 && got.1 == want.1,
        (Err(e), Err(f)) => e == f,
        _ => false,
    }
}

/// `String::from_utf8` of std: it gives a text exactly when the bytes are UTF-8, and the
/// text is then the one whose UTF-8 bytes these are.
#[verifier::external_body]
fn text_of(bytes: Vec<u8>) -> (res: Option<String>)
    ensures
        res is Some <==> valid_utf8(bytes@),
        res matches Some(text) ==> encode_utf8(text@) == bytes@,
{
    String::from_utf8(bytes).ok()
}

/// The prefix of a length below ten million is seven digits that spell the length.
pub proof fn lemma_prefix(len: int)
    requires
        0 <= len <= MAX_FRAME_LEN,
    ensures
        prefix(len).len() == 7,
        has_prefix(prefix(len)),
        prefix_value(prefix(len)) == len,
{
    let a1 = len / 10;
    let a2 = a1 / 10;
    let a3 = a2 / 10;
    let a4 = a3 / 10;
    let a5 = a4 / 10;
    let a6 = a5 / 10;
    lemma_div_denominator(len, 10, 10);
    lemma_div_denominator(len, 100, 10);
    lemma_div_denominator(len, 1_000, 10);
    lemma_div_denominator(len, 10_000, 10);
    lemma_div_denominator(len, 100_000, 10);
    assert(a2 == len / 100 && a3 == len / 1_000 && a4 == len / 10_000 && a5 == len / 100_000 && a6
        == len / 1_000_000);
    assert(0 <= a6 < 10);
    let p = prefix(len);
    assert(p[0] == digit(a6 % 10));
    assert(p[1] == digit(a5 % 10));
    assert(p[2] == digit(a4 % 10));
    assert(p[3] == digit(a3 % 10));
    assert(p[4] == digit(a2 % 10));
    assert(p[5] == digit(a1 % 10));
    assert(p[6] == digit(len % 10));
    assert forall|i: int| 0 <= i < 7 implies is_digit(#[trigger] p[i]) by {}
    assert(len == 10 * a1 + len % 10);
    assert(a1 == 10 * a2 + a1 % 10);
    assert(a2 == 10 * a3 + a2 % 10);
    assert(a3 == 10 * a4 + a3 % 10);
    assert(a4 == 10 * a5 + a4 % 10);
    assert(a5 == 10 * a6 + a5 % 10);
}

/// Frames `payload`: the seven-digit length of its UTF-8 bytes, then these bytes. A
/// payload that with its prefix would exceed the largest frame is refused.
pub fn enframe(payload: &str) -> (res: Result<Vec<u8>, FramingError>)
    ensures
        res is Ok <==> fits(payload@),
        res matches Ok(framed) ==> framed@ == frame(payload@),
        res matches Err(e) ==> e == FramingError::MaximumFrameSizeExceeded,
{
    let bytes = payload.as_bytes();
    let len: usize = bytes.len();
    if len > MAX_FRAME_LEN - PREFIX_LEN {
        return Err(FramingError::MaximumFrameSizeExceeded);
    }
    let mut framed: Vec<u8> = Vec::new();
    framed.push(48u8 + (len / 1_000_000 % 10) as u8);
    framed.push(48u8 + (len / 100_000 % 10) as u8);
    framed.push(48u8 + (len / 10_000 % 10) as u8);
    framed.push(48u8 + (len / 1_000 % 10) as u8);
    framed.push(48u8 + (len / 100 % 10) as u8);
    framed.push(48u8 + (len / 10 % 10) as u8);
    framed.push(48u8 + (len % 10) as u8);
    assert(framed@ =~= prefix(len as int));
    framed.extend_from_slice(bytes);
    Ok(framed)
}

/// Decodes the frame at the start of `bytes`, if it is all there: the payload and the
/// number of bytes taken. Bytes after the frame are left alone.
pub fn deframe(bytes: &[u8]) -> (res: Result<Option<(String, usize)>, FramingError>)
    ensures
        agrees(res, deframed(bytes@)),
{
    if bytes.len() <= PREFIX_LEN {
        return Ok(None);
    }
    let mut len: usize = 0;
    let mut i: usize = 0;
    while i < PREFIX_LEN
        invariant
            i <= 7,
            bytes@.len() > 7,
            forall|j: int| 0 <= j < i ==> is_digit(#[trigger] bytes@[j]),
            i == 0 ==> len == 0,
            i == 1 ==> len == bytes@[0] - 48,
            i == 2 ==> len == (bytes@[0] - 48) * 10 + (bytes@[1] - 48),
            i == 3 ==> len == (bytes@[0] - 48) * 100 + (bytes@[1] - 48) * 10 + (bytes@[2] - 48),
            i == 4 ==> len == (bytes@[0] - 48) * 1_000 + (bytes@[1] - 48) * 100 + (bytes@[2] - 48)
                * 10 + (bytes@[3] - 48),
            i == 5 ==> len == (bytes@[0] - 48) * 10_000 + (bytes@[1] - 48) * 1_000 + (bytes@[2]
                - 48) * 100 + (bytes@[3] - 48) * 10 + (bytes@[4] - 48),
            i == 6 ==> len == (bytes@[0] - 48) * 100_000 + (bytes@[1] - 48) * 10_000 + (bytes@[2]
                - 48) * 1_000 + (bytes@[3] - 48) * 100 + (bytes@[4] - 48) * 10 + (bytes@[5] - 48),
            i == 7 ==> len == prefix_value(bytes@),
        decreases 7 - i,
    {
        let byte: u8 = bytes[i];
        if byte < 48 || byte > 57 {
            return Err(FramingError::ParseIntError);
        }
        len = len * 10 + (byte - 48) as usize;
        i += 1;
    }
    if bytes.len() - PREFIX_LEN < len {
        return Ok(None);
    }
    let payload = slice_to_vec(slice_subrange(bytes, PREFIX_LEN, PREFIX_LEN + len));
    match text_of(payload) {
        None => Err(FramingError::FromUtf8Error),
        Some(text) => {
            proof {
                encode_utf8_decode_utf8(text@);
            }
            Ok(Some((text, len + PREFIX_LEN)))
        },
    }
}

/// Decoding the frame of a payload gives the payload back, and takes the whole frame.
/// (A frame without payload is no more than its prefix, so it decodes to nothing yet.)
pub proof fn lemma_round_trip(payload: Seq<char>)
    requires
        fits(payload),
        payload.len() >= 1,
    ensures
        deframed(frame(payload)) == Ok::<Option<(Seq<char>, int)>, FramingError>(
            Some((payload, encode_utf8(payload).len() as int + 7)),
        ),
{
    lemma_round_trip_with_rest(payload, Seq::empty());
    assert(frame(payload) + Seq::<u8>::empty() =~= frame(payload));
}

/// Bytes that follow a frame change nothing of what it decodes to.
pub proof fn lemma_round_trip_with_rest(payload: Seq<char>, rest: Seq<u8>)
    requires
        fits(payload),
        payload.len() >= 1,
    ensures
        deframed(frame(payload) + rest) == Ok::<Option<(Seq<char>, int)>, FramingError>(
            Some((payload, encode_utf8(payload).len() as int + 7)),
        ),
{
    let encoded = encode_utf8(payload);
    let len = encoded.len() as int;
    let framed = frame(payload) + rest;
    lemma_nonempty_text(payload);
    lemma_prefix(len);
    assert forall|i: int| 0 <= i < 7 implies #[trigger] framed[i] == prefix(len)[i] by {}
    assert(prefix_value(framed) == prefix_value(prefix(len)));
    assert(payload_bytes(framed) =~= encoded);
    encode_utf8_valid_utf8(payload);
    encode_utf8_decode_utf8(payload);
}

/// A text with a character has a byte.
pub proof fn lemma_nonempty_text(text: Seq<char>)
    requires
        text.len() >= 1,
    ensures
        encode_utf8(text).len() >= 1,
{
    encode_utf8_decode_utf8(text);
    if encode_utf8(text).len() == 0 {
        encode_utf8_valid_utf8(text);
        assert(decode_utf8(encode_utf8(text)).len() == 0);
    }
}

/// Every proper prefix of a frame decodes to nothing yet.
pub proof fn lemma_partial_frame(payload: Seq<char>, taken: int)
    requires
        fits(payload),
        0 <= taken < frame(payload).len(),
    ensures
        deframed(frame(payload).subrange(0, taken)) == Ok::<Option<(Seq<char>, int)>, FramingError>(
            None,
        ),
{
    let len = encode_utf8(payload).len() as int;
    let partial = frame(payload).subrange(0, taken);
    lemma_prefix(len);
    if taken > 7 {
        assert forall|i: int| 0 <= i < 7 implies #[trigger] partial[i] == prefix(len)[i] by {}
        assert(prefix_value(partial) == prefix_value(prefix(len)));
    }
}

} // verus!
