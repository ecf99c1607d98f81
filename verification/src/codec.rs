//! The framing codec: a frame is a 4-byte big-endian length followed by
//! that many bytes of UTF-8 text.
//!
//! Encoding and decoding work on byte buffers; reading and writing the
//! buffers on a stream is the transport's business.  The one trusted
//! step is turning received bytes back into a `String`.

use vstd::prelude::*;

use crate::error::RecvError;
use vstd::slice::{slice_index_get, slice_subrange};
use vstd::string::StringSliceAdditionalSpecFns;
use vstd::utf8::{decode_utf8, encode_utf8, valid_utf8};

verus! {

broadcast use vstd::utf8::encode_utf8_valid_utf8;

/// The four big-endian bytes of `n`.
pub open spec fn be32(n: u32) -> Seq<u8> {
    seq![
        ((n >> 24) & 0xff) as u8,
        ((n >> 16) & 0xff) as u8,
        ((n >> 8) & 0xff) as u8,
        (n & 0xff) as u8,
    ]
}

/// The value of four big-endian bytes.
pub open spec fn be32_val(b: Seq<u8>) -> u32 {
    ((b[0] as u32) << 24) | ((b[1] as u32) << 16) | ((b[2] as u32) << 8) | (b[3] as u32)
}

/// Reading back the four bytes of `n` gives `n`.
pub proof fn lemma_be32_roundtrip(n: u32)
    ensures
        be32_val(be32(n)) == n,
{
    assert((((((n >> 24) & 0xff) as u8) as u32) << 24 | ((((n >> 16) & 0xff) as u8) as u32) << 16
        | ((((n >> 8) & 0xff) as u8) as u32) << 8 | (((n & 0xff) as u8) as u32)) == n)
        by (bit_vector);
}

/// A payload framed: its length in four big-endian bytes, then the
/// payload itself.
pub open spec fn frame_bytes(payload: Seq<u8>) -> Seq<u8>
    recommends
        payload.len() <= u32::MAX,
{
    be32(payload.len() as u32) + payload
}

/// Text framed: the frame of its UTF-8 bytes.
pub open spec fn frame_of(text: Seq<char>) -> Seq<u8> {
    frame_bytes(encode_utf8(text))
}

/// What decoding a byte buffer as one frame yields: the text, or the
/// error.  A buffer too short for its declared length reads as the
/// peer closing early; a payload that is not UTF-8 is an encoding
/// error, distinct from transport failures.
pub open spec fn spec_decode_frame(b: Seq<u8>) -> Result<Seq<char>, RecvError> {
    if b.len() < 4 {
        Err(RecvError::ConnectionClosed)
    } else {
        let l = be32_val(b.subrange(0, 4)) as int;
        if b.len() - 4 < l {
            Err(RecvError::ConnectionClosed)
        } else if valid_utf8(b.subrange(4, 4 + l)) {
            Ok(decode_utf8(b.subrange(4, 4 + l)))
        } else {
            Err(RecvError::BadEncoding)
        }
    }
}

/// Decoding a frame gives back the text it was made from.
pub proof fn lemma_frame_round_trip(text: Seq<char>)
    requires
        encode_utf8(text).len() <= u32::MAX,
    ensures
        spec_decode_frame(frame_of(text)) == Ok::<Seq<char>, RecvError>(decode_utf8(encode_utf8(text))),
        spec_decode_frame(frame_of(text)) == Ok::<Seq<char>, RecvError>(text),
{
    let payload = encode_utf8(text);
    let l = payload.len() as u32;
    let b = frame_of(text);
    lemma_be32_roundtrip(l);
    assert(b.subrange(0, 4) =~= be32(l));
    assert(b.subrange(4, 4 + l as int) =~= payload);
    vstd::utf8::encode_utf8_decode_utf8(text);
}

/// The four big-endian bytes of `n`, as a buffer.
pub fn u32_to_be_bytes(n: u32) -> (r: Vec<u8>)
    ensures
        r@ == be32(n),
{
    let mut r: Vec<u8> = Vec::new();
    r.push(((n >> 24) & 0xff) as u8);
    r.push(((n >> 16) & 0xff) as u8);
    r.push(((n >> 8) & 0xff) as u8);
    r.push((n & 0xff) as u8);
    proof {
        assert(r@ =~= be32(n));
    }
    r
}

/// The value of a 4-byte big-endian length prefix.
pub fn u32_from_be_bytes(b: &[u8]) -> (n: u32)
    requires
        b@.len() == 4,
    ensures
        n == be32_val(b@),
{
    ((b[0] as u32) << 24) | ((b[1] as u32) << 16) | ((b[2] as u32) << 8) | (b[3] as u32)
}

/// Frames `text`: four length bytes, then its UTF-8 bytes.  The
/// transport writes the result in full before the next frame.
pub fn encode_frame(text: &str) -> (r: Vec<u8>)
    requires
        text.spec_bytes().len() <= u32::MAX,
    ensures
        r@ == frame_of(text@),
{
    let bytes = text.as_bytes_vec();
    let n = bytes.len();
    let mut r = u32_to_be_bytes(n as u32);
    let mut i: usize = 0;
    while i < n
        invariant
            i <= n,
            n == bytes@.len(),
            r@ == be32(n as u32) + bytes@.take(i as int),
        decreases n - i,
    {
        r.push(bytes[i]);
        proof {
            assert(r@ =~= be32(n as u32) + bytes@.take(i + 1));
        }
        i = i + 1;
    }
    proof {
        assert(r@ =~= be32(n as u32) + bytes@);
    }
    r
}

/// Relies on `String::from_utf8`: it succeeds exactly on valid UTF-8,
/// and returns the text those bytes encode.
#[verifier::external_body]
fn utf8_to_string(bytes: Vec<u8>) -> (r: Option<String>)
    ensures
        r is Some <==> valid_utf8(bytes@),
        (r matches Some(s) ==> s@ == decode_utf8(bytes@)),
{
    String::from_utf8(bytes).ok()
}

/// Decodes a received payload as UTF-8 text; failure is an encoding
/// error, distinct from transport failures.
pub fn decode_payload(bytes: Vec<u8>) -> (r: Result<String, RecvError>)
    ensures
        valid_utf8(bytes@) ==> (r matches Ok(s) && s@ == decode_utf8(bytes@)),
        !valid_utf8(bytes@) ==> (r matches Err(e) && e == RecvError::BadEncoding),
{
    match utf8_to_string(bytes) {
        Some(s) => Ok(s),
        None => Err(RecvError::BadEncoding),
    }
}

/// Decodes one whole frame from a buffer, as [`spec_decode_frame`]
/// reads it.  Bytes after the declared length are ignored.
pub fn decode_frame(frame: &[u8]) -> (r: Result<String, RecvError>)
    ensures
        (match r {
            Ok(s) => spec_decode_frame(frame@) == Ok::<Seq<char>, RecvError>(s@),
            Err(e) => spec_decode_frame(frame@) == Err::<Seq<char>, RecvError>(e),
        }),
{
    let total = frame.len();
    if total < 4 {
        return Err(RecvError::ConnectionClosed);
    }
    let header = slice_subrange(frame, 0, 4);
    let l = u32_from_be_bytes(header) as usize;
    if total - 4 < l {
        return Err(RecvError::ConnectionClosed);
    }
    let mut payload: Vec<u8> = Vec::new();
    let mut i: usize = 0;
    while i < l
        invariant
            i <= l,
            4 + l <= frame@.len(),
            payload@ == frame@.subrange(4, 4 + i as int),
        decreases l - i,
    {
        payload.push(*slice_index_get(frame, 4 + i));
        proof {
            assert(payload@ =~= frame@.subrange(4, 4 + (i + 1)));
        }
        i = i + 1;
    }
    decode_payload(payload)
}

} // verus!
