//! Framing of mesh messages: every message travels as a four-byte big-endian
//! length followed by that many bytes of payload.
use vstd::prelude::*;

verus! {

/// The largest payload a peer accepts: 10 MiB.
pub const MAX_FRAME_LEN: u32 = 10 * 1024 * 1024;

/// The four big-endian bytes of a 32-bit value.
pub open spec fn be_bytes(v: u32) -> Seq<u8> {
    seq![
        (v / 0x100_0000) as u8,
        ((v / 0x1_0000) % 0x100) as u8,
        ((v / 0x100) % 0x100) as u8,
        (v % 0x100) as u8,
    ]
}

/// The value of four big-endian bytes.
pub open spec fn be_value(b: Seq<u8>) -> int {
    b[0] * 0x100_0000 + b[1] * 0x1_0000 + b[2] * 0x100 + b[3]
}

/// What a receiver does with a frame header.
#[derive(Clone, Copy, Debug, PartialEq, Eq, Structural)]
pub enum FrameLength {
    /// Read a payload of this many bytes.
    Body(usize),
    /// The announced payload is over the limit: the connection is dropped.
    TooLarge(u32),
}

/// The receiver's reading of a frame header.
pub open spec fn header_reading(h: Seq<u8>) -> FrameLength {
    let v = be_value(h);
    if v > MAX_FRAME_LEN {
        FrameLength::TooLarge(v as u32)
    } else {
        FrameLength::Body(v as usize)
    }
}

/// The header sent before a payload of `len` bytes: the length taken as a
/// 32-bit value (wrapping, as a cast does), in big-endian order.
pub fn frame_header(len: usize) -> (h: [u8; 4])
    ensures
        h@ == be_bytes(len as u32),
{
    let v = len as u32;
    let h = [(v >> 24u32) as u8, (v >> 16u32) as u8, (v >> 8u32) as u8, v as u8];
    assert((v >> 24u32) as u8 == (v / 0x100_0000) as u8) by (bit_vector);
    assert((v >> 16u32) as u8 == ((v / 0x1_0000) % 0x100) as u8) by (bit_vector);
    assert((v >> 8u32) as u8 == ((v / 0x100) % 0x100) as u8) by (bit_vector);
    assert(v as u8 == (v % 0x100) as u8) by (bit_vector);
    assert(h@ =~= be_bytes(v));
    h
}

/// Reads a frame header: the payload length, or the refusal of a payload
/// over `MAX_FRAME_LEN`.
pub fn frame_length(header: [u8; 4]) -> (r: FrameLength)
    ensures
        r == header_reading(header@),
{
    let b0 = header[0];
    let b1 = header[1];
    let b2 = header[2];
    let b3 = header[3];
    let v: u32 = ((b0 as u32) << 24u32) | ((b1 as u32) << 16u32) | ((b2 as u32) << 8u32) | (
    b3 as u32);
    assert(v == b0 * 0x100_0000 + b1 * 0x1_0000 + b2 * 0x100 + b3) by (bit_vector)
        requires
            v == ((b0 as u32) << 24u32) | ((b1 as u32) << 16u32) | ((b2 as u32) << 8u32) | (
            b3 as u32),
    ;
    if v > MAX_FRAME_LEN {
        FrameLength::TooLarge(v)
    } else {
        FrameLength::Body(v as usize)
    }
}

/// A header read back gives the length it was written for: a payload within
/// the limit is read in full, and one over it is refused.
pub proof fn lemma_header_round_trip(len: usize)
    ensures
        len <= MAX_FRAME_LEN ==> header_reading(be_bytes(len as u32)) == FrameLength::Body(len),
        MAX_FRAME_LEN < len <= u32::MAX ==> header_reading(be_bytes(len as u32))
            == FrameLength::TooLarge(len as u32),
{
    let v = len as u32;
    assert(v / 0x100_0000 * 0x100_0000 + (v / 0x1_0000) % 0x100 * 0x1_0000 + (v / 0x100) % 0x100
        * 0x100 + v % 0x100 == v) by (bit_vector);
    assert(be_value(be_bytes(v)) == v);
    if len <= u32::MAX {
        assert(v == len);
    }
}

} // verus!
