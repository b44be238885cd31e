//! The 12-byte frame both agent dialects speak: a little-endian magic, a
//! data type, and the payload length, followed by the payload bytes.
use vstd::prelude::*;

use crate::bytes::{le32_bytes, le32_of, read_le32};
use crate::error::Error;

verus! {

/// Magic opening every frame header.
pub const FRAME_MAGIC: u32 = 0xFEEEEEEF;

/// Data type of protocol-flow frames.
pub const DT_PROTOCOL_FLOW: u32 = 1;

/// Data type of log and message frames.
pub const DT_MESSAGE: u32 = 2;

/// What a frame carries.
#[derive(Debug, Clone, Copy, PartialEq, Eq, Structural)]
pub enum DataType {
    /// Protocol flow: commands, parameters, statuses, data.
    ProtocolFlow,
    /// Log and message traffic.
    Message,
}

impl DataType {
    /// The wire code of this data type.
    pub fn code(&self) -> (r: u32)
        ensures
            self is ProtocolFlow ==> r == DT_PROTOCOL_FLOW,
            self is Message ==> r == DT_MESSAGE,
    {
        match self {
            DataType::ProtocolFlow => 1,
            DataType::Message => 2,
        }
    }
}

/// The header of a frame carrying `len` payload bytes.
pub open spec fn spec_frame_header(dtype: u32, len: u32) -> Seq<u8> {
    le32_bytes(FRAME_MAGIC) + le32_bytes(dtype) + le32_bytes(len)
}

/// A whole frame: header, then payload.
pub open spec fn spec_frame(dtype: u32, payload: Seq<u8>) -> Seq<u8>
    recommends
        payload.len() <= u32::MAX,
{
    spec_frame_header(dtype, payload.len() as u32) + payload
}

/// Builds the header of a frame that will carry `len` payload bytes.
pub fn generate_header(dtype: u32, len: usize) -> (r: Vec<u8>)
    requires
        len <= u32::MAX,
    ensures
        r@ == spec_frame_header(dtype, len as u32),
        r@.len() == 12,
{
    let mut out: Vec<u8> = Vec::new();
    crate::bytes::push_le32(&mut out, FRAME_MAGIC);
    crate::bytes::push_le32(&mut out, dtype);
    crate::bytes::push_le32(&mut out, len as u32);
    assert(out@ =~= spec_frame_header(dtype, len as u32));
    out
}

/// Reads a frame header: its data type and payload length. Rejects exactly
/// the headers whose magic is wrong, as a protocol violation.
pub fn parse_header(hdr: &[u8]) -> (r: Result<(u32, u32), Error>)
    requires
        hdr@.len() >= 12,
    ensures
        r is Ok <==> le32_of(hdr@.subrange(0, 4)) == FRAME_MAGIC,
        r is Ok ==> r->Ok_0.0 == le32_of(hdr@.subrange(4, 8)) && r->Ok_0.1 == le32_of(
            hdr@.subrange(8, 12),
        ),
        r is Err ==> r->Err_0 == Error::Proto,
{
    let magic = read_le32(hdr, 0);
    if magic != FRAME_MAGIC {
        return Err(Error::Proto);
    }
    let dtype = read_le32(hdr, 4);
    let len = read_le32(hdr, 8);
    Ok((dtype, len))
}

/// Framing round trip: a frame built from any payload parses back to the
/// same data type, the payload's length, and the payload itself; and only
/// the right magic passes.
pub proof fn lemma_frame_round_trip(dtype: u32, payload: Seq<u8>)
    requires
        payload.len() <= u32::MAX,
    ensures
        ({
            let f = spec_frame(dtype, payload);
            &&& f.len() == 12 + payload.len()
            &&& le32_of(f.subrange(0, 4)) == FRAME_MAGIC
            &&& le32_of(f.subrange(4, 8)) == dtype
            &&& le32_of(f.subrange(8, 12)) == payload.len()
            &&& f.skip(12) == payload
        }),
{
    let f = spec_frame(dtype, payload);
    assert(f.subrange(0, 4) =~= le32_bytes(FRAME_MAGIC));
    assert(f.subrange(4, 8) =~= le32_bytes(dtype));
    assert(f.subrange(8, 12) =~= le32_bytes((payload.len() as u32)));
    assert(f.skip(12) =~= payload);
    crate::bytes::lemma_le32_round_trip(FRAME_MAGIC);
    crate::bytes::lemma_le32_round_trip(dtype);
    crate::bytes::lemma_le32_round_trip(payload.len() as u32);
}

/// A header whose magic is off is refused by the parser: the rejection in
/// `parse_header`'s contract, stated for the bytes of a mangled frame.
pub proof fn lemma_frame_magic_mismatch(hdr: Seq<u8>)
    requires
        hdr.len() >= 12,
        le32_of(hdr.subrange(0, 4)) != FRAME_MAGIC,
    ensures
        hdr.subrange(0, 4) != le32_bytes(FRAME_MAGIC),
{
    crate::bytes::lemma_le32_round_trip(FRAME_MAGIC);
}

} // verus!
