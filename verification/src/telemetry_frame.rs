//! Telemetry wire framing: a 4-byte big-endian length, then that many bytes of
//! JSON payload.
use vstd::prelude::*;
use crate::bytes_buf::{bytes_advance, bytes_at, bytes_contents, bytes_len, bytes_put_slice, bytes_reserve, bytes_split_to, bytes_to_vec};

verus! {

/// Largest payload a frame may declare (64 KiB).
pub const MAX_PACKET_BYTES: u32 = 65536;

/// Errors of the telemetry protocol.
#[derive(Debug, Clone, PartialEq, Eq, Structural)]
pub enum TelemetryError {
    /// A frame declared a payload longer than [`MAX_PACKET_BYTES`].
    InvalidLength(u32),
    /// The peer closed the connection.
    ConnectionClosed,
}

/// The four big-endian bytes of `v`.
pub open spec fn be_bytes(v: u32) -> Seq<u8> {
    seq![(v / 16777216) as u8, ((v / 65536) % 256) as u8, ((v / 256) % 256) as u8, (v % 256) as u8]
}

/// The number whose big-endian bytes are `s[0..4]`.
pub open spec fn be_value(s: Seq<u8>) -> nat {
    (s[0] as nat) * 16777216 + (s[1] as nat) * 65536 + (s[2] as nat) * 256 + (s[3] as nat)
}

/// The frame carrying `payload`: its length (truncated to 32 bits), then the payload.
pub open spec fn frame(payload: Seq<u8>) -> Seq<u8> {
    be_bytes(payload.len() as u32) + payload
}

/// What decoding finds at the front of a buffer, and what stays in the buffer:
/// nothing yet while the header or the payload is incomplete; an error for a
/// declared length above the maximum; otherwise the payload, which is removed
/// together with its header.
pub open spec fn decode_spec(s: Seq<u8>) -> (Result<Option<Seq<u8>>, TelemetryError>, Seq<u8>) {
    if s.len() < 4 {
        (Ok(None), s)
    } else {
        let len = be_value(s);
        if len > MAX_PACKET_BYTES {
            (Err(TelemetryError::InvalidLength(len as u32)), s)
        } else if s.len() < 4 + len {
            (Ok(None), s)
        } else {
            (Ok(Some(s.subrange(4, 4 + len as int))), s.skip(4 + len as int))
        }
    }
}

proof fn lemma_be_roundtrip(v: u32)
    ensures
        be_value(be_bytes(v)) == v,
        be_bytes(v).len() == 4,
{
    let b = be_bytes(v);
    assert(b[0] as nat == v / 16777216);
    assert(b[1] as nat == (v / 65536) % 256);
    assert(b[2] as nat == (v / 256) % 256);
    assert(b[3] as nat == v % 256);
    assert((v / 16777216) * 16777216 + ((v / 65536) % 256) * 65536 + ((v / 256) % 256) * 256 + v % 256 == v)
        by (nonlinear_arith);
}

/// Decoding a buffer that starts with the frame of a payload of at most
/// [`MAX_PACKET_BYTES`] bytes yields that payload and leaves what followed the frame.
pub proof fn lemma_decode_frame(payload: Seq<u8>, rest: Seq<u8>)
    requires
        payload.len() <= MAX_PACKET_BYTES,
    ensures
        decode_spec(frame(payload) + rest) == (Ok::<Option<Seq<u8>>, TelemetryError>(Some(payload)), rest),
{
    lemma_be_roundtrip(payload.len() as u32);
    let s = frame(payload) + rest;
    assert(s.subrange(0, 4) == be_bytes(payload.len() as u32));
    assert(be_value(s) == be_value(be_bytes(payload.len() as u32)));
    assert(s.subrange(4, 4 + payload.len() as int) =~= payload);
    assert(s.skip(4 + payload.len() as int) =~= rest);
}

/// Frames a telemetry packet's JSON payload.
pub struct PacketCodec;

impl PacketCodec {
    /// Appends the frame of `payload` to `dst`.
    pub fn encode(&mut self, payload: &[u8], dst: &mut bytes::BytesMut) -> (r: Result<(), TelemetryError>)
        requires
            bytes_contents(*old(dst)).len() + 4 + payload@.len() <= usize::MAX,
        ensures
            r is Ok,
            bytes_contents(*final(dst)) == bytes_contents(*old(dst)) + frame(payload@),
    {
        let len = #[verifier::truncate] (payload.len() as u32);
        bytes_reserve(dst, 4 + payload.len());
        let header: [u8; 4] = [(len / 16777216) as u8, ((len / 65536) % 256) as u8, ((len / 256) % 256) as u8, (len % 256) as u8];
        bytes_put_slice(dst, &header);
        bytes_put_slice(dst, payload);
        assert(header@ =~= be_bytes(payload@.len() as u32));
        assert(bytes_contents(*dst) =~= bytes_contents(*old(dst)) + frame(payload@));
        Ok(())
    }

    /// Takes the next complete frame's payload from the front of `src`.
    pub fn decode(&mut self, src: &mut bytes::BytesMut) -> (r: Result<Option<Vec<u8>>, TelemetryError>)
        ensures
            bytes_contents(*final(src)) == decode_spec(bytes_contents(*old(src))).1,
            match (r, decode_spec(bytes_contents(*old(src))).0) {
                (Ok(Some(v)), Ok(Some(p))) => v@ == p,
                (Ok(None), Ok(None)) => true,
                (Err(e), Err(f)) => e == f,
                _ => false,
            },
    {
        let ghost s = bytes_contents(*src);
        let n = bytes_len(src);
        if n < 4 {
            return Ok(None);
        }
        let b0 = bytes_at(src, 0);
        let b1 = bytes_at(src, 1);
        let b2 = bytes_at(src, 2);
        let b3 = bytes_at(src, 3);
        let len: u32 = (b0 as u32) * 16777216 + (b1 as u32) * 65536 + (b2 as u32) * 256 + (b3 as u32);
        assert(len == be_value(s));
        if len > MAX_PACKET_BYTES {
            return Err(TelemetryError::InvalidLength(len));
        }
        let total = 4 + len as usize;
        if n < total {
            bytes_reserve(src, total - n);
            return Ok(None);
        }
        bytes_advance(src, 4);
        let payload = bytes_split_to(src, len as usize);
        assert(s.skip(4).take(len as int) =~= s.subrange(4, 4 + len as int));
        assert(s.skip(4).skip(len as int) =~= s.skip(4 + len as int));
        Ok(Some(bytes_to_vec(&payload)))
    }
}

} // verus!
