//! Framing of the messages exchanged with the broker: each message is a
//! 32-bit unsigned big-endian length followed by that many bytes of body.

use vstd::prelude::*;

verus! {

/// The number of bytes of the length header.
pub const HEADER_LEN: usize = 4;

/// Why bytes could not be framed or unframed.
#[derive(Clone, Copy, Debug, PartialEq, Eq, Structural)]
pub enum FrameError {
    /// The body is too long for its length to fit in the header.
    TooLong,
    /// The bytes end before the header, or before the body that it announces.
    Truncated,
    /// Bytes follow the body that the header announces.
    TrailingBytes,
}

/// The big-endian bytes of `n`.
pub open spec fn be_bytes(n: u32) -> Seq<u8> {
    seq![
        (n / 0x100_0000) as u8,
        ((n / 0x1_0000) % 0x100) as u8,
        ((n / 0x100) % 0x100) as u8,
        (n % 0x100) as u8,
    ]
}

/// The number that the big-endian bytes `b` stand for.
pub open spec fn be_value(b: Seq<u8>) -> int
    recommends
        b.len() == 4,
{
    b[0] * 0x100_0000 + b[1] * 0x1_0000 + b[2] * 0x100 + b[3]
}

/// The frame that carries `body`.
pub open spec fn frame_of(body: Seq<u8>) -> Seq<u8>
    recommends
        body.len() <= u32::MAX,
{
    be_bytes(body.len() as u32) + body
}

/// The length header for a body of `len` bytes.
pub fn encode_header(len: u32) -> (h: [u8; 4])
    ensures
        h@ == be_bytes(len),
{
    let h = [
        (len / 0x100_0000) as u8,
        ((len / 0x1_0000) % 0x100) as u8,
        ((len / 0x100) % 0x100) as u8,
        (len % 0x100) as u8,
    ];
    assert(h@ =~= be_bytes(len));
    h
}

/// The body length that the header `h` announces.
pub fn decode_header(h: &[u8; 4]) -> (len: u32)
    ensures
        len == be_value(h@),
{
    let b0 = h[0] as u32;
    let b1 = h[1] as u32;
    let b2 = h[2] as u32;
    let b3 = h[3] as u32;
    assert(b0 * 0x100_0000 + b1 * 0x1_0000 + b2 * 0x100 + b3 <= u32::MAX) by (nonlinear_arith)
        requires
            b0 < 256,
            b1 < 256,
            b2 < 256,
            b3 < 256,
    ;
    b0 * 0x100_0000 + b1 * 0x1_0000 + b2 * 0x100 + b3
}

/// Reading a header back gives the length that was written.
pub proof fn lemma_header_round_trip(n: u32)
    ensures
        be_bytes(n).len() == 4,
        be_value(be_bytes(n)) == n,
{
    let b = be_bytes(n);
    assert(be_value(b) == n) by (nonlinear_arith)
        requires
            b[0] == n / 0x100_0000,
            b[1] == (n / 0x1_0000) % 0x100,
            b[2] == (n / 0x100) % 0x100,
            b[3] == n % 0x100,
            0 <= n <= u32::MAX,
    ;
}

/// The frame that carries `body`: its length header, then the body.
pub fn encode_frame(body: &[u8]) -> (r: Result<Vec<u8>, FrameError>)
    ensures
        body@.len() > u32::MAX ==> r == Err::<Vec<u8>, FrameError>(FrameError::TooLong),
        body@.len() <= u32::MAX ==> (r matches Ok(f) && f@ == frame_of(body@)),
{
    if body.len() > 0xFFFF_FFFF {
        return Err(FrameError::TooLong);
    }
    let h = encode_header(body.len() as u32);
    let mut out: Vec<u8> = Vec::new();
    out.push(h[0]);
    out.push(h[1]);
    out.push(h[2]);
    out.push(h[3]);
    let mut i: usize = 0;
    while i < body.len()
        invariant
            i <= body@.len(),
            out@ == h@ + body@.subrange(0, i as int),
        decreases body@.len() - i,
    {
        out.push(body[i]);
        i = i + 1;
        assert(out@ =~= h@ + body@.subrange(0, i as int));
    }
    assert(body@.subrange(0, body@.len() as int) =~= body@);
    Ok(out)
}

/// The body of the one frame that `bytes` holds.
pub fn decode_frame(bytes: &[u8]) -> (r: Result<Vec<u8>, FrameError>)
    ensures
        bytes@.len() < 4 || bytes@.len() < 4 + be_value(bytes@.subrange(0, 4)) ==> r == Err::<
            Vec<u8>,
            FrameError,
        >(FrameError::Truncated),
        bytes@.len() >= 4 && bytes@.len() > 4 + be_value(bytes@.subrange(0, 4)) ==> r == Err::<
            Vec<u8>,
            FrameError,
        >(FrameError::TrailingBytes),
        bytes@.len() >= 4 && bytes@.len() == 4 + be_value(bytes@.subrange(0, 4)) ==> (r matches Ok(
            body,
        ) && body@ == bytes@.subrange(4, bytes@.len() as int)),
{
    if bytes.len() < 4 {
        return Err(FrameError::Truncated);
    }
    let h: [u8; 4] = [bytes[0], bytes[1], bytes[2], bytes[3]];
    assert(h@ =~= bytes@.subrange(0, 4));
    let len = decode_header(&h) as usize;
    if bytes.len() - 4 < len {
        return Err(FrameError::Truncated);
    }
    if bytes.len() - 4 > len {
        return Err(FrameError::TrailingBytes);
    }
    let mut body: Vec<u8> = Vec::with_capacity(len);
    let mut i: usize = 4;
    while i < bytes.len()
        invariant
            4 <= i <= bytes@.len(),
            body@ == bytes@.subrange(4, i as int),
        decreases bytes@.len() - i,
    {
        body.push(bytes[i]);
        i = i + 1;
        assert(body@ =~= bytes@.subrange(4, i as int));
    }
    Ok(body)
}

/// Unframing a frame gives back the body that was framed.
pub proof fn lemma_frame_round_trip(body: Seq<u8>)
    requires
        body.len() <= u32::MAX,
    ensures
        frame_of(body).len() >= 4,
        frame_of(body).subrange(0, 4) == be_bytes(body.len() as u32),
        frame_of(body).len() == 4 + be_value(frame_of(body).subrange(0, 4)),
        frame_of(body).subrange(4, frame_of(body).len() as int) == body,
{
    let f = frame_of(body);
    lemma_header_round_trip(body.len() as u32);
    assert(f.subrange(0, 4) =~= be_bytes(body.len() as u32));
    assert(f.subrange(4, f.len() as int) =~= body);
}

} // verus!
