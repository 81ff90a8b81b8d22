//! Length-prefixed frames, as the two ends of a socket exchange them: a
//! four-byte big-endian length, then that many payload bytes.

use vstd::prelude::*;

verus! {

/// Errors of sending or receiving one message over a socket.
pub enum SocketError {
    /// The socket failed.
    Io(std::io::Error),
    /// The payload could not be encoded or decoded.
    Bincode(bincode::Error),
    /// The payload does not fit the four-byte length of a frame.
    MessageTooLong,
}

/// The four big-endian bytes of `n`.
pub open spec fn be_bytes(n: u32) -> Seq<u8> {
    seq![
        (n / 0x1000000) as u8,
        (n / 0x10000 % 0x100) as u8,
        (n / 0x100 % 0x100) as u8,
        (n % 0x100) as u8,
    ]
}

/// The number that four big-endian bytes stand for.
pub open spec fn be_value(b: Seq<u8>) -> int
    recommends
        b.len() == 4,
{
    b[0] * 0x1000000 + b[1] * 0x10000 + b[2] * 0x100 + b[3]
}

/// Whether a payload fits in one frame.
pub open spec fn fits_in_frame(payload: Seq<u8>) -> bool {
    payload.len() <= u32::MAX
}

/// The frame that carries `payload`.
pub open spec fn frame_of(payload: Seq<u8>) -> Seq<u8>
    recommends
        fits_in_frame(payload),
{
    be_bytes(payload.len() as u32) + payload
}

/// The header of a frame whose payload has `n` bytes.
pub fn length_header(n: u32) -> (h: [u8; 4])
    ensures
        h@ == be_bytes(n),
{
    [(n / 0x1000000) as u8, (n / 0x10000 % 0x100) as u8, (n / 0x100 % 0x100) as u8, (n % 0x100) as u8]
}

/// The payload length that a frame header announces.
pub fn header_length(header: [u8; 4]) -> (n: u32)
    ensures
        n == be_value(header@),
{
    let b0 = header[0] as u32;
    let b1 = header[1] as u32;
    let b2 = header[2] as u32;
    let b3 = header[3] as u32;
    b0 * 0x1000000 + b1 * 0x10000 + b2 * 0x100 + b3
}

/// Frames `payload`: its length as four big-endian bytes, then the payload.
/// A payload longer than `u32::MAX` bytes is refused with `MessageTooLong`.
pub fn encode_frame(payload: &[u8]) -> (r: Result<Vec<u8>, SocketError>)
    ensures
        fits_in_frame(payload@) <==> r is Ok,
        payload@.len() <= 0xFFFF_FFFF <==> r is Ok,
        r matches Ok(frame) ==> frame@ == frame_of(payload@),
        r matches Err(e) ==> e is MessageTooLong,
{
    if payload.len() > u32::MAX as usize {
        return Err(SocketError::MessageTooLong);
    }
    let n = payload.len() as u32;
    let header = length_header(n);
    let mut frame: Vec<u8> = Vec::new();
    frame.push(header[0]);
    frame.push(header[1]);
    frame.push(header[2]);
    frame.push(header[3]);
    let mut i: usize = 0;
    while i < payload.len()
        invariant
            i <= payload@.len(),
            n == payload@.len(),
            frame@ == be_bytes(n) + payload@.subrange(0, i as int),
        decreases payload@.len() - i,
    {
        frame.push(payload[i]);
        i = i + 1;
        assert(payload@.subrange(0, i as int) == payload@.subrange(0, i - 1 as int).push(payload@[i - 1]));
    }
    assert(payload@.subrange(0, payload@.len() as int) == payload@);
    Ok(frame)
}

/// The length in a header is the number that was written into it.
pub proof fn lemma_header_roundtrip(n: u32)
    ensures
        be_value(be_bytes(n)) == n,
{
    let b = be_bytes(n);
    assert(b[0] == n / 0x1000000);
    assert(b[1] == n / 0x10000 % 0x100);
    assert(b[2] == n / 0x100 % 0x100);
    assert(b[3] == n % 0x100);
    assert((n / 0x1000000) * 0x1000000 + (n / 0x10000 % 0x100) * 0x10000 + (n / 0x100 % 0x100)
        * 0x100 + n % 0x100 == n) by (nonlinear_arith);
}

/// A frame is self-delimiting: whatever follows it in a stream, its header
/// announces exactly the payload's length, and that many bytes after the
/// header are the payload.
pub proof fn lemma_frame_roundtrip(payload: Seq<u8>, rest: Seq<u8>)
    requires
        fits_in_frame(payload),
    ensures
        ({
            let stream = frame_of(payload) + rest;
            &&& be_value(stream.subrange(0, 4)) == payload.len()
            &&& stream.subrange(4, 4 + payload.len() as int) == payload
        }),
{
    let n = payload.len() as u32;
    lemma_header_roundtrip(n);
    let stream = frame_of(payload) + rest;
    assert(stream.subrange(0, 4) == be_bytes(n));
    assert(stream.subrange(4, 4 + payload.len() as int) == payload);
}


/// Only a payload of more than 4,294,967,295 bytes (the largest length four
/// bytes can hold) is too long for a frame; every shorter one fits.
pub proof fn lemma_frame_limit(payload: Seq<u8>)
    ensures
        fits_in_frame(payload) <==> payload.len() <= 0xFFFF_FFFF,
        payload.len() < 0x1_0000_0000 ==> fits_in_frame(payload),
{
}

} // verus!
