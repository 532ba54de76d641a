//! Length-prefixed frame codec: every frame is a big-endian `u32` length
//! followed by that many payload bytes.

use vstd::prelude::*;

use crate::frame::BusError;

verus! {

/// Maximum single-frame payload (32 MiB). Protects against malformed senders.
pub const MAX_FRAME_BYTES: u32 = 32 * 1024 * 1024;

/// Big-endian spelling of a 32-bit length.
pub open spec fn be_u32_bytes(n: u32) -> Seq<u8> {
    seq![
        (n / 16777216) as u8,
        ((n / 65536) % 256) as u8,
        ((n / 256) % 256) as u8,
        (n % 256) as u8,
    ]
}

/// The 32-bit number spelled big-endian by the first four bytes of `b`.
pub open spec fn be_u32_value(b: Seq<u8>) -> nat {
    (b[0] * 16777216 + b[1] * 65536 + b[2] * 256 + b[3]) as nat
}

/// The bytes that carry `payload` on the wire.
pub open spec fn encoded_frame(payload: Seq<u8>) -> Seq<u8> {
    be_u32_bytes(payload.len() as u32) + payload
}

/// The payload length that the header at the start of `input` declares.
pub open spec fn declared_len(input: Seq<u8>) -> nat {
    be_u32_value(input)
}

/// Whether `input` holds a whole header.
pub open spec fn has_header(input: Seq<u8>) -> bool {
    input.len() >= 4
}

/// Whether the frame at the start of `input` is complete and within the limit.
pub open spec fn frame_complete(input: Seq<u8>) -> bool {
    &&& has_header(input)
    &&& declared_len(input) <= MAX_FRAME_BYTES
    &&& input.len() >= 4 + declared_len(input)
}

/// The payload of the complete frame at the start of `input`.
pub open spec fn frame_payload(input: Seq<u8>) -> Seq<u8> {
    input.subrange(4, 4 + declared_len(input) as int)
}

/// Reading back the big-endian spelling of `n` gives `n`.
pub proof fn lemma_be_u32_roundtrip(n: u32)
    ensures
        be_u32_value(be_u32_bytes(n)) == n,
        be_u32_bytes(n).len() == 4,
{
    let b = be_u32_bytes(n);
    assert(b[0] == n / 16777216);
    assert(b[1] == (n / 65536) % 256);
    assert(b[2] == (n / 256) % 256);
    assert(b[3] == n % 256);
    assert((n / 16777216) * 16777216 + ((n / 65536) % 256) * 65536 + ((n / 256) % 256) * 256 + n
        % 256 == n) by (nonlinear_arith)
        requires
            n <= u32::MAX,
    ;
}

/// Law: a frame that the encoder writes, followed by anything, is read back
/// as the same payload, consuming exactly the header and the payload.
pub proof fn lemma_frame_roundtrip(payload: Seq<u8>, rest: Seq<u8>)
    requires
        payload.len() <= MAX_FRAME_BYTES,
    ensures
        frame_complete(encoded_frame(payload) + rest),
        declared_len(encoded_frame(payload) + rest) == payload.len(),
        frame_payload(encoded_frame(payload) + rest) == payload,
{
    let n = payload.len() as u32;
    lemma_be_u32_roundtrip(n);
    let input = encoded_frame(payload) + rest;
    assert(input.subrange(0, 4) =~= be_u32_bytes(n));
    assert(input[0] == be_u32_bytes(n)[0]);
    assert(input[1] == be_u32_bytes(n)[1]);
    assert(input[2] == be_u32_bytes(n)[2]);
    assert(input[3] == be_u32_bytes(n)[3]);
    assert(input.subrange(4, 4 + payload.len() as int) =~= payload);
}

/// Reads the declared length from a frame header, refusing lengths above
/// `MAX_FRAME_BYTES`.
pub fn frame_len(header: &[u8; 4]) -> (res: Result<u32, BusError>)
    ensures
        declared_len(header@) <= MAX_FRAME_BYTES ==> res == Ok::<u32, BusError>(
            declared_len(header@) as u32,
        ),
        declared_len(header@) > MAX_FRAME_BYTES ==> (res matches Err(BusError::FrameTooLarge {
            size,
            max,
        }) && size == declared_len(header@) && max == MAX_FRAME_BYTES),
{
    let len: u32 = (header[0] as u32) * 16777216 + (header[1] as u32) * 65536 + (header[2] as u32)
        * 256 + (header[3] as u32);
    if len > MAX_FRAME_BYTES {
        Err(BusError::FrameTooLarge { size: len as u64, max: MAX_FRAME_BYTES })
    } else {
        Ok(len)
    }
}

/// Frames `payload` for the wire: its length as a big-endian `u32`, then the
/// payload. Payloads above `MAX_FRAME_BYTES` are refused.
pub fn encode_frame(payload: &[u8]) -> (res: Result<Vec<u8>, BusError>)
    ensures
        payload@.len() <= MAX_FRAME_BYTES ==> (res matches Ok(v) && v@ == encoded_frame(payload@)),
        payload@.len() > MAX_FRAME_BYTES ==> (res matches Err(BusError::FrameTooLarge { size, max })
            && size == payload@.len() && max == MAX_FRAME_BYTES),
{
    let n = payload.len();
    if n > MAX_FRAME_BYTES as usize {
        return Err(BusError::FrameTooLarge { size: n as u64, max: MAX_FRAME_BYTES });
    }
    let len: u32 = n as u32;
    let mut out: Vec<u8> = Vec::new();
    out.push((len / 16777216) as u8);
    out.push(((len / 65536) % 256) as u8);
    out.push(((len / 256) % 256) as u8);
    out.push((len % 256) as u8);
    let mut i: usize = 0;
    while i < n
        invariant
            n == payload@.len(),
            n <= MAX_FRAME_BYTES,
            i <= n,
            len == n,
            out@ == be_u32_bytes(len) + payload@.subrange(0, i as int),
        decreases n - i,
    {
        out.push(payload[i]);
        i = i + 1;
        assert(out@ =~= be_u32_bytes(len) + payload@.subrange(0, i as int));
    }
    assert(payload@.subrange(0, n as int) =~= payload@);
    Ok(out)
}

/// Reads the header of the frame at the start of `input`, as a reader of a
/// byte stream holding exactly `input` would: an end of input before any
/// byte is a clean close (`Ok(None)`); an end inside the header is an I/O
/// error (`early eof`); a declared length above the limit is refused;
/// otherwise the declared payload length.
pub fn frame_header(input: &[u8]) -> (res: Result<Option<u32>, BusError>)
    ensures
        input@.len() == 0 ==> (res matches Ok(None)),
        1 <= input@.len() < 4 ==> (res matches Err(BusError::Io(msg)) && msg@ == "early eof"@),
        has_header(input@) && declared_len(input@) > MAX_FRAME_BYTES ==> (res matches Err(
            BusError::FrameTooLarge { size, max },
        ) && size == declared_len(input@) && max == MAX_FRAME_BYTES),
        has_header(input@) && declared_len(input@) <= MAX_FRAME_BYTES ==> res == Ok::<Option<u32>, BusError>(
            Some(declared_len(input@) as u32),
        ),
{
    if input.len() == 0 {
        return Ok(None);
    }
    if input.len() < 4 {
        return Err(BusError::Io(String::from_str("early eof")));
    }
    let header: [u8; 4] = [input[0], input[1], input[2], input[3]];
    assert(header@ =~= input@.subrange(0, 4));
    match frame_len(&header) {
        Ok(l) => Ok(Some(l)),
        Err(e) => Err(e),
    }
}

/// Reads one frame from the start of `input`, as a reader of a byte stream
/// holding exactly `input` would: an end of input before any byte is a
/// clean close (`Ok(None)`); an end anywhere inside the frame is an I/O
/// error (`early eof`); a declared length above the limit is refused. On
/// success it returns the payload and the number of bytes consumed.
pub fn read_frame_bytes(input: &[u8]) -> (res: Result<Option<(Vec<u8>, usize)>, BusError>)
    ensures
        input@.len() == 0 ==> (res matches Ok(None)),
        1 <= input@.len() < 4 ==> (res matches Err(BusError::Io(msg)) && msg@ == "early eof"@),
        has_header(input@) && declared_len(input@) > MAX_FRAME_BYTES ==> (res matches Err(
            BusError::FrameTooLarge { size, max },
        ) && size == declared_len(input@) && max == MAX_FRAME_BYTES),
        has_header(input@) && declared_len(input@) <= MAX_FRAME_BYTES && !frame_complete(input@)
            ==> (res matches Err(BusError::Io(msg)) && msg@ == "early eof"@),
        frame_complete(input@) ==> (res matches Ok(Some((p, used))) && p@ == frame_payload(input@)
            && used == 4 + declared_len(input@)),
{
    let len = match frame_header(input) {
        Ok(Some(l)) => l,
        Ok(None) => {
            return Ok(None);
        },
        Err(e) => {
            return Err(e);
        },
    };
    let total: usize = 4 + len as usize;
    if input.len() < total {
        return Err(BusError::Io(String::from_str("early eof")));
    }
    let mut out: Vec<u8> = Vec::new();
    let mut i: usize = 4;
    while i < total
        invariant
            4 <= i <= total,
            total <= input@.len(),
            out@ == input@.subrange(4, i as int),
        decreases total - i,
    {
        out.push(input[i]);
        i = i + 1;
        assert(out@ =~= input@.subrange(4, i as int));
    }
    Ok(Some((out, total)))
}

} // verus!
