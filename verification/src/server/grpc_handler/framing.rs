//! gRPC length-prefixed message framing: one compression-flag byte, a
//! big-endian 32-bit length, then the message bytes.

use vstd::prelude::*;

verus! {

/// Largest message length a request stream accepts (100 MiB).
pub open spec fn max_message_size() -> int {
    104857600int
}

/// Big-endian value of four bytes.
pub open spec fn be32(b0: u8, b1: u8, b2: u8, b3: u8) -> int {
    b0 as int * 16777216 + b1 as int * 65536 + b2 as int * 256 + b3 as int
}

/// The four big-endian bytes of `n` modulo 2^32.
pub open spec fn be32_bytes(n: int) -> Seq<u8> {
    let m = n % 4294967296;
    seq![(m / 16777216) as u8, ((m / 65536) % 256) as u8, ((m / 256) % 256) as u8, (m % 256) as u8]
}

/// An uncompressed gRPC frame for `payload`. The length field holds the
/// payload length modulo 2^32, as a `u32` cast of the length does.
pub open spec fn spec_frame(payload: Seq<u8>) -> Seq<u8> {
    seq![0u8] + be32_bytes(payload.len() as int) + payload
}

/// Builds the uncompressed gRPC frame of `payload`.
pub fn encode_frame(payload: &[u8]) -> (r: Vec<u8>)
    ensures
        r@ == spec_frame(payload@),
{
    let l: u64 = (payload.len() as u64) % 4294967296;
    let mut r: Vec<u8> = Vec::new();
    r.push(0u8);
    r.push((l / 16777216) as u8);
    r.push(((l / 65536) % 256) as u8);
    r.push(((l / 256) % 256) as u8);
    r.push((l % 256) as u8);
    let mut i: usize = 0;
    while i < payload.len()
        invariant
            i <= payload.len(),
            l == payload@.len() % 4294967296,
            r@ =~= seq![0u8] + be32_bytes(payload@.len() as int) + payload@.subrange(0, i as int),
        decreases payload.len() - i,
    {
        r.push(payload[i]);
        i = i + 1;
    }
    assert(payload@.subrange(0, payload@.len() as int) =~= payload@);
    r
}

/// Result of looking for a complete message at the front of a buffer.
#[derive(Debug)]
pub enum FrameStep {
    /// The buffer does not yet hold a whole message.
    NeedMore,
    /// A whole uncompressed message: its bytes and the number of buffer
    /// bytes it occupies (header included).
    Message { payload: Vec<u8>, consumed: usize },
}

/// Why a buffered frame is rejected.
#[derive(Debug, Clone, Copy, PartialEq, Eq, Structural)]
pub enum FrameError {
    /// The declared length exceeds the 100 MiB limit.
    TooLarge(u64),
    /// The message is compressed, which is not supported.
    Compressed,
}

/// Model of `FrameStep`.
pub enum FrameStepSpec {
    NeedMore,
    Message { payload: Seq<u8>, consumed: int },
}

impl FrameStep {
    pub open spec fn spec_model(&self) -> FrameStepSpec {
        match self {
            FrameStep::NeedMore => FrameStepSpec::NeedMore,
            FrameStep::Message { payload, consumed } => FrameStepSpec::Message { payload: payload@, consumed: *consumed as int },
        }
    }
}

/// What the front of buffer `b` holds.
pub open spec fn spec_next_frame(b: Seq<u8>) -> Result<FrameStepSpec, FrameError> {
    if b.len() < 5 {
        Ok(FrameStepSpec::NeedMore)
    } else {
        let len = be32(b[1], b[2], b[3], b[4]);
        if len > max_message_size() {
            Err(FrameError::TooLarge(len as u64))
        } else if b.len() < 5 + len {
            Ok(FrameStepSpec::NeedMore)
        } else if b[0] != 0 {
            Err(FrameError::Compressed)
        } else {
            Ok(FrameStepSpec::Message { payload: b.subrange(5, 5 + len), consumed: 5 + len })
        }
    }
}

/// Looks for a complete gRPC message at the front of `buffer`.
pub fn next_frame(buffer: &[u8]) -> (r: Result<FrameStep, FrameError>)
    ensures
        match spec_next_frame(buffer@) {
            Ok(s) => r matches Ok(v) && v.spec_model() == s,
            Err(e) => r == Err::<FrameStep, FrameError>(e),
        },
{
    if buffer.len() < 5 {
        return Ok(FrameStep::NeedMore);
    }
    let length: u64 = (buffer[1] as u64) * 16777216 + (buffer[2] as u64) * 65536 + (buffer[3] as u64) * 256 + (buffer[4] as u64);
    if length > 104857600 {
        return Err(FrameError::TooLarge(length));
    }
    let len = length as usize;
    if buffer.len() - 5 < len {
        return Ok(FrameStep::NeedMore);
    }
    if buffer[0] != 0 {
        return Err(FrameError::Compressed);
    }
    let mut payload: Vec<u8> = Vec::new();
    let mut i: usize = 0;
    while i < len
        invariant
            i <= len,
            5 + len <= buffer.len(),
            payload@ =~= buffer@.subrange(5, 5 + i),
        decreases len - i,
    {
        payload.push(buffer[5 + i]);
        i = i + 1;
    }
    Ok(FrameStep::Message { payload, consumed: 5 + len })
}

// ---------------------------------------------------------------------------
// Laws
// ---------------------------------------------------------------------------

/// Reading back a frame: a buffer that starts with the frame of a payload of
/// at most 100 MiB yields exactly that payload, whatever follows it.
pub proof fn lemma_frame_roundtrip(payload: Seq<u8>, rest: Seq<u8>)
    requires
        payload.len() <= max_message_size(),
    ensures
        spec_next_frame(spec_frame(payload) + rest) == Ok::<FrameStepSpec, FrameError>(FrameStepSpec::Message {
            payload,
            consumed: 5 + payload.len() as int,
        }),
{
    let b = spec_frame(payload) + rest;
    let n = payload.len() as int;
    assert(n % 4294967296 == n);
    assert(be32(b[1], b[2], b[3], b[4]) == n) by (nonlinear_arith)
        requires
            0 <= n <= 104857600,
            b[1] == (n / 16777216) as u8,
            b[2] == ((n / 65536) % 256) as u8,
            b[3] == ((n / 256) % 256) as u8,
            b[4] == (n % 256) as u8,
    {
    }
    assert(b.subrange(5, 5 + n) =~= payload);
}

/// A buffer holding only part of a frame asks for more data.
pub proof fn lemma_partial_frame_needs_more(payload: Seq<u8>, k: int)
    requires
        payload.len() <= max_message_size(),
        0 <= k < 5 + payload.len(),
    ensures
        spec_next_frame(spec_frame(payload).subrange(0, k)) == Ok::<FrameStepSpec, FrameError>(FrameStepSpec::NeedMore),
{
    let b = spec_frame(payload).subrange(0, k);
    if k >= 5 {
        lemma_frame_roundtrip(payload, Seq::empty());
        assert(spec_frame(payload) + Seq::<u8>::empty() =~= spec_frame(payload));
        assert(b[1] == spec_frame(payload)[1]);
        assert(b[2] == spec_frame(payload)[2]);
        assert(b[3] == spec_frame(payload)[3]);
        assert(b[4] == spec_frame(payload)[4]);
    }
}

} // verus!
