//! The PCM audio format used throughout the pipeline, and the duration
//! arithmetic derived from it.
//!
//! Every stage handles interleaved signed 16-bit little-endian PCM at a
//! fixed sample rate and channel count.  A buffer's playing time is a pure
//! function of its length in bytes; it is kept in microseconds so that the
//! pacer can target absolute wall-clock instants without rounding drift
//! accumulating across packets.

use vstd::prelude::*;

use crate::chunk::{chunk_bytes, chunk_from_vec, chunk_len};

verus! {

/// Interleaved channels per sample frame.
pub const CHANNEL_COUNT: u32 = 2;

/// Sample frames per second of audio.
pub const SAMPLE_RATE: u32 = 44100;

/// Bytes per sample of one channel (16-bit samples).
pub const BYTE_DEPTH: u32 = 2;

/// Bytes of PCM that make up exactly one second of audio.
pub const BYTES_PER_SECOND: u32 = CHANNEL_COUNT * BYTE_DEPTH * SAMPLE_RATE;

/// Microseconds in one second; the resolution of all durations here.
pub const MICROS_PER_SECOND: u64 = 1000000;

/// One decode read covers at most one second of audio.
pub const READ_BUFFER_SIZE: u32 = BYTES_PER_SECOND;

/// The playing time, in microseconds, of `n` bytes of PCM:
/// `n / (channels * bytes_per_sample * sample_rate)` seconds, rounded down
/// to the microsecond.
pub open spec fn duration_micros_spec(n: nat) -> nat {
    n * (MICROS_PER_SECOND as nat) / (BYTES_PER_SECOND as nat)
}

/// The playing time of a PCM buffer of `buffer_capacity_bytes` bytes.
pub fn calculate_buffer_length(buffer_capacity_bytes: u32) -> (micros: u64)
    ensures
        micros == duration_micros_spec(buffer_capacity_bytes as nat),
{
    proof {
        assert((buffer_capacity_bytes as u64) * MICROS_PER_SECOND <= (u32::MAX as u64)
            * MICROS_PER_SECOND) by (nonlinear_arith)
            requires
                buffer_capacity_bytes <= u32::MAX,
        ;
    }
    (buffer_capacity_bytes as u64) * MICROS_PER_SECOND / (BYTES_PER_SECOND as u64)
}

/// Duration is linear in the buffer length: whole seconds of PCM map to
/// whole seconds of playing time, and a longer buffer never plays shorter.
pub proof fn lemma_duration_linear(k: nat, n1: nat, n2: nat)
    ensures
        duration_micros_spec(k * (BYTES_PER_SECOND as nat)) == k * (MICROS_PER_SECOND as nat),
        n1 <= n2 ==> duration_micros_spec(n1) <= duration_micros_spec(n2),
{
    let bps = BYTES_PER_SECOND as nat;
    let mps = MICROS_PER_SECOND as nat;
    assert(k * bps * mps == bps * (k * mps)) by (nonlinear_arith);
    vstd::arithmetic::div_mod::lemma_div_multiples_vanish((k * mps) as int, bps as int);
    if n1 <= n2 {
        assert(n1 * mps <= n2 * mps) by (nonlinear_arith)
            requires
                n1 <= n2,
        ;
        vstd::arithmetic::div_mod::lemma_div_is_ordered(
            (n1 * mps) as int,
            (n2 * mps) as int,
            bps as int,
        );
    }
}

/// Duration never undercounts by a full microsecond: `duration(n)` is the
/// exact rational `n * 1000000 / BYTES_PER_SECOND` truncated, so scaling is
/// linear up to a sub-microsecond remainder.
pub proof fn lemma_duration_is_floor(n: nat)
    ensures
        duration_micros_spec(n) * (BYTES_PER_SECOND as nat) <= n * (MICROS_PER_SECOND as nat),
        n * (MICROS_PER_SECOND as nat) < (duration_micros_spec(n) + 1) * (BYTES_PER_SECOND as nat),
{
    let bps = BYTES_PER_SECOND as int;
    let mps = MICROS_PER_SECOND as int;
    let prod = n as int * mps;
    let d = prod / bps;
    vstd::arithmetic::div_mod::lemma_fundamental_div_mod(prod, bps);
    vstd::arithmetic::div_mod::lemma_mod_bound(prod, bps);
    assert(duration_micros_spec(n) == d);
    assert(d * bps == bps * d) by (nonlinear_arith);
    assert((d + 1) * bps == bps * d + bps) by (nonlinear_arith);
}

/// One fixed-duration packet of raw PCM.  Immutable once produced; the
/// buffer is shared by reference with every encoder consuming the same
/// pacing tick.
pub struct AudioPacket {
    /// How much audio this packet holds, in microseconds.
    pub audio_micros: u64,
    /// The PCM samples, in the process-wide format.
    pub buffer: bytes::Bytes,
}

impl AudioPacket {
    /// A packet is well-formed when it is non-empty and its recorded
    /// duration is exactly the playing time of its buffer.
    pub open spec fn wf(self) -> bool {
        &&& 1 <= chunk_bytes(self.buffer).len() <= u32::MAX
        &&& self.audio_micros == duration_micros_spec(chunk_bytes(self.buffer).len() as nat)
    }

    /// Wrap a non-empty PCM buffer, deriving its duration from its length.
    pub fn new(buffer: bytes::Bytes) -> (p: AudioPacket)
        requires
            1 <= chunk_bytes(buffer).len() <= u32::MAX,
        ensures
            p.wf(),
            chunk_bytes(p.buffer) == chunk_bytes(buffer),
    {
        let len = chunk_len(&buffer);
        AudioPacket { audio_micros: calculate_buffer_length(len as u32), buffer }
    }

    /// The packet's duration in microseconds.
    pub fn duration_micros(&self) -> (d: u64)
        ensures
            d == self.audio_micros,
    {
        self.audio_micros
    }
}

/// Every well-formed packet carries strictly positive playing time.
pub proof fn lemma_packet_duration_positive(p: AudioPacket)
    requires
        p.wf(),
    ensures
        p.audio_micros >= 1,
{
    let n = chunk_bytes(p.buffer).len() as nat;
    lemma_duration_linear(0, 1, n);
    assert(duration_micros_spec(1) == 1000000nat / 176400nat);
    assert(1000000nat / 176400nat == 5) by (nonlinear_arith);
}

/// Turn the outcome of one fixed-size read from a PCM source into a packet.
/// A read of zero bytes means the source is exhausted and yields no packet;
/// anything else becomes a packet whose duration matches the bytes read.
pub fn packet_from_read(data: Vec<u8>) -> (p: Option<AudioPacket>)
    requires
        data@.len() <= u32::MAX,
    ensures
        data@.len() == 0 <==> p is None,
        p matches Some(packet) ==> packet.wf() && chunk_bytes(packet.buffer) == data@,
{
    if data.len() == 0 {
        None
    } else {
        Some(AudioPacket::new(chunk_from_vec(&data)))
    }
}

} // verus!
