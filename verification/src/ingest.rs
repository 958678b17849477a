//! The ingest buffer: a bounded FIFO of PCM packets between the one decode
//! producer and the one pacing consumer, with hysteresis backpressure.
//!
//! The producer offers packets one at a time.  While the queue holds fewer
//! than `high` packets an offer is accepted at once.  An offer that finds
//! the queue at `high` or more triggers backpressure instead of pushing;
//! from then on every offer is refused until the consumer has drained the
//! queue down to `low` packets, at which point the held packet goes in and
//! normal service resumes.  The two watermarks keep the producer from
//! toggling on and off around a single threshold.

use vstd::prelude::*;

use crate::pcm::AudioPacket;

verus! {

/// The abstract state of an ingest buffer: the queued packets in FIFO
/// order, the two watermarks, and whether backpressure is in force.
pub ghost struct IngestView {
    pub packets: Seq<AudioPacket>,
    pub low: nat,
    pub high: nat,
    pub backpressure: bool,
}

impl IngestView {
    /// The watermarks are ordered and the queue never outgrows the high
    /// watermark: at worst the packet in flight when the threshold check
    /// fires brings the length up to `high` exactly.
    pub open spec fn wf(self) -> bool {
        &&& self.low < self.high
        &&& self.packets.len() <= self.high
    }
}

/// What one producer offer does: the successor state, and whether the
/// packet was actually enqueued (`false` means the producer must hold the
/// packet and poll again).
pub open spec fn offer_spec(v: IngestView, p: AudioPacket) -> (IngestView, bool) {
    if v.backpressure {
        if v.packets.len() <= v.low {
            (
                IngestView { packets: v.packets.push(p), backpressure: false, ..v },
                true,
            )
        } else {
            (v, false)
        }
    } else {
        if v.packets.len() < v.high {
            (IngestView { packets: v.packets.push(p), ..v }, true)
        } else {
            (IngestView { backpressure: true, ..v }, false)
        }
    }
}

/// The bounded FIFO queue shared between the decode loop and the pacer.
/// The runtime holds it under a mutex; each operation here is one critical
/// section's worth of work.
pub struct IngestBuffer {
    queue: Vec<AudioPacket>,
    low: usize,
    high: usize,
    backpressure: bool,
}

impl View for IngestBuffer {
    type V = IngestView;

    closed spec fn view(&self) -> IngestView {
        IngestView {
            packets: self.queue@,
            low: self.low as nat,
            high: self.high as nat,
            backpressure: self.backpressure,
        }
    }
}

impl IngestBuffer {
    /// An empty buffer with the given watermarks.
    pub fn new(low: usize, high: usize) -> (buf: IngestBuffer)
        requires
            low < high,
        ensures
            buf@ == (IngestView {
                packets: Seq::<AudioPacket>::empty(),
                low: low as nat,
                high: high as nat,
                backpressure: false,
            }),
            buf@.wf(),
    {
        let buf = IngestBuffer { queue: Vec::new(), low, high, backpressure: false };
        proof {
            assert(buf@.packets =~= Seq::<AudioPacket>::empty());
        }
        buf
    }

    /// Packets currently queued.
    pub fn len(&self) -> (n: usize)
        ensures
            n == self@.packets.len(),
    {
        self.queue.len()
    }

    /// Whether backpressure is currently in force.
    pub fn under_backpressure(&self) -> (b: bool)
        ensures
            b == self@.backpressure,
    {
        self.backpressure
    }

    /// The pacer's priming test: the buffer has filled to the high
    /// watermark at least this once.
    pub fn at_or_above_high(&self) -> (b: bool)
        ensures
            b == (self@.packets.len() >= self@.high),
    {
        self.queue.len() >= self.high
    }

    /// One producer offer, exactly as `offer_spec` says.  A refused
    /// packet comes back to the producer, which holds it and polls again;
    /// a refusal changes nothing but the backpressure flag.
    pub fn offer(&mut self, packet: AudioPacket) -> (refused: Option<AudioPacket>)
        requires
            old(self)@.wf(),
        ensures
            (final(self)@, refused is None) == offer_spec(old(self)@, packet),
            refused matches Some(held) ==> held == packet,
            final(self)@.wf(),
    {
        proof {
            lemma_ingest_bounded(self@, packet);
        }
        if self.backpressure {
            if self.queue.len() <= self.low {
                self.backpressure = false;
                self.queue.push(packet);
                None
            } else {
                Some(packet)
            }
        } else {
            if self.queue.len() < self.high {
                self.queue.push(packet);
                None
            } else {
                self.backpressure = true;
                Some(packet)
            }
        }
    }

    /// Atomically move the entire queue contents out, in FIFO order; the
    /// pacer then works from its local copy with the buffer unlocked.
    pub fn drain_all(&mut self) -> (drained: Vec<AudioPacket>)
        ensures
            drained@ == old(self)@.packets,
            final(self)@ == (IngestView { packets: Seq::<AudioPacket>::empty(), ..old(self)@ }),
            old(self)@.wf() ==> final(self)@.wf(),
    {
        let drained = self.queue.split_off(0);
        proof {
            assert(drained@ =~= old(self)@.packets);
            assert(self@.packets =~= Seq::<AudioPacket>::empty());
        }
        drained
    }
}

/// The buffer never exceeds its capacity bound: an offer against a
/// well-formed buffer leaves at most `high` packets queued, whatever state
/// the backpressure protocol is in.
pub proof fn lemma_ingest_bounded(v: IngestView, p: AudioPacket)
    requires
        v.wf(),
    ensures
        offer_spec(v, p).0.wf(),
        offer_spec(v, p).0.packets.len() <= v.high,
{
}

/// Once backpressure has triggered, no offer enqueues anything until the
/// queue has drained to the low watermark: with the queue still above
/// `low`, the state is left exactly as it was and the packet is refused.
pub proof fn lemma_backpressure_blocks_pushes(v: IngestView, p: AudioPacket)
    requires
        v.wf(),
        v.backpressure,
        v.packets.len() > v.low,
    ensures
        !offer_spec(v, p).1,
        offer_spec(v, p).0 == v,
{
}

/// Backpressure only ever triggers at the high watermark, and clears only
/// at or below the low watermark: the refusal band is exactly hysteresis.
pub proof fn lemma_backpressure_hysteresis(v: IngestView, p: AudioPacket)
    requires
        v.wf(),
    ensures
        !v.backpressure && offer_spec(v, p).0.backpressure ==> v.packets.len() >= v.high,
        v.backpressure && !offer_spec(v, p).0.backpressure ==> v.packets.len() <= v.low,
{
}

} // verus!
