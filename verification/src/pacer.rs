//! The playback pacer's clock arithmetic.
//!
//! The pacing loop drains the ingest buffer in batches, hands each packet
//! to every encoder, and then sleeps until the moment the audio dispatched
//! so far has been fully heard.  That moment is always computed as the
//! fixed loop start plus the total playing time accounted so far — never as
//! "now plus this batch" — so per-iteration scheduling jitter cannot
//! compound into drift.

use vstd::prelude::*;

use crate::pcm::AudioPacket;

verus! {

/// The total playing time of a sequence of packet durations, in
/// microseconds.
pub open spec fn sum_micros(ds: Seq<u64>) -> int
    decreases ds.len(),
{
    if ds.len() == 0 {
        0
    } else {
        sum_micros(ds.drop_last()) + ds.last()
    }
}

/// The abstract state of a pacer: when its loop started, how much audio it
/// has dispatched, and the log of every accounted duration.
pub ghost struct PacerView {
    pub start_micros: u64,
    pub played_micros: u64,
    pub log: Seq<u64>,
}

impl PacerView {
    /// The running total is exactly the sum of the logged durations, and
    /// the next target instant still fits the clock.
    pub open spec fn wf(self) -> bool {
        &&& self.played_micros == sum_micros(self.log)
        &&& self.start_micros + self.played_micros <= u64::MAX
    }
}

/// The wall-clock instant, in microseconds, before which the audio
/// accounted so far must not be considered fully dispatched.
pub open spec fn target_spec(v: PacerView) -> int {
    v.start_micros + v.played_micros
}

/// The pacing clock of one playback loop.
pub struct Pacer {
    start_micros: u64,
    played_micros: u64,
    log: Ghost<Seq<u64>>,
}

impl View for Pacer {
    type V = PacerView;

    closed spec fn view(&self) -> PacerView {
        PacerView {
            start_micros: self.start_micros,
            played_micros: self.played_micros,
            log: self.log@,
        }
    }
}

impl Pacer {
    /// Anchor a new pacing loop at the given wall-clock instant.
    pub fn new(now_micros: u64) -> (p: Pacer)
        ensures
            p@ == (PacerView { start_micros: now_micros, played_micros: 0, log: Seq::empty() }),
            p@.wf(),
    {
        let p = Pacer { start_micros: now_micros, played_micros: 0, log: Ghost(Seq::empty()) };
        proof {
            assert(sum_micros(p@.log) == 0);
        }
        p
    }

    /// Whether one more packet of duration `d` can be accounted without the
    /// target instant overflowing the clock.
    pub fn fits(&self, d: u64) -> (ok: bool)
        requires
            self@.wf(),
        ensures
            ok == (self@.start_micros + self@.played_micros + d <= u64::MAX),
    {
        d <= u64::MAX - self.start_micros - self.played_micros
    }

    /// Account one dispatched packet's playing time.
    pub fn account(&mut self, packet: &AudioPacket)
        requires
            old(self)@.wf(),
            old(self)@.start_micros + old(self)@.played_micros + packet.audio_micros <= u64::MAX,
        ensures
            final(self)@.wf(),
            final(self)@.start_micros == old(self)@.start_micros,
            final(self)@.played_micros == old(self)@.played_micros + packet.audio_micros,
            final(self)@.log == old(self)@.log.push(packet.audio_micros),
    {
        self.played_micros = self.played_micros + packet.audio_micros;
        proof {
            let pushed = self.log@.push(packet.audio_micros);
            assert(pushed.drop_last() =~= self.log@);
            assert(sum_micros(pushed) == sum_micros(self.log@) + packet.audio_micros);
        }
        self.log = Ghost(self.log@.push(packet.audio_micros));
    }

    /// The absolute instant playback of everything accounted so far ends.
    pub fn target_micros(&self) -> (t: u64)
        requires
            self@.wf(),
        ensures
            t == target_spec(self@),
    {
        self.start_micros + self.played_micros
    }

    /// How long to sleep from `now_micros` so that the loop never runs
    /// ahead of real time.  Zero means the target has already passed (a
    /// timing underrun): proceed at once, without trying to catch up.
    pub fn wait_micros(&self, now_micros: u64) -> (wait: u64)
        requires
            self@.wf(),
        ensures
            wait == if target_spec(self@) > now_micros {
                target_spec(self@) - now_micros
            } else {
                0
            },
            now_micros + wait >= target_spec(self@),
    {
        let target = self.start_micros + self.played_micros;
        if target > now_micros {
            target - now_micros
        } else {
            0
        }
    }
}

/// Pacing is anchored, not relative: the target instant is the loop start
/// plus the cumulative playing time of every packet accounted, so two loops
/// that started together and dispatched the same audio agree on it exactly,
/// whatever their iterations' actual completion times were.
pub proof fn lemma_pacing_anchored(v1: PacerView, v2: PacerView)
    requires
        v1.wf(),
        v2.wf(),
        v1.start_micros == v2.start_micros,
        v1.log == v2.log,
    ensures
        target_spec(v1) == v1.start_micros + sum_micros(v1.log),
        target_spec(v1) == target_spec(v2),
{
}

} // verus!
