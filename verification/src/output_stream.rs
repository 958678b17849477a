//! One codec's fan-out: compressed chunks go into a bounded broadcast
//! channel, and a registry tracks every connected listener's byte counter
//! and connection time.
//!
//! Listeners are failure-isolated: a slow listener misses chunks (lag) but
//! is never disconnected for it; a terminated or dropped listener is
//! removed from the registry without touching anyone else.  The async wait
//! on "next chunk or shutdown signal" lives in the runtime; every decision
//! it takes is the verified `handle_event`.

use vstd::prelude::*;

use crate::chunk::{chunk_bytes, chunk_len};
use crate::encoder::OutputCodec;
use crate::null_frames::{get_null_frame, null_frame_spec};

verus! {

/// How many chunks the broadcast channel retains for slow subscribers.
pub const CHANNEL_CAPACITY: usize = 24;

#[verifier::external_type_specification]
#[verifier::external_body]
#[verifier::reject_recursive_types(T)]
pub struct ExBroadcastSender<T>(tokio::sync::broadcast::Sender<T>);

#[verifier::external_type_specification]
#[verifier::external_body]
#[verifier::reject_recursive_types(T)]
pub struct ExBroadcastReceiver<T>(tokio::sync::broadcast::Receiver<T>);

/// Relies on `tokio::sync::broadcast::channel`: builds a channel with the
/// given capacity and hands back its single publisher.  The channel
/// asserts that the capacity is neither zero nor above `usize::MAX / 2`;
/// the preconditions rule both panics out.
#[verifier::external_body]
fn broadcast_sender(capacity: usize) -> tokio::sync::broadcast::Sender<bytes::Bytes>
    requires
        capacity > 0,
        capacity <= usize::MAX / 2,
{
    let (tx, _rx) = tokio::sync::broadcast::channel(capacity);
    tx
}

/// Relies on `tokio::sync::broadcast::Sender::send`: publishes one chunk to
/// every current subscriber without blocking; with no subscriber at all it
/// returns an error and the chunk is simply dropped.
#[verifier::external_body]
fn broadcast_send(
    tx: &tokio::sync::broadcast::Sender<bytes::Bytes>,
    chunk: bytes::Bytes,
) -> (delivered: bool)
{
    tx.send(chunk).is_ok()
}

/// Relies on `tokio::sync::broadcast::Sender::subscribe`: a fresh receiver
/// that will see every chunk published from this point on.
#[verifier::external_body]
fn broadcast_subscribe(
    tx: &tokio::sync::broadcast::Sender<bytes::Bytes>,
) -> tokio::sync::broadcast::Receiver<bytes::Bytes>
{
    tx.subscribe()
}

/// What the registry knows of one connected listener.
#[derive(Clone, Copy, PartialEq, Eq, Structural)]
pub struct ClientRecord {
    /// Bytes handed to this listener so far, priming frame included.
    pub bytes_sent: u64,
    /// When the listener connected, in wall-clock microseconds.
    pub connected_at_micros: u64,
}

/// The abstract state of one output stream: its codec, the registered
/// listeners in registration order, and the next fresh id.
pub ghost struct StreamView {
    pub codec: OutputCodec,
    pub clients: Seq<(usize, ClientRecord)>,
    pub next_id: nat,
}

/// Whether a listener with this id is registered.
pub open spec fn has_client(cs: Seq<(usize, ClientRecord)>, id: usize) -> bool {
    exists|i: int| 0 <= i < cs.len() && cs[i].0 == id
}

/// The position of the listener with this id (meaningful only when it is
/// registered; registered ids are unique).
pub open spec fn index_of(cs: Seq<(usize, ClientRecord)>, id: usize) -> int {
    choose|i: int| 0 <= i < cs.len() && cs[i].0 == id
}

/// The byte counter of the listener with this id.
pub open spec fn client_bytes(cs: Seq<(usize, ClientRecord)>, id: usize) -> u64 {
    cs[index_of(cs, id)].1.bytes_sent
}

impl StreamView {
    /// Registered ids are unique and all lie below the next fresh id.
    pub open spec fn wf(self) -> bool {
        &&& forall|i: int, j: int|
            0 <= i < j < self.clients.len() ==> self.clients[i].0 != self.clients[j].0
        &&& forall|i: int| 0 <= i < self.clients.len() ==> (#[trigger] self.clients[i]).0
            < self.next_id
    }
}

/// Adding `n` to a `u64` counter, stopping at the clock's end rather than
/// wrapping.
pub open spec fn sat_add(a: u64, n: nat) -> u64 {
    if a + n <= u64::MAX {
        (a + n) as u64
    } else {
        u64::MAX
    }
}

/// Registering one listener at `now`: a fresh id, a zeroed byte counter.
pub open spec fn create_spec(v: StreamView, now_micros: u64) -> (StreamView, usize) {
    let id = v.next_id as usize;
    (
        StreamView {
            clients: v.clients.push(
                (id, ClientRecord { bytes_sent: 0, connected_at_micros: now_micros }),
            ),
            next_id: v.next_id + 1,
            ..v
        },
        id,
    )
}

/// Crediting `n` bytes to listener `id`; unknown ids change nothing.
pub open spec fn add_bytes_spec(v: StreamView, id: usize, n: nat) -> StreamView {
    if has_client(v.clients, id) {
        let i = index_of(v.clients, id);
        let rec = v.clients[i].1;
        StreamView {
            clients: v.clients.update(
                i,
                (id, ClientRecord { bytes_sent: sat_add(rec.bytes_sent, n), ..rec }),
            ),
            ..v
        }
    } else {
        v
    }
}

/// Deregistering listener `id`; unknown ids change nothing.
pub open spec fn remove_spec(v: StreamView, id: usize) -> StreamView {
    if has_client(v.clients, id) {
        StreamView { clients: v.clients.remove(index_of(v.clients, id)), ..v }
    } else {
        v
    }
}

/// What a waiting listener task can observe next.
pub enum ListenerEvent {
    /// The next broadcast chunk arrived.
    Chunk(bytes::Bytes),
    /// The listener fell behind the channel's capacity and missed this many
    /// chunks.
    Lagged(u64),
    /// The broadcast channel closed while the station was alive.
    Closed,
    /// The listener's shutdown signal fired.
    Shutdown,
}

/// What the listener task must do about it.
pub enum ListenerAction {
    /// Yield this chunk to the connection.
    Deliver(bytes::Bytes),
    /// Keep listening; missed audio is skipped, never backfilled.
    KeepWaiting,
    /// A lifecycle invariant broke; the task must fail loudly.
    Fatal,
    /// End the stream gracefully.
    End,
}

/// The listener protocol, one observed event at a time: chunks are counted
/// and delivered; lag is tolerated (recency over completeness); closure of
/// the channel while the station lives is a fatal invariant violation; the
/// shutdown signal ends the stream.
pub open spec fn handle_event_spec(v: StreamView, id: usize, event: ListenerEvent) -> (
    StreamView,
    ListenerAction,
) {
    match event {
        ListenerEvent::Chunk(b) => (
            add_bytes_spec(v, id, chunk_bytes(b).len()),
            ListenerAction::Deliver(b),
        ),
        ListenerEvent::Lagged(n) => (v, ListenerAction::KeepWaiting),
        ListenerEvent::Closed => (v, ListenerAction::Fatal),
        ListenerEvent::Shutdown => (v, ListenerAction::End),
    }
}

/// One codec's output stream: the broadcast publisher and the listener
/// registry.
pub struct OutputStream {
    codec: OutputCodec,
    tx: tokio::sync::broadcast::Sender<bytes::Bytes>,
    clients: Vec<(usize, ClientRecord)>,
    next_id: usize,
}

impl View for OutputStream {
    type V = StreamView;

    closed spec fn view(&self) -> StreamView {
        StreamView { codec: self.codec, clients: self.clients@, next_id: self.next_id as nat }
    }
}

impl OutputStream {
    /// A stream for `codec` with no listeners yet.
    pub fn new(codec: OutputCodec) -> (s: OutputStream)
        ensures
            s@ == (StreamView {
                codec,
                clients: Seq::<(usize, ClientRecord)>::empty(),
                next_id: 0,
            }),
            s@.wf(),
    {
        let s = OutputStream {
            codec,
            tx: broadcast_sender(CHANNEL_CAPACITY),
            clients: Vec::new(),
            next_id: 0,
        };
        proof {
            assert(s@.clients =~= Seq::<(usize, ClientRecord)>::empty());
        }
        s
    }

    /// The codec this stream serves.
    pub fn codec(&self) -> (c: OutputCodec)
        ensures
            c == self@.codec,
    {
        self.codec
    }

    /// Whether another listener id can still be handed out.
    pub fn accepting(&self) -> (ok: bool)
        ensures
            ok == (self@.next_id < usize::MAX),
    {
        self.next_id < usize::MAX
    }

    /// Publish one compressed chunk to every current subscriber.  With no
    /// subscriber this is a no-op: it never blocks and never errors.
    pub fn push(&self, chunk: bytes::Bytes) {
        let _delivered = broadcast_send(&self.tx, chunk);
    }

    /// Where listener `id` sits in the registry, if registered.
    fn find_client(&self, id: usize) -> (found: Option<usize>)
        requires
            self@.wf(),
        ensures
            match found {
                Some(i) => has_client(self@.clients, id) && i == index_of(self@.clients, id)
                    && 0 <= i < self@.clients.len() && self@.clients[i as int].0 == id,
                None => !has_client(self@.clients, id),
            },
    {
        let mut i: usize = 0;
        while i < self.clients.len()
            invariant
                self@.wf(),
                i <= self@.clients.len(),
                forall|k: int| 0 <= k < i ==> (#[trigger] self@.clients[k]).0 != id,
            decreases self@.clients.len() - i,
        {
            if self.clients[i].0 == id {
                proof {
                    let j = index_of(self@.clients, id);
                    assert(0 <= j < self@.clients.len() && self@.clients[j].0 == id);
                    if j != i {
                        assert(self@.clients[j].0 != self@.clients[i as int].0);
                    }
                }
                return Some(i);
            }
            i = i + 1;
        }
        None
    }

    /// Register a fresh listener connected at `now_micros` and subscribe it
    /// to the live chunks.  Its byte counter starts at zero; the runtime
    /// must send it the priming frame (`prime_listener`) before anything
    /// else.
    pub fn create_consumer_stream(&mut self, now_micros: u64) -> (out: (
        usize,
        tokio::sync::broadcast::Receiver<bytes::Bytes>,
    ))
        requires
            old(self)@.wf(),
            old(self)@.next_id < usize::MAX,
        ensures
            final(self)@ == create_spec(old(self)@, now_micros).0,
            out.0 == create_spec(old(self)@, now_micros).1,
            final(self)@.wf(),
            has_client(final(self)@.clients, out.0),
            client_bytes(final(self)@.clients, out.0) == 0,
    {
        let id = self.next_id;
        let rx = broadcast_subscribe(&self.tx);
        self.clients.push((id, ClientRecord { bytes_sent: 0, connected_at_micros: now_micros }));
        self.next_id = self.next_id + 1;
        proof {
            let cs = self@.clients;
            let n = cs.len() - 1;
            assert(cs[n].0 == id);
            assert forall|i: int, j: int| 0 <= i < j < cs.len() implies cs[i].0 != cs[j].0 by {
                if j < n {
                    assert(old(self)@.clients[i].0 != old(self)@.clients[j].0);
                } else {
                    assert(old(self)@.clients[i].0 < old(self)@.next_id);
                }
            }
            let w = index_of(cs, id);
            assert(0 <= w < cs.len() && cs[w].0 == id);
            if w != n {
                assert(cs[w].0 != cs[n].0);
            }
        }
        (id, rx)
    }

    /// The fixed priming frame for this stream's codec, credited to
    /// listener `id`'s byte counter.  The runtime yields it as the
    /// listener's very first bytes.
    pub fn prime_listener(&mut self, id: usize) -> (frame: Vec<u8>)
        requires
            old(self)@.wf(),
        ensures
            frame@ == null_frame_spec(old(self)@.codec),
            final(self)@ == add_bytes_spec(old(self)@, id, frame@.len()),
            final(self)@.wf(),
    {
        let frame = get_null_frame(&self.codec);
        self.record_sent(id, frame.len());
        frame
    }

    /// Credit `n` bytes to listener `id`'s counter; unknown ids (already
    /// deregistered) are a safe no-op.
    pub fn record_sent(&mut self, id: usize, n: usize)
        requires
            old(self)@.wf(),
        ensures
            final(self)@ == add_bytes_spec(old(self)@, id, n as nat),
            final(self)@.wf(),
    {
        match self.find_client(id) {
            Some(i) => {
                let rec = self.clients[i].1;
                let new_bytes: u64 = if (n as u64) <= u64::MAX - rec.bytes_sent {
                    rec.bytes_sent + (n as u64)
                } else {
                    u64::MAX
                };
                self.clients[i] = (
                    id,
                    ClientRecord { bytes_sent: new_bytes, connected_at_micros: rec.connected_at_micros },
                );
                proof {
                    let old_cs = old(self)@.clients;
                    let cs = self@.clients;
                    assert(cs =~= add_bytes_spec(old(self)@, id, n as nat).clients);
                    assert forall|x: int, y: int| 0 <= x < y < cs.len() implies cs[x].0
                        != cs[y].0 by {
                        assert(old_cs[x].0 != old_cs[y].0);
                    }
                    assert forall|x: int| 0 <= x < cs.len() implies (#[trigger] cs[x]).0
                        < self@.next_id by {
                        assert(old_cs[x].0 < old(self)@.next_id);
                    }
                }
            },
            None => {
            },
        }
    }

    /// React to one observed event for listener `id`, exactly as
    /// `handle_event_spec` says.
    pub fn handle_event(&mut self, id: usize, event: ListenerEvent) -> (action: ListenerAction)
        requires
            old(self)@.wf(),
        ensures
            (final(self)@, action) == handle_event_spec(old(self)@, id, event),
            final(self)@.wf(),
    {
        match event {
            ListenerEvent::Chunk(b) => {
                let n = chunk_len(&b);
                self.record_sent(id, n);
                ListenerAction::Deliver(b)
            },
            ListenerEvent::Lagged(_n) => ListenerAction::KeepWaiting,
            ListenerEvent::Closed => ListenerAction::Fatal,
            ListenerEvent::Shutdown => ListenerAction::End,
        }
    }

    /// Deregister listener `id`.  Every exit path of a listener task ends
    /// here, so removing an id that is already gone is a safe no-op.
    pub fn remove_client(&mut self, id: usize) -> (was_present: bool)
        requires
            old(self)@.wf(),
        ensures
            was_present == has_client(old(self)@.clients, id),
            final(self)@ == remove_spec(old(self)@, id),
            final(self)@.wf(),
            !has_client(final(self)@.clients, id),
    {
        match self.find_client(id) {
            Some(i) => {
                self.clients.remove(i);
                proof {
                    let old_cs = old(self)@.clients;
                    let cs = self@.clients;
                    let oi = index_of(old_cs, id);
                    assert(cs =~= old_cs.remove(oi));
                    assert forall|x: int, y: int| 0 <= x < y < cs.len() implies cs[x].0
                        != cs[y].0 by {
                        let ox = if x < oi {
                            x
                        } else {
                            x + 1
                        };
                        let oy = if y < oi {
                            y
                        } else {
                            y + 1
                        };
                        assert(cs[x] == old_cs[ox] && cs[y] == old_cs[oy]);
                        assert(old_cs[ox].0 != old_cs[oy].0);
                    }
                    assert forall|x: int| 0 <= x < cs.len() implies (#[trigger] cs[x]).0
                        < self@.next_id by {
                        let ox = if x < oi {
                            x
                        } else {
                            x + 1
                        };
                        assert(cs[x] == old_cs[ox]);
                        assert(old_cs[ox].0 < old(self)@.next_id);
                    }
                    assert forall|x: int| 0 <= x < cs.len() implies (#[trigger] cs[x]).0
                        != id by {
                        let ox = if x < oi {
                            x
                        } else {
                            x + 1
                        };
                        assert(cs[x] == old_cs[ox]);
                        if ox != oi {
                            assert(old_cs[ox].0 != old_cs[oi].0);
                        }
                    }
                }
                true
            },
            None => false,
        }
    }

    /// Terminate listener `id`: deregister it and report whether it was
    /// connected, so the runtime can fire its shutdown signal.  Terminating
    /// an unknown id is a no-op.
    pub fn terminate_client(&mut self, id: usize) -> (was_present: bool)
        requires
            old(self)@.wf(),
        ensures
            was_present == has_client(old(self)@.clients, id),
            final(self)@ == remove_spec(old(self)@, id),
            final(self)@.wf(),
            !has_client(final(self)@.clients, id),
    {
        self.remove_client(id)
    }

    /// The ids of every connected listener, in registration order.
    pub fn list_clients(&self) -> (ids: Vec<usize>)
        ensures
            ids@ == self@.clients.map_values(|pr: (usize, ClientRecord)| pr.0),
    {
        let mut ids: Vec<usize> = Vec::new();
        let mut i: usize = 0;
        while i < self.clients.len()
            invariant
                i <= self@.clients.len(),
                ids@ == self@.clients.take(i as int).map_values(
                    |pr: (usize, ClientRecord)| pr.0,
                ),
            decreases self@.clients.len() - i,
        {
            ids.push(self.clients[i].0);
            i = i + 1;
            proof {
                assert(self@.clients.take(i as int).map_values(|pr: (usize, ClientRecord)| pr.0)
                    =~= self@.clients.take(i - 1).map_values(|pr: (usize, ClientRecord)| pr.0)
                    .push(self@.clients[i - 1].0));
            }
        }
        proof {
            assert(self@.clients.take(i as int) =~= self@.clients);
        }
        ids
    }

    /// Bytes handed to listener `id` so far, if it is connected.
    pub fn bytes_sent_of(&self, id: usize) -> (b: Option<u64>)
        requires
            self@.wf(),
        ensures
            match b {
                Some(n) => has_client(self@.clients, id) && n == client_bytes(self@.clients, id),
                None => !has_client(self@.clients, id),
            },
    {
        match self.find_client(id) {
            Some(i) => Some(self.clients[i].1.bytes_sent),
            None => None,
        }
    }

    /// Per-listener bandwidth: bytes handed out, and bits per second since
    /// the listener connected — `bytes * 8 / elapsed`, and zero while no
    /// time has elapsed.
    pub fn get_bandwidth_stats(&self, now_micros: u64) -> (stats: Vec<(usize, u64, u64)>)
        ensures
            stats@.len() == self@.clients.len(),
            forall|i: int|
                0 <= i < stats@.len() ==> #[trigger] stats@[i] == (
                    self@.clients[i].0,
                    self@.clients[i].1.bytes_sent,
                    bits_per_second_spec(
                        self@.clients[i].1.bytes_sent,
                        elapsed_spec(now_micros, self@.clients[i].1.connected_at_micros),
                    ),
                ),
    {
        let mut stats: Vec<(usize, u64, u64)> = Vec::new();
        let mut i: usize = 0;
        while i < self.clients.len()
            invariant
                i <= self@.clients.len(),
                stats@.len() == i,
                forall|k: int|
                    0 <= k < i ==> #[trigger] stats@[k] == (
                        self@.clients[k].0,
                        self@.clients[k].1.bytes_sent,
                        bits_per_second_spec(
                            self@.clients[k].1.bytes_sent,
                            elapsed_spec(now_micros, self@.clients[k].1.connected_at_micros),
                        ),
                    ),
            decreases self@.clients.len() - i,
        {
            let (id, rec) = self.clients[i];
            let elapsed: u64 = if now_micros >= rec.connected_at_micros {
                now_micros - rec.connected_at_micros
            } else {
                0
            };
            stats.push((id, rec.bytes_sent, bits_per_second(rec.bytes_sent, elapsed)));
            i = i + 1;
        }
        stats
    }
}

/// Microseconds elapsed since `connected`; a clock that has not moved yet
/// counts as zero elapsed time.
pub open spec fn elapsed_spec(now: u64, connected: u64) -> nat {
    if now >= connected {
        (now - connected) as nat
    } else {
        0
    }
}

/// `bytes * 8 / seconds`, computed in microseconds, with zero while no time
/// has elapsed; capped at the counter's maximum.
pub open spec fn bits_per_second_spec(bytes: u64, elapsed_micros: nat) -> u64 {
    if elapsed_micros == 0 {
        0
    } else if bytes * 8 * 1000000 / (elapsed_micros as int) <= u64::MAX {
        (bytes * 8 * 1000000 / (elapsed_micros as int)) as u64
    } else {
        u64::MAX
    }
}

/// Bits per second a listener has averaged: `bytes * 8` bits over
/// `elapsed_micros / 1000000` seconds.
pub fn bits_per_second(bytes: u64, elapsed_micros: u64) -> (bps: u64)
    ensures
        bps == bits_per_second_spec(bytes, elapsed_micros as nat),
{
    if elapsed_micros == 0 {
        0
    } else {
        let wide: u128 = (bytes as u128) * 8 * 1000000 / (elapsed_micros as u128);
        proof {
            assert((bytes as u128) * 8 * 1000000 == (bytes * 8 * 1000000) as u128)
                by (nonlinear_arith);
        }
        if wide > u64::MAX as u128 {
            u64::MAX
        } else {
            wide as u64
        }
    }
}

/// A new listener's first received bytes are exactly its codec's fixed
/// priming frame, and its byte counter then reads exactly that frame's
/// length.
pub proof fn lemma_priming_first_bytes(v: StreamView, now_micros: u64)
    requires
        v.wf(),
        v.next_id < usize::MAX,
    ensures
        ({
            let (v1, id) = create_spec(v, now_micros);
            let frame = null_frame_spec(v.codec);
            let v2 = add_bytes_spec(v1, id, frame.len());
            &&& client_bytes(v1.clients, id) == 0
            &&& client_bytes(v2.clients, id) == frame.len()
        }),
{
    let (v1, id) = create_spec(v, now_micros);
    let frame = null_frame_spec(v.codec);
    let n = v.clients.len() as int;
    assert(v1.clients[n].0 == id);
    assert forall|i: int, j: int| 0 <= i < j < v1.clients.len() implies v1.clients[i].0
        != v1.clients[j].0 by {
        if j < n {
            assert(v.clients[i].0 != v.clients[j].0);
        } else {
            assert(v.clients[i].0 < v.next_id);
        }
    }
    let w1 = index_of(v1.clients, id);
    assert(0 <= w1 < v1.clients.len() && v1.clients[w1].0 == id);
    if w1 != n {
        assert(v1.clients[w1].0 != v1.clients[n].0);
    }
    assert(client_bytes(v1.clients, id) == 0);
    crate::null_frames::lemma_null_frame_nonempty(v.codec);
    let v2 = add_bytes_spec(v1, id, frame.len());
    let w2 = index_of(v2.clients, id);
    assert(v2.clients[w1].0 == id);
    assert(0 <= w2 < v2.clients.len() && v2.clients[w2].0 == id);
    if w2 != w1 {
        assert(v2.clients[w2] == v1.clients[w2]);
        assert(v1.clients[w2].0 != v1.clients[w1].0);
    }
}

/// Terminating a listener removes exactly that listener: its id is gone
/// from the registry, every other listener's record is untouched, and
/// terminating an id that was never registered (or is already gone)
/// changes nothing at all.
pub proof fn lemma_terminate_client(v: StreamView, id: usize)
    requires
        v.wf(),
    ensures
        !has_client(remove_spec(v, id).clients, id),
        !has_client(v.clients, id) ==> remove_spec(v, id) == v,
        has_client(v.clients, id) ==> remove_spec(v, id).clients.len() == v.clients.len() - 1,
        forall|other: usize|
            other != id && has_client(v.clients, other) ==> #[trigger] has_client(
                remove_spec(v, id).clients,
                other,
            ) && client_bytes(remove_spec(v, id).clients, other) == client_bytes(
                v.clients,
                other,
            ),
{
    if has_client(v.clients, id) {
        let oi = index_of(v.clients, id);
        let cs = v.clients.remove(oi);
        assert forall|x: int| 0 <= x < cs.len() implies (#[trigger] cs[x]).0 != id by {
            let ox = if x < oi {
                x
            } else {
                x + 1
            };
            assert(cs[x] == v.clients[ox]);
            if ox != oi {
                assert(v.clients[ox].0 != v.clients[oi].0);
            }
        }
        assert forall|other: usize|
            other != id && has_client(v.clients, other) implies #[trigger] has_client(cs, other)
            && client_bytes(cs, other) == client_bytes(v.clients, other) by {
            let oo = index_of(v.clients, other);
            assert(0 <= oo < v.clients.len() && v.clients[oo].0 == other);
            assert(oo != oi);
            let nx = if oo < oi {
                oo
            } else {
                oo - 1
            };
            assert(cs[nx] == v.clients[oo]);
            assert(has_client(cs, other));
            let w = index_of(cs, other);
            assert(0 <= w < cs.len() && cs[w].0 == other);
            if w != nx {
                let ow = if w < oi {
                    w
                } else {
                    w + 1
                };
                assert(cs[w] == v.clients[ow]);
                assert(v.clients[ow].0 != v.clients[oo].0);
            }
        }
    }
}

/// A lagging listener is not disconnected: the lag event leaves the
/// registry untouched and tells the task to keep waiting, and the very
/// next chunk is delivered to it as usual.
pub proof fn lemma_lag_is_recoverable(
    v: StreamView,
    id: usize,
    missed: u64,
    next: bytes::Bytes,
)
    ensures
        handle_event_spec(v, id, ListenerEvent::Lagged(missed)) == (
            v,
            ListenerAction::KeepWaiting,
        ),
        handle_event_spec(v, id, ListenerEvent::Chunk(next)).1 == ListenerAction::Deliver(next),
{
}

/// A listener's byte counter never decreases, whatever is credited to
/// whomever.
pub proof fn lemma_counter_monotonic(v: StreamView, id: usize, n: nat, observed: usize)
    requires
        v.wf(),
        has_client(v.clients, observed),
    ensures
        has_client(add_bytes_spec(v, id, n).clients, observed),
        client_bytes(add_bytes_spec(v, id, n).clients, observed) >= client_bytes(
            v.clients,
            observed,
        ),
{
    if has_client(v.clients, id) {
        let oi = index_of(v.clients, id);
        let cs = add_bytes_spec(v, id, n).clients;
        let oo = index_of(v.clients, observed);
        assert(0 <= oo < v.clients.len() && v.clients[oo].0 == observed);
        assert(cs[oo].0 == observed);
        assert(has_client(cs, observed));
        let w = index_of(cs, observed);
        assert(0 <= w < cs.len() && cs[w].0 == observed);
        if w != oo {
            assert(cs[w] == v.clients[w]);
            assert(v.clients[w].0 != v.clients[oo].0);
        }
        if oo == oi {
            assert(cs[oo].1.bytes_sent == sat_add(v.clients[oi].1.bytes_sent, n));
        } else {
            assert(cs[oo] == v.clients[oo]);
        }
    }
}

} // verus!
