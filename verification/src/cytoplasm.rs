//! The station's composition root: one output stream per requested codec.
//!
//! A station is created with a fixed set of output codecs; each gets
//! exactly one output stream, created at startup and never replaced while
//! the station runs.  Requests name a codec: a codec the station was not
//! created with is answered with "codec not found".  The decode, pacing,
//! encoder and reporting workers around this state live in the runtime.

use vstd::prelude::*;

use crate::encoder::OutputCodec;
use crate::null_frames::{get_mime_type, mime_subtype_spec, null_frame_spec};
use crate::output_stream::{
    add_bytes_spec,
    create_spec,
    handle_event_spec,
    remove_spec,
    ListenerAction,
    ListenerEvent,
    OutputStream,
    StreamView,
};

verus! {

/// Why a station request failed.
#[derive(Clone, Copy, PartialEq, Eq, Structural, Debug)]
pub enum StationError {
    /// The station has no output stream for the requested codec.
    CodecNotFound,
    /// Every listener id of that stream has been handed out.
    ListenersExhausted,
}

impl StationError {
    /// The error, worded for a response or a log line.
    pub fn message(&self) -> (m: String)
        ensures
            (*self is CodecNotFound) ==> m@ == "codec not found"@,
            (*self is ListenersExhausted) ==> m@ == "listener ids exhausted"@,
    {
        match self {
            StationError::CodecNotFound => "codec not found".to_owned(),
            StationError::ListenersExhausted => "listener ids exhausted".to_owned(),
        }
    }
}

/// Whether some stream serves `c`.
pub open spec fn codec_listed(vs: Seq<StreamView>, c: OutputCodec) -> bool {
    exists|i: int| 0 <= i < vs.len() && vs[i].codec == c
}

/// The position of the stream serving `c` (meaningful when listed; codecs
/// are unique).
pub open spec fn codec_index(vs: Seq<StreamView>, c: OutputCodec) -> int {
    choose|i: int| 0 <= i < vs.len() && vs[i].codec == c
}

/// The abstract state of a station: its streams, in creation order.
pub ghost struct CytoView {
    pub streams: Seq<StreamView>,
}

impl CytoView {
    /// Every registered codec has exactly one stream, and every stream's
    /// registry is well-formed.
    pub open spec fn wf(self) -> bool {
        &&& forall|i: int, j: int|
            0 <= i < j < self.streams.len() ==> self.streams[i].codec != self.streams[j].codec
        &&& forall|i: int| 0 <= i < self.streams.len() ==> (#[trigger] self.streams[i]).wf()
    }
}

/// One station: the output stream of every codec it was created with.
pub struct Cytoplasm {
    streams: Vec<OutputStream>,
}

impl View for Cytoplasm {
    type V = CytoView;

    closed spec fn view(&self) -> CytoView {
        CytoView { streams: self.streams@.map_values(|s: OutputStream| s@) }
    }
}

impl Cytoplasm {
    /// A station serving exactly the given codecs, one fresh stream each.
    pub fn new(output_codecs: &Vec<OutputCodec>) -> (c: Cytoplasm)
        requires
            forall|i: int, j: int|
                0 <= i < j < output_codecs@.len() ==> output_codecs@[i] != output_codecs@[j],
        ensures
            c@.wf(),
            c@.streams.len() == output_codecs@.len(),
            forall|i: int|
                0 <= i < output_codecs@.len() ==> (#[trigger] c@.streams[i]).codec
                    == output_codecs@[i] && c@.streams[i].clients.len() == 0
                    && c@.streams[i].next_id == 0,
    {
        let mut streams: Vec<OutputStream> = Vec::new();
        let mut i: usize = 0;
        while i < output_codecs.len()
            invariant
                i <= output_codecs@.len(),
                streams@.len() == i,
                forall|k: int, j: int|
                    0 <= k < j < output_codecs@.len() ==> output_codecs@[k] != output_codecs@[j],
                forall|k: int|
                    0 <= k < i ==> (#[trigger] streams@[k]@).codec == output_codecs@[k]
                        && streams@[k]@.clients.len() == 0 && streams@[k]@.next_id == 0
                        && streams@[k]@.wf(),
            decreases output_codecs@.len() - i,
        {
            streams.push(OutputStream::new(output_codecs[i]));
            i = i + 1;
        }
        let c = Cytoplasm { streams };
        c
    }

    /// The codecs this station serves, in creation order.
    pub fn codecs(&self) -> (cs: Vec<OutputCodec>)
        ensures
            cs@.len() == self@.streams.len(),
            forall|i: int| 0 <= i < cs@.len() ==> cs@[i] == (#[trigger] self@.streams[i]).codec,
    {
        let mut cs: Vec<OutputCodec> = Vec::new();
        let mut i: usize = 0;
        while i < self.streams.len()
            invariant
                i <= self@.streams.len(),
                self@.streams.len() == self.streams@.len(),
                cs@.len() == i,
                forall|k: int| 0 <= k < i ==> cs@[k] == (#[trigger] self@.streams[k]).codec,
            decreases self@.streams.len() - i,
        {
            let st = vstd::std_specs::vec::vec_index(&self.streams, i);
            cs.push(st.codec());
            i = i + 1;
        }
        cs
    }

    /// Where the stream for `codec` sits, if the station serves it.
    fn find_stream(&self, codec: &OutputCodec) -> (found: Option<usize>)
        requires
            self@.wf(),
        ensures
            match found {
                Some(i) => codec_listed(self@.streams, *codec) && i == codec_index(
                    self@.streams,
                    *codec,
                ) && 0 <= i < self@.streams.len() && self@.streams[i as int].codec == *codec,
                None => !codec_listed(self@.streams, *codec),
            },
    {
        let mut i: usize = 0;
        while i < self.streams.len()
            invariant
                self@.wf(),
                self@.streams.len() == self.streams@.len(),
                i <= self@.streams.len(),
                forall|k: int| 0 <= k < i ==> (#[trigger] self@.streams[k]).codec != *codec,
            decreases self@.streams.len() - i,
        {
            let st = vstd::std_specs::vec::vec_index(&self.streams, i);
            if st.codec() == *codec {
                proof {
                    let j = codec_index(self@.streams, *codec);
                    assert(0 <= j < self@.streams.len() && self@.streams[j].codec == *codec);
                    if j != i {
                        assert(self@.streams[j].codec != self@.streams[i as int].codec);
                    }
                }
                return Some(i);
            }
            i = i + 1;
        }
        None
    }

    /// Open a listener stream for `codec`: the content subtype to serve it
    /// under, its fresh listener id, and its subscription to the live
    /// chunks.  A codec the station was not created with is refused.
    pub fn create_consumer_stream(&mut self, codec: &OutputCodec, now_micros: u64) -> (r: Result<
        (String, usize, tokio::sync::broadcast::Receiver<bytes::Bytes>),
        StationError,
    >)
        requires
            old(self)@.wf(),
        ensures
            final(self)@.wf(),
            r matches Err(e) ==> final(self)@ == old(self)@ && (e is CodecNotFound
                <==> !codec_listed(old(self)@.streams, *codec)),
            !codec_listed(old(self)@.streams, *codec) <==> r matches Err(
                StationError::CodecNotFound,
            ),
            r matches Err(StationError::ListenersExhausted) <==> codec_listed(
                old(self)@.streams,
                *codec,
            ) && old(self)@.streams[codec_index(old(self)@.streams, *codec)].next_id
                >= usize::MAX,
            codec_listed(old(self)@.streams, *codec) && old(self)@.streams[codec_index(
                old(self)@.streams,
                *codec,
            )].next_id < usize::MAX ==> r is Ok,
            r matches Ok(out) ==> ({
                let k = codec_index(old(self)@.streams, *codec);
                let stream = old(self)@.streams[k];
                &&& codec_listed(old(self)@.streams, *codec)
                &&& stream.next_id < usize::MAX
                &&& out.0@ == mime_subtype_spec(*codec)
                &&& out.1 == create_spec(stream, now_micros).1
                &&& final(self)@.streams == old(self)@.streams.update(
                    k,
                    create_spec(stream, now_micros).0,
                )
            }),
    {
        match self.find_stream(codec) {
            Some(k) => {
                let ghost pre = self@.streams;
                let st = vstd::std_specs::vec::vec_index_mut(&mut self.streams, k);
                if !st.accepting() {
                    proof {
                        assert(self@.streams =~= pre);
                    }
                    return Err(StationError::ListenersExhausted);
                }
                let mime = get_mime_type(codec);
                let (id, rx) = st.create_consumer_stream(now_micros);
                proof {
                    assert(self@.streams =~= pre.update(k as int, st@));
                    assert forall|i: int, j: int|
                        0 <= i < j < self@.streams.len() implies self@.streams[i].codec
                        != self@.streams[j].codec by {
                        assert(pre[i].codec != pre[j].codec);
                    }
                }
                Ok((mime, id, rx))
            },
            None => Err(StationError::CodecNotFound),
        }
    }

    /// The priming frame for `codec`, credited to listener `id`; `None`
    /// for a codec the station does not serve.
    pub fn prime_listener(&mut self, codec: &OutputCodec, id: usize) -> (r: Option<Vec<u8>>)
        requires
            old(self)@.wf(),
        ensures
            final(self)@.wf(),
            r is Some <==> codec_listed(old(self)@.streams, *codec),
            r is None ==> final(self)@ == old(self)@,
            r matches Some(frame) ==> ({
                let k = codec_index(old(self)@.streams, *codec);
                &&& frame@ == null_frame_spec(*codec)
                &&& final(self)@.streams == old(self)@.streams.update(
                    k,
                    add_bytes_spec(old(self)@.streams[k], id, frame@.len()),
                )
            }),
    {
        match self.find_stream(codec) {
            Some(k) => {
                let ghost pre = self@.streams;
                let st = vstd::std_specs::vec::vec_index_mut(&mut self.streams, k);
                let frame = st.prime_listener(id);
                proof {
                    assert(self@.streams =~= pre.update(k as int, st@));
                    assert forall|i: int, j: int|
                        0 <= i < j < self@.streams.len() implies self@.streams[i].codec
                        != self@.streams[j].codec by {
                        assert(pre[i].codec != pre[j].codec);
                    }
                }
                Some(frame)
            },
            None => None,
        }
    }

    /// React to one listener event on `codec`'s stream; `None` for a codec
    /// the station does not serve.
    pub fn handle_event(&mut self, codec: &OutputCodec, id: usize, event: ListenerEvent) -> (r:
        Option<ListenerAction>)
        requires
            old(self)@.wf(),
        ensures
            final(self)@.wf(),
            r is Some <==> codec_listed(old(self)@.streams, *codec),
            r is None ==> final(self)@ == old(self)@,
            r matches Some(action) ==> ({
                let k = codec_index(old(self)@.streams, *codec);
                let step = handle_event_spec(old(self)@.streams[k], id, event);
                &&& action == step.1
                &&& final(self)@.streams == old(self)@.streams.update(k, step.0)
            }),
    {
        match self.find_stream(codec) {
            Some(k) => {
                let ghost pre = self@.streams;
                let st = vstd::std_specs::vec::vec_index_mut(&mut self.streams, k);
                let action = st.handle_event(id, event);
                proof {
                    assert(self@.streams =~= pre.update(k as int, st@));
                    assert forall|i: int, j: int|
                        0 <= i < j < self@.streams.len() implies self@.streams[i].codec
                        != self@.streams[j].codec by {
                        assert(pre[i].codec != pre[j].codec);
                    }
                }
                Some(action)
            },
            None => None,
        }
    }

    /// Terminate listener `id` on `codec`'s stream: deregister it and say
    /// whether it was connected, so the runtime can fire its shutdown
    /// signal.  `None` for a codec the station does not serve; a listener
    /// already gone is a safe no-op.
    pub fn terminate_client(&mut self, codec: &OutputCodec, id: usize) -> (r: Option<bool>)
        requires
            old(self)@.wf(),
        ensures
            final(self)@.wf(),
            r is Some <==> codec_listed(old(self)@.streams, *codec),
            r is None ==> final(self)@ == old(self)@,
            r matches Some(was_present) ==> ({
                let k = codec_index(old(self)@.streams, *codec);
                &&& was_present == crate::output_stream::has_client(
                    old(self)@.streams[k].clients,
                    id,
                )
                &&& final(self)@.streams == old(self)@.streams.update(
                    k,
                    remove_spec(old(self)@.streams[k], id),
                )
                &&& !crate::output_stream::has_client(final(self)@.streams[k].clients, id)
            }),
    {
        match self.find_stream(codec) {
            Some(k) => {
                let ghost pre = self@.streams;
                let st = vstd::std_specs::vec::vec_index_mut(&mut self.streams, k);
                let was_present = st.terminate_client(id);
                proof {
                    assert(self@.streams =~= pre.update(k as int, st@));
                    assert forall|i: int, j: int|
                        0 <= i < j < self@.streams.len() implies self@.streams[i].codec
                        != self@.streams[j].codec by {
                        assert(pre[i].codec != pre[j].codec);
                    }
                }
                Some(was_present)
            },
            None => None,
        }
    }

    /// Publish one compressed chunk on `codec`'s stream; reports whether
    /// the station serves that codec at all.
    pub fn push_chunk(&self, codec: &OutputCodec, chunk: bytes::Bytes) -> (found: bool)
        requires
            self@.wf(),
        ensures
            found == codec_listed(self@.streams, *codec),
    {
        match self.find_stream(codec) {
            Some(k) => {
                let st = vstd::std_specs::vec::vec_index(&self.streams, k);
                st.push(chunk);
                true
            },
            None => false,
        }
    }

    /// The connected listeners of `codec`'s stream, in registration order;
    /// `None` for a codec the station does not serve.
    pub fn list_clients(&self, codec: &OutputCodec) -> (r: Option<Vec<usize>>)
        requires
            self@.wf(),
        ensures
            r is Some <==> codec_listed(self@.streams, *codec),
            r matches Some(ids) ==> ids@ == self@.streams[codec_index(
                self@.streams,
                *codec,
            )].clients.map_values(|pr: (usize, crate::output_stream::ClientRecord)| pr.0),
    {
        match self.find_stream(codec) {
            Some(k) => {
                let st = vstd::std_specs::vec::vec_index(&self.streams, k);
                Some(st.list_clients())
            },
            None => None,
        }
    }

    /// The bandwidth stats of `codec`'s stream at `now_micros`; `None` for
    /// a codec the station does not serve.
    pub fn get_bandwidth_stats(&self, codec: &OutputCodec, now_micros: u64) -> (r: Option<
        Vec<(usize, u64, u64)>,
    >)
        requires
            self@.wf(),
        ensures
            r is Some <==> codec_listed(self@.streams, *codec),
            r matches Some(stats) ==> ({
                let cs = self@.streams[codec_index(self@.streams, *codec)].clients;
                &&& stats@.len() == cs.len()
                &&& forall|i: int|
                    0 <= i < stats@.len() ==> #[trigger] stats@[i] == (
                        cs[i].0,
                        cs[i].1.bytes_sent,
                        crate::output_stream::bits_per_second_spec(
                            cs[i].1.bytes_sent,
                            crate::output_stream::elapsed_spec(
                                now_micros,
                                cs[i].1.connected_at_micros,
                            ),
                        ),
                    )
            }),
    {
        match self.find_stream(codec) {
            Some(k) => {
                let st = vstd::std_specs::vec::vec_index(&self.streams, k);
                Some(st.get_bandwidth_stats(now_micros))
            },
            None => None,
        }
    }
}

/// A station serves exactly the codecs it was created with: each has one
/// stream, and asking for any other codec is answered with "codec not
/// found" rather than a stream.
pub proof fn lemma_station_serves_created_codecs(v: CytoView, c: OutputCodec)
    requires
        v.wf(),
        codec_listed(v.streams, c),
    ensures
        forall|i: int, j: int|
            0 <= i < v.streams.len() && 0 <= j < v.streams.len() && v.streams[i].codec == c
                && v.streams[j].codec == c ==> i == j,
{
    assert forall|i: int, j: int|
        0 <= i < v.streams.len() && 0 <= j < v.streams.len() && v.streams[i].codec == c
            && v.streams[j].codec == c implies i == j by {
        if i < j {
            assert(v.streams[i].codec != v.streams[j].codec);
        }
        if j < i {
            assert(v.streams[j].codec != v.streams[i].codec);
        }
    }
}

} // verus!
