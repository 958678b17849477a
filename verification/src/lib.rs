//! A verified core for an internet-radio streaming engine.
//!
//! The library models the live pipeline — PCM packets, a bounded ingest
//! buffer with hysteresis backpressure, a wall-clock playback pacer, the
//! per-codec encoder configuration, and the per-codec output stream with
//! its listener registry — and proves the contracts each stage obeys.
//! File and subprocess I/O, threads, and the async fan-out loop live in a
//! thin runtime around this crate.

use vstd::prelude::*;
use vstd::string::StringSliceAdditionalSpecFns;

pub mod chunk;
pub mod cytoplasm;
pub mod encoder;
pub mod info;
pub mod ingest;
pub mod null_frames;
pub mod output_stream;
pub mod pacer;
pub mod pcm;
pub mod reporting;
pub mod station_state;
pub mod strategy;
pub mod track;
pub mod track_iterator;

verus! {

/// The landing page served at the root endpoint: a minimal HTML document
/// pointing an audio player at the station's stream.
pub fn index() -> (page: Vec<u8>)
    ensures
        page@ == "<!DOCTYPE html>\n<audio controls src='/station'>"@.map_values(
            |c: char| c as u8,
        ),
{
    let s: &str = "<!DOCTYPE html>\n<audio controls src='/station'>";
    let bytes: &[u8] = s.as_bytes();
    proof {
        reveal_strlit("<!DOCTYPE html>\n<audio controls src='/station'>");
        assert(s@.map_values(|c: char| c as u8) =~= s.spec_bytes()) by {
            assert(s.is_ascii());
        }
    }
    vstd::slice::slice_to_vec(bytes)
}

} // verus!
