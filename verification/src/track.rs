//! Track metadata: what a station knows about one playable recording and
//! the narration snippets attached to it.
//!
//! This is plain data consulted by the next-track selection; the audio
//! itself is only ever touched through a PCM source opened on the track's
//! `source` path.

use vstd::prelude::*;

verus! {

/// A short spoken snippet played before or after a track.
#[derive(Clone, Debug)]
pub struct Narration {
    pub title: String,
    /// Length in whole seconds.
    pub duration: u32,
    pub file_format: String,
    pub source: String,
}

/// One recording in a station's library.
#[derive(Clone, Debug)]
pub struct Track {
    pub title: String,
    pub artist: String,
    pub album: String,
    /// Length in whole seconds.
    pub duration: u32,
    pub file_format: String,
    pub source: String,
    /// Narrations played after the track.
    pub after: Vec<Narration>,
    /// Narrations played before the track.
    pub before: Vec<Narration>,
}

impl Track {
    /// A track with exactly the given metadata.
    pub fn new(
        title: String,
        artist: String,
        album: String,
        duration: u32,
        file_format: String,
        source: String,
        after: Vec<Narration>,
        before: Vec<Narration>,
    ) -> (t: Track)
        ensures
            t.title == title,
            t.artist == artist,
            t.album == album,
            t.duration == duration,
            t.file_format == file_format,
            t.source == source,
            t.after == after,
            t.before == before,
    {
        Track { title, artist, album, duration, file_format, source, after, before }
    }
}

} // verus!
