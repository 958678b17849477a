//! Seeded random walk over a station's track list.
//!
//! The queue is shuffled up front and re-shuffled before every draw; a
//! drawn track leaves the queue, so each track plays once before the queue
//! runs out.  Randomness comes from a deterministic generator seeded by
//! the station, so a run is reproducible from its seed; what is proved
//! holds for every draw the generator can make: the queue only ever
//! permutes and shrinks by exactly the tracks handed out.

use vstd::prelude::*;

use rand::seq::SliceRandom;
use rand::RngExt;
use rand::SeedableRng;

use crate::track::Track;

verus! {

#[verifier::external_type_specification]
#[verifier::external_body]
pub struct ExStdRng(rand::rngs::StdRng);

/// Relies on `rand::rngs::StdRng::seed_from_u64` (`SeedableRng`): a
/// generator deterministically derived from the seed.
#[verifier::external_body]
fn rng_from_seed(seed: u64) -> rand::rngs::StdRng {
    rand::rngs::StdRng::seed_from_u64(seed)
}

/// Relies on `rand::seq::SliceRandom::shuffle`: an in-place Fisher–Yates
/// permutation — same elements, same length, only the order drawn anew.
#[verifier::external_body]
fn shuffle_tracks(v: &mut Vec<Track>, rng: &mut rand::rngs::StdRng)
    ensures
        final(v)@.len() == old(v)@.len(),
        final(v)@.to_multiset() == old(v)@.to_multiset(),
{
    v.as_mut_slice().shuffle(rng)
}

/// Relies on `rand::RngExt::random_range`: a value drawn from the range,
/// which must not be empty (the call panics on an empty range).
#[verifier::external_body]
fn rng_below(rng: &mut rand::rngs::StdRng, n: usize) -> (r: usize)
    requires
        n > 0,
    ensures
        r < n,
{
    RngExt::random_range(rng, 0..n)
}

/// The shuffled walk: the track playing now and the queue of tracks still
/// to come.
pub struct TrackIterator {
    track: Track,
    track_queue: Vec<Track>,
    rng: rand::rngs::StdRng,
}

impl TrackIterator {
    /// The track playing now, as contracts see it.
    pub closed spec fn spec_current(self) -> Track {
        self.track
    }

    /// The tracks still queued, as contracts see them.
    pub closed spec fn spec_queue(self) -> Seq<Track> {
        self.track_queue@
    }

    /// Shuffle the whole queue and put its first track on: afterwards the
    /// current track and the remaining queue together are exactly the
    /// tracks given.
    pub fn new(track_queue: Vec<Track>, seed: u64) -> (it: TrackIterator)
        requires
            track_queue@.len() > 0,
        ensures
            it.spec_queue().len() == track_queue@.len() - 1,
            it.spec_queue().to_multiset().insert(it.spec_current())
                == track_queue@.to_multiset(),
    {
        let ghost given = track_queue@;
        let mut track_queue = track_queue;
        TrackIterator::shuffle_vec(&mut track_queue, seed);
        let track = track_queue.remove(0);
        proof {
            broadcast use vstd::seq_lib::group_to_multiset_ensures;

            assert(track_queue@.to_multiset().insert(track) =~= given.to_multiset());
        }
        let rng = rng_from_seed(seed);
        TrackIterator { track, track_queue, rng }
    }

    /// Whether any track is still queued.
    pub fn has_more(&self) -> (more: bool)
        ensures
            more == (self.spec_queue().len() > 0),
    {
        !self.track_queue.is_empty()
    }

    /// Make the next drawn track current.  With an empty queue nothing
    /// changes and the draw is refused.
    pub fn go_next(&mut self) -> (r: Result<(), &'static str>)
        ensures
            r is Ok <==> old(self).spec_queue().len() > 0,
            r matches Err(m) ==> final(self).spec_queue() == old(self).spec_queue()
                && final(self).spec_current() == old(self).spec_current() && m@
                == "No more tracks to play"@,
            r is Ok ==> final(self).spec_queue().len() == old(self).spec_queue().len() - 1
                && final(self).spec_queue().to_multiset().insert(final(self).spec_current())
                == old(self).spec_queue().to_multiset(),
    {
        match self.get_next() {
            Ok(nx_track) => {
                self.track = nx_track;
                Ok(())
            },
            Err(e) => Err(e),
        }
    }

    /// Draw one track: re-shuffle the queue, pick a position at random,
    /// and hand that track out, removing it from the queue.  The current
    /// track is untouched.
    pub fn get_next(&mut self) -> (r: Result<Track, &'static str>)
        ensures
            r is Ok <==> old(self).spec_queue().len() > 0,
            final(self).spec_current() == old(self).spec_current(),
            r matches Err(m) ==> final(self).spec_queue() == old(self).spec_queue() && m@
                == "No more tracks to play"@,
            r matches Ok(t) ==> final(self).spec_queue().len() == old(self).spec_queue().len()
                - 1 && final(self).spec_queue().to_multiset().insert(t)
                == old(self).spec_queue().to_multiset(),
    {
        if !self.has_more() {
            return Err("No more tracks to play");
        }
        let ghost before = self.track_queue@;
        self.shuffle();
        let ghost shuffled = self.track_queue@;
        let next_index = self.pick_next();
        let nx_track = self.track_queue.remove(next_index);
        proof {
            broadcast use vstd::seq_lib::group_to_multiset_ensures;

            assert(shuffled.to_multiset().contains(shuffled[next_index as int]));
            assert(self.track_queue@.to_multiset().insert(nx_track) =~= before.to_multiset());
        }
        Ok(nx_track)
    }

    /// Re-shuffle the queued tracks in place.
    fn shuffle(&mut self)
        ensures
            final(self).spec_queue().len() == old(self).spec_queue().len(),
            final(self).spec_queue().to_multiset() == old(self).spec_queue().to_multiset(),
            final(self).spec_current() == old(self).spec_current(),
    {
        shuffle_tracks(&mut self.track_queue, &mut self.rng);
    }

    /// Draw a queue position at random.
    fn pick_next(&mut self) -> (i: usize)
        requires
            old(self).spec_queue().len() > 0,
        ensures
            i < old(self).spec_queue().len(),
            final(self).spec_queue() == old(self).spec_queue(),
            final(self).spec_current() == old(self).spec_current(),
    {
        let len = self.track_queue.len();
        rng_below(&mut self.rng, len)
    }

    /// The track playing now.
    pub fn get_current(&self) -> (t: &Track)
        ensures
            *t == self.spec_current(),
    {
        &self.track
    }

    /// Shuffle any track list with a one-off generator built from `seed`:
    /// a permutation — same tracks, same length.
    pub fn shuffle_vec(vec: &mut Vec<Track>, seed: u64)
        ensures
            final(vec)@.len() == old(vec)@.len(),
            final(vec)@.to_multiset() == old(vec)@.to_multiset(),
    {
        let mut rng = rng_from_seed(seed);
        shuffle_tracks(vec, &mut rng)
    }
}

} // verus!
