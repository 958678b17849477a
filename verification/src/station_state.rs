//! Station state as seen by collaborators that only hold a handle to it.
//!
//! The trait is a marker for pluggable station behaviour; the mock carries
//! just enough state to exercise callers that swap states in and out.

use vstd::prelude::*;

verus! {

/// A station's pluggable behavioural state.
pub trait StationState {

}

/// A stand-in state for exercising state changes.
pub struct MockStationState {
    pub teste: i64,
}

impl MockStationState {
    /// The mock state in its initial configuration.
    pub fn new() -> (s: MockStationState)
        ensures
            s.teste == 1,
    {
        MockStationState { teste: 1 }
    }
}

impl StationState for MockStationState {

}

} // verus!
