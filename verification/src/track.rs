//! A track as the scrobbling service names it: a title and an artist.

use vstd::prelude::*;

verus! {

/// A track of the desired state. Two tracks are the same track when both fields
/// hold the same text, compared exactly and with case.
#[derive(Debug, Hash)]
pub struct Track {
    pub name: String,
    pub artist: String,
}

/// What a track is to the contracts: its two texts as sequences of characters.
pub struct TrackView {
    pub name: Seq<char>,
    pub artist: Seq<char>,
}

impl View for Track {
    type V = TrackView;

    open spec fn view(&self) -> TrackView {
        TrackView { name: self.name@, artist: self.artist@ }
    }
}

impl DeepView for Track {
    type V = TrackView;

    open spec fn deep_view(&self) -> TrackView {
        self@
    }
}

impl Clone for Track {
    fn clone(&self) -> (copy: Track)
        ensures
            copy@ == self@,
    {
        Track { name: self.name.clone(), artist: self.artist.clone() }
    }
}

impl PartialEq for Track {
    fn eq(&self, other: &Track) -> (same: bool) {
        self.name == other.name && self.artist == other.artist
    }
}

impl Eq for Track {

}

impl vstd::std_specs::cmp::PartialEqSpecImpl for Track {
    open spec fn obeys_eq_spec() -> bool {
        true
    }

    open spec fn eq_spec(&self, other: &Track) -> bool {
        self@ == other@
    }
}

impl Track {
    /// A track with the given title and artist.
    pub fn new(name: String, artist: String) -> (track: Track)
        ensures
            track@ == (TrackView { name: name@, artist: artist@ }),
    {
        Track { name, artist }
    }
}

} // verus!
