//! The text with which a track is looked up at the media search.

use crate::track::{Track, TrackView};
use vstd::prelude::*;
use vstd::string::StringExecFns;

verus! {

/// The search text for a track: artist, a space, title, and words that steer
/// the search towards the studio recording.
pub open spec fn search_query(track: TrackView) -> Seq<char> {
    track.artist + " "@ + track.name + " Album Audio"@
}

/// The search text for `track`.
pub fn get_query(track: &Track) -> (query: String)
    ensures
        query@ == search_query(track@),
{
    let mut query = track.artist.clone();
    query.append(" ");
    query.append(track.name.as_str());
    query.append(" Album Audio");
    query
}

} // verus!
