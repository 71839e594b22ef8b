//! The requests for a listener's top tracks, and the union of the answers.
//!
//! The service is asked once for each time window. Sending a request and
//! reading its answer is the caller's part; the addresses to ask, and the
//! desired state that the answers make together, are settled here.

use crate::track::{Track, TrackView};
use vstd::prelude::*;
use vstd::string::StringExecFns;

verus! {

/// The time windows, in the order in which they are asked for.
pub open spec fn period_names() -> Seq<Seq<char>> {
    seq!["7day"@, "1month"@, "3month"@, "6month"@, "12month"@, "overall"@]
}

/// The address that answers with the top tracks of `username` in `period`.
pub open spec fn request_url(username: Seq<char>, api_key: Seq<char>, period: Seq<char>) -> Seq<
    char,
> {
    "http://ws.audioscrobbler.com/2.0/?method=user.gettoptracks&user="@ + username + "&api_key="@
        + api_key + "&format=json&period="@ + period + "&limit=200"@
}

/// The time windows, in the order in which they are asked for.
pub fn periods() -> (names: Vec<String>)
    ensures
        names.deep_view() == period_names(),
{
    let mut names: Vec<String> = Vec::new();
    names.push(String::from_str("7day"));
    names.push(String::from_str("1month"));
    names.push(String::from_str("3month"));
    names.push(String::from_str("6month"));
    names.push(String::from_str("12month"));
    names.push(String::from_str("overall"));
    assert(names.deep_view() =~= period_names());
    names
}

/// The address that answers with the top tracks of `username` in `period`.
pub fn top_tracks_url(username: &str, api_key: &str, period: &str) -> (url: String)
    ensures
        url@ == request_url(username@, api_key@, period@),
{
    let mut url = String::from_str(
        "http://ws.audioscrobbler.com/2.0/?method=user.gettoptracks&user=",
    );
    url.append(username);
    url.append("&api_key=");
    url.append(api_key);
    url.append("&format=json&period=");
    url.append(period);
    url.append("&limit=200");
    url
}

/// The tracks among the first `n` of `tracks` that no earlier place holds, in
/// their order.
pub open spec fn distinct_among(tracks: Seq<TrackView>, n: int) -> Seq<TrackView>
    decreases n,
{
    if n <= 0 {
        Seq::empty()
    } else if tracks.take(n - 1).contains(tracks[n - 1]) {
        distinct_among(tracks, n - 1)
    } else {
        distinct_among(tracks, n - 1).push(tracks[n - 1])
    }
}

/// `tracks` without repetitions: each track where it first occurs.
pub open spec fn distinct(tracks: Seq<TrackView>) -> Seq<TrackView> {
    distinct_among(tracks, tracks.len() as int)
}

/// Whether `track` is among `tracks`.
fn holds_track(tracks: &Vec<Track>, track: &Track) -> (found: bool)
    ensures
        found == tracks.deep_view().contains(track@),
{
    let mut i: usize = 0;
    while i < tracks.len()
        invariant
            i <= tracks.len(),
            forall|j: int| 0 <= j < i ==> tracks.deep_view()[j] != track@,
        decreases tracks.len() - i,
    {
        if tracks[i] == *track {
            assert(tracks.deep_view()[i as int] == track@);
            return true;
        }
        i += 1;
    }
    false
}

/// The union of the answers as one desired state: the tracks of `all`, each
/// once, in the order in which they first occur.
pub fn unique_tracks(all: Vec<Track>) -> (unique: Vec<Track>)
    ensures
        unique.deep_view() == distinct(all.deep_view()),
{
    let ghost given = all.deep_view();
    let ghost tracks = all@;
    let mut unique: Vec<Track> = Vec::new();
    for track in it: all
        invariant
            it.seq() == tracks,
            given.len() == tracks.len(),
            forall|k: int| 0 <= k < tracks.len() ==> given[k] == (#[trigger] tracks[k])@,
            unique.deep_view() == distinct_among(given, it.index()),
            forall|t: TrackView|
                unique.deep_view().contains(t) <==> given.take(it.index()).contains(t),
    {
        let ghost i = it.index();
        let ghost before = unique.deep_view();
        assert(track@ == given[i]);
        assert(given.take(i + 1) =~= given.take(i).push(given[i]));
        if !holds_track(&unique, &track) {
            unique.push(track);
            assert(unique.deep_view() =~= before.push(given[i]));
        }
        assert forall|t: TrackView|
            unique.deep_view().contains(t) <==> given.take(i + 1).contains(t) by {
            broadcast use vstd::seq_lib::group_seq_properties;

        }
    }
    unique
}

/// `distinct` keeps every track and repeats none.
pub proof fn lemma_distinct(tracks: Seq<TrackView>)
    ensures
        distinct(tracks).no_duplicates(),
        forall|t: TrackView| #[trigger] distinct(tracks).contains(t) <==> tracks.contains(t),
{
    lemma_distinct_among(tracks, tracks.len() as int);
    assert(tracks.take(tracks.len() as int) =~= tracks);
}

proof fn lemma_distinct_among(tracks: Seq<TrackView>, n: int)
    requires
        0 <= n <= tracks.len(),
    ensures
        distinct_among(tracks, n).no_duplicates(),
        forall|t: TrackView| #[trigger]
            distinct_among(tracks, n).contains(t) <==> tracks.take(n).contains(t),
    decreases n,
{
    broadcast use vstd::seq_lib::group_seq_properties;

    if n > 0 {
        lemma_distinct_among(tracks, n - 1);
        assert(tracks.take(n) =~= tracks.take(n - 1).push(tracks[n - 1]));
        if !tracks.take(n - 1).contains(tracks[n - 1]) {
            assert(!distinct_among(tracks, n - 1).contains(tracks[n - 1]));
        }
    } else {
        assert(tracks.take(0) =~= Seq::<TrackView>::empty());
    }
}

} // verus!
