//! What the library directory and the desired state differ by.
//!
//! The directory is given as the list of the names of its entries, taken once
//! at the start of a run. A track is found in it under its file name and under
//! nothing else.

use crate::names::{file_name, track_filename};
use crate::track::{Track, TrackView};
use vstd::prelude::*;

verus! {

/// The work of one run: the tracks to bring into the library and the files to
/// take out of it.
#[derive(Debug)]
pub struct Diff {
    pub add: Vec<Track>,
    pub remove: Vec<String>,
}

/// The file names of `tracks`, place by place.
pub open spec fn file_names(tracks: Seq<TrackView>) -> Seq<Seq<char>> {
    Seq::new(tracks.len(), |i: int| file_name(tracks[i]))
}

/// Whether the track at place `i` is to be added: no listed file has its name,
/// and no track before it has it.
pub open spec fn is_missing(listing: Seq<Seq<char>>, tracks: Seq<TrackView>, i: int) -> bool {
    &&& !listing.contains(file_name(tracks[i]))
    &&& !file_names(tracks).take(i).contains(file_name(tracks[i]))
}

/// The tracks to be added among the first `n` of `tracks`, in their order.
pub open spec fn missing_among(listing: Seq<Seq<char>>, tracks: Seq<TrackView>, n: int) -> Seq<
    TrackView,
>
    decreases n,
{
    if n <= 0 {
        Seq::empty()
    } else if is_missing(listing, tracks, n - 1) {
        missing_among(listing, tracks, n - 1).push(tracks[n - 1])
    } else {
        missing_among(listing, tracks, n - 1)
    }
}

/// The tracks to be added: those whose file name is not listed, in the order
/// of `tracks`, one track for each file name.
pub open spec fn missing(listing: Seq<Seq<char>>, tracks: Seq<TrackView>) -> Seq<TrackView> {
    missing_among(listing, tracks, tracks.len() as int)
}

/// Whether the file of a track is not listed.
pub open spec fn unlisted(listing: Seq<Seq<char>>) -> spec_fn(TrackView) -> bool {
    |track: TrackView| !listing.contains(file_name(track))
}

/// Whether a file is the file of none of `tracks`.
pub open spec fn unwanted(tracks: Seq<TrackView>) -> spec_fn(Seq<char>) -> bool {
    |file: Seq<char>| !file_names(tracks).contains(file)
}

/// The files to be removed: the listed files that are the file of no track,
/// in the order of the listing.
pub open spec fn stale(listing: Seq<Seq<char>>, tracks: Seq<TrackView>) -> Seq<Seq<char>> {
    listing.filter(unwanted(tracks))
}

/// Whether `name` is among `names`.
fn holds(names: &Vec<String>, name: &String) -> (found: bool)
    ensures
        found == names.deep_view().contains(name@),
{
    let mut i: usize = 0;
    while i < names.len()
        invariant
            i <= names.len(),
            forall|j: int| 0 <= j < i ==> names.deep_view()[j] != name@,
        decreases names.len() - i,
    {
        if names[i] == *name {
            assert(names.deep_view()[i as int] == name@);
            return true;
        }
        i += 1;
    }
    false
}

/// Compares the entries of the library directory with the desired tracks.
///
/// `existing_files` holds the names of the directory's entries; an unreadable
/// or missing directory is an empty list. A track is to be added where no
/// entry has its file name; of several tracks with one file name the first is
/// taken. An entry is to be removed where it is the file of no track.
pub fn get_diff(existing_files: Vec<String>, tracks: Vec<Track>) -> (diff: Diff)
    ensures
        diff.add.deep_view() == missing(existing_files.deep_view(), tracks.deep_view()),
        diff.remove.deep_view() == stale(existing_files.deep_view(), tracks.deep_view()),
{
    let ghost listing = existing_files.deep_view();
    let ghost wanted = tracks.deep_view();
    let ghost all = tracks@;
    let mut add: Vec<Track> = Vec::new();
    let mut names: Vec<String> = Vec::new();
    for track in it: tracks
        invariant
            it.seq() == all,
            listing == existing_files.deep_view(),
            wanted.len() == all.len(),
            forall|k: int| 0 <= k < all.len() ==> wanted[k] == (#[trigger] all[k])@,
            names.deep_view() == file_names(wanted).take(it.index()),
            add.deep_view() == missing_among(listing, wanted, it.index()),
    {
        let ghost i = it.index();
        let ghost before = add.deep_view();
        assert(track@ == wanted[i]);
        let name = track_filename(&track);
        let absent = !holds(&existing_files, &name) && !holds(&names, &name);
        assert(absent == is_missing(listing, wanted, i));
        if absent {
            add.push(track);
            assert(add.deep_view() =~= before.push(wanted[i]));
        }
        let ghost listed = names.deep_view();
        names.push(name);
        assert(names.deep_view() =~= listed.push(file_name(wanted[i])));
        assert(listed.push(file_name(wanted[i])) =~= file_names(wanted).take(i + 1));
    }
    assert(file_names(wanted).take(wanted.len() as int) == file_names(wanted));
    let ghost files = existing_files@;
    let mut remove: Vec<String> = Vec::new();
    for file in it: existing_files
        invariant
            it.seq() == files,
            listing.len() == files.len(),
            forall|k: int| 0 <= k < files.len() ==> listing[k] == (#[trigger] files[k])@,
            names.deep_view() == file_names(wanted),
            remove.deep_view() == listing.take(it.index()).filter(unwanted(wanted)),
    {
        let ghost i = it.index();
        let ghost before = remove.deep_view();
        assert(file@ == listing[i]);
        assert(listing.take(i + 1) == listing.take(i).push(listing[i]));
        proof {
            listing.take(i).lemma_filter_push(listing[i], unwanted(wanted));
        }
        if !holds(&names, &file) {
            remove.push(file);
            assert(remove.deep_view() =~= before.push(listing[i]));
        }
    }
    assert(listing.take(listing.len() as int) == listing);
    Diff { add, remove }
}

/// The diff for a run, or none where there is no desired state: without a
/// desired track nothing is added and nothing removed.
pub fn desired_diff(existing_files: Vec<String>, tracks: Vec<Track>) -> (diff: Option<Diff>)
    ensures
        match diff {
            Some(found) => {
                &&& tracks.len() > 0
                &&& found.add.deep_view() == missing(
                    existing_files.deep_view(),
                    tracks.deep_view(),
                )
                &&& found.remove.deep_view() == stale(
                    existing_files.deep_view(),
                    tracks.deep_view(),
                )
            },
            None => tracks.len() == 0,
        },
{
    if tracks.len() == 0 {
        None
    } else {
        Some(get_diff(existing_files, tracks))
    }
}

/// What `missing_among` holds, by file names, and that it holds each once.
proof fn lemma_missing_among(listing: Seq<Seq<char>>, tracks: Seq<TrackView>, n: int)
    requires
        0 <= n <= tracks.len(),
    ensures
        forall|name: Seq<char>| #[trigger]
            file_names(missing_among(listing, tracks, n)).contains(name) <==> (file_names(
                tracks,
            ).take(n).contains(name) && !listing.contains(name)),
        forall|k: int|
            0 <= k < missing_among(listing, tracks, n).len() ==> tracks.contains(
                #[trigger] missing_among(listing, tracks, n)[k],
            ),
        file_names(missing_among(listing, tracks, n)).no_duplicates(),
    decreases n,
{
    broadcast use vstd::seq_lib::group_seq_properties;

    if n > 0 {
        lemma_missing_among(listing, tracks, n - 1);
        let earlier = missing_among(listing, tracks, n - 1);
        let track = tracks[n - 1];
        let name = file_name(track);
        assert(file_names(tracks).take(n) =~= file_names(tracks).take(n - 1).push(name));
        if is_missing(listing, tracks, n - 1) {
            assert(file_names(earlier.push(track)) =~= file_names(earlier).push(name));
            assert(!file_names(earlier).contains(name));
            assert(tracks.contains(track));
        }
    } else {
        assert(file_names(tracks).take(0) =~= Seq::<Seq<char>>::empty());
        assert(file_names(missing_among(listing, tracks, n)) =~= Seq::<Seq<char>>::empty());
    }
}

/// The two lists of a diff are what the desired state and the listing differ
/// by. A file name is the name of a track to be added exactly when a desired
/// track has it and no listed file; no two tracks to be added share a file
/// name, and each is one of the desired tracks. A file is to be removed
/// exactly when it is listed and no desired track has its name. So nothing is
/// both added and removed, and no file that a desired track names is removed.
pub proof fn lemma_diff_is_the_difference(listing: Seq<Seq<char>>, tracks: Seq<TrackView>)
    ensures
        forall|name: Seq<char>| #[trigger]
            file_names(missing(listing, tracks)).contains(name) <==> (file_names(tracks).contains(
                name,
            ) && !listing.contains(name)),
        forall|k: int|
            0 <= k < missing(listing, tracks).len() ==> tracks.contains(
                #[trigger] missing(listing, tracks)[k],
            ),
        file_names(missing(listing, tracks)).no_duplicates(),
        forall|file: Seq<char>| #[trigger]
            stale(listing, tracks).contains(file) <==> (listing.contains(file) && !file_names(
                tracks,
            ).contains(file)),
        forall|file: Seq<char>|
            !(file_names(missing(listing, tracks)).contains(file) && #[trigger] stale(
                listing,
                tracks,
            ).contains(file)),
{
    broadcast use vstd::seq_lib::group_seq_properties;

    lemma_missing_among(listing, tracks, tracks.len() as int);
    assert(file_names(tracks).take(tracks.len() as int) =~= file_names(tracks));
    assert forall|file: Seq<char>| #[trigger]
        stale(listing, tracks).contains(file) <==> (listing.contains(file) && !file_names(
            tracks,
        ).contains(file)) by {
        if stale(listing, tracks).contains(file) {
            listing.lemma_filter_contains_rev(unwanted(tracks), file);
            let k = choose|k: int|
                0 <= k < stale(listing, tracks).len() && stale(listing, tracks)[k] == file;
            listing.lemma_filter_pred(unwanted(tracks), k);
        }
        if listing.contains(file) && !file_names(tracks).contains(file) {
            let k = choose|k: int| 0 <= k < listing.len() && listing[k] == file;
            listing.lemma_filter_contains(unwanted(tracks), k);
        }
    }
}

/// Where every desired track has its file in the listing, nothing is to be
/// added.
pub proof fn lemma_nothing_missing(listing: Seq<Seq<char>>, tracks: Seq<TrackView>)
    requires
        forall|name: Seq<char>| #[trigger]
            file_names(tracks).contains(name) ==> listing.contains(name),
    ensures
        missing(listing, tracks) == Seq::<TrackView>::empty(),
{
    broadcast use vstd::seq_lib::group_seq_properties;

    lemma_diff_is_the_difference(listing, tracks);
    let add = missing(listing, tracks);
    if add.len() > 0 {
        assert(file_names(add)[0] == file_name(add[0]));
        assert(file_names(add).contains(file_name(add[0])));
    }
    assert(add =~= Seq::<TrackView>::empty());
}

/// Where every listed file is the file of a desired track, nothing is to be
/// removed.
pub proof fn lemma_nothing_stale(listing: Seq<Seq<char>>, tracks: Seq<TrackView>)
    requires
        forall|file: Seq<char>| #[trigger]
            listing.contains(file) ==> file_names(tracks).contains(file),
    ensures
        stale(listing, tracks) == Seq::<Seq<char>>::empty(),
{
    broadcast use vstd::seq_lib::group_seq_properties;

    lemma_diff_is_the_difference(listing, tracks);
    let remove = stale(listing, tracks);
    if remove.len() > 0 {
        assert(remove.contains(remove[0]));
    }
    assert(remove =~= Seq::<Seq<char>>::empty());
}

/// Filtering by what holds of every element keeps the sequence.
proof fn lemma_filter_keeps_all(files: Seq<Seq<char>>, keep: spec_fn(Seq<char>) -> bool, n: int)
    requires
        0 <= n <= files.len(),
        forall|k: int| 0 <= k < files.len() ==> keep(#[trigger] files[k]),
    ensures
        files.take(n).filter(keep) == files.take(n),
    decreases n,
{
    if n > 0 {
        lemma_filter_keeps_all(files, keep, n - 1);
        assert(files.take(n) =~= files.take(n - 1).push(files[n - 1]));
        files.take(n - 1).lemma_filter_push(files[n - 1], keep);
    } else {
        assert(files.take(0) =~= Seq::<Seq<char>>::empty());
        assert(files.take(0).filter(keep).len() <= 0) by {
            files.take(0).lemma_filter_len(keep);
        }
        assert(files.take(0).filter(keep) =~= Seq::<Seq<char>>::empty());
    }
}

/// With an empty library, the tracks to add among the first `n` are those
/// first `n`, where no two tracks share a file name.
proof fn lemma_all_missing(tracks: Seq<TrackView>, n: int)
    requires
        0 <= n <= tracks.len(),
        file_names(tracks).no_duplicates(),
    ensures
        missing_among(Seq::empty(), tracks, n) == tracks.take(n),
    decreases n,
{
    broadcast use vstd::seq_lib::group_seq_properties;

    if n > 0 {
        lemma_all_missing(tracks, n - 1);
        let name = file_name(tracks[n - 1]);
        assert(file_names(tracks)[n - 1] == name);
        if file_names(tracks).take(n - 1).contains(name) {
            let k = choose|k: int| 0 <= k < n - 1 && file_names(tracks)[k] == name;
            assert(file_names(tracks)[k] == file_names(tracks)[n - 1]);
        }
        assert(is_missing(Seq::empty(), tracks, n - 1));
        assert(tracks.take(n) =~= tracks.take(n - 1).push(tracks[n - 1]));
    } else {
        assert(tracks.take(0) =~= Seq::<TrackView>::empty());
    }
}

/// The diff where one side is empty. Without desired tracks nothing is added
/// and every listed file removed. With an empty library nothing is removed,
/// and every desired track added, where no two of them share a file name.
pub proof fn lemma_diff_of_an_empty_side(listing: Seq<Seq<char>>, tracks: Seq<TrackView>)
    ensures
        missing(listing, Seq::empty()) == Seq::<TrackView>::empty(),
        stale(listing, Seq::empty()) == listing,
        stale(Seq::empty(), tracks) == Seq::<Seq<char>>::empty(),
        file_names(tracks).no_duplicates() ==> missing(Seq::empty(), tracks) == tracks,
{
    broadcast use vstd::seq_lib::group_seq_properties;

    let none = Seq::<TrackView>::empty();
    assert(file_names(none) =~= Seq::<Seq<char>>::empty());
    lemma_filter_keeps_all(listing, unwanted(none), listing.len() as int);
    assert(listing.take(listing.len() as int) =~= listing);
    lemma_nothing_stale(Seq::empty(), tracks);
    if file_names(tracks).no_duplicates() {
        lemma_all_missing(tracks, tracks.len() as int);
        assert(tracks.take(tracks.len() as int) =~= tracks);
    }
}

proof fn lemma_missing_among_is_a_filter(
    listing: Seq<Seq<char>>,
    tracks: Seq<TrackView>,
    n: int,
)
    requires
        0 <= n <= tracks.len(),
        file_names(tracks).no_duplicates(),
    ensures
        missing_among(listing, tracks, n) == tracks.take(n).filter(unlisted(listing)),
    decreases n,
{
    broadcast use vstd::seq_lib::group_seq_properties;

    if n > 0 {
        lemma_missing_among_is_a_filter(listing, tracks, n - 1);
        let name = file_name(tracks[n - 1]);
        assert(file_names(tracks)[n - 1] == name);
        if file_names(tracks).take(n - 1).contains(name) {
            let k = choose|k: int| 0 <= k < n - 1 && file_names(tracks)[k] == name;
            assert(file_names(tracks)[k] == file_names(tracks)[n - 1]);
        }
        assert(is_missing(listing, tracks, n - 1) == unlisted(listing)(tracks[n - 1]));
        assert(tracks.take(n) =~= tracks.take(n - 1).push(tracks[n - 1]));
        tracks.take(n - 1).lemma_filter_push(tracks[n - 1], unlisted(listing));
    } else {
        assert(tracks.take(0) =~= Seq::<TrackView>::empty());
        assert(tracks.take(0).filter(unlisted(listing)).len() <= 0) by {
            tracks.take(0).lemma_filter_len(unlisted(listing));
        }
        assert(tracks.take(0).filter(unlisted(listing)) =~= Seq::<TrackView>::empty());
    }
}

/// Where no two desired tracks share a file name, the tracks to add are the
/// desired tracks whose file is not listed, all of them, in their order.
pub proof fn lemma_missing_is_a_filter(listing: Seq<Seq<char>>, tracks: Seq<TrackView>)
    requires
        file_names(tracks).no_duplicates(),
    ensures
        missing(listing, tracks) == tracks.filter(unlisted(listing)),
{
    lemma_missing_among_is_a_filter(listing, tracks, tracks.len() as int);
    assert(tracks.take(tracks.len() as int) =~= tracks);
}

} // verus!
