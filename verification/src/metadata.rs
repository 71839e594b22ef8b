//! Title and artist in the tag of an audio file.
//!
//! Reading a tag from a file and writing it back is the caller's part. What
//! lies between, the change to the tag itself, is made here.

use crate::track::{Track, TrackView};
use id3::{Tag, TagLike};
use vstd::prelude::*;

verus! {

/// `id3::Tag`, the tag of an audio file. Nothing of its inside is seen here:
/// what it holds is spoken of as `tag_frames`.
#[verifier::external_type_specification]
#[verifier::external_body]
pub struct ExTag(id3::Tag);

/// The frames of a tag, in the order in which the tag holds them. Of each
/// frame: its identifier; its text, where its content is plain text; and
/// whether its content is of a kind of which a tag holds one frame for each
/// identifier (plain text, link, location lookup table, list of involved
/// people).
pub uninterp spec fn tag_frames(tag: Tag) -> Seq<(Seq<char>, Option<Seq<char>>, bool)>;

/// The identifier of the frame that holds the title.
pub open spec fn title_id() -> Seq<char> {
    seq!['T', 'I', 'T', '2']
}

/// The identifier of the frame that holds the artist.
pub open spec fn artist_id() -> Seq<char> {
    seq!['T', 'P', 'E', '1']
}

/// Whether a text frame with identifier `id` takes the place of `frame`.
pub open spec fn gives_way(frame: (Seq<char>, Option<Seq<char>>, bool), id: Seq<char>) -> bool {
    frame.0 == id && frame.2
}

/// The place of the first frame that gives way to a text frame with
/// identifier `id`, or the number of frames where none does.
pub open spec fn first_giving_way(
    frames: Seq<(Seq<char>, Option<Seq<char>>, bool)>,
    id: Seq<char>,
) -> int
    decreases frames.len(),
{
    if frames.len() == 0 {
        0
    } else if gives_way(frames[0], id) {
        0
    } else {
        1 + first_giving_way(frames.drop_first(), id)
    }
}

/// The frames after a text frame is set: the first frame that gives way to it
/// leaves, and the new frame is added at the end.
pub open spec fn with_text(
    frames: Seq<(Seq<char>, Option<Seq<char>>, bool)>,
    id: Seq<char>,
    text: Seq<char>,
) -> Seq<(Seq<char>, Option<Seq<char>>, bool)> {
    let at = first_giving_way(frames, id);
    let kept = if at < frames.len() {
        frames.remove(at)
    } else {
        frames
    };
    kept.push((id, Some(text), true))
}

/// The frames of a tag after title and artist of `track` are set in it.
pub open spec fn tagged(
    frames: Seq<(Seq<char>, Option<Seq<char>>, bool)>,
    track: TrackView,
) -> Seq<(Seq<char>, Option<Seq<char>>, bool)> {
    with_text(with_text(frames, title_id(), track.name), artist_id(), track.artist)
}

/// `id3::Tag::new` makes a tag without frames.
#[verifier::external_body]
fn empty_tag() -> (tag: Tag)
    ensures
        tag_frames(tag) == Seq::<(Seq<char>, Option<Seq<char>>, bool)>::empty(),
{
    Tag::new()
}

/// `id3::TagLike::set_title` on a tag: it adds a plain text frame `TIT2` that
/// holds `title`. Adding takes out the first frame that the new one
/// conflicts with, a frame of the same identifier with content of a
/// one-for-each-identifier kind, and puts the new frame at the end.
#[verifier::external_body]
fn set_title(tag: &mut Tag, title: &str)
    ensures
        tag_frames(*final(tag)) == with_text(tag_frames(*old(tag)), title_id(), title@),
{
    tag.set_title(title);
}

/// `id3::TagLike::set_artist` on a tag: as `set_title`, with the frame `TPE1`.
#[verifier::external_body]
fn set_artist(tag: &mut Tag, artist: &str)
    ensures
        tag_frames(*final(tag)) == with_text(tag_frames(*old(tag)), artist_id(), artist@),
{
    tag.set_artist(artist);
}

/// Sets title and artist of `track` in the tag that was read from a file, or
/// in a tag without frames where the file had none. Every other frame stays.
pub fn apply_metadata(existing: Option<Tag>, track: &Track) -> (tag: Tag)
    ensures
        tag_frames(tag) == tagged(
            match existing {
                Some(read) => tag_frames(read),
                None => Seq::empty(),
            },
            track@,
        ),
{
    let mut tag = match existing {
        Some(read) => read,
        None => empty_tag(),
    };
    set_title(&mut tag, track.name.as_str());
    set_artist(&mut tag, track.artist.as_str());
    tag
}

/// Where `first_giving_way` points: at a frame that gives way, or past the end.
proof fn lemma_first_giving_way(frames: Seq<(Seq<char>, Option<Seq<char>>, bool)>, id: Seq<char>)
    ensures
        0 <= first_giving_way(frames, id) <= frames.len(),
        first_giving_way(frames, id) < frames.len() ==> gives_way(
            frames[first_giving_way(frames, id)],
            id,
        ),
    decreases frames.len(),
{
    if frames.len() > 0 && !gives_way(frames[0], id) {
        lemma_first_giving_way(frames.drop_first(), id);
    }
}

/// Setting a text frame leaves the frames of every other identifier as they
/// were, and puts the new frame last.
proof fn lemma_with_text(
    frames: Seq<(Seq<char>, Option<Seq<char>>, bool)>,
    id: Seq<char>,
    text: Seq<char>,
)
    ensures
        with_text(frames, id, text).last() == (id, Some(text), true),
        with_text(frames, id, text).len() > 0,
        forall|frame: (Seq<char>, Option<Seq<char>>, bool)|
            frame.0 != id ==> (#[trigger] with_text(frames, id, text).contains(frame)
                <==> frames.contains(frame)),
{
    lemma_first_giving_way(frames, id);
    let at = first_giving_way(frames, id);
    let set = with_text(frames, id, text);
    assert forall|frame: (Seq<char>, Option<Seq<char>>, bool)| frame.0 != id implies (
    #[trigger] set.contains(frame) <==> frames.contains(frame)) by {
        if frames.contains(frame) {
            let i = choose|i: int| 0 <= i < frames.len() && frames[i] == frame;
            if at < frames.len() {
                if i < at {
                    assert(set[i] == frame);
                } else {
                    assert(set[i - 1] == frame);
                }
            } else {
                assert(set[i] == frame);
            }
        }
        if set.contains(frame) {
            let i = choose|i: int| 0 <= i < set.len() && set[i] == frame;
            if at < frames.len() {
                if i < at {
                    assert(frames[i] == frame);
                } else {
                    assert(frames[i + 1] == frame);
                }
            } else {
                assert(frames[i] == frame);
            }
        }
    }
}

/// A tag without frames holds, once tagged, the title and the artist of the
/// track and nothing else.
pub proof fn lemma_tagged_fresh(track: TrackView)
    ensures
        tagged(Seq::empty(), track) == seq![
            (title_id(), Some(track.name), true),
            (artist_id(), Some(track.artist), true),
        ],
{
    let none = Seq::<(Seq<char>, Option<Seq<char>>, bool)>::empty();
    let titled = with_text(none, title_id(), track.name);
    assert(titled =~= seq![(title_id(), Some(track.name), true)]);
    assert(title_id()[1] != artist_id()[1]);
    assert(!gives_way(titled[0], artist_id()));
    assert(titled.drop_first() =~= none);
    assert(first_giving_way(titled.drop_first(), artist_id()) == 0);
    assert(first_giving_way(titled, artist_id()) == 1);
    assert(tagged(none, track) =~= seq![
        (title_id(), Some(track.name), true),
        (artist_id(), Some(track.artist), true),
    ]);
}

/// Whatever a tag held, once tagged it holds a text frame with the title of
/// the track and one with its artist, and every frame of another identifier
/// that it held before and no other.
pub proof fn lemma_tagged_holds_both(
    frames: Seq<(Seq<char>, Option<Seq<char>>, bool)>,
    track: TrackView,
)
    ensures
        tagged(frames, track).contains((title_id(), Some(track.name), true)),
        tagged(frames, track).contains((artist_id(), Some(track.artist), true)),
        forall|frame: (Seq<char>, Option<Seq<char>>, bool)|
            frame.0 != title_id() && frame.0 != artist_id() ==> (#[trigger] tagged(
                frames,
                track,
            ).contains(frame) <==> frames.contains(frame)),
{
    let titled = with_text(frames, title_id(), track.name);
    lemma_with_text(frames, title_id(), track.name);
    lemma_with_text(titled, artist_id(), track.artist);
    assert(title_id()[1] != artist_id()[1]);
    assert(titled.contains(titled.last()));
    let both = tagged(frames, track);
    assert(both.contains(both.last()));
}

} // verus!
