//! The file name under which a track is kept in the library directory.
//!
//! The name is the only key that joins a track of the desired state with a file
//! on disk: two tracks are the same file exactly when their names here agree.

use crate::track::{Track, TrackView};
use vstd::prelude::*;
use vstd::string::StringExecFns;

verus! {

/// The characters that may not stand in a file name.
pub open spec fn is_forbidden(c: char) -> bool {
    c == '<' || c == '>' || c == ':' || c == '"' || c == '/' || c == '\\' || c == '|' || c == '?'
        || c == '*'
}

/// A character as it stands in a file name: an underscore in place of a
/// forbidden character, any other character unchanged.
pub open spec fn sanitize_char(c: char) -> char {
    if is_forbidden(c) {
        '_'
    } else {
        c
    }
}

/// A text with every forbidden character replaced by an underscore.
pub open spec fn sanitized(s: Seq<char>) -> Seq<char> {
    Seq::new(s.len(), |i: int| sanitize_char(s[i]))
}

/// What stands between title and artist in a file name.
pub open spec fn separator() -> Seq<char> {
    seq![' ', '-', ' ']
}

/// The ending of every file name.
pub open spec fn extension() -> Seq<char> {
    seq!['.', 'm', 'p', '3']
}

/// The file name of a track: title, separator and artist, sanitized as one
/// text, then the extension.
pub open spec fn file_name(track: TrackView) -> Seq<char> {
    sanitized(track.name + separator() + track.artist) + extension()
}

/// `String::push` appends one character to the end of the string.
pub assume_specification[ String::push ](s: &mut String, c: char)
    ensures
        final(s)@ == old(s)@.push(c),
;

fn sanitize(c: char) -> (out: char)
    ensures
        out == sanitize_char(c),
{
    if c == '<' || c == '>' || c == ':' || c == '"' || c == '/' || c == '\\' || c == '|' || c == '?'
        || c == '*' {
        '_'
    } else {
        c
    }
}

/// Replaces every forbidden character of `s` by an underscore.
pub fn sanitize_filename(s: &str) -> (out: String)
    ensures
        out@ == sanitized(s@),
        forall|i: int| 0 <= i < out@.len() ==> !is_forbidden(#[trigger] out@[i]),
{
    let mut out = String::new();
    for c in it: s.chars()
        invariant
            it.seq() == s@,
            out@ == sanitized(s@.take(it.index())),
    {
        out.push(sanitize(c));
        assert(s@.take(it.index() + 1) == s@.take(it.index()).push(c));
    }
    assert(s@.take(s@.len() as int) == s@);
    out
}

/// The file name under which `track` is kept.
pub fn track_filename(track: &Track) -> (out: String)
    ensures
        out@ == file_name(track@),
        forall|i: int| 0 <= i < out@.len() ==> !is_forbidden(#[trigger] out@[i]),
{
    let mut parts = track.name.clone();
    parts.append(" - ");
    parts.append(track.artist.as_str());
    let mut out = sanitize_filename(parts.as_str());
    out.append(".mp3");
    proof {
        reveal_strlit(" - ");
        reveal_strlit(".mp3");
        assert(" - "@ == separator());
        assert(".mp3"@ == extension());
    }
    out
}

/// The file name of a track rests on its two texts and on nothing else:
/// tracks that are equal by value have the same file name.
pub proof fn lemma_equal_tracks_share_a_file_name(a: Track, b: Track)
    requires
        a@ == b@,
    ensures
        file_name(a@) == file_name(b@),
{
}

/// No forbidden character stands in a file name, whatever the track. The name
/// is as long as title and artist together and seven characters more.
pub proof fn lemma_file_name_is_safe(track: TrackView)
    ensures
        forall|i: int|
            0 <= i < file_name(track).len() ==> !is_forbidden(#[trigger] file_name(track)[i]),
        file_name(track).len() == track.name.len() + track.artist.len() + 7,
{
}

} // verus!
