//! Keeps a flat directory of audio files in step with a listener's top tracks.
//!
//! The library holds the rules of the reconciliation: how a track is named on
//! disk, which tracks are missing and which files are stale, and in which order
//! the work of bringing the directory up to date is done. Fetching, tagging
//! files on disk and moving them is left to the caller, who performs each
//! action the library hands out and reports how it ended.

pub mod converge;
pub mod diff;
pub mod download;
pub mod lastfm;
pub mod metadata;
pub mod names;
pub mod query;
pub mod track;

pub use converge::{Action, ItemState, Phase, Removal, Run, Stage};
pub use diff::{desired_diff, get_diff, Diff};
pub use download::{download_command, download_outcome, DlError, Exit};
pub use lastfm::{periods, top_tracks_url, unique_tracks};
pub use metadata::apply_metadata;
pub use names::{sanitize_filename, track_filename};
pub use query::get_query;
pub use track::{Track, TrackView};
