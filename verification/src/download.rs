//! The call of the program that fetches a track into the cache.
//!
//! Starting the program is the caller's part. Here is what is decided before
//! and after: the words of the command line, and what the way the program
//! ended means.

use vstd::prelude::*;
use vstd::string::StringExecFns;

verus! {

/// What can go wrong with a download.
#[derive(Debug)]
pub enum DlError {
    /// The program could not be started; the text says why.
    CommandFailed(String),
    /// The program ran and ended without success; the text is its exit status.
    ExitFailure(String),
    /// The path of the file to write is no text.
    InvalidOutputPath,
}

/// An error as the contracts see it.
pub enum DlErrorView {
    CommandFailed(Seq<char>),
    ExitFailure(Seq<char>),
    InvalidOutputPath,
}

impl View for DlError {
    type V = DlErrorView;

    open spec fn view(&self) -> DlErrorView {
        match *self {
            DlError::CommandFailed(why) => DlErrorView::CommandFailed(why@),
            DlError::ExitFailure(status) => DlErrorView::ExitFailure(status@),
            DlError::InvalidOutputPath => DlErrorView::InvalidOutputPath,
        }
    }
}

/// How the program ended: whether with success, and its exit status as text.
#[derive(Debug)]
pub struct Exit {
    pub success: bool,
    pub status: String,
}

/// The command line that fetches the best match for `query` as an mp3 file at
/// `output`: the program first, then its arguments.
pub open spec fn command_line(query: Seq<char>, output: Seq<char>) -> Seq<Seq<char>> {
    seq![
        "yt-dlp"@,
        "--no-playlist"@,
        "--extract-audio"@,
        "--audio-format"@,
        "mp3"@,
        "--quiet"@,
        "--no-warnings"@,
        "--output"@,
        output,
        "ytsearch1:"@ + query,
    ]
}

/// The text of an error.
pub open spec fn message_of(error: DlErrorView) -> Seq<char> {
    match error {
        DlErrorView::CommandFailed(why) => "[YT-DLP] failed to execute yt-dlp: "@ + why,
        DlErrorView::ExitFailure(status) => "[YT-DLP] yt-dlp exited with status "@ + status,
        DlErrorView::InvalidOutputPath => "[YT-DLP] invalid output path"@,
    }
}

impl DlError {
    /// The text of the error.
    pub fn message(&self) -> (text: String)
        ensures
            text@ == message_of(self@),
    {
        match self {
            DlError::CommandFailed(why) => {
                let mut text = String::from_str("[YT-DLP] failed to execute yt-dlp: ");
                text.append(why.as_str());
                text
            },
            DlError::ExitFailure(status) => {
                let mut text = String::from_str("[YT-DLP] yt-dlp exited with status ");
                text.append(status.as_str());
                text
            },
            DlError::InvalidOutputPath => String::from_str("[YT-DLP] invalid output path"),
        }
    }
}

/// The command line for the download of `query` to `output_path`, or
/// `InvalidOutputPath` where the path is no text.
pub fn download_command(query: &str, output_path: Option<&str>) -> (command: Result<
    Vec<String>,
    DlError,
>)
    ensures
        match output_path {
            Some(path) => command matches Ok(words) && words.deep_view() == command_line(
                query@,
                path@,
            ),
            None => command matches Err(error) && error@ == DlErrorView::InvalidOutputPath,
        },
{
    let output = match output_path {
        Some(path) => path,
        None => return Err(DlError::InvalidOutputPath),
    };
    let mut search = String::from_str("ytsearch1:");
    search.append(query);
    let mut words: Vec<String> = Vec::new();
    words.push(String::from_str("yt-dlp"));
    words.push(String::from_str("--no-playlist"));
    words.push(String::from_str("--extract-audio"));
    words.push(String::from_str("--audio-format"));
    words.push(String::from_str("mp3"));
    words.push(String::from_str("--quiet"));
    words.push(String::from_str("--no-warnings"));
    words.push(String::from_str("--output"));
    words.push(String::from_str(output));
    words.push(search);
    assert(words.deep_view() =~= command_line(query@, output@));
    Ok(words)
}

/// What the way the program ended means for the download: done where it ran
/// and ended with success, `ExitFailure` with its status where it ended
/// otherwise, `CommandFailed` with the reason where it could not be started.
pub fn download_outcome(launched: Result<Exit, String>) -> (result: Result<(), DlError>)
    ensures
        match launched {
            Ok(exit) => if exit.success {
                result is Ok
            } else {
                result matches Err(error) && error@ == DlErrorView::ExitFailure(exit.status@)
            },
            Err(why) => result matches Err(error) && error@ == DlErrorView::CommandFailed(why@),
        },
{
    match launched {
        Ok(exit) => if exit.success {
            Ok(())
        } else {
            Err(DlError::ExitFailure(exit.status))
        },
        Err(why) => Err(DlError::CommandFailed(why)),
    }
}

} // verus!
