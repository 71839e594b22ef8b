use toptracks_sync::{download_command, download_outcome, DlError, Exit};

fn words(list: &[&str]) -> Vec<String> {
    list.iter().map(|w| w.to_string()).collect()
}

#[test]
fn command_line_names_program_options_output_and_search() {
    let command = download_command("Radiohead Creep Album Audio", Some("./.cache/Creep - Radiohead.mp3"));
    assert_eq!(
        command.unwrap(),
        words(&[
            "yt-dlp",
            "--no-playlist",
            "--extract-audio",
            "--audio-format",
            "mp3",
            "--quiet",
            "--no-warnings",
            "--output",
            "./.cache/Creep - Radiohead.mp3",
            "ytsearch1:Radiohead Creep Album Audio",
        ])
    );
}

#[test]
fn command_line_takes_query_and_output_as_they_are() {
    let command = download_command("", Some("")).unwrap();
    assert_eq!(command.len(), 10);
    assert_eq!(command[8], "");
    assert_eq!(command[9], "ytsearch1:");
    let command = download_command("a b --quiet", Some("--output")).unwrap();
    assert_eq!(command[8], "--output");
    assert_eq!(command[9], "ytsearch1:a b --quiet");
}

#[test]
fn a_path_that_is_no_text_is_an_invalid_output_path() {
    let command = download_command("query", None);
    assert!(matches!(command, Err(DlError::InvalidOutputPath)));
}

#[test]
fn a_successful_exit_is_a_done_download() {
    let exit = Exit { success: true, status: "exit status: 0".to_string() };
    assert!(download_outcome(Ok(exit)).is_ok());
}

#[test]
fn an_unsuccessful_exit_is_an_exit_failure_with_its_status() {
    let exit = Exit { success: false, status: "exit status: 1".to_string() };
    match download_outcome(Ok(exit)) {
        Err(DlError::ExitFailure(status)) => assert_eq!(status, "exit status: 1"),
        other => panic!("unexpected: {:?}", other),
    }
}

#[test]
fn a_program_that_did_not_start_is_a_failed_command_with_the_reason() {
    match download_outcome(Err("No such file or directory (os error 2)".to_string())) {
        Err(DlError::CommandFailed(why)) => assert_eq!(why, "No such file or directory (os error 2)"),
        other => panic!("unexpected: {:?}", other),
    }
}

#[test]
fn each_error_has_its_text() {
    assert_eq!(
        DlError::CommandFailed("permission denied".to_string()).message(),
        "[YT-DLP] failed to execute yt-dlp: permission denied"
    );
    assert_eq!(
        DlError::ExitFailure("exit status: 2".to_string()).message(),
        "[YT-DLP] yt-dlp exited with status exit status: 2"
    );
    assert_eq!(DlError::InvalidOutputPath.message(), "[YT-DLP] invalid output path");
}
