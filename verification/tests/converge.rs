use std::collections::BTreeSet;
use toptracks_sync::{get_diff, track_filename, Action, Diff, ItemState, Phase, Removal, Run, Stage, Track};

fn track(name: &str, artist: &str) -> Track {
    Track { name: name.to_string(), artist: artist.to_string() }
}

fn files(names: &[&str]) -> Vec<String> {
    names.iter().map(|n| n.to_string()).collect()
}

/// Performs a run on a directory held in memory. `fails` names the actions
/// that end in failure, as (kind, file). Returns the run at its end, the
/// directory, the files that were tagged in the cache, and the actions in
/// the order in which the run asked for them.
fn perform(
    listing: &[&str],
    diff: Diff,
    keep_all: bool,
    fails: &[(&str, &str)],
) -> (Run, BTreeSet<String>, BTreeSet<String>, Vec<String>) {
    let mut library: BTreeSet<String> = listing.iter().map(|f| f.to_string()).collect();
    let mut cache: BTreeSet<String> = BTreeSet::new();
    let mut tagged: BTreeSet<String> = BTreeSet::new();
    let mut log: Vec<String> = Vec::new();
    let mut run = Run::new(diff, keep_all);
    let failing = |kind: &str, file: &str| fails.iter().any(|(k, f)| *k == kind && *f == file);
    loop {
        let ok = match run.action() {
            Action::Delete { file } => {
                log.push(format!("delete {}", file));
                let ok = !failing("delete", &file);
                if ok {
                    library.remove(&file);
                }
                ok
            }
            Action::Acquire { query: _, file } => {
                log.push(format!("acquire {}", file));
                let ok = !failing("acquire", &file);
                if ok {
                    cache.insert(file);
                }
                ok
            }
            Action::Tag { file, track: _ } => {
                log.push(format!("tag {}", file));
                assert!(cache.contains(&file));
                let ok = !failing("tag", &file);
                if ok {
                    tagged.insert(file);
                }
                ok
            }
            Action::Promote { file } => {
                log.push(format!("promote {}", file));
                assert!(cache.contains(&file));
                assert!(tagged.contains(&file));
                let ok = !failing("promote", &file);
                if ok {
                    library.insert(file);
                }
                ok
            }
            Action::ClearCache => {
                log.push("clear".to_string());
                cache.clear();
                true
            }
            Action::Finish => break,
        };
        run = run.advance(ok);
    }
    (run, library, tagged, log)
}

fn states(run: &Run, n: usize) -> Vec<ItemState> {
    (0..n).map(|i| run.state_of(i).unwrap()).collect()
}

fn removals(run: &Run, n: usize) -> Vec<Removal> {
    (0..n).map(|i| run.removal_of(i).unwrap()).collect()
}

#[test]
fn a_run_removes_then_adds_then_clears() {
    let diff = Diff { add: vec![track("B", "Y"), track("C", "Z")], remove: files(&["old1.mp3", "old2.mp3"]) };
    let (run, library, _, log) = perform(&["A - X.mp3", "old1.mp3", "old2.mp3"], diff, false, &[]);
    assert_eq!(
        log,
        vec![
            "delete old1.mp3",
            "delete old2.mp3",
            "acquire B - Y.mp3",
            "tag B - Y.mp3",
            "promote B - Y.mp3",
            "acquire C - Z.mp3",
            "tag C - Z.mp3",
            "promote C - Z.mp3",
            "clear",
        ]
    );
    assert_eq!(run.phase(), Phase::Finished);
    assert_eq!(states(&run, 2), vec![ItemState::Promoted, ItemState::Promoted]);
    assert_eq!(removals(&run, 2), vec![Removal::Removed, Removal::Removed]);
    let expected: BTreeSet<String> = files(&["A - X.mp3", "B - Y.mp3", "C - Z.mp3"]).into_iter().collect();
    assert_eq!(library, expected);
}

#[test]
fn the_actions_of_one_track_carry_its_query_file_and_fields() {
    let diff = Diff { add: vec![track("Who?", "AC/DC")], remove: vec![] };
    let run = Run::new(diff, false);
    match run.action() {
        Action::Acquire { query, file } => {
            assert_eq!(query, "AC/DC Who? Album Audio");
            assert_eq!(file, "Who_ - AC_DC.mp3");
        }
        other => panic!("unexpected: {:?}", other),
    }
    assert_eq!(run.state_of(0), Some(ItemState::Acquiring));
    let run = run.advance(true);
    match run.action() {
        Action::Tag { file, track: t } => {
            assert_eq!(file, "Who_ - AC_DC.mp3");
            assert_eq!(t, track("Who?", "AC/DC"));
        }
        other => panic!("unexpected: {:?}", other),
    }
    assert_eq!(run.state_of(0), Some(ItemState::Tagging));
    let run = run.advance(true);
    match run.action() {
        Action::Promote { file } => assert_eq!(file, "Who_ - AC_DC.mp3"),
        other => panic!("unexpected: {:?}", other),
    }
    assert_eq!(run.state_of(0), Some(ItemState::Tagged));
    let run = run.advance(true);
    assert_eq!(run.state_of(0), Some(ItemState::Promoted));
    assert!(matches!(run.action(), Action::ClearCache));
    assert_eq!(run.phase(), Phase::Clearing);
    let run = run.advance(true);
    assert!(matches!(run.action(), Action::Finish));
    assert_eq!(run.phase(), Phase::Finished);
}

#[test]
fn a_failed_fetch_stays_with_its_track() {
    let wanted = vec![track("A", "X"), track("B", "Y"), track("C", "Z"), track("D", "W")];
    let diff = get_diff(vec![], wanted.clone());
    let (run, library, _, log) = perform(&[], diff, false, &[("acquire", "B - Y.mp3")]);
    assert_eq!(
        states(&run, 4),
        vec![
            ItemState::Promoted,
            ItemState::Failed(Stage::Acquire),
            ItemState::Promoted,
            ItemState::Promoted,
        ]
    );
    let expected: BTreeSet<String> = files(&["A - X.mp3", "C - Z.mp3", "D - W.mp3"]).into_iter().collect();
    assert_eq!(library, expected);
    assert!(!library.contains("B - Y.mp3"));
    assert!(!log.contains(&"tag B - Y.mp3".to_string()));
    assert!(!log.contains(&"promote B - Y.mp3".to_string()));
}

#[test]
fn a_failed_tagging_keeps_the_file_out_of_the_library() {
    let diff = Diff { add: vec![track("A", "X"), track("B", "Y")], remove: vec![] };
    let (run, library, tagged, log) = perform(&[], diff, false, &[("tag", "A - X.mp3")]);
    assert_eq!(states(&run, 2), vec![ItemState::Failed(Stage::Tag), ItemState::Promoted]);
    assert_eq!(log, vec!["acquire A - X.mp3", "tag A - X.mp3", "acquire B - Y.mp3", "tag B - Y.mp3", "promote B - Y.mp3", "clear"]);
    assert!(!library.contains("A - X.mp3"));
    assert!(library.contains("B - Y.mp3"));
    for file in library.iter() {
        assert!(tagged.contains(file));
    }
}

#[test]
fn a_failed_promotion_is_reported_and_the_run_goes_on() {
    let diff = Diff { add: vec![track("A", "X"), track("B", "Y")], remove: vec![] };
    let (run, library, _, _) = perform(&[], diff, false, &[("promote", "A - X.mp3")]);
    assert_eq!(states(&run, 2), vec![ItemState::Failed(Stage::Promote), ItemState::Promoted]);
    let expected: BTreeSet<String> = files(&["B - Y.mp3"]).into_iter().collect();
    assert_eq!(library, expected);
}

#[test]
fn every_track_may_fail_and_the_run_still_ends() {
    let diff = Diff { add: vec![track("A", "X"), track("B", "Y"), track("C", "Z")], remove: files(&["old"]) };
    let fails = [("delete", "old"), ("acquire", "A - X.mp3"), ("tag", "B - Y.mp3"), ("promote", "C - Z.mp3")];
    let (run, library, _, log) = perform(&["old"], diff, false, &fails);
    assert_eq!(run.phase(), Phase::Finished);
    assert_eq!(
        states(&run, 3),
        vec![
            ItemState::Failed(Stage::Acquire),
            ItemState::Failed(Stage::Tag),
            ItemState::Failed(Stage::Promote),
        ]
    );
    assert_eq!(removals(&run, 1), vec![Removal::Failed]);
    assert_eq!(log.last().unwrap(), "clear");
    let expected: BTreeSet<String> = files(&["old"]).into_iter().collect();
    assert_eq!(library, expected);
}

#[test]
fn a_failed_deletion_does_not_hold_up_the_others() {
    let diff = Diff { add: vec![track("A", "X")], remove: files(&["one", "two", "three"]) };
    let (run, library, _, log) = perform(&["one", "two", "three"], diff, false, &[("delete", "two")]);
    assert_eq!(removals(&run, 3), vec![Removal::Removed, Removal::Failed, Removal::Removed]);
    assert_eq!(states(&run, 1), vec![ItemState::Promoted]);
    assert_eq!(&log[..4], &["delete one", "delete two", "delete three", "acquire A - X.mp3"]);
    let expected: BTreeSet<String> = files(&["two", "A - X.mp3"]).into_iter().collect();
    assert_eq!(library, expected);
}

#[test]
fn with_removal_switched_off_a_stale_file_stays_and_the_diff_still_names_it() {
    let listing = ["A - X.mp3", "Stale - Q.mp3"];
    let diff = get_diff(files(&listing), vec![track("A", "X"), track("B", "Y")]);
    assert_eq!(diff.remove, files(&["Stale - Q.mp3"]));
    assert_eq!(diff.add, vec![track("B", "Y")]);
    let (run, library, _, log) = perform(&listing, diff, true, &[]);
    assert!(library.contains("Stale - Q.mp3"));
    assert!(library.contains("B - Y.mp3"));
    assert!(log.iter().all(|line| !line.starts_with("delete")));
    assert_eq!(removals(&run, 1), vec![Removal::Pending]);
    assert_eq!(run.phase(), Phase::Finished);
}

#[test]
fn an_empty_diff_only_clears_the_cache() {
    let (run, library, _, log) = perform(&["A - X.mp3"], Diff { add: vec![], remove: vec![] }, false, &[]);
    assert_eq!(log, vec!["clear"]);
    assert_eq!(run.phase(), Phase::Finished);
    assert_eq!(library.len(), 1);
    assert_eq!(run.state_of(0), None);
    assert_eq!(run.removal_of(0), None);
}

#[test]
fn a_run_starts_with_the_first_deletion_or_the_first_track() {
    let both = Diff { add: vec![track("A", "X")], remove: files(&["old"]) };
    let run = Run::new(both, false);
    assert_eq!(run.phase(), Phase::Removing);
    assert_eq!(run.cursor(), 0);
    assert_eq!(run.state_of(0), Some(ItemState::Pending));
    assert_eq!(run.removal_of(0), Some(Removal::Pending));
    let both = Diff { add: vec![track("A", "X")], remove: files(&["old"]) };
    let run = Run::new(both, true);
    assert_eq!(run.phase(), Phase::Adding);
    assert_eq!(run.state_of(0), Some(ItemState::Acquiring));
    let only_remove = Diff { add: vec![], remove: files(&["old"]) };
    assert_eq!(Run::new(only_remove, true).phase(), Phase::Clearing);
    let only_remove = Diff { add: vec![], remove: files(&["old"]) };
    let run = Run::new(only_remove, false).advance(true);
    assert_eq!(run.phase(), Phase::Clearing);
    assert_eq!(run.removal_of(0), Some(Removal::Removed));
}

#[test]
fn a_finished_run_stays_finished() {
    let run = Run::new(Diff { add: vec![], remove: vec![] }, false).advance(false);
    assert_eq!(run.phase(), Phase::Finished);
    let run = run.advance(true).advance(false);
    assert_eq!(run.phase(), Phase::Finished);
    assert!(matches!(run.action(), Action::Finish));
}

#[test]
fn the_cursor_moves_along_the_tracks() {
    let diff = Diff { add: vec![track("A", "X"), track("B", "Y")], remove: vec![] };
    let run = Run::new(diff, false);
    assert_eq!(run.cursor(), 0);
    let run = run.advance(false);
    assert_eq!(run.cursor(), 1);
    assert_eq!(run.state_of(0), Some(ItemState::Failed(Stage::Acquire)));
    assert_eq!(run.state_of(1), Some(ItemState::Acquiring));
    let run = run.advance(true).advance(true);
    assert_eq!(run.cursor(), 1);
    assert_eq!(run.state_of(1), Some(ItemState::Tagged));
}

#[test]
fn a_track_state_settles_and_launches_as_the_table_says() {
    assert_eq!(ItemState::Pending.launch(), ItemState::Acquiring);
    assert_eq!(ItemState::Acquiring.settle(true), ItemState::Acquired);
    assert_eq!(ItemState::Acquiring.settle(false), ItemState::Failed(Stage::Acquire));
    assert_eq!(ItemState::Acquired.launch(), ItemState::Tagging);
    assert_eq!(ItemState::Tagging.settle(true), ItemState::Tagged);
    assert_eq!(ItemState::Tagging.settle(false), ItemState::Failed(Stage::Tag));
    assert_eq!(ItemState::Tagged.launch(), ItemState::Tagged);
    assert_eq!(ItemState::Tagged.settle(true), ItemState::Promoted);
    assert_eq!(ItemState::Tagged.settle(false), ItemState::Failed(Stage::Promote));
    for ended in [ItemState::Promoted, ItemState::Failed(Stage::Tag)] {
        assert!(ended.is_terminal());
        assert_eq!(ended.settle(true), ended);
        assert_eq!(ended.settle(false), ended);
        assert_eq!(ended.launch(), ended);
    }
    for open in [ItemState::Pending, ItemState::Acquiring, ItemState::Acquired, ItemState::Tagging, ItemState::Tagged] {
        assert!(!open.is_terminal());
    }
    assert_eq!(ItemState::Pending.settle(true), ItemState::Pending);
    assert_eq!(ItemState::Acquired.settle(false), ItemState::Acquired);
}

#[test]
fn after_a_run_without_failure_the_diff_is_empty() {
    let listing = ["A - X.mp3", "Old - Z.mp3", "junk.txt"];
    let wanted = vec![track("A", "X"), track("B", "Y"), track("Who?", "AC/DC"), track("B", "Y")];
    let diff = get_diff(files(&listing), wanted.clone());
    let (_, library, _, _) = perform(&listing, diff, false, &[]);
    let later: Vec<String> = library.into_iter().collect();
    let again = get_diff(later.clone(), wanted.clone());
    assert!(again.add.is_empty());
    assert!(again.remove.is_empty());
    let mut names: Vec<String> = wanted.iter().map(track_filename).collect();
    names.sort();
    names.dedup();
    assert_eq!(later, names);
}

#[test]
fn after_a_run_with_failures_the_diff_asks_for_what_failed() {
    let listing = ["A - X.mp3", "Old - Z.mp3", "junk.txt"];
    let wanted = vec![track("A", "X"), track("B", "Y"), track("C", "Z")];
    let diff = get_diff(files(&listing), wanted.clone());
    let fails = [("delete", "junk.txt"), ("tag", "C - Z.mp3")];
    let (_, library, _, _) = perform(&listing, diff, false, &fails);
    let later: Vec<String> = library.into_iter().collect();
    let again = get_diff(later, wanted);
    assert_eq!(again.add, vec![track("C", "Z")]);
    assert_eq!(again.remove, files(&["junk.txt"]));
}
