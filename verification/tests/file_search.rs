use rustcast::apps::{App, AppCommand};
use rustcast::file_search::{
    build_mdfind_args, home_dir, start, MdfindReader, ReadEvent, SearchAction, SearchEvent, SearchState,
    FILE_SEARCH_BATCH_SIZE, FILE_SEARCH_MAX_RESULTS,
};
use rustcast::message::Function;

#[test]
fn build_mdfind_args_expands_home_and_omits_onlyin_for_empty_dirs() {
    assert_eq!(
        build_mdfind_args("ab", &[], "/Users/test").unwrap(),
        vec!["-name".to_string(), "ab".to_string()]
    );

    assert_eq!(
        build_mdfind_args(
            "report",
            &[String::from("~/Documents"), String::from("/tmp")],
            "/Users/test"
        )
        .unwrap(),
        vec![
            "-name".to_string(),
            "report".to_string(),
            "-onlyin".to_string(),
            "/Users/test/Documents".to_string(),
            "-onlyin".to_string(),
            "/tmp".to_string(),
        ]
    );
}

#[test]
fn build_mdfind_args_rejects_short_queries() {
    assert!(build_mdfind_args("a", &[], "/Users/test").is_none());
}

#[test]
fn build_mdfind_args_counts_bytes() {
    assert!(build_mdfind_args("", &[], "/").is_none());
    assert_eq!(
        build_mdfind_args("é", &[], "/").unwrap(),
        vec!["-name".to_string(), "é".to_string()]
    );
    let longest = "a".repeat(1023);
    assert_eq!(build_mdfind_args(&longest, &[], "/").unwrap()[1], longest);
}

#[test]
fn build_mdfind_args_replaces_every_tilde() {
    let args = build_mdfind_args("ab", &["~/x/~".to_string()], "/h").unwrap();
    assert_eq!(args[3], "/h/x//h");
}

#[test]
fn home_dir_falls_back_to_the_root() {
    assert_eq!(home_dir(Some("/Users/test".to_string())), "/Users/test");
    assert_eq!(home_dir(None), "/");
}

fn file_app(index: u32) -> App {
    App {
        ranking: 0,
        open_command: AppCommand::Function(Function::OpenApp(format!("/tmp/file-{index}.txt"))),
        desc: format!("/tmp/file-{index}.txt"),
        icons: None,
        display_name: format!("file-{index}.txt"),
        search_name: String::new(),
    }
}

/// The names in the batches that are sent, and the outcome, when the reader
/// meets a line for each of `lines` and then `end`.
fn read(lines: u32, end: ReadEvent) -> (Vec<Vec<String>>, Option<bool>, u32) {
    let mut reader = MdfindReader::new();
    let mut batches = Vec::new();
    let mut end = Some(end);
    for i in 0..=lines {
        let event = if i < lines {
            ReadEvent::Line(Some(file_app(i)))
        } else {
            end.take().unwrap()
        };
        let step = reader.step(event);
        if let Some(batch) = step.send {
            batches.push(batch.into_iter().map(|app| app.display_name).collect());
        }
        if step.done.is_some() {
            return (batches, step.done, i);
        }
    }
    (batches, None, lines)
}

#[test]
fn reader_sends_full_batches_and_the_rest_at_the_end() {
    let total_lines = FILE_SEARCH_BATCH_SIZE + 2;
    let (batches, done, _) = read(total_lines, ReadEvent::Eof);
    assert_eq!(done, Some(false));
    assert_eq!(batches.len(), 2);
    assert_eq!(batches[0].len() as u32, FILE_SEARCH_BATCH_SIZE);
    assert_eq!(batches[1].len(), 2);
    let all: Vec<String> = batches.into_iter().flatten().collect();
    let expected: Vec<String> = (0..total_lines).map(|i| format!("file-{i}.txt")).collect();
    assert_eq!(all, expected);
}

#[test]
fn reader_sends_nothing_more_after_a_full_batch() {
    let (batches, done, _) = read(FILE_SEARCH_BATCH_SIZE, ReadEvent::Eof);
    assert_eq!(done, Some(false));
    assert_eq!(batches.len(), 1);
    let (batches, done, _) = read(0, ReadEvent::Eof);
    assert_eq!(done, Some(false));
    assert!(batches.is_empty());
}

#[test]
fn reader_stops_at_the_last_result() {
    let (batches, done, events) = read(FILE_SEARCH_MAX_RESULTS + 50, ReadEvent::Eof);
    assert_eq!(done, Some(false));
    assert_eq!(events, FILE_SEARCH_MAX_RESULTS - 1);
    let all: Vec<String> = batches.into_iter().flatten().collect();
    assert_eq!(all.len() as u32, FILE_SEARCH_MAX_RESULTS);
}

#[test]
fn reader_is_cut_short_by_a_new_query_without_a_batch() {
    let (batches, done, _) = read(3, ReadEvent::QueryChanged);
    assert_eq!(done, Some(true));
    assert!(batches.is_empty());
}

#[test]
fn what_was_sent_before_a_new_query_is_what_was_found_first() {
    let (batches, done, _) = read(FILE_SEARCH_BATCH_SIZE + 3, ReadEvent::QueryChanged);
    assert_eq!(done, Some(true));
    let all: Vec<String> = batches.into_iter().flatten().collect();
    let expected: Vec<String> = (0..FILE_SEARCH_BATCH_SIZE)
        .map(|i| format!("file-{i}.txt"))
        .collect();
    assert_eq!(all, expected);
}

#[test]
fn reader_is_cut_short_when_the_query_can_no_longer_change() {
    let (batches, done, _) = read(3, ReadEvent::QueryClosed);
    assert_eq!(done, Some(true));
    assert!(batches.is_empty());
}

#[test]
fn reader_drops_the_batch_when_the_output_fails() {
    let (batches, done, _) = read(3, ReadEvent::Failed);
    assert_eq!(done, Some(false));
    assert!(batches.is_empty());
}

#[test]
fn reader_passes_over_lines_without_an_entry() {
    let mut reader = MdfindReader::new();
    let step = reader.step(ReadEvent::Line(None));
    assert!(step.send.is_none() && step.done.is_none());
    assert_eq!(reader.total_sent, 0);
}

#[test]
fn search_starts_nothing_before_a_change() {
    let step = start();
    assert_eq!(step.state, SearchState::Waiting);
    assert!(matches!(step.actions[..], [SearchAction::AwaitChange]));
    let step = step.state.step(SearchEvent::Changed, "/h");
    assert!(matches!(step.actions[..], [SearchAction::TakeQuery]));
}

#[test]
fn search_runs_from_query_to_query() {
    let step = SearchState::Waiting.step(SearchEvent::Changed, "/h");
    assert_eq!(step.state, SearchState::Fresh);
    assert!(matches!(step.actions[..], [SearchAction::TakeQuery]));

    let query = SearchEvent::Query {
        query: "ab".to_string(),
        dirs: vec!["~".to_string()],
    };
    let step = SearchState::Fresh.step(query, "/h");
    assert_eq!(step.state, SearchState::Starting);
    match &step.actions[..] {
        [SearchAction::Spawn(args)] => assert_eq!(args, &["-name", "ab", "-onlyin", "/h"]),
        other => panic!("{other:?}"),
    }

    let step = SearchState::Starting.step(SearchEvent::Spawned { captured: true }, "/h");
    assert_eq!(step.state, SearchState::Reading);
    assert!(matches!(step.actions[..], [SearchAction::Read]));

    let step = SearchState::Reading.step(SearchEvent::ReadDone { canceled: false }, "/h");
    assert_eq!(step.state, SearchState::Waiting);
    assert!(matches!(
        step.actions[..],
        [SearchAction::Wait, SearchAction::AwaitChange]
    ));
}

#[test]
fn canceled_search_takes_the_latest_query_at_once() {
    let step = SearchState::Reading.step(SearchEvent::ReadDone { canceled: true }, "/h");
    assert_eq!(step.state, SearchState::Fresh);
    assert!(matches!(
        step.actions[..],
        [
            SearchAction::Kill,
            SearchAction::Wait,
            SearchAction::TakeQuery
        ]
    ));

    let query = SearchEvent::Query {
        query: "next".to_string(),
        dirs: Vec::new(),
    };
    match &step.state.step(query, "/h").actions[..] {
        [SearchAction::Spawn(args)] => assert_eq!(args, &["-name", "next"]),
        other => panic!("{other:?}"),
    }
}

#[test]
fn short_query_clears_the_results() {
    let query = SearchEvent::Query {
        query: "a".to_string(),
        dirs: Vec::new(),
    };
    let step = SearchState::Fresh.step(query, "/h");
    assert_eq!(step.state, SearchState::Waiting);
    assert!(matches!(
        step.actions[..],
        [SearchAction::Clear, SearchAction::AwaitChange]
    ));
}

#[test]
fn search_goes_on_when_mdfind_does_not_start() {
    let step = SearchState::Starting.step(SearchEvent::SpawnFailed, "/h");
    assert_eq!(step.state, SearchState::Waiting);
    assert!(matches!(step.actions[..], [SearchAction::AwaitChange]));

    let step = SearchState::Starting.step(SearchEvent::Spawned { captured: false }, "/h");
    assert_eq!(step.state, SearchState::Waiting);
    assert!(matches!(
        step.actions[..],
        [
            SearchAction::Kill,
            SearchAction::Wait,
            SearchAction::AwaitChange
        ]
    ));
}

#[test]
fn search_stops_with_the_window() {
    let step = SearchState::Waiting.step(SearchEvent::Closed, "/h");
    assert_eq!(step.state, SearchState::Stopped);
    assert!(step.actions.is_empty());
}
