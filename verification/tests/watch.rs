use rustcast::message::{Editable, Message};
use rustcast::watch::{
    clipboard_reading, count_apps, count_dirs_in_dir, poll_app_count, poll_clipboard,
    poll_theme_mode, ClipBoardContentType, ImageData, Upkeep, APP_COUNT_PAUSE_MILLIS,
    CLIPBOARD_PAUSE_MILLIS, EVENTS_PAUSE, EVENT_TAP_PAUSE, RECIPIENT_PAUSE_MILLIS,
    THEME_MODE_PAUSE, UPKEEP_PAUSE,
};

fn text(text: &str) -> Option<ClipBoardContentType> {
    Some(ClipBoardContentType::Text(text.to_string()))
}

fn image(bytes: &[u8]) -> ImageData {
    ImageData {
        width: 1,
        height: bytes.len(),
        bytes: bytes.to_vec(),
    }
}

fn added(edit: Option<Editable<ClipBoardContentType>>) -> Option<String> {
    match edit {
        Some(Editable::Create(ClipBoardContentType::Text(text))) => Some(text),
        Some(Editable::Create(ClipBoardContentType::Image(image))) => {
            Some(format!("{:?}", image.bytes))
        }
        Some(other) => panic!("{other:?}"),
        None => None,
    }
}

#[test]
fn clipboard_prefers_the_image_and_skips_blank_text() {
    assert!(matches!(
        clipboard_reading(Some(image(&[1])), Some("a".to_string())),
        Some(ClipBoardContentType::Image(_))
    ));
    match clipboard_reading(None, Some(" a ".to_string())) {
        Some(ClipBoardContentType::Text(text)) => assert_eq!(text, " a "),
        other => panic!("{other:?}"),
    }
    assert!(clipboard_reading(None, Some(" \n".to_string())).is_none());
    assert!(clipboard_reading(None, None).is_none());
}

#[test]
fn clipboard_adds_content_once_in_a_row() {
    let mut prev = None;
    assert_eq!(added(poll_clipboard(&mut prev, None)), None);
    assert_eq!(added(poll_clipboard(&mut prev, text("a"))), Some("a".to_string()));
    assert_eq!(added(poll_clipboard(&mut prev, text("a"))), None);
    assert_eq!(added(poll_clipboard(&mut prev, None)), None);
    assert_eq!(added(poll_clipboard(&mut prev, text("a"))), None);
    assert_eq!(added(poll_clipboard(&mut prev, text("b"))), Some("b".to_string()));
    assert_eq!(added(poll_clipboard(&mut prev, text("a"))), Some("a".to_string()));
    let picture = |bytes: &[u8]| Some(ClipBoardContentType::Image(image(bytes)));
    assert_eq!(
        added(poll_clipboard(&mut prev, picture(&[1, 2]))),
        Some("[1, 2]".to_string())
    );
    assert_eq!(added(poll_clipboard(&mut prev, picture(&[1, 2]))), None);
    assert_eq!(
        added(poll_clipboard(&mut prev, picture(&[1, 3]))),
        Some("[1, 3]".to_string())
    );
}

#[test]
fn directories_are_counted() {
    assert_eq!(count_dirs_in_dir(&None), 0);
    assert_eq!(count_dirs_in_dir(&Some(vec![])), 0);
    let listing = Some(vec![Some(true), Some(false), None, Some(true)]);
    assert_eq!(count_dirs_in_dir(&listing), 2);
    assert_eq!(count_apps(&vec![]), 0);
    assert_eq!(count_apps(&vec![listing, None, Some(vec![Some(true)])]), 3);
}

#[test]
fn app_count_is_told_when_it_changes() {
    let mut total = 3;
    assert!(poll_app_count(&mut total, 3).is_none());
    assert!(matches!(
        poll_app_count(&mut total, 5),
        Some(Message::UpdateApps)
    ));
    assert_eq!(total, 5);
    assert!(poll_app_count(&mut total, 5).is_none());
    assert!(matches!(
        poll_app_count(&mut total, 3),
        Some(Message::UpdateApps)
    ));
}

#[test]
fn theme_is_told_when_it_changes() {
    let mut dark = false;
    assert!(poll_theme_mode(&mut dark, false).is_none());
    assert!(matches!(
        poll_theme_mode(&mut dark, true),
        Some(Message::ThemeModeChanged(true))
    ));
    assert!(poll_theme_mode(&mut dark, true).is_none());
    assert!(matches!(
        poll_theme_mode(&mut dark, false),
        Some(Message::ThemeModeChanged(false))
    ));
}

#[test]
fn pauses_are_those_of_the_launcher() {
    assert_eq!(CLIPBOARD_PAUSE_MILLIS, 100);
    assert_eq!(RECIPIENT_PAUSE_MILLIS, 100);
    assert_eq!(APP_COUNT_PAUSE_MILLIS, 1000);
    assert_eq!(THEME_MODE_PAUSE, 2);
    assert_eq!(EVENT_TAP_PAUSE, 5);
    assert_eq!(EVENTS_PAUSE, 120);
}

#[test]
fn upkeep_alternates() {
    let (next, message) = Upkeep::CheckVersion.step(true, true);
    assert_eq!(next, Upkeep::SaveRankings);
    assert!(matches!(message, Some(Message::UpdateAvailable)));
    let (next, message) = next.step(true, true);
    assert_eq!(next, Upkeep::CheckVersion);
    assert!(matches!(message, Some(Message::SaveRanking)));
    assert!(Upkeep::CheckVersion.step(false, true).1.is_none());
    assert!(Upkeep::CheckVersion.step(true, false).1.is_none());
    assert!(matches!(
        Upkeep::SaveRankings.step(false, false).1,
        Some(Message::SaveRanking)
    ));
    assert!(Upkeep::CheckVersion.asks_for_version(true));
    assert!(!Upkeep::CheckVersion.asks_for_version(false));
    assert!(!Upkeep::SaveRankings.asks_for_version(true));
    assert_eq!(2 * UPKEEP_PAUSE, 60);
}
