use rustcast::page::{Config, DebouncePolicy, Page};
use std::time::Duration;

#[test]
fn page_display_labels_are_stable() {
    assert_eq!(Page::Main.to_string(), "App search");
    assert_eq!(Page::FileSearch.to_string(), "File search");
    assert_eq!(Page::ClipboardHistory.to_string(), "Clipboard history");
    assert_eq!(Page::EmojiSearch.to_string(), "Emoji search");
    assert_eq!(Page::Settings.to_string(), "Settings");
}

#[test]
fn page_debounce_policy_matches_expected_pages() {
    let config = Config {
        debounce_delay: 123,
        check_for_updates: true,
    };

    assert_eq!(Page::Main.debounce_delay(&config), None);
    assert_eq!(Page::ClipboardHistory.debounce_delay(&config), None);
    assert_eq!(Page::Settings.debounce_delay(&config), None);
    assert_eq!(
        Page::FileSearch.debounce_delay(&config),
        Some(Duration::from_millis(123))
    );
    assert_eq!(
        Page::EmojiSearch.debounce_delay(&config),
        Some(Duration::from_millis(123))
    );
}

#[test]
fn long_searches_wait_for_the_settings_delay() {
    for (delay, page) in [(0, Page::FileSearch), (250, Page::EmojiSearch)] {
        let config = Config {
            debounce_delay: delay,
            check_for_updates: false,
        };
        assert_eq!(page.debounce_millis(&config), Some(delay));
        assert_eq!(
            page.debounce_delay(&config).map(|span| span.as_millis()),
            Some(u128::from(delay))
        );
        assert_eq!(Page::Main.debounce_millis(&config), None);
        assert_eq!(Page::ClipboardHistory.debounce_millis(&config), None);
        assert_eq!(Page::Settings.debounce_millis(&config), None);
    }
}
