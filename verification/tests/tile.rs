use rustcast::apps::{App, AppCommand};
use rustcast::hotkeys::{Hotkeys, Shelly, Shortcut};
use rustcast::index::AppIndex;
use rustcast::message::Message;
use rustcast::page::{Config, Page, SettingsTab};
use rustcast::settings::{default_settings, Level, RUSTCAST_DESC_NAME};
use rustcast::string_map::StringMap;
use rustcast::tile::Tile;
use rustcast::watch::{ClipBoardContentType, ImageData};

fn test_app(name: &str, ranking: i32) -> App {
    App {
        ranking,
        open_command: AppCommand::Message(Message::SwitchMode(name.to_string())),
        desc: "Application".to_string(),
        icons: None,
        display_name: name.to_string(),
        search_name: name.to_lowercase(),
    }
}

fn shortcut(key_code: u16) -> Shortcut {
    Shortcut {
        key_code,
        modifiers: 8,
    }
}

fn tile(page: Page, query_lc: &str) -> Tile {
    Tile {
        focus_id: 0,
        query: query_lc.to_uppercase(),
        current_mode: "Default".to_string(),
        update_available: false,
        ranking: StringMap::new(),
        query_lc: query_lc.to_string(),
        results: vec![test_app("Old", 0)],
        options: AppIndex::from_apps(vec![
            test_app("Safari", 1),
            test_app("Smile", 2),
            test_app("Notes", 3),
            test_app("Arc", 4),
            test_app("Mail", 5),
            test_app("Books", 6),
            test_app("Zed", -1),
        ]),
        emoji_apps: AppIndex::from_apps(vec![test_app("Smile", 0), test_app("Heart", 0)]),
        visible: true,
        focused: true,
        config: Config {
            debounce_delay: 300,
            check_for_updates: true,
        },
        hotkeys: Hotkeys {
            handle: None,
            toggle: shortcut(1),
            clipboard_hotkey: shortcut(2),
            shells: Vec::new(),
        },
        clipboard_content: Vec::new(),
        page,
        file_dialog_open: false,
        settings_tab: SettingsTab::General,
    }
}

fn results(tile: &Tile) -> Vec<&str> {
    tile.results
        .iter()
        .map(|app| app.display_name.as_str())
        .collect()
}

#[test]
fn query_searches_the_apps_on_the_main_page() {
    let mut tile = tile(Page::Main, "s");
    tile.handle_search_query_changed();
    assert_eq!(results(&tile), vec!["Safari", "Smile"]);
    assert_eq!(tile.query, "S");
    assert_eq!(tile.page, Page::Main);
}

#[test]
fn query_searches_the_emojis_on_the_emoji_page() {
    let mut tile = tile(Page::EmojiSearch, "s");
    tile.handle_search_query_changed();
    assert_eq!(results(&tile), vec!["Smile"]);
    assert_eq!(tile.results[0].ranking, 0);
}

#[test]
fn query_finds_nothing_on_the_other_pages() {
    for page in [Page::FileSearch, Page::ClipboardHistory, Page::Settings] {
        let mut tile = tile(page, "");
        tile.handle_search_query_changed();
        assert!(tile.results.is_empty());
    }
}

#[test]
fn a_copy_of_the_window_holds_the_same() {
    let mut first = tile(Page::Main, "s");
    first.clipboard_content = vec![ClipBoardContentType::Image(ImageData {
        width: 2,
        height: 1,
        bytes: vec![7, 8],
    })];
    first.hotkeys.set_shell(
        shortcut(7),
        Shelly {
            command: "ls".to_string(),
            alias: "list".to_string(),
        },
    );
    let mut copy = first.clone();
    assert_eq!(format!("{copy:?}"), format!("{first:?}"));
    copy.handle_search_query_changed();
    assert_eq!(results(&copy), vec!["Safari", "Smile"]);
    assert_eq!(results(&first), vec!["Old"]);
}

#[test]
fn five_results_are_frequent() {
    let tile = tile(Page::Main, "");
    let frequent = tile.frequent_results();
    let names: Vec<&str> = frequent.iter().map(|app| app.display_name.as_str()).collect();
    assert_eq!(names, vec!["Books", "Mail", "Arc", "Notes", "Smile"]);
}

#[test]
fn hotkeys_are_listed_once() {
    let mut hotkeys = tile(Page::Main, "").hotkeys;
    assert_eq!(hotkeys.all_hotkeys(), vec![shortcut(1), shortcut(2)]);
    let shelly = |command: &str| Shelly {
        command: command.to_string(),
        alias: "alias".to_string(),
    };
    hotkeys.set_shell(shortcut(7), shelly("ls"));
    hotkeys.set_shell(shortcut(5), shelly("pwd"));
    hotkeys.set_shell(shortcut(7), shelly("date"));
    assert_eq!(
        hotkeys.all_hotkeys(),
        vec![shortcut(1), shortcut(2), shortcut(7), shortcut(5)]
    );
    assert_eq!(hotkeys.shells[0].1.command, "date");
}

#[test]
fn window_opens_small_and_on_top() {
    let settings = default_settings();
    assert_eq!((settings.width, settings.height), (750, 100));
    assert_eq!(settings.level, Level::AlwaysOnTop);
    assert!(settings.transparent && settings.blur);
    assert!(!settings.resizable && !settings.decorations && !settings.minimizable);
    assert_eq!(RUSTCAST_DESC_NAME, "Utility");
}
