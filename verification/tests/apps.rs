use rustcast::apps::{AppCommand, Icon, ToApps};
use rustcast::message::Message;
use rustcast::string_map::StringMap;

#[test]
fn mode_to_apps_adds_default_when_missing() {
    let mut modes = StringMap::new();
    modes.insert("work".to_string(), "echo work".to_string());

    let apps = modes.to_apps();

    assert!(apps.iter().any(|app| app.search_name == "work"));
    assert!(apps.iter().any(|app| app.search_name == "default"));
}

#[test]
fn mode_to_apps_does_not_duplicate_default() {
    let mut modes = StringMap::new();
    modes.insert("default".to_string(), "echo default".to_string());

    let apps = modes.to_apps();
    let default_count = apps
        .iter()
        .filter(|app| app.search_name == "default")
        .count();

    assert_eq!(default_count, 1);
}

fn switches_to(command: &AppCommand) -> &str {
    match command {
        AppCommand::Message(Message::SwitchMode(mode)) => mode,
        other => panic!("{other:?}"),
    }
}

#[test]
fn mode_entries_carry_the_mode() {
    let mut modes = StringMap::new();
    modes.insert("work ".to_string(), "echo work".to_string());
    modes.insert("9 to 5".to_string(), "echo nine".to_string());

    let apps = modes.to_apps();

    assert_eq!(apps.len(), 3);
    assert_eq!(apps[0].ranking, 0);
    assert_eq!(apps[0].display_name, "Work  Mode");
    assert_eq!(apps[0].search_name, "work ");
    assert_eq!(apps[0].desc, "Switch Modes");
    assert_eq!(apps[0].icons, Some(Icon::Rustcast));
    assert_eq!(switches_to(&apps[0].open_command), "work");
    assert_eq!(apps[1].display_name, "9 to 5 Mode");
    assert_eq!(switches_to(&apps[1].open_command), "9 to 5");
    assert_eq!(apps[2].display_name, "Default mode");
    assert_eq!(apps[2].search_name, "default");
    assert_eq!(apps[2].desc, "Change mode");
    assert_eq!(apps[2].icons, Some(Icon::Rustcast));
    assert_eq!(switches_to(&apps[2].open_command), "Default");
}

#[test]
fn a_mode_named_default_is_listed_as_a_mode() {
    let mut modes = StringMap::new();
    modes.insert("default".to_string(), "echo default".to_string());
    let apps = modes.to_apps();
    assert_eq!(apps.len(), 1);
    assert_eq!(apps[0].display_name, "Default Mode");
    assert_eq!(switches_to(&apps[0].open_command), "default");
}

#[test]
fn no_modes_leave_the_default_mode() {
    let modes: StringMap<String> = StringMap::new();
    let apps = modes.to_apps();
    assert_eq!(apps.len(), 1);
    assert_eq!(apps[0].search_name, "default");
}

#[test]
fn a_key_has_one_value_in_a_map() {
    let mut map: StringMap<i32> = StringMap::new();
    map.insert("a".to_string(), 1);
    map.insert("b".to_string(), 2);
    map.insert("a".to_string(), 3);
    assert_eq!(map.get("a"), Some(&3));
    assert_eq!(map.get("b"), Some(&2));
    assert_eq!(map.get("c"), None);
    assert_eq!(
        map.as_entries(),
        &vec![("a".to_string(), 3), ("b".to_string(), 2)]
    );
    if let Some(value) = map.get_mut("b") {
        *value = 7;
    }
    assert!(map.get_mut("c").is_none());
    assert_eq!(map.get("b"), Some(&7));
}
