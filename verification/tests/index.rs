use rustcast::apps::{App, AppCommand};
use rustcast::index::AppIndex;
use rustcast::message::Function;

fn test_app(name: &str, ranking: i32) -> App {
    App {
        ranking,
        open_command: AppCommand::Function(Function::OpenApp(format!("/Applications/{name}.app"))),
        desc: "Application".to_string(),
        icons: None,
        display_name: name.to_string(),
        search_name: name.to_lowercase(),
    }
}

fn names(apps: &[App]) -> Vec<&str> {
    apps.iter().map(|app| app.display_name.as_str()).collect()
}

fn found(index: &AppIndex, query: &str) -> Vec<String> {
    index
        .search_prefix(query)
        .into_iter()
        .map(|app| app.display_name.clone())
        .collect()
}

#[test]
fn app_index_search_prefix_matches_prefix_and_word_boundaries() {
    let index = AppIndex::from_apps(vec![
        test_app("Safari", 0),
        App {
            search_name: "visual studio code".to_string(),
            display_name: "Visual Studio Code".to_string(),
            ..test_app("Visual Studio Code", 0)
        },
        App {
            search_name: "signal-desktop".to_string(),
            display_name: "Signal Desktop".to_string(),
            ..test_app("Signal Desktop", 0)
        },
    ]);

    let prefix_results: Vec<_> = index
        .search_prefix("sa")
        .into_iter()
        .map(|app| app.display_name.clone())
        .collect();
    let spaced_results: Vec<_> = index
        .search_prefix("studio")
        .into_iter()
        .map(|app| app.display_name.clone())
        .collect();
    let hyphen_results: Vec<_> = index
        .search_prefix("desktop")
        .into_iter()
        .map(|app| app.display_name.clone())
        .collect();

    assert_eq!(prefix_results, vec!["Safari".to_string()]);
    assert_eq!(spaced_results, vec!["Visual Studio Code".to_string()]);
    assert_eq!(hyphen_results, vec!["Signal Desktop".to_string()]);
}

#[test]
fn app_index_ranking_helpers_work() {
    let mut index = AppIndex::from_apps(vec![
        test_app("Safari", 1),
        test_app("Notes", -1),
        test_app("Arc", 3),
        test_app("Alfred", 3),
    ]);

    index.update_ranking("safari");
    index.set_ranking("notes", -1);

    assert_eq!(index.get_rankings().get("safari"), Some(&2));
    assert_eq!(index.get_rankings().get("notes"), None);

    let top_ranked = index.top_ranked(2);
    assert_eq!(top_ranked.len(), 2);
    assert_eq!(top_ranked[0].display_name, "Alfred");
    assert_eq!(top_ranked[1].display_name, "Arc");

    let favourites = index.get_favourites();
    assert_eq!(favourites.len(), 1);
    assert_eq!(favourites[0].display_name, "Notes");
}

#[test]
fn search_skips_names_with_the_query_inside_a_word() {
    let index = AppIndex::from_apps(vec![test_app("Safari", 0), test_app("Notes", 0)]);
    assert_eq!(found(&index, "fari"), Vec::<String>::new());
    assert_eq!(found(&index, "safari x"), Vec::<String>::new());
    assert_eq!(found(&index, "ote"), Vec::<String>::new());
}

#[test]
fn search_keeps_the_order_of_a_long_index() {
    let apps: Vec<App> = (0..2000).map(|i| test_app(&format!("App {i:04}"), 0)).collect();
    let expected: Vec<String> = apps
        .iter()
        .filter(|app| app.search_name.starts_with("app 01"))
        .map(|app| app.display_name.clone())
        .collect();
    let index = AppIndex::from_apps(apps);
    assert_eq!(expected.len(), 100);
    assert_eq!(found(&index, "app 01"), expected);
}

#[test]
fn empty_query_finds_every_app() {
    let index = AppIndex::from_apps(vec![
        test_app("Safari", 0),
        test_app("Notes", -1),
        test_app("Arc", 3),
    ]);
    assert_eq!(found(&index, ""), vec!["Safari", "Notes", "Arc"]);
    assert_eq!(found(&AppIndex::empty(), ""), Vec::<String>::new());
}

#[test]
fn longer_query_finds_no_more() {
    let index = AppIndex::from_apps(vec![test_app("Safari", 0), test_app("Sable", 0)]);
    assert_eq!(found(&index, "sa"), vec!["Safari", "Sable"]);
    assert_eq!(found(&index, "saf"), vec!["Safari"]);
    assert_eq!(found(&index, "safx"), Vec::<String>::new());
}

#[test]
fn of_two_apps_with_one_name_the_last_stays() {
    let index = AppIndex::from_apps(vec![
        test_app("Arc", 1),
        test_app("Safari", 2),
        App {
            desc: "Newer".to_string(),
            ..test_app("Arc", 7)
        },
    ]);
    let all = index.search_prefix("");
    assert_eq!(all.len(), 2);
    assert_eq!(all[0].display_name, "Arc");
    assert_eq!(all[0].desc, "Newer");
    assert_eq!(index.get_rankings().get("arc"), Some(&7));
}

#[test]
fn ranking_of_an_unknown_name_changes_nothing() {
    let mut index = AppIndex::from_apps(vec![test_app("Arc", 3)]);
    index.update_ranking("safari");
    index.set_ranking("safari", 9);
    assert_eq!(index.get_rankings().get("arc"), Some(&3));
    assert_eq!(index.get_rankings().get("safari"), None);
    assert_eq!(index.search_prefix("").len(), 1);
}

#[test]
fn set_ranking_is_read_back_and_touches_one_app() {
    let mut index = AppIndex::from_apps(vec![test_app("Arc", 3), test_app("Safari", 1)]);
    index.set_ranking("arc", 12);
    assert_eq!(index.get_rankings().get("arc"), Some(&12));
    assert_eq!(index.get_rankings().get("safari"), Some(&1));
    index.set_ranking("arc", 0);
    assert_eq!(index.get_rankings().get("arc"), None);
    assert_eq!(index.search_prefix("arc")[0].desc, "Application");
}

#[test]
fn top_ranked_orders_by_use_and_then_by_name() {
    let index = AppIndex::from_apps(vec![
        test_app("Zed", 4),
        test_app("Notes", -1),
        test_app("Mail", 0),
        test_app("Arc", 9),
        test_app("Books", 4),
        test_app("Preview", -3),
    ]);
    assert_eq!(names(&index.top_ranked(10)), vec!["Arc", "Books", "Zed"]);
    assert_eq!(names(&index.top_ranked(2)), vec!["Arc", "Books"]);
    assert_eq!(names(&index.top_ranked(0)), Vec::<&str>::new());
}

#[test]
fn top_ranked_sorts_a_long_index() {
    let apps: Vec<App> = (0..3000)
        .map(|i| test_app(&format!("App {i:04}"), 1 + (i * 7919) % 100))
        .collect();
    let mut expected: Vec<(i32, String)> = apps
        .iter()
        .map(|app| (-app.ranking, app.display_name.clone()))
        .collect();
    expected.sort();
    let top: Vec<(i32, String)> = AppIndex::from_apps(apps)
        .top_ranked(3000)
        .iter()
        .map(|app| (-app.ranking, app.display_name.clone()))
        .collect();
    assert_eq!(top, expected);
}

#[test]
fn apps_with_one_display_name_keep_their_order() {
    let twin = |search_name: &str, ranking: i32| App {
        search_name: search_name.to_string(),
        ..test_app("Twin", ranking)
    };
    let index = AppIndex::from_apps(vec![
        twin("first", 2),
        test_app("Arc", 2),
        twin("second", 2),
    ]);
    let top = index.top_ranked(3);
    assert_eq!(top[0].search_name, "arc");
    assert_eq!(top[1].search_name, "first");
    assert_eq!(top[2].search_name, "second");

    let index = AppIndex::from_apps(vec![
        twin("first", -1),
        test_app("Arc", -1),
        twin("second", -1),
    ]);
    let favourites = index.get_favourites();
    assert_eq!(favourites[0].search_name, "arc");
    assert_eq!(favourites[1].search_name, "first");
    assert_eq!(favourites[2].search_name, "second");
}

#[test]
fn a_copy_of_an_index_stands_for_itself() {
    let index = AppIndex::from_apps(vec![test_app("Zed", 1), test_app("Arc", 5)]);
    let mut copy = index.clone();
    assert_eq!(found(&copy, ""), found(&index, ""));
    copy.update_ranking("zed");
    assert_eq!(copy.get_rankings().get("zed"), Some(&2));
    assert_eq!(index.get_rankings().get("zed"), Some(&1));
}

#[test]
fn favourites_are_sorted_by_name() {
    let index = AppIndex::from_apps(vec![
        test_app("Zed", -1),
        test_app("Arc", 5),
        test_app("books", -1),
        test_app("Mail", -1),
        test_app("Notes", -2),
    ]);
    assert_eq!(names(&index.get_favourites()), vec!["Mail", "Zed", "books"]);
}
