//! The window's state, and what a change of the query does to it.
use crate::apps::App;
use crate::hotkeys::Hotkeys;
use crate::index::{is_top, matching, name_matches, AppIndex};
use crate::index_laws::{
    finds_from, law_names_answer_by_words, law_search_finds_the_matching_apps,
    law_search_gives_each_answer_once, most_used_from, word_spelled,
};
use crate::page::{Config, Page, SettingsTab};
use crate::string_map::StringMap;
use crate::watch::{ClipBoardContentType, Content};
use vstd::prelude::*;

verus! {

/// The clipboard contents as values, in order.
pub open spec fn contents(list: Seq<ClipBoardContentType>) -> Seq<Content> {
    list.map_values(|content: ClipBoardContentType| content@)
}

/// This is the base window, and its a "Tile".
#[derive(Debug)]
pub struct Tile {
    /// Which element in the choices is currently selected.
    pub focus_id: u32,
    pub query: String,
    pub current_mode: String,
    pub update_available: bool,
    pub ranking: StringMap<i32>,
    /// The query in lower case.
    pub query_lc: String,
    /// The results of the search.
    pub results: Vec<App>,
    /// The options to search through.
    pub options: AppIndex,
    /// Emojis that are considered as "apps".
    pub emoji_apps: AppIndex,
    /// Whether the window is visible or not.
    pub visible: bool,
    /// Whether the window is focused or not.
    pub focused: bool,
    pub config: Config,
    pub hotkeys: Hotkeys,
    /// All of the clipboard contents.
    pub clipboard_content: Vec<ClipBoardContentType>,
    /// The current page of the window.
    pub page: Page,
    pub file_dialog_open: bool,
    pub settings_tab: SettingsTab,
}

impl Clone for Tile {
    fn clone(&self) -> (copy: Self)
        ensures
            copy.focus_id == self.focus_id,
            copy.query == self.query,
            copy.current_mode == self.current_mode,
            copy.update_available == self.update_available,
            copy.ranking.entries() == self.ranking.entries(),
            copy.query_lc == self.query_lc,
            copy.results@ == self.results@,
            copy.options.by_name.entries() == self.options.by_name.entries(),
            self.options.wf() ==> copy.options.wf(),
            copy.emoji_apps.by_name.entries() == self.emoji_apps.by_name.entries(),
            self.emoji_apps.wf() ==> copy.emoji_apps.wf(),
            copy.visible == self.visible,
            copy.focused == self.focused,
            copy.config == self.config,
            copy.hotkeys.handle == self.hotkeys.handle,
            copy.hotkeys.toggle == self.hotkeys.toggle,
            copy.hotkeys.clipboard_hotkey == self.hotkeys.clipboard_hotkey,
            copy.hotkeys.shells@ == self.hotkeys.shells@,
            contents(copy.clipboard_content@) == contents(self.clipboard_content@),
            copy.page == self.page,
            copy.file_dialog_open == self.file_dialog_open,
            copy.settings_tab == self.settings_tab,
    {
        let copy = Tile {
            focus_id: self.focus_id,
            query: self.query.clone(),
            current_mode: self.current_mode.clone(),
            update_available: self.update_available,
            ranking: self.ranking.clone(),
            query_lc: self.query_lc.clone(),
            results: self.results.clone(),
            options: self.options.clone(),
            emoji_apps: self.emoji_apps.clone(),
            visible: self.visible,
            focused: self.focused,
            config: self.config,
            hotkeys: self.hotkeys.clone(),
            clipboard_content: self.clipboard_content.clone(),
            page: self.page,
            file_dialog_open: self.file_dialog_open,
            settings_tab: self.settings_tab,
        };
        assert(copy.ranking.entries() =~= self.ranking.entries());
        assert(copy.results@ =~= self.results@);
        assert(contents(copy.clipboard_content@) =~= contents(self.clipboard_content@));
        copy
    }
}

impl Tile {
    /// What a search for the query finds on the current page: apps on the main
    /// page, emojis on the emoji page, and nothing on the others.
    pub open spec fn found(&self) -> Seq<App> {
        match self.page {
            Page::Main => matching(self.options.by_name.entries(), self.query_lc@),
            Page::EmojiSearch => matching(self.emoji_apps.by_name.entries(), self.query_lc@),
            Page::FileSearch | Page::ClipboardHistory | Page::Settings => Seq::empty(),
        }
    }

    /// Handles the search query changed event: the results become what a search
    /// for the query finds.
    pub fn handle_search_query_changed(&mut self)
        ensures
            final(self).results@ == old(self).found(),
            *final(self) == (Tile { results: final(self).results, ..*old(self) }),
            old(self).page == Page::Main ==> exists|at: Seq<int>| #[trigger]
                finds_from(
                    old(self).options.by_name.entries(),
                    old(self).query_lc@,
                    final(self).results@,
                    at,
                ),
            old(self).page == Page::EmojiSearch ==> exists|at: Seq<int>| #[trigger]
                finds_from(
                    old(self).emoji_apps.by_name.entries(),
                    old(self).query_lc@,
                    final(self).results@,
                    at,
                ),
            old(self).page != Page::Main && old(self).page != Page::EmojiSearch
                ==> final(self).results@.len() == 0,
    {
        proof {
            law_results_answer_the_whole_query(&*self);
        }
        let none = AppIndex::empty();
        let options = match self.page {
            Page::Main => &self.options,
            Page::EmojiSearch => &self.emoji_apps,
            Page::FileSearch | Page::ClipboardHistory | Page::Settings => &none,
        };
        let found = options.search_prefix(self.query_lc.as_str());
        let mut results: Vec<App> = Vec::new();
        for i in 0..found.len()
            invariant
                results@ == found@.unref().take(i as int),
        {
            results.push(found[i].clone());
            assert(found@.unref().take(i + 1) =~= found@.unref().take(i as int).push(
                found@.unref()[i as int],
            ));
        }
        assert(found@.unref().take(found@.len() as int) =~= found@.unref());
        assert(results@ =~= self.found());
        self.results = results;
    }

    /// The five most used apps.
    pub fn frequent_results(&self) -> (results: Vec<App>)
        ensures
            is_top(self.options.apps(), 5, results@),
            exists|from: Seq<int>| #[trigger]
                most_used_from(self.options.apps(), 5, results@, from),
    {
        self.options.top_ranked(5)
    }
}

/// On the main page a search gives, in order and each once, the apps of the options
/// in whose names a word spells the whole query; on the emoji page the same of the
/// emojis; on the other pages nothing.
pub proof fn law_results_answer_the_whole_query(tile: &Tile)
    ensures
        tile.page == Page::Main ==> exists|at: Seq<int>| #[trigger]
            finds_from(tile.options.by_name.entries(), tile.query_lc@, tile.found(), at),
        tile.page == Page::EmojiSearch ==> exists|at: Seq<int>| #[trigger]
            finds_from(tile.emoji_apps.by_name.entries(), tile.query_lc@, tile.found(), at),
        tile.page != Page::Main && tile.page != Page::EmojiSearch ==> tile.found().len() == 0,
{
    let query = tile.query_lc@;
    let options = tile.options.by_name.entries();
    let emojis = tile.emoji_apps.by_name.entries();
    law_search_gives_each_answer_once(options, query);
    law_search_gives_each_answer_once(emojis, query);
    if tile.page == Page::Main {
        assert(tile.found() == matching(options, query));
    } else if tile.page == Page::EmojiSearch {
        assert(tile.found() == matching(emojis, query));
    }
}

/// An app is among the results exactly if it stands in the index of the page under
/// a name in which a word spells the whole query.
pub proof fn law_results_are_the_apps_that_answer(tile: &Tile, app: App)
    requires
        tile.options.wf(),
        tile.emoji_apps.wf(),
    ensures
        tile.page == Page::Main ==> (tile.found().contains(app) <==> exists|name: Seq<char>|
            #[trigger] tile.options@.contains_key(name) && tile.options@[name] == app
                && word_spelled(name, tile.query_lc@)),
        tile.page == Page::EmojiSearch ==> (tile.found().contains(app) <==> exists|
            name: Seq<char>,
        | #[trigger]
            tile.emoji_apps@.contains_key(name) && tile.emoji_apps@[name] == app && word_spelled(
                name,
                tile.query_lc@,
            )),
        tile.page != Page::Main && tile.page != Page::EmojiSearch ==> !tile.found().contains(app),
{
    law_search_finds_the_matching_apps(&tile.options, tile.query_lc@, app);
    law_search_finds_the_matching_apps(&tile.emoji_apps, tile.query_lc@, app);
    assert forall|name: Seq<char>| name_matches(name, tile.query_lc@) == #[trigger] word_spelled(
        name,
        tile.query_lc@,
    ) by {
        law_names_answer_by_words(name, tile.query_lc@);
    }
    assert forall|name: Seq<char>| #[trigger] name_matches(name, tile.query_lc@) == word_spelled(
        name,
        tile.query_lc@,
    ) by {
        law_names_answer_by_words(name, tile.query_lc@);
    }
}

} // verus!
