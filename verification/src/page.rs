//! The pages of the window.
use core::time::Duration;
use vstd::prelude::*;

verus! {

/// The different pages that the window has.
#[derive(Clone, Copy, Debug, PartialEq, Eq, Structural)]
pub enum Page {
    Main,
    FileSearch,
    ClipboardHistory,
    EmojiSearch,
    Settings,
}

/// The settings panel tabs.
#[derive(Clone, Copy, Debug, PartialEq, Eq, Structural)]
pub enum SettingsTab {
    General,
    Appearance,
    Commands,
}

/// The settings that the window's logic reads.
#[derive(Clone, Copy, Debug, PartialEq, Eq, Structural)]
pub struct Config {
    /// How long a page that waits for the user to stop typing waits, in
    /// milliseconds.
    pub debounce_delay: u64,
    /// Whether to look for a newer version.
    pub check_for_updates: bool,
}

/// The span of time that `Duration::from_millis` makes of a number of
/// milliseconds.
pub uninterp spec fn millis_span(millis: u64) -> Duration;

/// `Duration::from_millis` makes the span of time of the given length: the
/// same number of milliseconds gives the same span.
pub assume_specification[ Duration::from_millis ](millis: u64) -> (span: Duration)
    ensures
        span == millis_span(millis),
;

/// How long to wait after a key press before a search starts.
pub trait DebouncePolicy {
    fn debounce_delay(&self, config: &Config) -> Option<Duration>;
}

impl DebouncePolicy for Page {
    fn debounce_delay(&self, config: &Config) -> (delay: Option<Duration>)
        ensures
            delay == match self.waits_for(*config) {
                Some(millis) => Some(millis_span(millis)),
                None => None,
            },
    {
        match self.debounce_millis(config) {
            Some(millis) => Some(Duration::from_millis(millis)),
            None => None,
        }
    }
}

impl Page {
    /// The milliseconds that the page waits for the user to stop typing: those
    /// of the settings on the pages with a long search, none on the others.
    pub open spec fn waits_for(self, config: Config) -> Option<u64> {
        match self {
            Page::Main | Page::ClipboardHistory | Page::Settings => None,
            Page::FileSearch | Page::EmojiSearch => Some(config.debounce_delay),
        }
    }

    /// The milliseconds that the page waits for the user to stop typing.
    pub fn debounce_millis(&self, config: &Config) -> (millis: Option<u64>)
        ensures
            millis == self.waits_for(*config),
    {
        match self {
            Page::Main | Page::ClipboardHistory | Page::Settings => None,
            Page::FileSearch | Page::EmojiSearch => Some(config.debounce_delay),
        }
    }

    /// The name of the page that the user reads.
    pub open spec fn label(self) -> Seq<char> {
        match self {
            Page::Main => "App search"@,
            Page::FileSearch => "File search"@,
            Page::EmojiSearch => "Emoji search"@,
            Page::ClipboardHistory => "Clipboard history"@,
            Page::Settings => "Settings"@,
        }
    }

    /// The name of the page that the user reads.
    pub fn to_string(&self) -> (label: String)
        ensures
            label@ == self.label(),
    {
        let label = match self {
            Page::Main => "App search",
            Page::FileSearch => "File search",
            Page::EmojiSearch => "Emoji search",
            Page::ClipboardHistory => "Clipboard history",
            Page::Settings => "Settings",
        };
        label.to_owned()
    }
}

/// The pages for files and emojis wait as long as the settings say, however long
/// that is, and the others do not wait.
pub proof fn law_which_pages_wait(page: Page, config: Config)
    ensures
        page.waits_for(config) is Some <==> page == Page::FileSearch || page == Page::EmojiSearch,
        page.waits_for(config) matches Some(millis) ==> millis == config.debounce_delay,
{
}

} // verus!
