//! What the window is told to do, and the small types that a message carries.
use crate::hotkeys::Shortcut;
use crate::page::{Page, SettingsTab};
use vstd::prelude::*;

verus! {

/// A window, by the number that the window system keeps it under.
#[derive(Clone, Copy, Debug, PartialEq, Eq, Structural)]
pub struct WindowId {
    pub number: u64,
}

/// The types of arrow keys.
#[derive(Clone, Copy, Debug, PartialEq, Eq, Structural)]
pub enum ArrowKey {
    Up,
    Down,
    Left,
    Right,
}

/// The ways the cursor can move when a key is pressed.
#[derive(Debug)]
pub enum Move {
    Back,
    Forwards(String),
    ClearAll,
}

impl Clone for Move {
    fn clone(&self) -> (copy: Self)
        ensures
            copy == *self,
    {
        match self {
            Move::Back => Move::Back,
            Move::Forwards(text) => Move::Forwards(text.clone()),
            Move::ClearAll => Move::ClearAll,
        }
    }
}

/// A change to a list that the user keeps.
#[derive(Debug)]
pub enum Editable<T> {
    Create(T),
    Delete(T),
    Update { old: T, new: T },
}

impl<T: Clone> Clone for Editable<T> {
    fn clone(&self) -> (copy: Self)
        ensures
            match (*self, copy) {
                (Editable::Create(a), Editable::Create(b)) => cloned(a, b),
                (Editable::Delete(a), Editable::Delete(b)) => cloned(a, b),
                (Editable::Update { old: a, new: b }, Editable::Update { old: c, new: d }) => cloned(
                    a,
                    c,
                ) && cloned(b, d),
                _ => false,
            },
    {
        match self {
            Editable::Create(a) => Editable::Create(a.clone()),
            Editable::Delete(a) => Editable::Delete(a.clone()),
            Editable::Update { old: a, new: b } => Editable::Update {
                old: a.clone(),
                new: b.clone(),
            },
        }
    }
}

/// What the launcher can run for the user.
#[derive(Debug)]
pub enum Function {
    /// Opens the application at a path.
    OpenApp(String),
}

impl Clone for Function {
    fn clone(&self) -> (copy: Self)
        ensures
            copy == *self,
    {
        match self {
            Function::OpenApp(path) => Function::OpenApp(path.clone()),
        }
    }
}

/// Actions that open a native file dialog.
#[derive(Debug)]
pub enum FileDialogAction {
    PickModeFile(String),
    EditSearchDir(String),
    AddSearchDir,
}

impl Clone for FileDialogAction {
    fn clone(&self) -> (copy: Self)
        ensures
            copy == *self,
    {
        match self {
            FileDialogAction::PickModeFile(mode) => FileDialogAction::PickModeFile(mode.clone()),
            FileDialogAction::EditSearchDir(dir) => FileDialogAction::EditSearchDir(dir.clone()),
            FileDialogAction::AddSearchDir => FileDialogAction::AddSearchDir,
        }
    }
}

/// Config fields that can be individually reset to default.
#[derive(Clone, Copy, Debug, PartialEq, Eq, Structural)]
pub enum ResetField {
    ToggleHotkey,
    ClipboardHotkey,
    Placeholder,
    SearchUrl,
    DebounceDelay,
    StartAtLogin,
    AutoUpdate,
    CheckForUpdates,
    HapticFeedback,
    ShowMenubarIcon,
    ClipboardHistory,
    ClipboardPasteOnSelect,
    MainPage,
    ShowScrollbar,
    ClearOnHide,
    ClearOnEnter,
    ShowIcons,
    Font,
    EventDuration,
    TextColor,
    BackgroundColor,
    ThemeMode,
    Aliases,
    Modes,
    SearchDirs,
    ShellCommands,
}

/// Settings for when the query is emptied.
#[derive(Clone, Copy, Debug, PartialEq, Eq, Structural)]
pub enum SetConfigBufferFields {
    ClearOnHide(bool),
    ClearOnEnter(bool),
}

/// The message type for actions that can do something.
#[derive(Debug)]
pub enum Message {
    UriReceived(String),
    WriteConfig(bool),
    SaveRanking,
    ToggleAutoStartup(bool),
    LoadRanking,
    ToggleFavouriteApp(String),
    UpdateAvailable,
    OpenWindow,
    OpenResult(u32),
    OpenToSettings,
    SearchQueryChanged(String, WindowId),
    KeyPressed(Shortcut),
    FocusTextInput(Move),
    HideWindow(WindowId),
    RunFunction(Function),
    OpenFocused,
    OpenFileDialog(FileDialogAction),
    ReturnFocus,
    SwitchSettingsTab(SettingsTab),
    ResetField(ResetField),
    EscKeyPressed(WindowId),
    UpdateEvents,
    CheckEventTap,
    ClearSearchResults,
    WindowFocusChanged(WindowId, bool),
    ClearSearchQuery,
    HideTrayIcon,
    SwitchMode(String),
    ReloadConfig,
    UpdateApps,
    SwitchToPage(Page),
    ClearClipboardHistory,
    ChangeFocus(ArrowKey, u32),
    FileSearchClear,
    DebouncedSearch(WindowId),
    ThemeModeChanged(bool),
    SimulatePaste(i32),
}

impl Clone for Message {
    fn clone(&self) -> (copy: Self)
        ensures
            copy == *self,
    {
        match self {
            Message::UriReceived(a) => Message::UriReceived(a.clone()),
            Message::WriteConfig(a) => Message::WriteConfig(*a),
            Message::SaveRanking => Message::SaveRanking,
            Message::ToggleAutoStartup(a) => Message::ToggleAutoStartup(*a),
            Message::LoadRanking => Message::LoadRanking,
            Message::ToggleFavouriteApp(a) => Message::ToggleFavouriteApp(a.clone()),
            Message::UpdateAvailable => Message::UpdateAvailable,
            Message::OpenWindow => Message::OpenWindow,
            Message::OpenResult(a) => Message::OpenResult(*a),
            Message::OpenToSettings => Message::OpenToSettings,
            Message::SearchQueryChanged(a, b) => Message::SearchQueryChanged(a.clone(), *b),
            Message::KeyPressed(a) => Message::KeyPressed(*a),
            Message::FocusTextInput(a) => Message::FocusTextInput(a.clone()),
            Message::HideWindow(a) => Message::HideWindow(*a),
            Message::RunFunction(a) => Message::RunFunction(a.clone()),
            Message::OpenFocused => Message::OpenFocused,
            Message::OpenFileDialog(a) => Message::OpenFileDialog(a.clone()),
            Message::ReturnFocus => Message::ReturnFocus,
            Message::SwitchSettingsTab(a) => Message::SwitchSettingsTab(*a),
            Message::ResetField(a) => Message::ResetField(*a),
            Message::EscKeyPressed(a) => Message::EscKeyPressed(*a),
            Message::UpdateEvents => Message::UpdateEvents,
            Message::CheckEventTap => Message::CheckEventTap,
            Message::ClearSearchResults => Message::ClearSearchResults,
            Message::WindowFocusChanged(a, b) => Message::WindowFocusChanged(*a, *b),
            Message::ClearSearchQuery => Message::ClearSearchQuery,
            Message::HideTrayIcon => Message::HideTrayIcon,
            Message::SwitchMode(a) => Message::SwitchMode(a.clone()),
            Message::ReloadConfig => Message::ReloadConfig,
            Message::UpdateApps => Message::UpdateApps,
            Message::SwitchToPage(a) => Message::SwitchToPage(*a),
            Message::ClearClipboardHistory => Message::ClearClipboardHistory,
            Message::ChangeFocus(a, b) => Message::ChangeFocus(*a, *b),
            Message::FileSearchClear => Message::FileSearchClear,
            Message::DebouncedSearch(a) => Message::DebouncedSearch(*a),
            Message::ThemeModeChanged(a) => Message::ThemeModeChanged(*a),
            Message::SimulatePaste(a) => Message::SimulatePaste(*a),
        }
    }
}

} // verus!
