//! How the window is opened.
use vstd::prelude::*;

verus! {

/// The default window width, in pixels.
pub const WINDOW_WIDTH: u32 = 750;

/// The default window height, in pixels.
pub const DEFAULT_WINDOW_HEIGHT: u32 = 100;

/// The descriptor name that stands beside the launcher's own commands.
pub const RUSTCAST_DESC_NAME: &'static str = "Utility";

/// How a window stands to the other windows.
#[derive(Clone, Copy, Debug, PartialEq, Eq, Structural)]
pub enum Level {
    Normal,
    AlwaysOnTop,
}

/// What the launcher asks for when it opens its window; the window system's own
/// defaults hold for all else.
#[derive(Clone, Copy, Debug, PartialEq, Eq, Structural)]
pub struct Settings {
    pub resizable: bool,
    pub decorations: bool,
    pub minimizable: bool,
    pub level: Level,
    pub transparent: bool,
    pub blur: bool,
    pub width: u32,
    pub height: u32,
}

/// The window settings of the launcher.
pub fn default_settings() -> (settings: Settings)
    ensures
        settings == (Settings {
            resizable: false,
            decorations: false,
            minimizable: false,
            level: Level::AlwaysOnTop,
            transparent: true,
            blur: true,
            width: 750,
            height: 100,
        }),
{
    Settings {
        resizable: false,
        decorations: false,
        minimizable: false,
        level: Level::AlwaysOnTop,
        transparent: true,
        blur: true,
        width: WINDOW_WIDTH,
        height: DEFAULT_WINDOW_HEIGHT,
    }
}

} // verus!
