//! The core of a keyboard launcher.
pub mod apps;
pub mod file_search;
pub mod file_search_laws;
pub mod hotkeys;
pub mod index;
pub mod index_laws;
pub mod keyboard;
pub mod message;
pub mod page;
pub mod settings;
pub mod string_map;
pub mod text;
pub mod text_laws;
pub mod tile;
pub mod watch;
