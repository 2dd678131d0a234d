//! Key-code lookup for macOS keyboards: a catalog of key names and their
//! numeric codes, a parser for shortcut strings such as `Cmd+Shift+S`, a
//! typo-tolerant search over the key names, and the table of the secondary
//! functions of F1..F12.

pub mod analysis;
pub mod keycode;
pub mod operations;
pub mod order;
pub mod search;
pub mod text;

pub use keycode::{KeyCategory, KeyCode, KeyDatabase};
pub use search::FuzzySearcher;
