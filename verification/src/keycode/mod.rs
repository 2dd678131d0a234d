//! Key records, the catalog built from them, the shortcut parser and the
//! secondary functions of the function keys.

pub mod catalog;
pub mod database;
pub mod model;
pub mod parser;
pub mod secondary_functions;
pub mod types;

pub use database::{CatalogIntegrityError, KeyDatabase};
pub use parser::{parse_shortcut, KeyCombination, ParseError};
pub use secondary_functions::{
    get_secondary_function, is_secondary_function_query, SecondaryFunction,
};
pub use types::{KeyCategory, KeyCode, KeyCodeView};
