//! Typo-tolerant search over the names and aliases of the keys.

pub mod fuzzy;

pub use fuzzy::FuzzySearcher;
