//! A first, small table of key codes, kept beside the catalog.

pub mod keycodes;
