//! A browser for the recorded sessions of a coding assistant.
//!
//! Every module is verified: the contracts speak of strings as sequences of
//! characters, of the state of the browser as plain values, and of the screen as
//! lines of styled text. Files, the terminal, the clock and the clipboard are
//! left to the program built around this library.

pub mod app;
pub mod bookmarks;
pub mod config;
pub mod conversation;
pub mod export;
pub mod index;
pub mod input;
pub mod json;
pub mod keys;
pub mod launch;
pub mod listing;
pub mod parser;
pub mod preview;
pub mod scan;
pub mod search;
pub mod session;
pub mod sorting;
pub mod string_set;
pub mod text;
pub mod text_cache;
pub mod ticket;
pub mod ui;
pub mod wrap;
