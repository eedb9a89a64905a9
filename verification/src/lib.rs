//! Core of the mofish reading and stock-watching tool: stock-code validation,
//! book-file naming, text decoding and line splitting, the paged reader and
//! the terminal UI state.

pub mod stock;
pub mod text;
pub mod reader;
pub mod book;
pub mod config;
pub mod display;
pub mod tui;
