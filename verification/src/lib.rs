//! Finds TODO-style annotations (`TODO`, `FIXME`, `HACK`, `XXX`, `NOTE`,
//! `OPTIMIZE`, `BUG`, `WARN`) in comments of source files, and reports them as
//! a table, markdown grouped by file, or a summary of counts; also the state
//! of an interactive browser of the items found.
//!
//! - `parser`: the annotation grammar and `parse_line`.
//! - `scanner`: which files and directories are scanned, and the items of a file's text.
//! - `reporter`: the reports, and the selection of items by tag.
//! - `tui`: the browser's state and how keys change it.
//! - `view`: the text the browser shows.
//! - `types`, `text`, `order`, `style`, `literals`: shared types and helpers.

pub mod text;
pub mod types;
pub mod parser;
pub mod scanner;
pub mod style;
pub mod order;
pub mod literals;
pub mod reporter;
pub mod tui;
pub mod view;
