//! A minimal terminal text editor: key decoding, the editing state machine,
//! screen rendering, the plain-text file format and the terminal's cursor
//! report, each with its contract.

pub mod editor;
pub mod keys;
pub mod render;
pub mod report;
pub mod text;

pub use editor::{Action, Editor};
pub use keys::{decode_key, Key};
pub use report::parse_cursor_report;
pub use text::{expand_tabs, join_lines, parse_rows};
