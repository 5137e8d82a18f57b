//! Verified core of the FloatingMemo desktop note store: the note and
//! settings records, the decisions that the SQLite repositories take around
//! their queries, the schema migration plan, backup rotation and the window,
//! tray and hotkey decisions of the desktop shell.

pub mod backup;
pub mod error;
pub mod migrations;
pub mod note;
pub mod paths;
pub mod settings;
pub mod shell;
pub mod text;

pub use error::{AppError, AppResult};
