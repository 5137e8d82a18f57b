use vstd::prelude::*;

verus! {

/// The one error type of the library and of the commands built on it.
#[derive(Debug)]
pub enum AppError {
    /// No note has the given id.
    NotFound(String),
    /// The platform reports no data directory for the application.
    DataDirUnavailable,
    /// The database refused a statement; the text is its message.
    Database(String),
    /// A file-system operation failed; the text is its message.
    Io(String),
    /// Anything else, described by its message.
    Other(String),
}

/// Result type of every fallible operation of the library.
pub type AppResult<T> = Result<T, AppError>;

} // verus!
