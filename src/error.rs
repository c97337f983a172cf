//! Errors of the library.
use vstd::prelude::*;

verus! {

/// What can go wrong.
#[derive(Debug)]
pub enum AppError {
    Io(String),
    TomlDe(String),
    TomlSer(String),
    Reqwest(String),
    WebSocket(String),
    Audio(String),
    ConfigDirMissing,
    MissingApiKey(&'static str),
    Shortcut(String),
    AccessibilityPermissionRequired,
    Other(String),
}

pub type AppResult<T> = Result<T, AppError>;

} // verus!
