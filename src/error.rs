use vstd::prelude::*;

verus! {

/// Failure outcomes of the engine. Paths are carried as text.
#[derive(Clone, Debug, PartialEq, Eq)]
pub enum Error {
    Io(String),
    PermissionDenied { path: String },
    NotFound { path: String },
    AlreadyExists { path: String },
    InvalidPath { path: String },
    SymlinkLoop { path: String },
    Cancelled,
    Timeout(String),
    Config(String),
    SelinuxContext(String),
    PolkitDenied(String),
    TrashError(String),
    MountError(String),
    Plugin(String),
    Cache(String),
    Watcher(String),
    DBus(String),
    InvalidOperation(String),
    Runtime(String),
}

impl Error {
    /// Cancellation is a distinct outcome from every genuine failure.
    pub fn is_cancelled(&self) -> (r: bool)
        ensures
            r == (*self is Cancelled),
    {
        match self {
            Error::Cancelled => true,
            _ => false,
        }
    }
}

} // verus!
