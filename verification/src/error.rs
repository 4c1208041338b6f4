use vstd::prelude::*;

verus! {

/// The failure classes the engine distinguishes: I/O reported by the
/// runtime, an invariant of the window registry that did not hold, a
/// bounded wait that ran out, and a plain message.
#[derive(Debug, Clone)]
pub enum ErrorKind {
    Io(String),
    Registry(String),
    Timeout(String),
    Msg(String),
}

impl ErrorKind {
    /// A human-readable description of the error.
    pub fn message(&self) -> &String {
        match self {
            ErrorKind::Io(m) => m,
            ErrorKind::Registry(m) => m,
            ErrorKind::Timeout(m) => m,
            ErrorKind::Msg(m) => m,
        }
    }
}

} // verus!
