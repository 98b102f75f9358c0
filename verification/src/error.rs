//! The error taxonomy shared by the resolver, the collector and the CLI.

use vstd::prelude::*;

verus! {

/// Every fallible operation of this crate reports one of these kinds,
/// carrying a human-readable message.
#[derive(Debug, Clone)]
pub enum PeripetyError {
    LogSeverityParseError(String),
    ConfError(String),
    JsonSerializeError(String),
    JsonDeserializeError(String),
    NoSupport(String),
    InternalBug(String),
    BlockNoExists(String),
    StorageSubSystemParseError(String),
    InvalidArgument(String),
    LogAccessError(String),
}

impl PeripetyError {
    /// The message carried by the error, whatever its kind.
    pub fn msg(&self) -> (r: &String)
        ensures
            r@ == self.spec_msg(),
    {
        match self {
            PeripetyError::LogSeverityParseError(s) => s,
            PeripetyError::ConfError(s) => s,
            PeripetyError::JsonSerializeError(s) => s,
            PeripetyError::JsonDeserializeError(s) => s,
            PeripetyError::NoSupport(s) => s,
            PeripetyError::InternalBug(s) => s,
            PeripetyError::BlockNoExists(s) => s,
            PeripetyError::StorageSubSystemParseError(s) => s,
            PeripetyError::InvalidArgument(s) => s,
            PeripetyError::LogAccessError(s) => s,
        }
    }

    pub open spec fn spec_msg(&self) -> Seq<char> {
        match self {
            PeripetyError::LogSeverityParseError(s) => s@,
            PeripetyError::ConfError(s) => s@,
            PeripetyError::JsonSerializeError(s) => s@,
            PeripetyError::JsonDeserializeError(s) => s@,
            PeripetyError::NoSupport(s) => s@,
            PeripetyError::InternalBug(s) => s@,
            PeripetyError::BlockNoExists(s) => s@,
            PeripetyError::StorageSubSystemParseError(s) => s@,
            PeripetyError::InvalidArgument(s) => s@,
            PeripetyError::LogAccessError(s) => s@,
        }
    }
}

/// The kind of an error, without its message; the resolver's specification
/// speaks of kinds, the executable code carries the messages.
#[derive(Clone, Copy, Debug, PartialEq, Eq, Structural)]
pub enum BlkErrKind {
    NoSupport,
    BlockNoExists,
    InternalBug,
}

/// Whether `e` is of kind `k`.
pub open spec fn err_matches(e: PeripetyError, k: BlkErrKind) -> bool {
    match k {
        BlkErrKind::NoSupport => e is NoSupport,
        BlkErrKind::BlockNoExists => e is BlockNoExists,
        BlkErrKind::InternalBug => e is InternalBug,
    }
}

} // verus!
