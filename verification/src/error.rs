//! The error taxonomy for configuration, macro, and query operations.

use vstd::prelude::*;

verus! {

/// Why a configuration, macro, or query operation failed.
///
/// Configuration: [`Error::AlreadyConfigured`], [`Error::FileNotFound`],
/// [`Error::InvalidPath`], [`Error::ReadFailed`].
/// Macros: [`Error::MalformedMacro`], [`Error::UndefinedMacro`],
/// [`Error::ExpansionCycle`].
/// Queries: [`Error::InvalidKey`].
#[derive(Clone, Copy, Debug, PartialEq, Eq, Structural)]
pub enum Error {
    /// The process was already configured once; configuration is a one-shot,
    /// never-retryable operation for the lifetime of the process.
    AlreadyConfigured,
    /// A configuration file path was given but no file exists there.
    FileNotFound,
    /// The given path holds bytes that cannot form a native filesystem path
    /// (an interior zero byte).
    InvalidPath,
    /// The native configuration read reported failure. `path_given` records
    /// whether an explicit file was named or the default location was used.
    ReadFailed {
        /// Whether an explicit configuration file path was supplied.
        path_given: bool,
    },
    /// A macro definition did not split into a name token and a body.
    MalformedMacro,
    /// A macro body referenced a name with no definition.
    UndefinedMacro,
    /// Macro expansion would recurse through a cycle of names.
    ExpansionCycle,
    /// A search key holds bytes the native engine cannot accept (an interior
    /// zero byte).
    InvalidKey,
}

impl Error {
    /// The short, fixed description each variant carries.
    pub open spec fn message_spec(&self) -> Seq<char> {
        match self {
            Error::AlreadyConfigured => "already configured"@,
            Error::FileNotFound => "no such file"@,
            Error::InvalidPath => "invalid path"@,
            Error::ReadFailed { path_given } => if *path_given {
                "error reading configuration from the given file"@
            } else {
                "error reading configuration from the default location"@
            },
            Error::MalformedMacro => "malformed macro definition"@,
            Error::UndefinedMacro => "undefined macro"@,
            Error::ExpansionCycle => "macro expansion cycle"@,
            Error::InvalidKey => "invalid search key"@,
        }
    }

    /// A short, fixed description of the error, one per variant.
    pub fn message(&self) -> (r: String)
        ensures
            r@ == self.message_spec(),
    {
        match self {
            Error::AlreadyConfigured => String::from_str("already configured"),
            Error::FileNotFound => String::from_str("no such file"),
            Error::InvalidPath => String::from_str("invalid path"),
            Error::ReadFailed { path_given } => {
                if *path_given {
                    String::from_str("error reading configuration from the given file")
                } else {
                    String::from_str("error reading configuration from the default location")
                }
            },
            Error::MalformedMacro => String::from_str("malformed macro definition"),
            Error::UndefinedMacro => String::from_str("undefined macro"),
            Error::ExpansionCycle => String::from_str("macro expansion cycle"),
            Error::InvalidKey => String::from_str("invalid search key"),
        }
    }
}

} // verus!
