//! The error kinds that the library's operations surface, and the one local
//! reclassification the launcher applies to spawn failures.

use vstd::prelude::*;

verus! {

/// An operation's failure.
#[derive(Debug)]
pub enum Error {
    /// The requested binary could not be located for the consulted version.
    BinaryNotFound { binary: String, version: String },
    /// A spawned subprocess exited with a non-zero status.
    FailedSubprocess { command: String, exit_code: Option<i32> },
    /// An HTTP transport failure, with the transport's own message.
    Http { message: String },
    /// A remote listing did not have the expected structure.
    InvalidHtml { url: String },
    /// The named version does not exist.
    InvalidVersion { version: String },
    /// An I/O failure; `not_found` records whether the underlying error was
    /// a missing file or binary.
    Io { not_found: bool, message: String },
    /// The OS release metadata could not be read.
    OsRelease { message: String },
    /// No home directory is available.
    UnknownHomeDirectory,
    /// The operating system could not be identified.
    UnknownOs,
    /// The host operating system is not supported.
    UnsupportedOs { os_name: String },
    /// The requested version could not be found.
    VersionNotFound { version: String },
}

/// Reclassifies a launch failure: an I/O error that reports a missing file
/// becomes `BinaryNotFound`, carrying the binary and the consulted version;
/// every other error passes through unchanged.
pub fn reclassify_spawn_error(err: Error, binary: &str, version: &str) -> (r: Error)
    ensures
        match err {
            Error::Io { not_found, .. } => if not_found {
                r matches Error::BinaryNotFound { binary: b, version: v } && b@ == binary@ && v@
                    == version@
            } else {
                r == err
            },
            _ => r == err,
        },
{
    match err {
        Error::Io { not_found: true, message: _ } => Error::BinaryNotFound {
            binary: binary.to_owned(),
            version: version.to_owned(),
        },
        other => other,
    }
}

} // verus!
