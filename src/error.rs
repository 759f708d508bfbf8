//! The ways a generation run can fail.
use vstd::prelude::*;

verus! {

/// Why version information could not be generated. Every error is fatal:
/// no partial unit is produced.
#[derive(Debug, Clone, Copy, PartialEq, Eq, Structural)]
pub enum VersionInfoError {
    /// The manifest file is absent or unreadable.
    Io,
    /// The manifest is not syntactically valid.
    ManifestParse,
    /// `package`, `package.name` or `package.version` is missing or has the wrong type.
    Schema,
    /// The version string does not have three numeric dot-separated segments.
    VersionFormat,
    /// The local clock gave a time that cannot be rendered as a build stamp.
    Clock,
    /// No repository at the working directory, or HEAD does not resolve to a commit.
    Repository,
}

} // verus!
