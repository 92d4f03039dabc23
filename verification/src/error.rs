//! What can go wrong: validation, sub-processes and manifest updates.

use vstd::prelude::*;

verus! {

/// A failure of an operation of the library as a whole.
#[derive(Clone, Debug, PartialEq, Eq)]
pub enum Error {
    /// The synchronisation tool cannot be found.
    RcloneUnavailable,
    /// No remote has been chosen.
    CloudNotConfigured,
    /// The path on the remote is empty or is the root.
    CloudPathInvalid,
    /// A manifest does not have the form of a manifest. `identifier` names a
    /// secondary manifest by its address; the primary one has none.
    ManifestInvalid { why: String, identifier: Option<String> },
    /// A manifest could not be fetched or stored.
    ManifestCannotBeUpdated { identifier: Option<String> },
}

/// A failure of a sub-process, with what is needed to tell a user about it.
#[derive(Clone, Debug, PartialEq, Eq)]
pub enum CommandError {
    /// The program could not be started; `raw` is the system's message.
    Launched { program: String, args: Vec<String>, raw: String },
    /// The program ended without an exit code, or its state could not be read.
    Terminated { program: String, args: Vec<String> },
    /// The program ended with an exit code that does not count as success.
    Exited {
        program: String,
        args: Vec<String>,
        code: i32,
        stdout: Option<String>,
        stderr: Option<String>,
    },
}

} // verus!
