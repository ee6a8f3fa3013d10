//! The errors that the editor reports, and which of them end the session.

use vstd::prelude::*;

verus! {

/// Why a command was not carried out.
#[derive(Clone, Copy, Debug, PartialEq, Eq, Structural)]
pub enum EditorError {
    /// A line index out of range, or an address that is not one.
    InvalidAddress,
    /// A substitute command without its two delimited fields.
    MissingDelimiter,
    /// A run command with nothing given and nothing remembered.
    EmptyCommand,
    /// A line that is no command.
    UnknownCommand,
    /// The pattern of a substitute command could not be prepared for matching.
    BadPattern,
    /// The file to open could not be read.
    LoadError,
    /// The buffer could not be saved, or no file name is known to save it to.
    SaveError,
    /// The shell command could not be started or waited for.
    ShellError,
}

impl EditorError {
    /// Save and shell errors end the session; all others are reported and the
    /// session goes on.
    pub open spec fn fatal(self) -> bool {
        self == EditorError::SaveError || self == EditorError::ShellError
    }

    /// Whether this error ends the session.
    pub fn is_fatal(&self) -> (b: bool)
        ensures
            b == self.fatal(),
    {
        match self {
            EditorError::SaveError => true,
            EditorError::ShellError => true,
            _ => false,
        }
    }

    /// The diagnostic that names this error.
    pub fn message(&self) -> (s: &'static str)
        ensures
            s@ == match *self {
                EditorError::InvalidAddress => "Invalid address"@,
                EditorError::MissingDelimiter => "Missing pattern delimiter"@,
                EditorError::EmptyCommand => "Empty command"@,
                EditorError::UnknownCommand => "Unknown command"@,
                EditorError::BadPattern => "Invalid pattern"@,
                EditorError::LoadError => "Cannot read file"@,
                EditorError::SaveError => "Cannot save file"@,
                EditorError::ShellError => "Cannot run command"@,
            },
    {
        match self {
            EditorError::InvalidAddress => "Invalid address",
            EditorError::MissingDelimiter => "Missing pattern delimiter",
            EditorError::EmptyCommand => "Empty command",
            EditorError::UnknownCommand => "Unknown command",
            EditorError::BadPattern => "Invalid pattern",
            EditorError::LoadError => "Cannot read file",
            EditorError::SaveError => "Cannot save file",
            EditorError::ShellError => "Cannot run command",
        }
    }
}

} // verus!
