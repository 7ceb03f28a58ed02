//! The error taxonomy of the library. Every failure is terminal for
//! the operation that raised it and is reported to the caller as a
//! descriptive message; nothing is retried.

use vstd::prelude::*;

verus! {

/// Everything that can go wrong while loading a rule document,
/// resolving a file name, choosing a destination, or persisting.
#[derive(Debug, Clone, PartialEq, Eq)]
pub enum RuleError {
    /// The rule-document path does not end in the configuration extension.
    InvalidExtension,
    /// The rule document could not be found.
    FileNotFound,
    /// The rule document could not be read.
    ReadError,
    /// The rule document does not have the expected JSON shape.
    MalformedConfig,
    /// A token of the template has no single-string value in the selection.
    MissingSelectionValue(String),
    /// The selection carries no `extension` (nor legacy `extends`) value.
    MissingExtension,
    /// The platform supplies no desktop directory.
    DesktopDirUnavailable,
    /// The destination file is already present; nothing is overwritten.
    FileAlreadyExists(String),
    /// Writing the new file failed.
    WriteError,
    /// Renaming the existing file failed.
    RenameError,
}

/// The message each error is reported with.
pub open spec fn message_spec(e: RuleError) -> Seq<char> {
    match e {
        RuleError::InvalidExtension => "the file does not have the expected extension"@,
        RuleError::FileNotFound => "the rule document could not be found"@,
        RuleError::ReadError => "the rule document could not be read"@,
        RuleError::MalformedConfig => "the rule document is not a valid configuration"@,
        RuleError::MissingSelectionValue(t) => "no value was selected for token: "@ + t@,
        RuleError::MissingExtension => "no file extension was selected"@,
        RuleError::DesktopDirUnavailable => "the desktop directory could not be determined"@,
        RuleError::FileAlreadyExists(n) => "this file already exists: "@ + n@,
        RuleError::WriteError => "the file could not be written"@,
        RuleError::RenameError => "the file could not be renamed"@,
    }
}

impl RuleError {
    /// The human-readable message for this error.
    pub fn message(&self) -> (r: String)
        ensures
            r@ == message_spec(*self),
    {
        match self {
            RuleError::InvalidExtension => "the file does not have the expected extension".to_owned(),
            RuleError::FileNotFound => "the rule document could not be found".to_owned(),
            RuleError::ReadError => "the rule document could not be read".to_owned(),
            RuleError::MalformedConfig => "the rule document is not a valid configuration".to_owned(),
            RuleError::MissingSelectionValue(t) => {
                let mut m = "no value was selected for token: ".to_owned();
                m.append(t.as_str());
                m
            },
            RuleError::MissingExtension => "no file extension was selected".to_owned(),
            RuleError::DesktopDirUnavailable => "the desktop directory could not be determined".to_owned(),
            RuleError::FileAlreadyExists(n) => {
                let mut m = "this file already exists: ".to_owned();
                m.append(n.as_str());
                m
            },
            RuleError::WriteError => "the file could not be written".to_owned(),
            RuleError::RenameError => "the file could not be renamed".to_owned(),
        }
    }
}

} // verus!
