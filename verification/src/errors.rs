//! The error taxonomy of a run, and the human-readable message of each error.

use vstd::prelude::*;

verus! {

/// Everything that can abort a run. The first error always ends the whole
/// run: there is no retry, no skip-and-continue.
#[derive(Clone, Debug, PartialEq, Eq)]
pub enum RunError {
    /// The column specification string was malformed.
    ArgumentParse { input: String },
    /// The workbook could not be opened or read.
    WorkbookOpen { path: String, detail: String },
    /// An HTTP GET failed at the transport level.
    Fetch { url: String, detail: String },
    /// A row's URL has no dotted suffix to derive a file extension from.
    MissingExtension { url: String },
    /// The destination file could not be opened or written.
    Io { path: String, detail: String },
}

impl RunError {
    /// The message shown to the user for this error.
    pub open spec fn message_spec(self) -> Seq<char> {
        match self {
            RunError::ArgumentParse { input } => "Failed to parse "@ + input@,
            RunError::WorkbookOpen { path, detail } => (
                "Failed to open workbook "@ + path@ + ": "@ + detail@
            ),
            RunError::Fetch { url, detail } => "Request url "@ + url@ + " error: "@ + detail@,
            RunError::MissingExtension { url } => "No file extension in url "@ + url@,
            RunError::Io { path, detail } => "File "@ + path@ + " save error: "@ + detail@,
        }
    }

    /// Builds the user-visible message of this error.
    pub fn message(&self) -> (m: String)
        ensures
            m@ == self.message_spec(),
    {
        match self {
            RunError::ArgumentParse { input } => {
                let mut m = String::from_str("Failed to parse ");
                m.append(input.as_str());
                m
            },
            RunError::WorkbookOpen { path, detail } => {
                let mut m = String::from_str("Failed to open workbook ");
                m.append(path.as_str());
                m.append(": ");
                m.append(detail.as_str());
                m
            },
            RunError::Fetch { url, detail } => {
                let mut m = String::from_str("Request url ");
                m.append(url.as_str());
                m.append(" error: ");
                m.append(detail.as_str());
                m
            },
            RunError::MissingExtension { url } => {
                let mut m = String::from_str("No file extension in url ");
                m.append(url.as_str());
                m
            },
            RunError::Io { path, detail } => {
                let mut m = String::from_str("File ");
                m.append(path.as_str());
                m.append(" save error: ");
                m.append(detail.as_str());
                m
            },
        }
    }
}

} // verus!
