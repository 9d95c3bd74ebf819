//! The error type shared by every phase of the pipeline.

use vstd::prelude::*;

verus! {

/// Everything that can abort a run.
///
/// Per-file trouble during a sweep is never reported through this type: a
/// file that cannot be removed is recorded in the sweep outcome and the run
/// continues.  These variants are the systemic failures.
#[derive(Debug)]
pub enum DeleterError {
    /// An input path could not be read; carries the I/O error's description.
    Io(String),
    /// A supplied path is neither a directory nor a readable list file.
    JobDir(String),
    /// The root set was empty after collection.
    NoValidPaths,
    /// The confirmation prompt was declined.
    Cancelled,
    /// A concurrent worker terminated abnormally.
    Join,
    /// A glob or exclude pattern failed to compile.
    Glob(String),
}

impl DeleterError {
    /// The human-readable description of the error, one line.
    pub open spec fn message_spec(&self) -> Seq<char> {
        match self {
            DeleterError::Io(m) => "IO error: "@ + m@,
            DeleterError::JobDir(p) => "Invalid job directory: "@ + p@,
            DeleterError::NoValidPaths => "No valid paths provided"@,
            DeleterError::Cancelled => "User cancelled"@,
            DeleterError::Join => "Task join error"@,
            DeleterError::Glob(g) => "Invalid glob: "@ + g@,
        }
    }

    /// Renders the error for display.
    pub fn message(&self) -> (r: String)
        ensures
            r@ == self.message_spec(),
    {
        match self {
            DeleterError::Io(m) => {
                let mut r = String::from_str("IO error: ");
                r.append(m.as_str());
                r
            },
            DeleterError::JobDir(p) => {
                let mut r = String::from_str("Invalid job directory: ");
                r.append(p.as_str());
                r
            },
            DeleterError::NoValidPaths => String::from_str("No valid paths provided"),
            DeleterError::Cancelled => String::from_str("User cancelled"),
            DeleterError::Join => String::from_str("Task join error"),
            DeleterError::Glob(g) => {
                let mut r = String::from_str("Invalid glob: ");
                r.append(g.as_str());
                r
            },
        }
    }
}

} // verus!
