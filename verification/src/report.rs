//! Diagnostics: one closed sum type with a variant per failure kind, each
//! carrying only the fields needed to render its message. Rendering itself
//! (source positions, pretty-printing) is left to the caller.

use vstd::prelude::*;

use crate::version::Version;

verus! {

/// File identifier: the position of a file inside the [`crate::file_library::FileLibrary`],
/// assigned in registration order.
pub type FileId = usize;

/// A tagged diagnostic. Every variant but [`Report::NoCompilerVersionWarning`]
/// is fatal to the run that produced it.
#[derive(Debug, PartialEq)]
pub enum Report {
    /// The path could not be opened or read.
    FileOsError { path: String },
    /// The external single-file grammar rejected the file's text.
    SyntaxError { file_id: FileId, message: String },
    /// An include reference could not be recorded as a graph edge.
    IncludeError { path: String },
    /// The file requires a compiler version incompatible with the running one.
    CompilerVersionError { path: String, required_version: Version, version: Version },
    /// The file pins no minimum compiler version.
    NoCompilerVersionWarning { path: String, version: Version },
    /// No file declares a program entry point.
    NoMainError,
    /// More than one file declares a program entry point.
    MultipleMainError,
    /// A chain of includes reaches a file using the custom-gates feature
    /// while some file on the chain does not declare the feature pragma.
    /// The chain starts at the using file and walks up through its includers.
    CustomGatesPragmaError { chain: Vec<String> },
}

/// An ordered collection of diagnostics.
pub type ReportCollection = Vec<Report>;

impl Report {
    /// Whether this diagnostic is fatal rather than merely informational.
    pub open spec fn is_fatal(self) -> bool {
        !(self is NoCompilerVersionWarning)
    }
}

} // verus!
