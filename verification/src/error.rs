//! Failure taxonomy of the query engine.
//!
//! Every fallible step returns one of these variants unchanged to the caller;
//! there is no local recovery or retry anywhere in the query path.  The
//! embedding program turns a variant into a protocol error, attaching the
//! offending input it handed in as diagnostic data.

use vstd::prelude::*;

verus! {

/// Why a request could not be served.
#[derive(Clone, Copy, Debug, PartialEq, Eq)]
pub enum QueryError {
    /// No registered workspace folder owns the file location.
    NoOwningWorkspace,
    /// No identifier run touches the requested position, or the requested
    /// line index lies outside the document.
    NoSymbolAtPosition,
    /// The index tool process could not be started.
    ToolSpawnFailed,
    /// The index tool process could not be awaited to completion.
    ToolExecutionFailed,
    /// The index tool wrote bytes that are not valid UTF-8.
    InvalidToolOutput,
    /// An output line of the index tool does not match the cross-reference
    /// grammar.
    MalformedIndexRecord,
    /// The line-number field of a cross-reference record is not a positive
    /// integer that fits the protocol's line type.
    InvalidLineNumber,
    /// A record points at a line beyond the end of the file it names.
    LineIndexOutOfRange,
    /// The symbol of a record no longer occurs on the line it names.
    SymbolNotFoundInLine,
    /// Joining a workspace root and a relative path did not yield an
    /// absolute path.
    PathNotAbsolute,
}

impl QueryError {
    /// The machine code surfaced to the protocol transport.  A request
    /// outside every registered folder is a client-usage error (invalid
    /// parameters); everything else is a failed request.
    pub fn code(&self) -> (c: i64)
        ensures
            c == (if self is NoOwningWorkspace {
                -32602int
            } else {
                -32803int
            }),
    {
        match self {
            QueryError::NoOwningWorkspace => -32602,
            _ => -32803,
        }
    }

    /// A short human-readable description of the failure.
    pub fn message(&self) -> (m: String)
        ensures
            m@ == self.message_spec(),
    {
        let s: &str = match self {
            QueryError::NoOwningWorkspace => "cannot find matching workspace folder",
            QueryError::NoSymbolAtPosition => "no symbol found at the specified position",
            QueryError::ToolSpawnFailed => "cannot start the index tool",
            QueryError::ToolExecutionFailed => "cannot await the index tool",
            QueryError::InvalidToolOutput => "index tool output is not valid UTF-8",
            QueryError::MalformedIndexRecord => "malformed index record",
            QueryError::InvalidLineNumber => "record line number is not a positive integer",
            QueryError::LineIndexOutOfRange => "line index out of range",
            QueryError::SymbolNotFoundInLine => "symbol not found in line",
            QueryError::PathNotAbsolute => "path is not absolute",
        };
        s.to_owned()
    }

    /// The characters of [`Self::message`], fixed per variant.
    pub open spec fn message_spec(self) -> Seq<char> {
        match self {
            QueryError::NoOwningWorkspace => "cannot find matching workspace folder"@,
            QueryError::NoSymbolAtPosition => "no symbol found at the specified position"@,
            QueryError::ToolSpawnFailed => "cannot start the index tool"@,
            QueryError::ToolExecutionFailed => "cannot await the index tool"@,
            QueryError::InvalidToolOutput => "index tool output is not valid UTF-8"@,
            QueryError::MalformedIndexRecord => "malformed index record"@,
            QueryError::InvalidLineNumber => "record line number is not a positive integer"@,
            QueryError::LineIndexOutOfRange => "line index out of range"@,
            QueryError::SymbolNotFoundInLine => "symbol not found in line"@,
            QueryError::PathNotAbsolute => "path is not absolute"@,
        }
    }
}

} // verus!
