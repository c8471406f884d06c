//! Symbol resolution and index query engine for a tags-based language server.
//!
//! The library answers "where is this symbol defined/referenced" and "what
//! symbols exist" questions over a source tree.  It resolves an editor cursor
//! position to a symbol token, builds the argument vectors for the external
//! index tool, parses the tool's line-oriented cross-reference output, and
//! re-locates each answer to an exact (or degraded low-precision) text range.
//! All process and file I/O is left to the embedding program; every function
//! here is a total, verified computation on plain values.
//!
//! The modules, leaves first: [`text`] reads a document as lines, [`token`]
//! extracts the symbol under a cursor, [`cxref`] parses the index tool's
//! cross-reference records, [`workspace`] resolves the owning workspace
//! folder and joins paths, [`location`] re-resolves a record to an exact or
//! low-precision range, [`query`] fixes the tool's argument vectors,
//! [`symbols`] classifies symbol kinds, [`pipeline`] chains all of this per
//! request, [`requests`] prepares a query from an inbound request,
//! [`completion`] merges completion candidates, [`stream`] delivers results
//! capped or in chunks, [`progress`] paces the background indexing
//! heartbeat, [`docs`] caches open documents, and [`error`] names every way
//! a request can fail.

use vstd::prelude::*;

pub mod completion;
pub mod cxref;
pub mod docs;
pub mod error;
pub mod location;
pub mod pipeline;
pub mod progress;
pub mod query;
pub mod requests;
pub mod stream;
pub mod symbols;
pub mod text;
pub mod token;
pub mod workspace;

verus! {

/// Protocol error codes that the transport layer's own error type does not
/// predefine.
pub enum LspErrorCode {
    /// A notification or request arrived before the session was initialized.
    ServerNotInitialized,
    /// A syntactically valid request could not be served.
    RequestFailed,
}

impl LspErrorCode {
    /// The numeric code carried on the wire for this error class.
    pub fn code(&self) -> (c: i64)
        ensures
            c == (match self {
                LspErrorCode::ServerNotInitialized => -32002int,
                LspErrorCode::RequestFailed => -32803int,
            }),
    {
        match self {
            LspErrorCode::ServerNotInitialized => -32002,
            LspErrorCode::RequestFailed => -32803,
        }
    }
}

} // verus!
