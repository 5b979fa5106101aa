//! Verified core of a binary-cache scanner.
//!
//! The library covers the decision logic of the scanner: deriving a content
//! hash from a store path, parsing archive metadata, choosing a retrieval
//! backend, decoding a packed filesystem archive, matching file contents
//! against a needle, and the bookkeeping of a bounded-concurrency batch run.
//! Network transport and the operator-facing command line live outside it.

pub mod archive;
pub mod engine;
pub mod errors;
pub mod guard;
pub mod matcher;
pub mod narinfo;
pub mod paths;
pub mod pipeline;
pub mod scan;
pub mod text;
