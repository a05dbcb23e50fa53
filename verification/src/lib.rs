//! A typed model of FTP server capability and directory-listing responses.
//!
//! The crate parses FEAT capability responses into a typed feature set,
//! parses MLST/MLSD fact lines into a canonical file-entry record (with
//! sub-parsers for timestamps and permission strings), converts between
//! that record and a Unix long-listing representation, and models the
//! reconnect-and-retry session controller that drives those parsers.

pub mod chars;
pub mod client;
pub mod datetime;
pub mod features;
pub mod listing;
pub mod mlst;
pub mod num;
pub mod perms;
pub mod retry;
pub mod types;

use vstd::prelude::*;

verus! {

/// Why a parse of an MLST/MLSD fact line, a permission string or a
/// timestamp was rejected.
#[derive(Debug, Clone, Copy, PartialEq, Eq, Structural)]
pub enum ParseError {
    /// Malformed fact grammar, an unknown permission letter, or a missing
    /// mandatory part (the `type` fact, the filename).
    SyntaxError,
    /// The `size` fact does not hold an unsigned decimal number.
    BadSize,
    /// A `modify` or `create` fact does not hold a valid timestamp.
    InvalidDate,
}

} // verus!
