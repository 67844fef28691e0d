//! The errors of parsing and of looking attributes up.
use vstd::prelude::*;

verus! {

/// `std::io::Error`, carried unchanged in `VdfError::Io`; nothing is assumed
/// of its contents.
#[verifier::external_type_specification]
#[verifier::external_body]
pub struct ExIoError(std::io::Error);

/// What can go wrong when reading, parsing or querying a document.
#[derive(Debug)]
pub enum VdfError {
    /// Reading the source failed.
    Io(std::io::Error),
    /// The requested key (first field) is not in the block of the attribute
    /// with the second field as key, or that attribute holds no block.
    ValueNotFound(String, String),
    /// The text does not start with an attribute. `position` counts characters
    /// from the start of the text; `line` and `column` count from one.
    Parse { position: usize, line: usize, column: usize, expected: String },
}

} // verus!
