//! Why a venue message could not be read.
use vstd::prelude::*;

verus! {

/// Why a venue message could not be read.
#[derive(Debug)]
pub enum FeedParseError {
    /// The text is not a JSON document.
    InvalidJson,
    /// A required field is absent or does not have the expected JSON type.
    MissingField(String),
    /// A field holds text that is not a number literal within range.
    InvalidNumber(String),
}

/// [`FeedParseError`] with its field name as a character sequence.
pub enum ParseFailure {
    InvalidJson,
    MissingField(Seq<char>),
    InvalidNumber(Seq<char>),
}

impl View for FeedParseError {
    type V = ParseFailure;

    open spec fn view(&self) -> ParseFailure {
        match self {
            FeedParseError::InvalidJson => ParseFailure::InvalidJson,
            FeedParseError::MissingField(f) => ParseFailure::MissingField(f@),
            FeedParseError::InvalidNumber(f) => ParseFailure::InvalidNumber(f@),
        }
    }
}

} // verus!
