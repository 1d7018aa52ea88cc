//! The errors of a conversion.
use vstd::prelude::*;

verus! {

/// Why a conversion failed.
#[derive(Clone, Copy, Debug, PartialEq, Eq, Structural)]
pub enum ConvertError {
    /// A format name that names none of the output formats.
    InvalidFormat,
    /// A format that the single-table CSV conversion does not produce.
    UnsupportedFormat,
    /// Delimited text that could not be read as rows.
    Parse,
    /// An encoder refused the records.
    Serialization,
}

impl ConvertError {
    /// A human-readable description of the error.
    pub fn message(&self) -> (r: &'static str)
        ensures
            r@.len() > 0,
    {
        proof {
            reveal_strlit("invalid output format");
            reveal_strlit("CSV and Markdown output are not supported for CSV input");
            reveal_strlit("malformed delimited input");
            reveal_strlit("the records could not be serialized");
        }
        match self {
            ConvertError::InvalidFormat => "invalid output format",
            ConvertError::UnsupportedFormat => "CSV and Markdown output are not supported for CSV input",
            ConvertError::Parse => "malformed delimited input",
            ConvertError::Serialization => "the records could not be serialized",
        }
    }
}

} // verus!
