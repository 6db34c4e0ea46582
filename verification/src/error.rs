//! Errors reported while decoding.

use vstd::prelude::*;
use vstd::string::StringExecFns;

verus! {

/// Reason a decode was abandoned.
#[derive(Debug, PartialEq, Eq)]
pub enum ParseError {
    /// Fewer bytes remain than a read asked for.
    Io,
    /// A section opened with bytes other than its tag: the expected tag, then
    /// the bytes that were found, decoded leniently for display.
    InvalidSection(&'static str, String),
    /// A delimited string without terminator, or text that no encoding of the
    /// format accepts.
    Encoding,
    /// A compressed payload that is corrupt, truncated, or not of the declared
    /// size.
    Decompress,
    /// An archive without a campaign entry.
    MissingCampaign,
}

/// Mathematical counterpart of [`ParseError`].
pub enum ParseErrorModel {
    Io,
    InvalidSection(Seq<char>, Seq<char>),
    Encoding,
    Decompress,
    MissingCampaign,
}

impl DeepView for ParseError {
    type V = ParseErrorModel;

    open spec fn deep_view(&self) -> ParseErrorModel {
        match self {
            ParseError::Io => ParseErrorModel::Io,
            ParseError::InvalidSection(expected, actual) => ParseErrorModel::InvalidSection(
                expected@,
                actual@,
            ),
            ParseError::Encoding => ParseErrorModel::Encoding,
            ParseError::Decompress => ParseErrorModel::Decompress,
            ParseError::MissingCampaign => ParseErrorModel::MissingCampaign,
        }
    }
}

impl ParseErrorModel {
    /// The sentence that describes the error.
    pub open spec fn description(self) -> Seq<char> {
        match self {
            ParseErrorModel::Io => "IO error: unexpected end of data"@,
            ParseErrorModel::InvalidSection(expected, actual) => "Invalid section: expected "@
                + expected + ", found "@ + actual,
            ParseErrorModel::Encoding => "Encoding error: text is not terminated or not valid"@,
            ParseErrorModel::Decompress => "Decompression error: payload is corrupt or not of the declared size"@,
            ParseErrorModel::MissingCampaign => "Invalid archive: no campaign entry"@,
        }
    }
}

impl ParseError {
    /// The sentence that describes the error.
    pub fn describe(&self) -> (r: String)
        ensures
            r@ == self.deep_view().description(),
    {
        match self {
            ParseError::Io => String::from_str("IO error: unexpected end of data"),
            ParseError::InvalidSection(expected, actual) => {
                let mut r = String::from_str("Invalid section: expected ");
                r.append(expected);
                r.append(", found ");
                r.append(actual.as_str());
                r
            },
            ParseError::Encoding => String::from_str(
                "Encoding error: text is not terminated or not valid",
            ),
            ParseError::Decompress => String::from_str(
                "Decompression error: payload is corrupt or not of the declared size",
            ),
            ParseError::MissingCampaign => String::from_str("Invalid archive: no campaign entry"),
        }
    }
}

} // verus!
