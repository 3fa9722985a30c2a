//! What can go wrong on the way from text to a date-time, and the message
//! that reports it.

use crate::digits::{decimal_string, decimal_text};
use crate::text::contains_text;
use vstd::prelude::*;

verus! {

/// Why a digit string does not denote a signed 64-bit number.
#[derive(Clone, Copy, Debug, PartialEq, Eq, Structural)]
pub enum ParseFailure {
    /// There was no digit to read.
    Empty,
    /// The digits denote a number above `i64::MAX`.
    PosOverflow,
}

/// A failure of the conversion pipeline.
#[derive(Clone, Copy, Debug, PartialEq, Eq, Structural)]
pub enum ConvertError {
    /// The input, once reduced to its digits, is not a signed 64-bit number.
    ParseError(ParseFailure),
    /// The number of seconds lies outside what the calendar can express.
    RangeError(i64),
}

impl ParseFailure {
    /// The words that describe this failure.
    pub open spec fn description(self) -> Seq<char> {
        match self {
            ParseFailure::Empty => "cannot parse integer from empty string"@,
            ParseFailure::PosOverflow => "number too large to fit in target type"@,
        }
    }

    /// Describes this failure in words.
    pub fn describe(&self) -> (r: &'static str)
        ensures
            r@ == self.description(),
    {
        match self {
            ParseFailure::Empty => "cannot parse integer from empty string",
            ParseFailure::PosOverflow => "number too large to fit in target type",
        }
    }
}

/// What every parse error message says about the size of a timestamp.
pub open spec fn size_hint() -> Seq<char> {
    "timestamp should fit in 64-bit number"@
}

impl ConvertError {
    /// The message of this error.
    pub open spec fn text(self) -> Seq<char> {
        match self {
            ConvertError::ParseError(cause) => cause.description() + ", "@ + size_hint(),
            ConvertError::RangeError(seconds) => "couldn't convert "@ + decimal_text(
                seconds as int,
            ) + " to timestamp, since it's an out-of-range number of seconds"@,
        }
    }

    /// Builds the message of this error.
    pub fn message(&self) -> (r: String)
        ensures
            r@ == self.text(),
    {
        match self {
            ConvertError::ParseError(cause) => {
                let mut r = String::from_str(cause.describe());
                r.append(", ");
                r.append("timestamp should fit in 64-bit number");
                r
            },
            ConvertError::RangeError(seconds) => {
                let mut r = String::from_str("couldn't convert ");
                let number = decimal_string(*seconds);
                r.append(number.as_str());
                r.append(" to timestamp, since it's an out-of-range number of seconds");
                r
            },
        }
    }
}

/// Every parse error message says that a timestamp should fit in a 64-bit
/// number.
pub proof fn lemma_parse_error_mentions_size(cause: ParseFailure)
    ensures
        contains_text(ConvertError::ParseError(cause).text(), size_hint()),
{
    let message = ConvertError::ParseError(cause).text();
    let start = (cause.description().len() + ", "@.len()) as int;
    assert(message.subrange(start, start + size_hint().len()) =~= size_hint());
}

} // verus!
