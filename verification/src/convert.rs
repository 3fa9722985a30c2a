//! The first half of the pipeline: from raw input to a timestamp.

use crate::digits::{
    all_digits, decimal_text, decimal_value, lemma_decimal_digits_are_digits,
    lemma_decimal_value_of_digits,
};
use crate::error::{lemma_parse_error_mentions_size, size_hint, ConvertError, ParseFailure};
use crate::sanitize::{digits_of, lemma_digits_of_digits, parse_outcome, SanitizedDigits};
use crate::text::contains_text;
use vstd::prelude::*;

verus! {

/// A parse result as the pipeline reports it: the number as it is, a
/// failure as a parse error.
pub open spec fn reported(parsed: Result<i64, ParseFailure>) -> Result<i64, ConvertError> {
    match parsed {
        Ok(seconds) => Ok(seconds),
        Err(cause) => Err(ConvertError::ParseError(cause)),
    }
}

/// The timestamp that the raw input `raw` stands for.
pub open spec fn timestamp_of(raw: Seq<char>) -> Result<i64, ConvertError> {
    reported(parse_outcome(digits_of(raw)))
}

/// Reads the digits in `input` as a signed 64-bit number, ignoring every
/// other character.
pub fn convert_string_timestamp(input: &str) -> (r: Result<i64, ParseFailure>)
    ensures
        r == parse_outcome(digits_of(input@)),
{
    SanitizedDigits::new(input).parse()
}

/// Turns a parse result into a result of the pipeline.
pub fn get_timestamp_from_input(timestamp: Result<i64, ParseFailure>) -> (r: Result<
    i64,
    ConvertError,
>)
    ensures
        r == reported(timestamp),
{
    match timestamp {
        Ok(time) => Ok(time),
        Err(cause) => Err(ConvertError::ParseError(cause)),
    }
}

/// Converts each input on its own; a failure of one does not touch the
/// others.
pub fn convert_vector_inputs(times: &[String]) -> (r: Vec<Result<i64, ConvertError>>)
    ensures
        r@.len() == times@.len(),
        forall|i: int| 0 <= i < times@.len() ==> #[trigger] r@[i] == timestamp_of(times@[i]@),
{
    let mut r: Vec<Result<i64, ConvertError>> = Vec::new();
    let mut i: usize = 0;
    while i < times.len()
        invariant
            i <= times@.len(),
            r@.len() == i,
            forall|j: int| 0 <= j < i ==> #[trigger] r@[j] == timestamp_of(times@[j]@),
        decreases times@.len() - i,
    {
        let parsed = convert_string_timestamp(times[i].as_str());
        r.push(get_timestamp_from_input(parsed));
        i = i + 1;
    }
    r
}

/// A digit string whose value is above `i64::MAX` gives a parse error, and
/// the message of that error says that a timestamp should fit in a 64-bit
/// number.
pub proof fn lemma_too_large_is_parse_error(digits: Seq<char>)
    requires
        all_digits(digits),
        decimal_value(digits) > i64::MAX,
    ensures
        timestamp_of(digits) == Err::<i64, ConvertError>(
            ConvertError::ParseError(ParseFailure::PosOverflow),
        ),
        contains_text(timestamp_of(digits)->Err_0.text(), size_hint()),
{
    lemma_digits_of_digits(digits);
    lemma_parse_error_mentions_size(ParseFailure::PosOverflow);
}

/// A digit string that is not empty and whose value is at most `i64::MAX`
/// gives exactly that value.
pub proof fn lemma_in_range_is_value(digits: Seq<char>)
    requires
        all_digits(digits),
        digits.len() > 0,
        decimal_value(digits) <= i64::MAX,
    ensures
        timestamp_of(digits) == Ok::<i64, ConvertError>(decimal_value(digits) as i64),
{
    lemma_digits_of_digits(digits);
}

/// The decimal text of a timestamp that is not negative stands for that
/// timestamp.
pub proof fn lemma_decimal_text_reads_back(timestamp: i64)
    requires
        timestamp >= 0,
    ensures
        timestamp_of(decimal_text(timestamp as int)) == Ok::<i64, ConvertError>(timestamp),
{
    lemma_decimal_digits_are_digits(timestamp as nat);
    lemma_decimal_value_of_digits(timestamp as nat);
    lemma_in_range_is_value(decimal_text(timestamp as int));
}

/// Input without a digit gives a parse error, with the same message about
/// the size of a timestamp.
pub proof fn lemma_no_digits_is_parse_error(raw: Seq<char>)
    requires
        digits_of(raw).len() == 0,
    ensures
        timestamp_of(raw) == Err::<i64, ConvertError>(
            ConvertError::ParseError(ParseFailure::Empty),
        ),
        contains_text(timestamp_of(raw)->Err_0.text(), size_hint()),
{
    lemma_parse_error_mentions_size(ParseFailure::Empty);
}

} // verus!
