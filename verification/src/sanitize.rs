//! From free-form text to its digits, and from the digits to a number.

use crate::digits::{all_digits, decimal_value, digit_of, is_ascii_digit, is_digit};
use crate::digits::lemma_decimal_value_prefix;
use crate::error::ParseFailure;
use vstd::prelude::*;

verus! {

/// The digits of `s`: what is left of it when every character that is not
/// an ASCII digit is taken out, in the order in which they stood.
pub open spec fn digits_of(s: Seq<char>) -> Seq<char> {
    s.filter(|c: char| is_digit(c))
}

/// What parsing the digit string `d` as a signed 64-bit number gives.
pub open spec fn parse_outcome(d: Seq<char>) -> Result<i64, ParseFailure> {
    if d.len() == 0 {
        Err(ParseFailure::Empty)
    } else if decimal_value(d) > i64::MAX {
        Err(ParseFailure::PosOverflow)
    } else {
        Ok(decimal_value(d) as i64)
    }
}

/// A string of ASCII digits, possibly empty.
pub struct SanitizedDigits {
    text: String,
}

impl SanitizedDigits {
    #[verifier::type_invariant]
    spec fn only_digits(self) -> bool {
        all_digits(self.text@)
    }

    /// The characters of the string.
    pub closed spec fn view(&self) -> Seq<char> {
        self.text@
    }

    /// Keeps the digits of `input` and drops every other character.
    pub fn new(input: &str) -> (r: Self)
        ensures
            r@ == digits_of(input@),
    {
        let mut text = String::new();
        proof {
            lemma_digits_of_empty();
        }
        for c in it: input.chars()
            invariant
                it.seq() == input@,
                text@ == digits_of(input@.take(it.index())),
        {
            proof {
                let before = input@.take(it.index());
                assert(input@.take(it.index() + 1) =~= before.push(c));
                lemma_digits_of_push(before, c);
            }
            if is_ascii_digit(c) {
                text.push(c);
            }
        }
        proof {
            assert(input@.take(input@.len() as int) =~= input@);
            lemma_digits_of_are_digits(input@);
        }
        SanitizedDigits { text }
    }

    /// The digits as text.
    pub fn as_str(&self) -> (r: &str)
        ensures
            r@ == self@,
            all_digits(r@),
    {
        proof {
            use_type_invariant(self);
        }
        self.text.as_str()
    }

    /// Reads the digits as a signed 64-bit number in base ten. Leading
    /// zeros are allowed; no digits at all, or a value above `i64::MAX`,
    /// is a failure.
    pub fn parse(&self) -> (r: Result<i64, ParseFailure>)
        ensures
            r == parse_outcome(self@),
    {
        proof {
            use_type_invariant(self);
        }
        let s = self.text.as_str();
        if s.is_empty() {
            return Err(ParseFailure::Empty);
        }
        let mut value: i64 = 0;
        for c in it: s.chars()
            invariant
                it.seq() == s@,
                s@ == self@,
                s@.len() > 0,
                all_digits(s@),
                value == decimal_value(s@.take(it.index())),
        {
            proof {
                let upto = s@.take(it.index() + 1);
                assert(upto.drop_last() =~= s@.take(it.index()));
                assert(upto.last() == c);
                lemma_decimal_value_prefix(s@, it.index() + 1);
            }
            let digit: i64 = digit_of(c) as i64;
            let shifted = match value.checked_mul(10) {
                Some(shifted) => shifted,
                None => {
                    return Err(ParseFailure::PosOverflow);
                },
            };
            value = match shifted.checked_add(digit) {
                Some(next) => next,
                None => {
                    return Err(ParseFailure::PosOverflow);
                },
            };
        }
        proof {
            assert(s@.take(s@.len() as int) =~= s@);
        }
        Ok(value)
    }
}

/// The empty text has no digits.
pub proof fn lemma_digits_of_empty()
    ensures
        digits_of(Seq::<char>::empty()) == Seq::<char>::empty(),
{
    reveal(Seq::filter);
}

/// A character at the end of the text is kept if it is a digit and
/// dropped if it is not; the text before it is treated as it was.
pub proof fn lemma_digits_of_push(s: Seq<char>, c: char)
    ensures
        digits_of(s.push(c)) == if is_digit(c) {
            digits_of(s).push(c)
        } else {
            digits_of(s)
        },
{
    reveal(Seq::filter);
    assert(s.push(c).drop_last() =~= s);
}

/// What is kept consists of digits only, and is no longer than the text.
pub proof fn lemma_digits_of_are_digits(s: Seq<char>)
    ensures
        all_digits(digits_of(s)),
        digits_of(s).len() <= s.len(),
    decreases s.len(),
{
    reveal(Seq::filter);
    if s.len() > 0 {
        lemma_digits_of_are_digits(s.drop_last());
    }
}

/// Text that consists of digits only is kept as it is.
pub proof fn lemma_digits_of_digits(s: Seq<char>)
    requires
        all_digits(s),
    ensures
        digits_of(s) == s,
    decreases s.len(),
{
    reveal(Seq::filter);
    if s.len() > 0 {
        lemma_digits_of_digits(s.drop_last());
        assert(s.drop_last().push(s.last()) =~= s);
    }
}

/// Keeping the digits a second time changes nothing.
pub proof fn lemma_digits_of_idempotent(s: Seq<char>)
    ensures
        digits_of(digits_of(s)) == digits_of(s),
{
    lemma_digits_of_are_digits(s);
    lemma_digits_of_digits(digits_of(s));
}

/// The digits of two texts set one after the other are the digits of the
/// first followed by the digits of the second.
pub proof fn lemma_digits_of_concat(a: Seq<char>, b: Seq<char>)
    ensures
        digits_of(a + b) == digits_of(a) + digits_of(b),
{
    Seq::filter_distributes_over_add(a, b, |c: char| is_digit(c));
}

} // verus!
