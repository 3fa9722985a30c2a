//! Decimal digits: the characters, the number a digit string denotes, and
//! the digit string that denotes a number.

use vstd::prelude::*;

verus! {

/// Whether `c` is one of the ASCII characters `'0'` to `'9'`.
pub open spec fn is_digit(c: char) -> bool {
    '0' <= c && c <= '9'
}

/// Whether every character of `s` is an ASCII digit.
pub open spec fn all_digits(s: Seq<char>) -> bool {
    forall|i: int| 0 <= i < s.len() ==> is_digit(#[trigger] s[i])
}

/// The value of the digit character `c`, from 0 to 9.
pub open spec fn digit_value(c: char) -> int {
    c as int - '0' as int
}

/// The digit character whose value is `d`, for `d` from 0 to 9.
pub open spec fn digit_char(d: int) -> char {
    (d + '0' as int) as char
}

/// The number that the digit string `s` denotes in base ten. The empty
/// string denotes zero, and leading zeros do not change the value.
pub open spec fn decimal_value(s: Seq<char>) -> nat
    decreases s.len(),
{
    if s.len() == 0 {
        0
    } else {
        (10 * decimal_value(s.drop_last()) + digit_value(s.last())) as nat
    }
}

/// The shortest digit string that denotes `n`: no leading zero, and `"0"`
/// for zero.
pub open spec fn decimal_digits(n: nat) -> Seq<char>
    decreases n,
{
    if n < 10 {
        seq![digit_char(n as int)]
    } else {
        decimal_digits(n / 10).push(digit_char((n % 10) as int))
    }
}

/// The decimal text of an integer: a minus sign for a negative number,
/// then the digits of its magnitude.
pub open spec fn decimal_text(v: int) -> Seq<char> {
    if v < 0 {
        seq!['-'] + decimal_digits((-v) as nat)
    } else {
        decimal_digits(v as nat)
    }
}

/// Tests whether `c` is an ASCII digit.
pub fn is_ascii_digit(c: char) -> (r: bool)
    ensures
        r == is_digit(c),
{
    '0' <= c && c <= '9'
}

/// The value of a digit character.
pub(crate) fn digit_of(c: char) -> (r: u8)
    requires
        is_digit(c),
    ensures
        r == digit_value(c),
{
    let code: u32 = c as u32;
    (code - 48) as u8
}

/// The digit character for a value below ten.
fn char_of_digit(d: u8) -> (c: char)
    requires
        d < 10,
    ensures
        c == digit_char(d as int),
        is_digit(c),
{
    (d + 48) as char
}

/// Appends the digits of `n` to `out`.
pub fn push_digits(out: &mut String, n: u64)
    ensures
        final(out)@ == old(out)@ + decimal_digits(n as nat),
    decreases n,
{
    if n >= 10 {
        push_digits(out, n / 10);
    }
    out.push(char_of_digit((n % 10) as u8));
}

/// The decimal text of an unsigned number.
pub fn digits_string(n: u64) -> (r: String)
    ensures
        r@ == decimal_digits(n as nat),
{
    let mut r = String::new();
    push_digits(&mut r, n);
    r
}

/// The decimal text of a signed number.
pub fn decimal_string(v: i64) -> (r: String)
    ensures
        r@ == decimal_text(v as int),
{
    let mut r = String::new();
    if v < 0 {
        r.push('-');
        let magnitude: u64 = ((-(v + 1)) as u64) + 1;
        push_digits(&mut r, magnitude);
    } else {
        push_digits(&mut r, v as u64);
    }
    r
}

/// Every character of a number's digits is a digit.
pub proof fn lemma_decimal_digits_are_digits(n: nat)
    ensures
        all_digits(decimal_digits(n)),
        decimal_digits(n).len() > 0,
    decreases n,
{
    if n >= 10 {
        lemma_decimal_digits_are_digits(n / 10);
    }
}

/// Reading back the digits of a number gives the number.
pub proof fn lemma_decimal_value_of_digits(n: nat)
    ensures
        decimal_value(decimal_digits(n)) == n,
    decreases n,
{
    let d = decimal_digits(n);
    if n < 10 {
        assert(d.drop_last() =~= Seq::<char>::empty());
        assert(decimal_value(d.drop_last()) == 0);
    } else {
        lemma_decimal_value_of_digits(n / 10);
        assert(d.drop_last() =~= decimal_digits(n / 10));
    }
}

/// A digit string denotes at least what any of its prefixes denotes.
pub proof fn lemma_decimal_value_prefix(s: Seq<char>, k: int)
    requires
        all_digits(s),
        0 <= k <= s.len(),
    ensures
        decimal_value(s.take(k)) <= decimal_value(s),
    decreases s.len() - k,
{
    if k == s.len() {
        assert(s.take(k) =~= s);
    } else {
        lemma_decimal_value_prefix(s, k + 1);
        assert(s.take(k + 1).drop_last() =~= s.take(k));
        assert(is_digit(s[k]));
    }
}

} // verus!
