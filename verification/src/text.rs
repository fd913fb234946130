//! Writing numbers and single characters into text.

use vstd::prelude::*;

verus! {

/// What a text that may be missing holds.
pub open spec fn optional_text(text: Option<String>) -> Option<Seq<char>> {
    match text {
        Some(text) => Some(text@),
        None => None,
    }
}

/// The character of the decimal digit `digit`.
pub open spec fn digit_char(digit: int) -> char
    recommends
        0 <= digit < 10,
{
    ((digit + 48) as u8) as char
}

/// The number `n` written in decimal digits, without leading zeros.
pub open spec fn decimal_text(n: nat) -> Seq<char>
    decreases n,
{
    if n < 10 {
        seq![digit_char(n as int)]
    } else {
        decimal_text(n / 10).push(digit_char((n % 10) as int))
    }
}

/// `String::push` of std: the text grows by the one character, at its end.
#[verifier::external_body]
pub(crate) fn push_char(text: &mut String, c: char)
    ensures
        final(text)@ == old(text)@.push(c),
{
    text.push(c);
}

/// Writes `n` in decimal digits behind `text`.
pub fn write_decimal(text: &mut String, n: u64)
    ensures
        final(text)@ == old(text)@ + decimal_text(n as nat),
    decreases n,
{
    if n >= 10 {
        write_decimal(text, n / 10);
    }
    let digit: u8 = (n % 10) as u8;
    push_char(text, (digit + 48) as char);
    assert(text@ =~= old(text)@ + decimal_text(n as nat));
}

} // verus!
