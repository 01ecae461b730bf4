//! Decimal numbers of any size, as the `bigdecimal` crate holds them.
//!
//! The numbers themselves are opaque here. What is known of them is what the crate's functions
//! return, each under a name of its own, and which texts and which pairs of numbers can be
//! handed to the crate without risk.

use bigdecimal::BigDecimal;
use vstd::prelude::*;
use vstd::std_specs::iter::IteratorSpec;
use vstd::string::*;

verus! {

/// Makes `bigdecimal::BigDecimal` known as a type of which nothing is seen inside.
#[verifier::external_type_specification]
#[verifier::external_body]
pub struct ExBigDecimal(BigDecimal);

/// The scale of a number, as `BigDecimal::as_bigint_and_exponent` returns it: the number is
/// its digits divided by ten to the scale.
pub uninterp spec fn decimal_exponent(number: BigDecimal) -> int;

/// The number that `BigDecimal::from` makes of an integer.
pub uninterp spec fn int_as_decimal(integer: int) -> BigDecimal;

/// The number that `BigDecimal::from_str` reads from a text, if it reads one.
pub uninterp spec fn text_as_decimal(text: Seq<char>) -> Option<BigDecimal>;

/// Whether `==` of `BigDecimal` holds two numbers to be equal.
pub uninterp spec fn same_number(a: BigDecimal, b: BigDecimal) -> bool;

/// The most characters of a text that is read as a number.
pub const MAX_DECIMAL_TEXT: usize = 1024;

/// The most characters behind the exponent mark of a text that is read as a number.
pub const MAX_EXPONENT_TEXT: usize = 18;

/// The most by which the scales of two numbers may differ for the numbers to be compared.
pub const MAX_SCALE_GAP: i64 = 1000;

/// The number of characters before the first `e` or `E`, or the length of the text if it has
/// neither.
pub open spec fn exponent_mark(text: Seq<char>) -> int
    decreases text.len(),
{
    if text.len() == 0 {
        0
    } else if text[0] == 'e' || text[0] == 'E' {
        0
    } else {
        1 + exponent_mark(text.drop_first())
    }
}

/// Whether the text can be read as a number without risk: it is short, and so is what stands
/// behind its exponent mark, so that the scale of the number stays far inside the range of
/// the integers that hold it.
pub open spec fn readable_decimal(text: Seq<char>) -> bool {
    &&& text.len() <= MAX_DECIMAL_TEXT
    &&& text.len() - exponent_mark(text) <= MAX_EXPONENT_TEXT + 1
}

/// Whether two numbers can be compared without risk: their scales are close enough for the
/// power of ten between them to be small.
pub open spec fn comparable(a: BigDecimal, b: BigDecimal) -> bool {
    -MAX_SCALE_GAP <= decimal_exponent(a) - decimal_exponent(b) <= MAX_SCALE_GAP
}

/// Calls `Clone::clone` of `BigDecimal`: the copy is the same number in the same form.
#[verifier::external_body]
pub(crate) fn decimal_clone(number: &BigDecimal) -> (r: BigDecimal)
    ensures
        r == *number,
{
    number.clone()
}

/// Calls `BigDecimal::as_bigint_and_exponent` and keeps the second part, the scale.
#[verifier::external_body]
pub(crate) fn decimal_scale(number: &BigDecimal) -> (r: i64)
    ensures
        r == decimal_exponent(*number),
{
    number.as_bigint_and_exponent().1
}

/// Calls `BigDecimal::from` on an `i64`: the result has the integer as its digits and the
/// scale zero.
#[verifier::external_body]
pub(crate) fn decimal_from_int(integer: i64) -> (r: BigDecimal)
    ensures
        r == int_as_decimal(integer as int),
        decimal_exponent(r) == 0,
{
    BigDecimal::from(integer)
}

/// Calls `BigDecimal::from_str`, and drops the error if the text is no number. The text must be
/// short enough for the scale to be computed without overflow.
#[verifier::external_body]
pub(crate) fn decimal_from_text(text: &str) -> (r: Option<BigDecimal>)
    requires
        readable_decimal(text@),
    ensures
        r == text_as_decimal(text@),
{
    match <BigDecimal as std::str::FromStr>::from_str(text) {
        Ok(number) => Some(number),
        Err(_) => None,
    }
}

/// Calls `==` of `BigDecimal`, which brings both numbers to one scale by a power of ten and
/// compares their digits. The scales must be close enough for that power to be computed.
#[verifier::external_body]
pub(crate) fn decimal_eq(a: &BigDecimal, b: &BigDecimal) -> (r: bool)
    requires
        comparable(*a, *b),
    ensures
        r == same_number(*a, *b),
{
    a == b
}

/// Whether the text can be read as a number without risk.
pub fn is_readable_decimal(text: &str) -> (r: bool)
    ensures
        r == readable_decimal(text@),
{
    broadcast use {axiom_spec_iter, next_postcondition};

    let mut chars = text.chars();
    let mut before: usize = 0;
    let mut behind: usize = 0;
    let mut marked = false;
    loop
        invariant
            chars.decrease() is Some,
            before + behind + chars.remaining().len() == text@.len(),
            before + behind <= MAX_DECIMAL_TEXT + 1,
            behind <= MAX_EXPONENT_TEXT + 2,
            !marked ==> behind == 0 && chars.remaining() == text@.skip(before as int)
                && exponent_mark(text@) == before + exponent_mark(chars.remaining()),
            marked ==> behind >= 1 && exponent_mark(text@) == before,
        decreases chars.decrease()->0,
    {
        if before + behind > MAX_DECIMAL_TEXT || behind > MAX_EXPONENT_TEXT + 1 {
            return false;
        }
        let ghost rest = chars.remaining();
        match chars.next() {
            None => {
                proof {
                    if !marked {
                        assert(exponent_mark(rest) == 0);
                    }
                }
                return true;
            },
            Some(c) => {
                if marked {
                    behind += 1;
                } else if c == 'e' || c == 'E' {
                    marked = true;
                    behind = 1;
                } else {
                    assert(rest.drop_first() =~= text@.skip(before + 1));
                    before += 1;
                }
            },
        }
    }
}

/// Whether two numbers are equal, if they can be compared without risk.
pub fn decimals_agree(a: &BigDecimal, b: &BigDecimal) -> (r: Option<bool>)
    ensures
        r == if comparable(*a, *b) {
            Some(same_number(*a, *b))
        } else {
            None
        },
{
    let gap: i128 = decimal_scale(a) as i128 - decimal_scale(b) as i128;
    if -(MAX_SCALE_GAP as i128) <= gap && gap <= MAX_SCALE_GAP as i128 {
        Some(decimal_eq(a, b))
    } else {
        None
    }
}

/// The number that a text stands for, if the text can be read without risk and is a number.
pub fn read_decimal(text: &str) -> (r: Option<BigDecimal>)
    ensures
        r == if readable_decimal(text@) {
            text_as_decimal(text@)
        } else {
            None
        },
{
    if is_readable_decimal(text) {
        decimal_from_text(text)
    } else {
        None
    }
}

} // verus!
