//! ASCII rendering and parsing of hexadecimal digits.

use vstd::prelude::*;

verus! {

/// Letter case of the hexadecimal digits `a` to `f`.
#[derive(Clone, Copy, Debug, PartialEq, Eq, Structural)]
pub enum Case {
    /// The digits `a` to `f`.
    Lower,
    /// The digits `A` to `F`.
    Upper,
}

/// A byte that is no hexadecimal digit, with the position at which it stands.
#[derive(Clone, Copy, Debug, PartialEq, Eq, Structural)]
pub struct InvalidDigit {
    position: usize,
}

impl InvalidDigit {
    /// Position of the offending byte, as the caller counted it.
    pub closed spec fn spec_position(&self) -> usize {
        self.position
    }

    /// Position of the offending byte, as the caller counted it.
    #[verifier::when_used_as_spec(spec_position)]
    pub fn position(&self) -> (position: usize)
        ensures
            position == self.spec_position(),
    {
        self.position
    }
}

/// The ASCII character that renders `nibble`, a value below 16, in the given case.
pub open spec fn hex_digit(nibble: u8, case: Case) -> u8 {
    if nibble < 10 {
        (0x30 + nibble) as u8
    } else if case == Case::Upper {
        (0x41 + (nibble - 10)) as u8
    } else {
        (0x61 + (nibble - 10)) as u8
    }
}

/// The value of the ASCII hexadecimal digit `digit`, if it is one.
///
/// With `Some(case)` the letters of the other case are no digits; with `None`
/// both cases are read.
pub open spec fn hex_value(digit: u8, case: Option<Case>) -> Option<u8> {
    if 0x30 <= digit <= 0x39 {
        Some((digit - 0x30) as u8)
    } else if 0x41 <= digit <= 0x46 && case != Some(Case::Lower) {
        Some((digit - 0x41 + 10) as u8)
    } else if 0x61 <= digit <= 0x66 && case != Some(Case::Upper) {
        Some((digit - 0x61 + 10) as u8)
    } else {
        None
    }
}

/// Whether `digit` is an ASCII hexadecimal digit that `case` admits.
pub open spec fn is_hex_digit(digit: u8, case: Option<Case>) -> bool {
    hex_value(digit, case) is Some
}

/// The two digits that render `byte`, most significant first.
pub open spec fn hex_pair(byte: u8, case: Case) -> Seq<u8> {
    seq![hex_digit(byte / 16, case), hex_digit(byte % 16, case)]
}

/// The byte that the digits `high` and `low` render, if both are digits.
pub open spec fn hex_pair_value(high: u8, low: u8, case: Option<Case>) -> Option<u8> {
    match (hex_value(high, case), hex_value(low, case)) {
        (Some(h), Some(l)) => Some((16 * h + l) as u8),
        _ => None,
    }
}

/// A digit of either case is still one when both cases are read, with the same value.
pub proof fn lemma_hex_value_any_case(digit: u8, case: Case)
    requires
        is_hex_digit(digit, Some(case)),
    ensures
        hex_value(digit, None) == hex_value(digit, Some(case)),
{
}

/// Reading a rendered digit gives back the value, whether the reader fixes the
/// case it was rendered in or not.
pub proof fn lemma_render_then_read(nibble: u8, case: Case)
    requires
        nibble < 16,
    ensures
        hex_value(hex_digit(nibble, case), Some(case)) == Some(nibble),
        hex_value(hex_digit(nibble, case), None) == Some(nibble),
{
}

/// Rendering the value of a digit, in the case it was read in, gives back the digit.
pub proof fn lemma_read_then_render(digit: u8, case: Case)
    requires
        is_hex_digit(digit, Some(case)),
    ensures
        hex_digit(hex_value(digit, Some(case)).unwrap(), case) == digit,
{
}

/// Reading the two digits of a rendered byte gives back the byte.
pub proof fn lemma_pair_render_then_read(byte: u8, case: Case)
    ensures
        hex_pair_value(hex_pair(byte, case)[0], hex_pair(byte, case)[1], Some(case)) == Some(byte),
        hex_pair_value(hex_pair(byte, case)[0], hex_pair(byte, case)[1], None) == Some(byte),
{
    lemma_render_then_read(byte / 16, case);
    lemma_render_then_read(byte % 16, case);
}

/// Rendering the byte that two digits of one case stand for gives back the digits.
pub proof fn lemma_pair_read_then_render(high: u8, low: u8, case: Case)
    requires
        is_hex_digit(high, Some(case)),
        is_hex_digit(low, Some(case)),
    ensures
        hex_pair(hex_pair_value(high, low, Some(case)).unwrap(), case) == seq![high, low],
{
    lemma_read_then_render(high, case);
    lemma_read_then_render(low, case);
    let byte = hex_pair_value(high, low, Some(case)).unwrap();
    assert(byte / 16 == hex_value(high, Some(case)).unwrap());
    assert(byte % 16 == hex_value(low, Some(case)).unwrap());
}

/// Renders a value below 16 as one ASCII hexadecimal digit.
pub fn nibble_to_ascii_hex(nibble: u8, case: Case) -> (digit: u8)
    requires
        nibble < 16,
    ensures
        digit == hex_digit(nibble, case),
{
    if nibble < 10 {
        0x30 + nibble
    } else {
        match case {
            Case::Upper => 0x41 + (nibble - 10),
            Case::Lower => 0x61 + (nibble - 10),
        }
    }
}

/// Renders a byte as two ASCII hexadecimal digits, most significant first.
pub fn byte_to_ascii_hex(byte: u8, case: Case) -> (hex: [u8; 2])
    ensures
        hex@ == hex_pair(byte, case),
{
    let hex = [nibble_to_ascii_hex(byte / 16, case), nibble_to_ascii_hex(byte % 16, case)];
    assert(hex@ =~= hex_pair(byte, case));
    hex
}

/// Reads one ASCII hexadecimal digit; `position` is reported if it is none.
pub fn parse_ascii_hex_digit(digit: u8, position: usize, case: Option<Case>) -> (result: Result<
    u8,
    InvalidDigit,
>)
    ensures
        match result {
            Ok(value) => hex_value(digit, case) == Some(value),
            Err(error) => !is_hex_digit(digit, case) && error.position() == position,
        },
{
    let lower = match case {
        Some(Case::Upper) => false,
        _ => true,
    };
    let upper = match case {
        Some(Case::Lower) => false,
        _ => true,
    };
    if 0x30 <= digit && digit <= 0x39 {
        Ok(digit - 0x30)
    } else if 0x41 <= digit && digit <= 0x46 && upper {
        Ok(digit - 0x41 + 10)
    } else if 0x61 <= digit && digit <= 0x66 && lower {
        Ok(digit - 0x61 + 10)
    } else {
        Err(InvalidDigit { position })
    }
}

/// Reads a byte from two ASCII hexadecimal digits, most significant first.
///
/// `position` is where the first digit stands. The error reports the first of
/// the two bytes that is no digit: `position` or the one after it.
pub fn parse_ascii_hex_byte(hex: [u8; 2], position: usize, case: Option<Case>) -> (result: Result<
    u8,
    InvalidDigit,
>)
    requires
        position < usize::MAX,
    ensures
        match result {
            Ok(byte) => hex_pair_value(hex[0], hex[1], case) == Some(byte),
            Err(error) => {
                &&& hex_pair_value(hex[0], hex[1], case) is None
                &&& error.position() == if is_hex_digit(hex[0], case) {
                    position + 1
                } else {
                    position as int
                }
            },
        },
{
    let high = match parse_ascii_hex_digit(hex[0], position, case) {
        Ok(value) => value,
        Err(error) => {
            return Err(error);
        },
    };
    let low = match parse_ascii_hex_digit(hex[1], position + 1, case) {
        Ok(value) => value,
        Err(error) => {
            return Err(error);
        },
    };
    Ok(16 * high + low)
}

/// The decimal digits of `value` in ASCII, without leading zeros.
pub open spec fn decimal_digits(value: nat) -> Seq<u8>
    decreases value,
{
    if value < 10 {
        seq![(0x30 + value) as u8]
    } else {
        decimal_digits(value / 10).push((0x30 + value % 10) as u8)
    }
}

/// Decimal digits are ASCII digits, and there is at least one.
pub proof fn lemma_decimal_digits(value: nat)
    ensures
        decimal_digits(value).len() >= 1,
        forall|i: int|
            0 <= i < decimal_digits(value).len() ==> 0x30 <= #[trigger] decimal_digits(value)[i]
                <= 0x39,
    decreases value,
{
    if value >= 10 {
        lemma_decimal_digits(value / 10);
    }
}

/// Renders a number in decimal ASCII digits, without leading zeros.
pub fn u64_to_ascii_decimal(value: u64) -> (digits: Vec<u8>)
    ensures
        digits@ == decimal_digits(value as nat),
{
    let mut reversed: Vec<u8> = Vec::new();
    let mut rest = value;
    while rest >= 10
        invariant
            decimal_digits(value as nat) == decimal_digits(rest as nat) + reversed@.reverse(),
        decreases rest,
    {
        let digit = 0x30 + (rest % 10) as u8;
        let ghost before = reversed@;
        reversed.push(digit);
        assert(reversed@.reverse() =~= seq![digit] + before.reverse());
        assert(decimal_digits(rest as nat) + before.reverse() =~= decimal_digits(
            (rest / 10) as nat,
        ) + reversed@.reverse());
        rest = rest / 10;
    }
    let ghost before = reversed@;
    reversed.push(0x30 + rest as u8);
    assert(reversed@.reverse() =~= decimal_digits(rest as nat) + before.reverse());
    let mut digits: Vec<u8> = Vec::new();
    let mut left = reversed.len();
    while left > 0
        invariant
            left <= reversed@.len(),
            digits@.len() == reversed@.len() - left,
            forall|i: int|
                0 <= i < digits@.len() ==> digits@[i] == reversed@[reversed@.len() - 1 - i],
        decreases left,
    {
        left -= 1;
        digits.push(reversed[left]);
    }
    assert(digits@ =~= reversed@.reverse());
    digits
}

/// Renders a number in decimal ASCII digits, without leading zeros.
pub fn usize_to_ascii_decimal(value: usize) -> (digits: Vec<u8>)
    ensures
        digits@ == decimal_digits(value as nat),
{
    u64_to_ascii_decimal(value as u64)
}

} // verus!
