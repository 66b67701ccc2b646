//! The amount written in the human-readable part of a payment request.
//!
//! The part has the form `ln<network>[<amount>[<multiplier>]]`. The amount is
//! a decimal number of the base unit, scaled down by the multiplier, and is
//! reported in thousandths of the smallest unit.

use vstd::prelude::*;

use crate::decoder::DecodeError;
use crate::text::{
    chars_of, decimal_text, decimal_u64, is_ascii_digit, is_digit, lemma_decimal_round_trip,
    parse_decimal,
};

verus! {

/// Thousandths of the smallest unit in one base unit.
pub const MSATS_PER_BASE_UNIT: u64 = 100_000_000_000;

/// Thousandths of the smallest unit in a thousandth of the base unit.
pub const MSATS_PER_MILLI: u64 = 100_000_000;

/// Thousandths of the smallest unit in a millionth of the base unit.
pub const MSATS_PER_MICRO: u64 = 100_000;

/// Thousandths of the smallest unit in a billionth of the base unit.
pub const MSATS_PER_NANO: u64 = 100;

/// `c` is one of the four multiplier letters.
pub open spec fn is_multiplier(c: char) -> bool {
    c == 'm' || c == 'u' || c == 'n' || c == 'p'
}

/// `i` is the position of the first decimal digit of `s`.
pub open spec fn is_first_digit(s: Seq<char>, i: int) -> bool {
    &&& 0 <= i < s.len()
    &&& is_digit(s[i])
    &&& forall|j: int| 0 <= j < i ==> !is_digit(#[trigger] s[j])
}

/// `s` holds a decimal digit.
pub open spec fn has_digit(s: Seq<char>) -> bool {
    exists|i: int| is_first_digit(s, i)
}

/// The position of the first decimal digit of `s`.
pub open spec fn first_digit(s: Seq<char>) -> int {
    choose|i: int| is_first_digit(s, i)
}

/// A number of base units, scaled by a multiplier letter, in thousandths of
/// the smallest unit.
///
/// Without a letter the number counts whole base units. A product above
/// `u64::MAX` is an overflow. With `p` the number counts tenths of the
/// result's unit and must be a multiple of ten.
pub open spec fn scaled(value: u64, multiplier: Option<char>) -> Result<Option<u64>, DecodeError> {
    match multiplier {
        None => times(value, MSATS_PER_BASE_UNIT),
        Some(c) => if c == 'm' {
            times(value, MSATS_PER_MILLI)
        } else if c == 'u' {
            times(value, MSATS_PER_MICRO)
        } else if c == 'n' {
            times(value, MSATS_PER_NANO)
        } else if c == 'p' {
            if value % 10 != 0 {
                Err(DecodeError::SubMillisatoshi)
            } else {
                Ok(Some(value / 10))
            }
        } else {
            Err(DecodeError::InvalidAmount)
        },
    }
}

/// The product of `value` and `factor`, or an overflow.
pub open spec fn times(value: u64, factor: u64) -> Result<Option<u64>, DecodeError> {
    if value * factor <= u64::MAX {
        Ok(Some((value * factor) as u64))
    } else {
        Err(DecodeError::AmountOverflow)
    }
}

/// The amount that a human-readable part states.
///
/// The part must begin with `ln`. The amount begins at the first decimal
/// digit after that; a part without a digit states no amount. A final
/// multiplier letter is split off, and what is left must be a decimal
/// numeral that fits a `u64`.
pub open spec fn amount_msats(hrp: Seq<char>) -> Result<Option<u64>, DecodeError> {
    if !(hrp.len() >= 2 && hrp[0] == 'l' && hrp[1] == 'n') {
        Err(DecodeError::InvalidPrefix)
    } else {
        let rest = hrp.skip(2);
        if !has_digit(rest) {
            Ok(None)
        } else {
            let part = rest.skip(first_digit(rest));
            let last = part.last();
            let number = if is_multiplier(last) {
                part.drop_last()
            } else {
                part
            };
            let multiplier = if is_multiplier(last) {
                Some(last)
            } else {
                None
            };
            match decimal_u64(number) {
                None => Err(DecodeError::InvalidAmount),
                Some(value) => scaled(value, multiplier),
            }
        }
    }
}

/// The first decimal digit of a text stands at one position only.
pub proof fn lemma_first_digit_unique(s: Seq<char>, i: int)
    requires
        is_first_digit(s, i),
    ensures
        has_digit(s),
        first_digit(s) == i,
{
    let j = first_digit(s);
    assert(is_first_digit(s, j));
    if j < i {
        assert(!is_digit(s[j]));
    } else if i < j {
        assert(!is_digit(s[i]));
    }
}

/// The letter of a multiplier as it is written, and nothing for none.
pub open spec fn multiplier_text(multiplier: Option<char>) -> Seq<char> {
    match multiplier {
        Some(c) => seq![c],
        None => Seq::empty(),
    }
}

/// An amount that is written after the name of a network is read back: the
/// part `ln`, a network name without digits, the decimal numeral of a number
/// and a multiplier letter, if any, state that number scaled by the letter.
pub proof fn lemma_written_amount_is_read(
    network: Seq<char>,
    value: u64,
    multiplier: Option<char>,
)
    requires
        forall|i: int| 0 <= i < network.len() ==> !is_digit(#[trigger] network[i]),
        multiplier matches Some(c) ==> is_multiplier(c),
    ensures
        amount_msats(
            "ln"@ + network + decimal_text(value as nat) + multiplier_text(multiplier),
        ) == scaled(value, multiplier),
{
    reveal_strlit("ln");
    let numeral = decimal_text(value as nat);
    let ending = multiplier_text(multiplier);
    let hrp = "ln"@ + network + numeral + ending;
    let rest = hrp.skip(2);
    let part = numeral + ending;
    lemma_decimal_round_trip(value as nat);
    assert(rest =~= network + numeral + ending);
    assert(rest[network.len() as int] == numeral[0]);
    assert(is_first_digit(rest, network.len() as int)) by {
        assert forall|j: int| 0 <= j < network.len() implies !is_digit(#[trigger] rest[j]) by {
            assert(rest[j] == network[j]);
        }
    }
    lemma_first_digit_unique(rest, network.len() as int);
    assert(rest.skip(network.len() as int) =~= part);
    match multiplier {
        Some(c) => {
            assert(part.last() == c);
            assert(part.drop_last() =~= numeral);
        },
        None => {
            assert(part =~= numeral);
            assert(is_digit(numeral[numeral.len() - 1]));
        },
    }
}

fn checked_scale(value: u64, factor: u64) -> (res: Result<Option<u64>, DecodeError>)
    ensures
        res == times(value, factor),
{
    match value.checked_mul(factor) {
        Some(product) => Ok(Some(product)),
        None => Err(DecodeError::AmountOverflow),
    }
}

/// Reads the amount from the human-readable part of a payment request.
///
/// `Ok(None)` means that the request states no amount and leaves it to the
/// payer.
pub fn parse_amount_msats(hrp: &str) -> (res: Result<Option<u64>, DecodeError>)
    ensures
        res == amount_msats(hrp@),
{
    let chars = chars_of(hrp);
    if !(chars.len() >= 2 && chars[0] == 'l' && chars[1] == 'n') {
        return Err(DecodeError::InvalidPrefix);
    }
    let ghost rest = hrp@.skip(2);
    let mut start: usize = 2;
    while start < chars.len() && !is_ascii_digit(chars[start])
        invariant
            2 <= start <= chars.len(),
            chars@ == hrp@,
            rest == hrp@.skip(2),
            forall|j: int| 0 <= j < start - 2 ==> !is_digit(#[trigger] rest[j]),
        decreases chars.len() - start,
    {
        start += 1;
    }
    if start == chars.len() {
        proof {
            if has_digit(rest) {
                let i = first_digit(rest);
                assert(is_first_digit(rest, i));
                assert(!is_digit(rest[i]));
            }
        }
        return Ok(None);
    }
    proof {
        assert(is_digit(rest[start - 2]));
        lemma_first_digit_unique(rest, start - 2);
        assert(rest.skip(start - 2) =~= chars@.subrange(start as int, chars.len() as int));
    }
    let ghost part = chars@.subrange(start as int, chars.len() as int);
    let last = chars[chars.len() - 1];
    let has_multiplier = last == 'm' || last == 'u' || last == 'n' || last == 'p';
    let end = if has_multiplier {
        chars.len() - 1
    } else {
        chars.len()
    };
    proof {
        assert(part.last() == last);
        if has_multiplier {
            assert(part.drop_last() =~= chars@.subrange(start as int, end as int));
        }
    }
    let value = match parse_decimal(&chars, start, end) {
        Some(value) => value,
        None => {
            return Err(DecodeError::InvalidAmount);
        },
    };
    if !has_multiplier {
        checked_scale(value, MSATS_PER_BASE_UNIT)
    } else if last == 'm' {
        checked_scale(value, MSATS_PER_MILLI)
    } else if last == 'u' {
        checked_scale(value, MSATS_PER_MICRO)
    } else if last == 'n' {
        checked_scale(value, MSATS_PER_NANO)
    } else {
        if value % 10 != 0 {
            return Err(DecodeError::SubMillisatoshi);
        }
        Ok(Some(value / 10))
    }
}

} // verus!
