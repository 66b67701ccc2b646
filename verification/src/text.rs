//! Characters, decimal numerals and pieces of text.

use vstd::prelude::*;
use vstd::string::*;

verus! {

/// The characters of a string, in order.
pub fn chars_of(s: &str) -> (v: Vec<char>)
    ensures
        v@ == s@,
{
    let mut v: Vec<char> = Vec::new();
    for c in it: s.chars()
        invariant
            v@ == it.seq().take(it.index() as int),
            it.seq() == s@,
    {
        v.push(c);
    }
    v
}

/// Whether two texts hold the same characters.
pub fn same_text(a: &str, b: &str) -> (same: bool)
    ensures
        same == (a@ == b@),
{
    let left = chars_of(a);
    let right = chars_of(b);
    if left.len() != right.len() {
        return false;
    }
    let mut i: usize = 0;
    while i < left.len()
        invariant
            i <= left.len(),
            left.len() == right.len(),
            left@ == a@,
            right@ == b@,
            forall|j: int| 0 <= j < i ==> left@[j] == right@[j],
        decreases left.len() - i,
    {
        if left[i] != right[i] {
            return false;
        }
        i += 1;
    }
    assert(a@ =~= b@);
    true
}

/// The characters of an optional text.
pub open spec fn text_of(text: Option<String>) -> Option<Seq<char>> {
    match text {
        Some(s) => Some(s@),
        None => None,
    }
}

/// A copy of an optional text.
pub fn copy_text(text: &Option<String>) -> (copy: Option<String>)
    ensures
        text_of(copy) == text_of(*text),
{
    match text {
        Some(s) => Some(s.clone()),
        None => None,
    }
}

/// Whether `prefix` stands in `chars` at position `at`, before `to`.
pub fn starts_with_at(chars: &Vec<char>, at: usize, to: usize, prefix: &str) -> (found: bool)
    requires
        at <= to <= chars.len(),
    ensures
        found == prefix@.is_prefix_of(chars@.subrange(at as int, to as int)),
{
    let wanted = chars_of(prefix);
    if wanted.len() > to - at {
        return false;
    }
    let ghost text = chars@.subrange(at as int, to as int);
    let mut i: usize = 0;
    while i < wanted.len()
        invariant
            i <= wanted.len() <= to - at,
            at <= to <= chars.len(),
            wanted@ == prefix@,
            text == chars@.subrange(at as int, to as int),
            forall|j: int| 0 <= j < i ==> text[j] == wanted@[j],
        decreases wanted.len() - i,
    {
        if chars[at + i] != wanted[i] {
            assert(text[i as int] != prefix@[i as int]);
            assert(text.subrange(0, prefix@.len() as int)[i as int] == text[i as int]);
            return false;
        }
        i += 1;
    }
    assert(text.subrange(0, prefix@.len() as int) =~= prefix@);
    true
}

/// `c` is one of the decimal digits `0` to `9`.
pub open spec fn is_digit(c: char) -> bool {
    '0' <= c && c <= '9'
}

/// The number that a decimal digit stands for.
pub open spec fn digit_value(c: char) -> nat {
    (c as u32 - '0' as u32) as nat
}

/// Every character is a decimal digit.
pub open spec fn all_digits(s: Seq<char>) -> bool {
    forall|i: int| 0 <= i < s.len() ==> is_digit(#[trigger] s[i])
}

/// The number written by a sequence of decimal digits.
pub open spec fn decimal_value(s: Seq<char>) -> nat
    decreases s.len(),
{
    if s.len() == 0 {
        0
    } else {
        decimal_value(s.drop_last()) * 10 + digit_value(s.last())
    }
}

/// What a decimal numeral denotes as a `u64`, if it denotes one.
pub open spec fn decimal_u64(s: Seq<char>) -> Option<u64> {
    if s.len() > 0 && all_digits(s) && decimal_value(s) <= u64::MAX {
        Some(decimal_value(s) as u64)
    } else {
        None
    }
}

/// Tests for a decimal digit.
pub fn is_ascii_digit(c: char) -> (b: bool)
    ensures
        b == is_digit(c),
{
    '0' <= c && c <= '9'
}

/// A numeral is worth at least as much as any of its prefixes.
pub proof fn lemma_decimal_value_prefix(s: Seq<char>, k: int)
    requires
        0 <= k <= s.len(),
    ensures
        decimal_value(s.take(k)) <= decimal_value(s),
    decreases s.len() - k,
{
    if k < s.len() {
        lemma_decimal_value_prefix(s, k + 1);
        assert(s.take(k + 1).drop_last() =~= s.take(k));
    } else {
        assert(s.take(k) =~= s);
    }
}

/// Reads `chars[from..to]` as a decimal numeral.
///
/// `None` when the range is empty, holds anything but digits, or writes a
/// number above `u64::MAX`.
pub fn parse_decimal(chars: &Vec<char>, from: usize, to: usize) -> (res: Option<u64>)
    requires
        from <= to <= chars.len(),
    ensures
        res == decimal_u64(chars@.subrange(from as int, to as int)),
{
    let ghost text = chars@.subrange(from as int, to as int);
    if from == to {
        return None;
    }
    let mut value: u64 = 0;
    let mut i: usize = from;
    while i < to
        invariant
            from <= i <= to <= chars.len(),
            text == chars@.subrange(from as int, to as int),
            all_digits(text.take(i - from)),
            value == decimal_value(text.take(i - from)),
        decreases to - i,
    {
        let c = chars[i];
        proof {
            assert(text.take(i - from + 1).drop_last() =~= text.take(i - from));
            assert(text.take(i - from + 1).last() == c);
        }
        if !is_ascii_digit(c) {
            assert(!is_digit(text[i - from]));
            return None;
        }
        let digit = (c as u32 - '0' as u32) as u64;
        proof {
            lemma_decimal_value_prefix(text, i - from + 1);
        }
        match value.checked_mul(10) {
            None => {
                return None;
            },
            Some(tens) => match tens.checked_add(digit) {
                None => {
                    return None;
                },
                Some(next) => {
                    value = next;
                },
            },
        }
        i += 1;
    }
    proof {
        assert(text.take(to - from) =~= text);
    }
    Some(value)
}

/// The character that writes a digit below ten.
pub open spec fn digit_char(d: nat) -> char {
    ('0' as u32 + d) as char
}

/// The decimal numeral of a number, without leading zeros.
pub open spec fn decimal_text(n: nat) -> Seq<char>
    decreases n,
{
    if n < 10 {
        seq![digit_char(n)]
    } else {
        decimal_text(n / 10).push(digit_char(n % 10))
    }
}

/// The numeral of a number is made of digits and writes that number.
pub proof fn lemma_decimal_round_trip(n: nat)
    ensures
        decimal_text(n).len() > 0,
        all_digits(decimal_text(n)),
        decimal_value(decimal_text(n)) == n,
    decreases n,
{
    if n < 10 {
        assert(decimal_text(n).drop_last() =~= Seq::<char>::empty());
        assert(decimal_value(Seq::<char>::empty()) == 0);
    } else {
        lemma_decimal_round_trip(n / 10);
        assert(decimal_text(n).drop_last() =~= decimal_text(n / 10));
    }
}

/// The numeral written by digits that were collected lowest first.
spec fn digits_reversed(digits: Seq<u8>) -> Seq<char> {
    Seq::new(digits.len(), |i: int| digit_char(digits[digits.len() - 1 - i] as nat))
}

fn digit_str(d: u8) -> (s: &'static str)
    requires
        d < 10,
    ensures
        s@ == seq![digit_char(d as nat)],
{
    proof {
        reveal_strlit("0");
        reveal_strlit("1");
        reveal_strlit("2");
        reveal_strlit("3");
        reveal_strlit("4");
        reveal_strlit("5");
        reveal_strlit("6");
        reveal_strlit("7");
        reveal_strlit("8");
        reveal_strlit("9");
    }
    let s = match d {
        0 => "0",
        1 => "1",
        2 => "2",
        3 => "3",
        4 => "4",
        5 => "5",
        6 => "6",
        7 => "7",
        8 => "8",
        _ => "9",
    };
    assert(s@ =~= seq![digit_char(d as nat)]);
    s
}

/// Writes a number as a decimal numeral.
pub fn u64_to_string(n: u64) -> (s: String)
    ensures
        s@ == decimal_text(n as nat),
{
    let mut digits: Vec<u8> = Vec::new();
    let mut rest: u64 = n;
    while rest >= 10
        invariant
            decimal_text(n as nat) == decimal_text(rest as nat) + digits_reversed(digits@),
            forall|i: int| 0 <= i < digits.len() ==> #[trigger] digits[i] < 10,
        decreases rest,
    {
        let ghost before = digits@;
        let digit = (rest % 10) as u8;
        digits.push(digit);
        proof {
            assert(decimal_text(rest as nat) == decimal_text((rest / 10) as nat).push(
                digit_char(digit as nat),
            ));
            assert(decimal_text((rest / 10) as nat).push(digit_char(digit as nat))
                + digits_reversed(before) =~= decimal_text((rest / 10) as nat) + digits_reversed(
                digits@,
            ));
        }
        rest = rest / 10;
    }
    let mut s = String::from_str(digit_str(rest as u8));
    let mut i: usize = digits.len();
    while i > 0
        invariant
            i <= digits.len(),
            forall|j: int| 0 <= j < digits.len() ==> #[trigger] digits[j] < 10,
            s@ == decimal_text(rest as nat) + digits_reversed(digits@).take(digits.len() - i),
            rest < 10,
        decreases i,
    {
        i -= 1;
        let ghost before = s@;
        s.append(digit_str(digits[i]));
        proof {
            assert(before + seq![digit_char(digits[i as int] as nat)] =~= decimal_text(rest as nat)
                + digits_reversed(digits@).take(digits.len() - i));
        }
    }
    proof {
        assert(digits_reversed(digits@).take(digits.len() as int) =~= digits_reversed(digits@));
    }
    s
}

/// Whether a character has the Unicode property `White_Space`: the controls
/// from tab to carriage return, the space, the next line control, the
/// no-break space, the Ogham space mark, the spaces from en quad to hair
/// space, the line and paragraph separators, the narrow no-break space, the
/// medium mathematical space and the ideographic space.
pub open spec fn white_space(c: char) -> bool {
    let code = c as u32;
    ||| 0x0009 <= code <= 0x000d
    ||| code == 0x0020
    ||| code == 0x0085
    ||| code == 0x00a0
    ||| code == 0x1680
    ||| 0x2000 <= code <= 0x200a
    ||| code == 0x2028
    ||| code == 0x2029
    ||| code == 0x202f
    ||| code == 0x205f
    ||| code == 0x3000
}

/// `char::is_whitespace` of the standard library tells whether the character
/// has the Unicode property `White_Space`.
pub assume_specification[ char::is_whitespace ](c: char) -> (b: bool)
    ensures
        b == white_space(c),
;

/// The text in lower case, as Unicode defines it.
pub uninterp spec fn lowercase(s: Seq<char>) -> Seq<char>;

/// `str::to_lowercase` of the standard library gives the lower-case
/// equivalent of the text as a new string.
pub assume_specification[ str::to_lowercase ](s: &str) -> (lower: String)
    ensures
        lower@ == lowercase(s@),
;

/// The text without its leading whitespace.
pub open spec fn trim_start(s: Seq<char>) -> Seq<char>
    decreases s.len(),
{
    if s.len() > 0 && white_space(s.first()) {
        trim_start(s.drop_first())
    } else {
        s
    }
}

/// The text without its trailing whitespace.
pub open spec fn trim_end(s: Seq<char>) -> Seq<char>
    decreases s.len(),
{
    if s.len() > 0 && white_space(s.last()) {
        trim_end(s.drop_last())
    } else {
        s
    }
}

/// The text without leading and trailing whitespace.
pub open spec fn trim(s: Seq<char>) -> Seq<char> {
    trim_end(trim_start(s))
}

/// Every character is whitespace.
pub open spec fn all_whitespace(s: Seq<char>) -> bool {
    forall|i: int| 0 <= i < s.len() ==> white_space(#[trigger] s[i])
}

/// The text has no whitespace at either end.
pub open spec fn is_trimmed(s: Seq<char>) -> bool {
    s.len() == 0 || (!white_space(s.first()) && !white_space(s.last()))
}

/// Whitespace before a text that begins with something else is all that
/// trimming at the start takes off.
pub proof fn lemma_trim_start_of_padded(space: Seq<char>, rest: Seq<char>)
    requires
        all_whitespace(space),
        rest.len() == 0 || !white_space(rest.first()),
    ensures
        trim_start(space + rest) == rest,
    decreases space.len(),
{
    if space.len() == 0 {
        assert(space + rest =~= rest);
    } else {
        assert((space + rest).first() == space[0]);
        assert((space + rest).drop_first() =~= space.drop_first() + rest);
        lemma_trim_start_of_padded(space.drop_first(), rest);
    }
}

/// Whitespace after a text that ends with something else is all that
/// trimming at the end takes off.
pub proof fn lemma_trim_end_of_padded(rest: Seq<char>, space: Seq<char>)
    requires
        all_whitespace(space),
        rest.len() == 0 || !white_space(rest.last()),
    ensures
        trim_end(rest + space) == rest,
    decreases space.len(),
{
    if space.len() == 0 {
        assert(rest + space =~= rest);
    } else {
        assert((rest + space).last() == space.last());
        assert((rest + space).drop_last() =~= rest + space.drop_last());
        lemma_trim_end_of_padded(rest, space.drop_last());
    }
}

/// Trimming takes the whitespace around a text off and leaves the text.
pub proof fn lemma_trim_of_padded(left: Seq<char>, body: Seq<char>, right: Seq<char>)
    requires
        all_whitespace(left),
        all_whitespace(right),
        is_trimmed(body),
    ensures
        trim(left + body + right) == body,
{
    if body.len() == 0 {
        assert(left + body + right =~= (left + right) + Seq::<char>::empty());
        lemma_trim_start_of_padded(left + right, Seq::empty());
    } else {
        assert(left + body + right =~= left + (body + right));
        assert((body + right).first() == body.first());
        lemma_trim_start_of_padded(left, body + right);
        lemma_trim_end_of_padded(body, right);
    }
}

/// Narrows `chars[from..to]` to the range left when leading and trailing
/// whitespace is taken off.
pub fn trim_range(chars: &Vec<char>, from: usize, to: usize) -> (range: (usize, usize))
    requires
        from <= to <= chars.len(),
    ensures
        from <= range.0 <= range.1 <= to,
        chars@.subrange(range.0 as int, range.1 as int) == trim(
            chars@.subrange(from as int, to as int),
        ),
{
    let ghost text = chars@.subrange(from as int, to as int);
    let mut start: usize = from;
    while start < to && chars[start].is_whitespace()
        invariant
            from <= start <= to <= chars.len(),
            trim_start(text) == trim_start(chars@.subrange(start as int, to as int)),
        decreases to - start,
    {
        proof {
            assert(chars@.subrange(start as int, to as int).drop_first() =~= chars@.subrange(
                start + 1,
                to as int,
            ));
        }
        start += 1;
    }
    let ghost rest = chars@.subrange(start as int, to as int);
    assert(trim_start(text) == rest);
    let mut end: usize = to;
    while start < end && chars[end - 1].is_whitespace()
        invariant
            start <= end <= to <= chars.len(),
            trim_end(rest) == trim_end(chars@.subrange(start as int, end as int)),
        decreases end - start,
    {
        proof {
            assert(chars@.subrange(start as int, end as int).drop_last() =~= chars@.subrange(
                start as int,
                end - 1,
            ));
        }
        end -= 1;
    }
    (start, end)
}

/// The character that writes a number below sixteen in hexadecimal, with
/// lower-case letters.
pub open spec fn hex_digit(n: int) -> char {
    if n < 10 {
        ('0' as u32 + n) as char
    } else {
        ('a' as u32 + n - 10) as char
    }
}

/// Bytes in hexadecimal: two digits to a byte, the high half first.
pub open spec fn hex_text(bytes: Seq<u8>) -> Seq<char> {
    Seq::new(
        2 * bytes.len(),
        |i: int|
            hex_digit(
                if i % 2 == 0 {
                    bytes[i / 2] as int / 16
                } else {
                    bytes[i / 2] as int % 16
                },
            ),
    )
}

/// `hex::encode`: writes each byte as two hexadecimal digits, the high half
/// first, with lower-case letters.
#[verifier::external_body]
pub(crate) fn hex_encode(bytes: &[u8]) -> (text: String)
    ensures
        text@ == hex_text(bytes@),
{
    hex::encode(bytes)
}

} // verus!
