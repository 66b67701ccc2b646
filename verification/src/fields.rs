//! The tagged fields in the payload of a payment request.
//!
//! After a timestamp of seven symbols the payload is a run of fields. A field
//! is one symbol that names its kind, two symbols that give its length as a
//! 10-bit big-endian number, and that many symbols of content.

use vstd::prelude::*;
use vstd::slice::slice_subrange;
use vstd::string::*;
use vstd::utf8::{decode_utf8, valid_utf8};

use crate::decoder::DecodeError;
use crate::symbols::{all_five_bit, be_value, five_bit_to_bytes, lemma_be_value_push, repack};
use crate::text::text_of;

verus! {

/// Symbols taken by the timestamp at the start of the payload.
pub const TIMESTAMP_SYMBOLS: usize = 7;

/// Seconds for which a request without an expiry field stays valid.
pub const DEFAULT_EXPIRY_SECONDS: u64 = 3600;

/// The letter that stands for each symbol value in a written request.
pub open spec fn charset() -> Seq<char> {
    "qpzry9x8gf2tvdw0s3jn54khce6mua7l"@
}

/// The letter of a symbol; `?` for a value that is no symbol.
pub open spec fn symbol_letter(symbol: u8) -> char {
    if symbol < 32 {
        charset()[symbol as int]
    } else {
        '?'
    }
}

/// The description and the expiry that a payload states.
pub type Fields = (Option<Seq<char>>, u64);

/// The length that the two symbols after a field's kind give.
pub open spec fn field_length(high: u8, low: u8) -> int {
    high as int * 32 + low as int
}

/// The number that the symbols of an expiry field write, cut to 64 bits.
pub open spec fn expiry_value(content: Seq<u8>) -> u64 {
    (be_value(content, 32) % 0x1_0000_0000_0000_0000) as u64
}

/// Reads the fields of `data` from `index` on, starting from the description
/// and expiry found so far.
///
/// The scan ends where the data ends. A field whose length symbols are not
/// both there, or whose content runs past the end, is an error. A field of
/// kind `d` replaces the description with its content, regrouped into bytes
/// and read as UTF-8. A field of kind `x` replaces the expiry. Fields of
/// other kinds are passed over.
pub open spec fn scan_fields(
    data: Seq<u8>,
    index: int,
    description: Option<Seq<char>>,
    expiry: u64,
) -> Result<Fields, DecodeError>
    decreases data.len() - index,
{
    if index >= data.len() {
        Ok((description, expiry))
    } else if index + 2 >= data.len() {
        Err(DecodeError::TagLengthMissing)
    } else {
        let start = index + 3;
        let end = start + field_length(data[index + 1], data[index + 2]);
        if end > data.len() {
            Err(DecodeError::TagLengthOverflow)
        } else {
            let content = data.subrange(start, end);
            let kind = symbol_letter(data[index]);
            if kind == 'd' {
                match repack(content) {
                    None => Err(DecodeError::InvalidPadding),
                    Some(bytes) => if valid_utf8(bytes) {
                        scan_fields(data, end, Some(decode_utf8(bytes)), expiry)
                    } else {
                        Err(DecodeError::InvalidDescription)
                    },
                }
            } else if kind == 'x' {
                scan_fields(data, end, description, expiry_value(content))
            } else {
                scan_fields(data, end, description, expiry)
            }
        }
    }
}

/// The description and the expiry stated by a payload without its signature.
pub open spec fn tagged_fields(data: Seq<u8>) -> Result<Fields, DecodeError> {
    if data.len() < TIMESTAMP_SYMBOLS {
        Err(DecodeError::DataTooShort)
    } else {
        scan_fields(data, TIMESTAMP_SYMBOLS as int, None, DEFAULT_EXPIRY_SECONDS)
    }
}

/// A field of the given kind stands in `data` at or after `index`.
pub open spec fn has_field(data: Seq<u8>, index: int, kind: char) -> bool
    decreases data.len() - index,
{
    if index + 2 >= data.len() {
        false
    } else {
        let end = index + 3 + field_length(data[index + 1], data[index + 2]);
        end <= data.len() && (symbol_letter(data[index]) == kind || has_field(data, end, kind))
    }
}

/// A scan that meets no expiry field leaves the expiry as it was.
pub proof fn lemma_scan_keeps_expiry(
    data: Seq<u8>,
    index: int,
    description: Option<Seq<char>>,
    expiry: u64,
)
    requires
        0 <= index,
        !has_field(data, index, 'x'),
    ensures
        scan_fields(data, index, description, expiry) matches Ok(fields) ==> fields.1 == expiry,
    decreases data.len() - index,
{
    if index + 2 < data.len() {
        let start = index + 3;
        let end = start + field_length(data[index + 1], data[index + 2]);
        if end <= data.len() {
            let content = data.subrange(start, end);
            if symbol_letter(data[index]) == 'd' {
                match repack(content) {
                    Some(bytes) => {
                        if valid_utf8(bytes) {
                            lemma_scan_keeps_expiry(data, end, Some(decode_utf8(bytes)), expiry);
                        }
                    },
                    None => {},
                }
            } else {
                lemma_scan_keeps_expiry(data, end, description, expiry);
            }
        }
    }
}

/// A payload that decodes and holds no expiry field expires after the
/// default of 3600 seconds.
pub proof fn lemma_expiry_default(data: Seq<u8>)
    requires
        !has_field(data, TIMESTAMP_SYMBOLS as int, 'x'),
    ensures
        tagged_fields(data) matches Ok(fields) ==> fields.1 == 3600,
{
    if data.len() >= TIMESTAMP_SYMBOLS {
        lemma_scan_keeps_expiry(data, TIMESTAMP_SYMBOLS as int, None, DEFAULT_EXPIRY_SECONDS);
    }
}

/// `String::from_utf8` of the standard library: the bytes as a string when
/// they are well-formed UTF-8, and nothing otherwise.
#[verifier::external_body]
fn string_from_utf8(bytes: Vec<u8>) -> (res: Option<String>)
    ensures
        res is Some <==> valid_utf8(bytes@),
        res matches Some(s) ==> s@ == decode_utf8(bytes@),
{
    String::from_utf8(bytes).ok()
}

fn symbol_to_letter(symbol: u8) -> (letter: char)
    ensures
        letter == symbol_letter(symbol),
{
    let letters = "qpzry9x8gf2tvdw0s3jn54khce6mua7l";
    proof {
        reveal_strlit("qpzry9x8gf2tvdw0s3jn54khce6mua7l");
    }
    if symbol < 32 {
        letters.get_char(symbol as usize)
    } else {
        '?'
    }
}

proof fn lemma_shift_in(value: u64, symbol: u64)
    by (bit_vector)
    requires
        symbol < 32,
    ensures
        (value << 5) | symbol == (value * 32 + symbol) % 0x1_0000_0000_0000_0000,
{
}

/// Reads symbols as a big-endian number, keeping its lowest 64 bits.
pub fn symbols_to_u64(content: &[u8]) -> (value: u64)
    requires
        all_five_bit(content@),
    ensures
        value == expiry_value(content@),
{
    let mut value: u64 = 0;
    let mut i: usize = 0;
    while i < content.len()
        invariant
            i <= content.len(),
            all_five_bit(content@),
            value == expiry_value(content@.take(i as int)),
        decreases content.len() - i,
    {
        let symbol = content[i];
        proof {
            assert(content@.take(i + 1) =~= content@.take(i as int).push(symbol));
            lemma_be_value_push(content@.take(i as int), symbol, 32);
            lemma_shift_in(value, symbol as u64);
        }
        value = (value << 5) | (symbol as u64);
        i += 1;
    }
    proof {
        assert(content@.take(i as int) =~= content@);
    }
    value
}

/// Reads the description and the expiry from a payload without its
/// signature.
pub fn decode_tagged_fields(data: &[u8]) -> (res: Result<(Option<String>, u64), DecodeError>)
    requires
        all_five_bit(data@),
    ensures
        match res {
            Ok(fields) => tagged_fields(data@) == Ok::<Fields, DecodeError>(
                (text_of(fields.0), fields.1),
            ),
            Err(e) => tagged_fields(data@) == Err::<Fields, DecodeError>(e),
        },
{
    if data.len() < TIMESTAMP_SYMBOLS {
        return Err(DecodeError::DataTooShort);
    }
    let mut index: usize = TIMESTAMP_SYMBOLS;
    let mut description: Option<String> = None;
    let mut expiry_seconds: u64 = DEFAULT_EXPIRY_SECONDS;
    while index < data.len()
        invariant
            TIMESTAMP_SYMBOLS <= index <= data.len(),
            all_five_bit(data@),
            tagged_fields(data@) == scan_fields(
                data@,
                index as int,
                text_of(description),
                expiry_seconds,
            ),
        decreases data.len() - index,
    {
        let kind = symbol_to_letter(data[index]);
        if data.len() - index <= 2 {
            return Err(DecodeError::TagLengthMissing);
        }
        let length = (data[index + 1] as usize) * 32 + (data[index + 2] as usize);
        let start = index + 3;
        if length > data.len() - start {
            return Err(DecodeError::TagLengthOverflow);
        }
        let end = start + length;
        let content = slice_subrange(data, start, end);
        if kind == 'd' {
            let bytes = match five_bit_to_bytes(content) {
                Ok(bytes) => bytes,
                Err(e) => {
                    return Err(e);
                },
            };
            match string_from_utf8(bytes) {
                Some(text) => {
                    description = Some(text);
                },
                None => {
                    return Err(DecodeError::InvalidDescription);
                },
            }
        } else if kind == 'x' {
            expiry_seconds = symbols_to_u64(content);
        }
        index = end;
    }
    Ok((description, expiry_seconds))
}

} // verus!
