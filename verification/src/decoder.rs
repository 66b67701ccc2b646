//! Decoder for compact payment requests.
//!
//! A request is a Bech32 text: a human-readable part that names the network
//! and may state an amount, and a payload of 5-bit symbols that holds a
//! timestamp, tagged fields and a signature. The decoder reads the amount,
//! the description and the expiry, and leaves the signature alone.

use vstd::prelude::*;
use vstd::slice::slice_subrange;
use vstd::string::*;

use crate::amount::{amount_msats, parse_amount_msats};
use crate::fields::{decode_tagged_fields, tagged_fields};
use crate::symbols::all_five_bit;
use crate::text::{
    all_whitespace, chars_of, is_trimmed, lemma_trim_of_padded, lowercase,
    starts_with_at, text_of, trim, trim_range, white_space,
};

verus! {

/// Why a payment request could not be decoded.
#[derive(Debug, Clone, Copy, PartialEq, Eq, Structural)]
pub enum DecodeError {
    /// Nothing is left of the input once whitespace and scheme are taken off.
    Empty,
    /// The text is not Bech32: a character, the case or the checksum is wrong.
    InvalidBech32,
    /// The checksum is that of Bech32m.
    InvalidVariant,
    /// The payload is shorter than a timestamp and a signature.
    DataTooShort,
    /// The human-readable part does not begin with `ln`.
    InvalidPrefix,
    /// The amount is not a decimal numeral that fits 64 bits.
    InvalidAmount,
    /// The amount in thousandths of the smallest unit does not fit 64 bits.
    AmountOverflow,
    /// The amount is finer than a thousandth of the smallest unit.
    SubMillisatoshi,
    /// The content of a tagged field runs past the end of the payload.
    TagLengthOverflow,
    /// A tagged field ends before its two length symbols.
    TagLengthMissing,
    /// The bits left after the last byte of a description are not all zero.
    InvalidPadding,
    /// The description is not well-formed UTF-8.
    InvalidDescription,
}

/// What a payment request states.
#[derive(Debug, Clone)]
pub struct DecodedInvoice {
    /// The amount in thousandths of the smallest unit; `None` leaves the
    /// amount to the payer.
    pub amount_msats: Option<u64>,
    /// The description, if the request carries one.
    pub description: Option<String>,
    /// Seconds after its creation for which the request is valid.
    pub expiry_seconds: u64,
}

/// The mathematical content of a `DecodedInvoice`.
pub struct DecodedFields {
    pub amount_msats: Option<u64>,
    pub description: Option<Seq<char>>,
    pub expiry_seconds: u64,
}

impl View for DecodedInvoice {
    type V = DecodedFields;

    open spec fn view(&self) -> DecodedFields {
        DecodedFields {
            amount_msats: self.amount_msats,
            description: text_of(self.description),
            expiry_seconds: self.expiry_seconds,
        }
    }
}

/// The checksum that a Bech32 text was written with.
#[derive(Debug, Clone, Copy, PartialEq, Eq, Structural)]
pub enum Variant {
    Bech32,
    Bech32m,
}

/// The parts of a Bech32 text.
#[derive(Debug, Clone)]
pub struct Bech32Parts {
    /// The human-readable part, in lower case.
    pub hrp: String,
    /// The payload without its checksum, one symbol to an element.
    pub data: Vec<u8>,
    /// The checksum in use.
    pub variant: Variant,
}

/// Symbols taken by the signature and its recovery flag at the end of the
/// payload.
pub const SIGNATURE_SYMBOLS: usize = 104;

/// Symbols that every payload holds: the timestamp and the signature.
pub const MIN_DATA_LEN: usize = 7 + 104;

/// `bech32::Error`, the reason why a text is not Bech32. It is not looked
/// into.
#[verifier::external_type_specification]
#[verifier::external_body]
pub struct ExBech32Error(bech32::Error);

/// The parts that Bech32 decoding finds in a text, or `None` where the text
/// is not valid Bech32.
pub uninterp spec fn bech32_parts(text: Seq<char>) -> Option<(Seq<char>, Seq<u8>, Variant)>;

/// `bech32::decode`: splits a Bech32 text at its last `1`, checks characters,
/// case and checksum, and gives the human-readable part in lower case, the
/// payload without the checksum, and the checksum's variant. Every element of
/// the payload is a value below 32.
#[verifier::external_body]
fn bech32_decode(text: &str) -> (res: Result<Bech32Parts, bech32::Error>)
    ensures
        match res {
            Ok(parts) => bech32_parts(text@) == Some((parts.hrp@, parts.data@, parts.variant))
                && all_five_bit(parts.data@),
            Err(_) => bech32_parts(text@) is None,
        },
{
    let (hrp, symbols, variant) = bech32::decode(text)?;
    Ok(
        Bech32Parts {
            hrp,
            data: symbols.iter().map(|symbol| symbol.to_u8()).collect(),
            variant: match variant {
                bech32::Variant::Bech32 => Variant::Bech32,
                bech32::Variant::Bech32m => Variant::Bech32m,
            },
        },
    )
}

/// The text with a leading `lightning:` scheme, in either case, taken off.
pub open spec fn strip_scheme(s: Seq<char>) -> Seq<char> {
    if "lightning:"@.is_prefix_of(s) {
        s.skip("lightning:"@.len() as int)
    } else if "LIGHTNING:"@.is_prefix_of(s) {
        s.skip("LIGHTNING:"@.len() as int)
    } else {
        s
    }
}

/// A payment request as typed or scanned, reduced to the request itself:
/// surrounding whitespace and a `lightning:` scheme are taken off.
pub open spec fn sanitized(input: Seq<char>) -> Seq<char> {
    trim(strip_scheme(trim(input)))
}

/// What the parts of a Bech32 text state as a payment request.
///
/// The checksum must be that of Bech32, and the payload must hold at least
/// a timestamp and a signature. The fields are read from the payload without
/// its signature, then the amount from the human-readable part.
pub open spec fn decoded_parts(hrp: Seq<char>, data: Seq<u8>, variant: Variant) -> Result<
    DecodedFields,
    DecodeError,
> {
    if variant != Variant::Bech32 {
        Err(DecodeError::InvalidVariant)
    } else if data.len() < MIN_DATA_LEN {
        Err(DecodeError::DataTooShort)
    } else {
        match tagged_fields(data.take(data.len() - SIGNATURE_SYMBOLS)) {
            Err(e) => Err(e),
            Ok(fields) => match amount_msats(hrp) {
                Err(e) => Err(e),
                Ok(amount) => Ok(
                    DecodedFields {
                        amount_msats: amount,
                        description: fields.0,
                        expiry_seconds: fields.1,
                    },
                ),
            },
        }
    }
}

/// What an input states as a payment request.
pub open spec fn decoded(input: Seq<char>) -> Result<DecodedFields, DecodeError> {
    let cleaned = sanitized(input);
    if cleaned.len() == 0 {
        Err(DecodeError::Empty)
    } else {
        match bech32_parts(lowercase(cleaned)) {
            None => Err(DecodeError::InvalidBech32),
            Some((hrp, data, variant)) => decoded_parts(hrp, data, variant),
        }
    }
}

/// `scheme` is `lightning:`, in either case.
pub open spec fn is_scheme(scheme: Seq<char>) -> bool {
    scheme == "lightning:"@ || scheme == "LIGHTNING:"@
}

/// The text begins with a `lightning:` scheme, in either case.
pub open spec fn has_scheme(s: Seq<char>) -> bool {
    "lightning:"@.is_prefix_of(s) || "LIGHTNING:"@.is_prefix_of(s)
}

/// A request with whitespace around it is reduced to the request.
pub proof fn lemma_sanitized_takes_whitespace_off(
    left: Seq<char>,
    body: Seq<char>,
    right: Seq<char>,
)
    requires
        all_whitespace(left),
        all_whitespace(right),
        is_trimmed(body),
        !has_scheme(body),
    ensures
        sanitized(left + body + right) == body,
{
    lemma_trim_of_padded(left, body, right);
    lemma_trim_of_padded(Seq::empty(), body, Seq::empty());
    assert(Seq::<char>::empty() + body + Seq::<char>::empty() =~= body);
}

/// A request behind a `lightning:` scheme, with whitespace around it and
/// after the scheme, is reduced to the request.
pub proof fn lemma_sanitized_takes_scheme_off(
    left: Seq<char>,
    scheme: Seq<char>,
    gap: Seq<char>,
    body: Seq<char>,
    right: Seq<char>,
)
    requires
        all_whitespace(left),
        all_whitespace(gap),
        all_whitespace(right),
        is_scheme(scheme),
        is_trimmed(body),
    ensures
        sanitized(left + scheme + gap + body + right) == body,
{
    reveal_strlit("lightning:");
    reveal_strlit("LIGHTNING:");
    let input = left + scheme + gap + body + right;
    assert(scheme.len() == 10);
    assert(!white_space(scheme.first()) && !white_space(scheme.last()));
    if body.len() == 0 {
        assert(input =~= left + scheme + (gap + right));
        lemma_trim_of_padded(left, scheme, gap + right);
        assert(scheme.subrange(0, 10) =~= scheme);
        assert(scheme.skip(10) =~= Seq::<char>::empty());
        if scheme == "LIGHTNING:"@ {
            assert("lightning:"@[0] != scheme.subrange(0, 10)[0]);
        }
        assert(strip_scheme(scheme) == Seq::<char>::empty());
        lemma_trim_of_padded(Seq::empty(), Seq::empty(), Seq::empty());
        assert(Seq::<char>::empty() + Seq::<char>::empty() + Seq::<char>::empty()
            =~= Seq::<char>::empty());
    } else {
        let whole = scheme + gap + body;
        assert(input =~= left + whole + right);
        assert(whole.first() == scheme.first());
        assert(whole.last() == body.last());
        lemma_trim_of_padded(left, whole, right);
        assert(whole.subrange(0, 10) =~= scheme);
        assert(whole.skip(10) =~= gap + body);
        if scheme == "LIGHTNING:"@ {
            assert("lightning:"@[0] != whole.subrange(0, 10)[0]);
        }
        assert(strip_scheme(whole) == gap + body);
        lemma_trim_of_padded(gap, body, Seq::empty());
        assert(gap + body + Seq::<char>::empty() =~= gap + body);
    }
}

/// An input of nothing but whitespace, with or without a `lightning:`
/// scheme in it, is empty and decodes to nothing.
pub proof fn lemma_blank_is_empty(left: Seq<char>, scheme: Seq<char>, right: Seq<char>)
    requires
        all_whitespace(left),
        all_whitespace(right),
        scheme.len() == 0 || is_scheme(scheme),
    ensures
        sanitized(left + scheme + right).len() == 0,
        decoded(left + scheme + right) == Err::<DecodedFields, DecodeError>(DecodeError::Empty),
{
    if scheme.len() == 0 {
        reveal_strlit("lightning:");
        reveal_strlit("LIGHTNING:");
        lemma_sanitized_takes_whitespace_off(left, Seq::empty(), right);
        assert(left + Seq::<char>::empty() + right =~= left + scheme + right);
    } else {
        lemma_sanitized_takes_scheme_off(left, scheme, Seq::empty(), Seq::empty(), right);
        assert(left + scheme + Seq::<char>::empty() + Seq::<char>::empty() + right =~= left
            + scheme + right);
    }
}

/// Takes surrounding whitespace and an optional `lightning:` scheme off a
/// payment request.
pub fn sanitize_payment_request(input: &str) -> (cleaned: String)
    ensures
        cleaned@ == sanitized(input@),
{
    let chars = chars_of(input);
    let (from, to) = trim_range(&chars, 0, chars.len());
    proof {
        reveal_strlit("lightning:");
        reveal_strlit("LIGHTNING:");
        assert(chars@.subrange(0, chars.len() as int) =~= input@);
    }
    let ghost trimmed = chars@.subrange(from as int, to as int);
    let after = if starts_with_at(&chars, from, to, "lightning:") || starts_with_at(
        &chars,
        from,
        to,
        "LIGHTNING:",
    ) {
        from + 10
    } else {
        from
    };
    proof {
        assert(chars@.subrange(after as int, to as int) =~= strip_scheme(trimmed));
    }
    let (start, end) = trim_range(&chars, after, to);
    input.substring_char(start, end).to_owned()
}

/// Reads a payment request from the parts of its Bech32 text.
pub fn decode_invoice_parts(hrp: &str, data: &[u8], variant: Variant) -> (res: Result<
    DecodedInvoice,
    DecodeError,
>)
    requires
        all_five_bit(data@),
    ensures
        match res {
            Ok(invoice) => decoded_parts(hrp@, data@, variant) == Ok::<DecodedFields, DecodeError>(
                invoice@,
            ),
            Err(e) => decoded_parts(hrp@, data@, variant) == Err::<DecodedFields, DecodeError>(e),
        },
{
    if variant != Variant::Bech32 {
        return Err(DecodeError::InvalidVariant);
    }
    if data.len() < MIN_DATA_LEN {
        return Err(DecodeError::DataTooShort);
    }
    let data_no_sig = slice_subrange(data, 0, data.len() - SIGNATURE_SYMBOLS);
    let (description, expiry_seconds) = match decode_tagged_fields(data_no_sig) {
        Ok(fields) => fields,
        Err(e) => {
            return Err(e);
        },
    };
    let amount_msats = match parse_amount_msats(hrp) {
        Ok(amount) => amount,
        Err(e) => {
            return Err(e);
        },
    };
    Ok(DecodedInvoice { amount_msats, description, expiry_seconds })
}

/// Decodes a payment request into its amount, description and expiry.
///
/// The input may carry surrounding whitespace and a `lightning:` scheme, and
/// may be written in either case.
pub fn decode_payment_request_local(input: &str) -> (res: Result<DecodedInvoice, DecodeError>)
    ensures
        match res {
            Ok(invoice) => decoded(input@) == Ok::<DecodedFields, DecodeError>(invoice@),
            Err(e) => decoded(input@) == Err::<DecodedFields, DecodeError>(e),
        },
{
    let cleaned = sanitize_payment_request(input);
    if cleaned.as_str().is_empty() {
        return Err(DecodeError::Empty);
    }
    let invoice = cleaned.as_str().to_lowercase();
    let parts = match bech32_decode(invoice.as_str()) {
        Ok(parts) => parts,
        Err(_) => {
            return Err(DecodeError::InvalidBech32);
        },
    };
    decode_invoice_parts(parts.hrp.as_str(), parts.data.as_slice(), parts.variant)
}

} // verus!
