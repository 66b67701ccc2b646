use bech32::{ToBase32, Variant as Checksum};
use thors::amount::parse_amount_msats;
use thors::decoder::{
    decode_invoice_parts, decode_payment_request_local, sanitize_payment_request, DecodeError,
    Variant,
};
use thors::fields::decode_tagged_fields;
use thors::format::{format_amount, format_expiry};
use thors::symbols::{five_bit_to_bytes, is_five_bit};

fn field(kind: u8, content: &[u8]) -> Vec<u8> {
    let mut out = vec![kind, (content.len() >> 5) as u8, (content.len() & 31) as u8];
    out.extend_from_slice(content);
    out
}

fn symbols_of(bytes: &[u8]) -> Vec<u8> {
    bytes.to_base32().iter().map(|s| s.to_u8()).collect()
}

fn payload(fields: &[Vec<u8>]) -> Vec<u8> {
    let mut data = vec![1u8, 2, 3, 4, 5, 6, 7];
    for f in fields {
        data.extend_from_slice(f);
    }
    data
}

fn signed(mut data: Vec<u8>) -> Vec<u8> {
    data.extend(std::iter::repeat(0u8).take(104));
    data
}

fn written(hrp: &str, data: &[u8], checksum: Checksum) -> String {
    let symbols: Vec<bech32::u5> =
        data.iter().map(|v| bech32::u5::try_from_u8(*v).unwrap()).collect();
    bech32::encode(hrp, symbols, checksum).unwrap()
}

#[test]
fn amount_with_milli_multiplier() {
    assert_eq!(parse_amount_msats("lnbc25m"), Ok(Some(2_500_000_000)));
}

#[test]
fn amount_with_pico_multiplier_needs_a_multiple_of_ten() {
    assert_eq!(parse_amount_msats("lnbc2501p"), Err(DecodeError::SubMillisatoshi));
    assert_eq!(parse_amount_msats("lnbc2500p"), Ok(Some(250)));
}

#[test]
fn amount_absent_is_not_zero() {
    assert_eq!(parse_amount_msats("lnbc"), Ok(None));
    assert_eq!(parse_amount_msats("lntb"), Ok(None));
    assert_eq!(parse_amount_msats("lnbc0"), Ok(Some(0)));
}

#[test]
fn amount_multipliers_scale_exactly() {
    assert_eq!(parse_amount_msats("lnbc1"), Ok(Some(100_000_000_000)));
    assert_eq!(parse_amount_msats("lnbc1m"), Ok(Some(100_000_000)));
    assert_eq!(parse_amount_msats("lnbc1u"), Ok(Some(100_000)));
    assert_eq!(parse_amount_msats("lnbc1n"), Ok(Some(100)));
    assert_eq!(parse_amount_msats("lnbc10p"), Ok(Some(1)));
    assert_eq!(parse_amount_msats("lnbcrt2500u"), Ok(Some(250_000_000)));
}

#[test]
fn amount_errors() {
    assert_eq!(parse_amount_msats("bc25m"), Err(DecodeError::InvalidPrefix));
    assert_eq!(parse_amount_msats("l"), Err(DecodeError::InvalidPrefix));
    assert_eq!(parse_amount_msats("lnbc2x5m"), Err(DecodeError::InvalidAmount));
    assert_eq!(parse_amount_msats("lnbc25x"), Err(DecodeError::InvalidAmount));
    assert_eq!(
        parse_amount_msats("lnbc18446744073709551616p"),
        Err(DecodeError::InvalidAmount)
    );
    assert_eq!(
        parse_amount_msats("lnbc18446744073709551615"),
        Err(DecodeError::AmountOverflow)
    );
    assert_eq!(
        parse_amount_msats("lnbc184467440738m"),
        Err(DecodeError::AmountOverflow)
    );
    assert_eq!(
        parse_amount_msats("lnbc184467440737m"),
        Ok(Some(18_446_744_073_700_000_000))
    );
}

#[test]
fn repacking_regroups_bits() {
    assert_eq!(five_bit_to_bytes(&[]), Ok(vec![]));
    assert_eq!(five_bit_to_bytes(&[0]), Ok(vec![]));
    assert_eq!(five_bit_to_bytes(&[31, 28]), Ok(vec![0xff]));
    assert_eq!(five_bit_to_bytes(&symbols_of(b"coffee")), Ok(b"coffee".to_vec()));
    assert_eq!(
        five_bit_to_bytes(&[0, 1, 2, 3, 4, 5, 6, 7]),
        Ok(vec![0x00, 0x44, 0x32, 0x14, 0xc7])
    );
}

#[test]
fn repacking_rejects_set_padding_bits() {
    assert_eq!(five_bit_to_bytes(&[1]), Err(DecodeError::InvalidPadding));
    assert_eq!(five_bit_to_bytes(&[31, 29]), Err(DecodeError::InvalidPadding));
    assert_eq!(five_bit_to_bytes(&[31, 30]), Err(DecodeError::InvalidPadding));
    assert_eq!(five_bit_to_bytes(&[0, 0, 16]), Err(DecodeError::InvalidPadding));
}

#[test]
fn expiry_defaults_to_an_hour() {
    let data = payload(&[field(13, &symbols_of(b"tea"))]);
    assert_eq!(decode_tagged_fields(&data), Ok((Some("tea".to_string()), 3600)));
    assert_eq!(decode_tagged_fields(&payload(&[])), Ok((None, 3600)));
    assert_eq!(decode_tagged_fields(&payload(&[field(1, &[5, 6])])), Ok((None, 3600)));
}

#[test]
fn expiry_field_is_a_base_32_number() {
    assert_eq!(decode_tagged_fields(&payload(&[field(6, &[1, 28])])), Ok((None, 60)));
    assert_eq!(decode_tagged_fields(&payload(&[field(6, &[])])), Ok((None, 0)));
    let long = [1u8; 13];
    assert_eq!(
        decode_tagged_fields(&payload(&[field(6, &long)])),
        Ok((None, 0x0842_1084_2108_4210_8421u128 as u64))
    );
}

#[test]
fn later_fields_replace_earlier_ones() {
    let data = payload(&[
        field(6, &[1]),
        field(13, &symbols_of(b"one")),
        field(13, &symbols_of(b"two")),
        field(6, &[2, 0]),
    ]);
    assert_eq!(decode_tagged_fields(&data), Ok((Some("two".to_string()), 64)));
}

#[test]
fn field_errors() {
    assert_eq!(decode_tagged_fields(&[0; 6]), Err(DecodeError::DataTooShort));
    let mut data = payload(&[]);
    data.push(13);
    assert_eq!(decode_tagged_fields(&data), Err(DecodeError::TagLengthMissing));
    data.push(0);
    assert_eq!(decode_tagged_fields(&data), Err(DecodeError::TagLengthMissing));
    data.push(1);
    assert_eq!(decode_tagged_fields(&data), Err(DecodeError::TagLengthOverflow));
    data.push(1);
    assert_eq!(decode_tagged_fields(&data), Err(DecodeError::InvalidPadding));
    assert_eq!(
        decode_tagged_fields(&payload(&[field(13, &symbols_of(&[0xff, 0xfe]))])),
        Err(DecodeError::InvalidDescription)
    );
}

#[test]
fn sanitizing_strips_scheme_and_whitespace() {
    assert_eq!(sanitize_payment_request("  lnbc1abc \n"), "lnbc1abc");
    assert_eq!(sanitize_payment_request("lightning:lnbc1abc"), "lnbc1abc");
    assert_eq!(sanitize_payment_request(" LIGHTNING: lnbc1abc "), "lnbc1abc");
    assert_eq!(sanitize_payment_request("Lightning:lnbc1abc"), "Lightning:lnbc1abc");
    assert_eq!(sanitize_payment_request("\u{a0}lightning:\t"), "");
    assert_eq!(sanitize_payment_request(""), "");
}

#[test]
fn decodes_a_written_request() {
    let data = signed(payload(&[field(13, &symbols_of(b"1 cup coffee")), field(6, &[1, 28])]));
    let text = written("lnbc2500u", &data, Checksum::Bech32);
    let decoded = decode_payment_request_local(&text).unwrap();
    assert_eq!(decoded.amount_msats, Some(250_000_000));
    assert_eq!(decoded.description, Some("1 cup coffee".to_string()));
    assert_eq!(decoded.expiry_seconds, 60);

    let shouted = format!("  LIGHTNING:{}\n", text.to_uppercase());
    let again = decode_payment_request_local(&shouted).unwrap();
    assert_eq!(again.description, Some("1 cup coffee".to_string()));
    assert_eq!(again.amount_msats, Some(250_000_000));
}

#[test]
fn decodes_a_request_without_amount_or_expiry() {
    let text = written("lnbc", &signed(payload(&[])), Checksum::Bech32);
    let decoded = decode_payment_request_local(&text).unwrap();
    assert_eq!(decoded.amount_msats, None);
    assert_eq!(decoded.description, None);
    assert_eq!(decoded.expiry_seconds, 3600);
}

#[test]
fn decode_errors() {
    let err = |input: &str| decode_payment_request_local(input).unwrap_err();
    assert_eq!(err(""), DecodeError::Empty);
    assert_eq!(err("  lightning:  "), DecodeError::Empty);
    assert_eq!(err("not an invoice"), DecodeError::InvalidBech32);
    let good = written("lnbc1m", &signed(payload(&[])), Checksum::Bech32);
    let mut bad = good.clone();
    let last = bad.pop().unwrap();
    bad.push(if last == 'q' { 'p' } else { 'q' });
    assert_eq!(err(&bad), DecodeError::InvalidBech32);
    assert_eq!(
        err(&written("lnbc1m", &signed(payload(&[])), Checksum::Bech32m)),
        DecodeError::InvalidVariant
    );
    assert_eq!(
        err(&written("lnbc1m", &[0u8; 110], Checksum::Bech32)),
        DecodeError::DataTooShort
    );
    assert_eq!(
        err(&written("bc1m", &signed(payload(&[])), Checksum::Bech32)),
        DecodeError::InvalidPrefix
    );
    assert_eq!(
        err(&written("lnbc1x", &signed(payload(&[])), Checksum::Bech32)),
        DecodeError::InvalidAmount
    );
    let mut cut = payload(&[]);
    cut.extend_from_slice(&[13, 0]);
    assert_eq!(
        err(&written("lnbc1m", &signed(cut), Checksum::Bech32)),
        DecodeError::TagLengthMissing
    );
}

#[test]
fn parts_are_checked_in_order() {
    let data = signed(payload(&[]));
    assert_eq!(
        decode_invoice_parts("bc", &data, Variant::Bech32m).unwrap_err(),
        DecodeError::InvalidVariant
    );
    assert_eq!(
        decode_invoice_parts("bc", &data[..110], Variant::Bech32).unwrap_err(),
        DecodeError::DataTooShort
    );
    let mut broken = payload(&[field(13, &[1])]);
    broken = signed(broken);
    assert_eq!(
        decode_invoice_parts("bc", &broken, Variant::Bech32).unwrap_err(),
        DecodeError::InvalidPadding
    );
    assert_eq!(
        decode_invoice_parts("bc", &data, Variant::Bech32).unwrap_err(),
        DecodeError::InvalidPrefix
    );
    let ok = decode_invoice_parts("lnbc7n", &data, Variant::Bech32).unwrap();
    assert_eq!(ok.amount_msats, Some(700));
}

#[test]
fn amounts_for_display() {
    assert_eq!(format_amount(None), "Any amount");
    assert_eq!(format_amount(Some(0)), "0 sats");
    assert_eq!(format_amount(Some(250_000)), "250 sats");
    assert_eq!(format_amount(Some(250_001)), "250001 msats");
    assert_eq!(format_amount(Some(u64::MAX)), "18446744073709551615 msats");
}

#[test]
fn durations_for_display() {
    assert_eq!(format_expiry(0), "0s");
    assert_eq!(format_expiry(59), "59s");
    assert_eq!(format_expiry(60), "1m");
    assert_eq!(format_expiry(3600), "1h");
    assert_eq!(format_expiry(5400), "1h 30m");
    assert_eq!(format_expiry(86_400), "1d");
    assert_eq!(format_expiry(90_061), "1d 1h 1m 1s");
    assert_eq!(format_expiry(172_805), "2d 5s");
}

#[test]
fn symbols_have_five_bits() {
    assert!(is_five_bit(&[]));
    assert!(is_five_bit(&[0, 31, 16]));
    assert!(!is_five_bit(&[0, 32]));
    assert!(!is_five_bit(&[255]));
}

#[test]
fn mixed_case_is_read_as_lower_case() {
    let data = signed(payload(&[field(13, &symbols_of(b"tea"))]));
    let text = written("lnbc1m", &data, Checksum::Bech32);
    let (head, tail) = text.split_at(text.len() / 2);
    let mixed = format!("{}{}", head.to_uppercase(), tail);
    assert!(bech32::decode(&mixed).is_err());
    let decoded = decode_payment_request_local(&mixed).unwrap();
    assert_eq!(decoded.amount_msats, Some(100_000_000));
    assert_eq!(decoded.description, Some("tea".to_string()));
}
