//! End-to-end tests of the payload codec against the reference checksum
//! implementation and the fixed wire template.

use promptpay::amount::{encode_amount, MonetaryAmount};
use promptpay::errors::CodecError;
use promptpay::payload::PromptPayUtils;

const BODY_0891234567_100: &str =
    "00020101021129370016A000000677010111011300668912345675802TH53037645408000100006304";

fn reference_crc(bytes: &[u8]) -> u16 {
    crc::Crc::<u16>::new(&crc::CRC_16_IBM_3740).checksum(bytes)
}

fn amount(mantissa: i64, scale: u32) -> MonetaryAmount {
    MonetaryAmount::new(mantissa, scale).unwrap()
}

#[test]
fn checksum_reference_vector() {
    // Polynomial 0x1021, initial register 0xFFFF, no reflection, no
    // final XOR: the reference value of "123456789" for these parameters
    // is 0x29B1 (the value 0x906E belongs to the reflected X-25 variant).
    assert_eq!(reference_crc(b"123456789"), 0x29B1);
    assert_eq!(PromptPayUtils::calculate_precise_crc("123456789"), "29B1");
}

#[test]
fn checksum_matches_reference_implementation() {
    for s in ["", "A", "123456789", "hello world", BODY_0891234567_100] {
        let expected = format!("{:04X}", reference_crc(s.as_bytes()));
        assert_eq!(PromptPayUtils::calculate_precise_crc(s), expected);
    }
}

#[test]
fn normalize_plain_number() {
    let r = PromptPayUtils::sanitize_phone_number("0891234567".to_string());
    assert_eq!(r.unwrap(), "891234567");
}

#[test]
fn normalize_international_format() {
    let r = PromptPayUtils::sanitize_phone_number("+66-89-123-4567".to_string());
    assert_eq!(r.unwrap(), "891234567");
}

#[test]
fn normalize_too_short_fails() {
    let r = PromptPayUtils::sanitize_phone_number("12".to_string());
    assert_eq!(r.unwrap_err(), CodecError::InvalidPhoneNumber);
}

#[test]
fn normalize_trims_whitespace() {
    let r = PromptPayUtils::sanitize_phone_number("  0891234567\n".to_string());
    assert_eq!(r.unwrap(), "891234567");
}

#[test]
fn normalize_country_code_is_anchored() {
    // A 66 that is not a leading country-code prefix stays part of the
    // number; only a leading 66 is dropped.
    let r = PromptPayUtils::sanitize_phone_number("0664567891".to_string());
    assert_eq!(r.unwrap(), "664567891");
    let r = PromptPayUtils::sanitize_phone_number("66891234567".to_string());
    assert_eq!(r.unwrap(), "891234567");
}

#[test]
fn normalize_rejects_letters() {
    let r = PromptPayUtils::sanitize_phone_number("08912345ab".to_string());
    assert_eq!(r.unwrap_err(), CodecError::InvalidPhoneNumber);
}

#[test]
fn normalize_rejects_empty() {
    let r = PromptPayUtils::sanitize_phone_number("".to_string());
    assert_eq!(r.unwrap_err(), CodecError::InvalidPhoneNumber);
}

#[test]
fn encode_amount_whole() {
    // 100.00 -> 10000 minor units.
    assert_eq!(encode_amount(&amount(10000, 2)).unwrap(), "00010000");
}

#[test]
fn encode_amount_fractional() {
    // 1234.5 -> 123450 minor units.
    assert_eq!(encode_amount(&amount(12345, 1)).unwrap(), "00123450");
}

#[test]
fn encode_amount_negative_fails() {
    // -1.00 is rejected.
    assert_eq!(
        encode_amount(&amount(-100, 2)).unwrap_err(),
        CodecError::InvalidAmount
    );
}

#[test]
fn encode_amount_too_large_fails() {
    // 1,000,000.00 exceeds the 8-digit minor-unit field.
    assert_eq!(
        encode_amount(&amount(100000000, 2)).unwrap_err(),
        CodecError::InvalidAmount
    );
}

#[test]
fn encode_amount_zero() {
    assert_eq!(encode_amount(&amount(0, 0)).unwrap(), "00000000");
}

#[test]
fn encode_amount_rounds_half_away_from_zero() {
    // 0.005 rounds up to 1 minor unit; 0.004 rounds down to 0.
    assert_eq!(encode_amount(&amount(5, 3)).unwrap(), "00000001");
    assert_eq!(encode_amount(&amount(4, 3)).unwrap(), "00000000");
}

#[test]
fn encode_amount_field_boundary() {
    // 999999.99 just fits; 999999.995 rounds out of the field.
    assert_eq!(encode_amount(&amount(99999999, 2)).unwrap(), "99999999");
    assert_eq!(
        encode_amount(&amount(999999995, 3)).unwrap_err(),
        CodecError::InvalidAmount
    );
}

#[test]
fn template_is_invariant_outside_slots() {
    let p1 = PromptPayUtils::assemble("891234567", "00010000");
    let p2 = PromptPayUtils::assemble("812345678", "99999999");
    assert_eq!(p1.len(), 82);
    assert_eq!(p2.len(), 82);
    assert_eq!(&p1[0..44], &p2[0..44]);
    assert_eq!(&p1[53..70], &p2[53..70]);
    assert_eq!(&p1[78..82], &p2[78..82]);
    assert_eq!(&p1[44..53], "891234567");
    assert_eq!(&p1[70..78], "00010000");
    assert_eq!(&p1[78..82], "6304");
}

#[test]
fn generate_is_deterministic() {
    let r1 = PromptPayUtils::generate_payload("0891234567".to_string(), amount(10000, 2));
    let r2 = PromptPayUtils::generate_payload("0891234567".to_string(), amount(10000, 2));
    assert_eq!(r1.unwrap(), r2.unwrap());
}

#[test]
fn generate_structural_round_trip() {
    let body = PromptPayUtils::assemble("891234567", "00010000");
    let full = PromptPayUtils::generate_payload("0891234567".to_string(), amount(10000, 2))
        .unwrap();
    assert_eq!(full.len(), body.len() + 4);
    assert!(full[full.len() - 4..]
        .chars()
        .all(|c| c.is_ascii_digit() || ('A'..='F').contains(&c)));
}

#[test]
fn generate_end_to_end_golden() {
    let full = PromptPayUtils::generate_payload("0891234567".to_string(), amount(10000, 2))
        .unwrap();
    let body = &full[..full.len() - 4];
    assert_eq!(body, BODY_0891234567_100);
    // Golden checksum pinned from a reference run of the checksum
    // parameters over the exact body above.
    assert_eq!(&full[full.len() - 4..], "319F");
    assert_eq!(
        format!("{:04X}", reference_crc(body.as_bytes())),
        "319F"
    );
}

#[test]
fn generate_rejects_bad_phone_before_amount() {
    let r = PromptPayUtils::generate_payload("12".to_string(), amount(-100, 2));
    assert_eq!(r.unwrap_err(), CodecError::InvalidPhoneNumber);
    let r = PromptPayUtils::generate_payload("0891234567".to_string(), amount(-100, 2));
    assert_eq!(r.unwrap_err(), CodecError::InvalidAmount);
}

#[test]
fn error_messages() {
    assert_eq!(
        CodecError::InvalidPhoneNumber.message(),
        "Invalid phone number format"
    );
    assert_eq!(CodecError::InvalidAmount.message(), "Invalid amount");
}

#[test]
fn amount_scale_is_bounded() {
    assert!(MonetaryAmount::new(1, 29).is_none());
    assert!(MonetaryAmount::new(1, 28).is_some());
}
